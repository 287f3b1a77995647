//! Recovery of failed calls: a failure is classified into a status where one
//! can represent it, and the call then answers with that status and an empty
//! body instead of failing.
use vstd::prelude::*;
use crate::status::{h2_reason_code, h2_reason_message, Status, StatusModel, CODE_CANCELLED};

verus! {

/// One link of a failure's chain of causes.
#[derive(Debug)]
pub enum Cause {
    /// A status produced by RPC-layer code.
    Status(Status),
    /// An HTTP/2 protocol error, by its reason code.
    Protocol(u32),
    /// A deadline that expired, with its text.
    Timeout(String),
    /// Any other error, with its text.
    Other(String),
}

/// The mathematical value of a cause.
pub enum CauseModel {
    Status(StatusModel),
    Protocol(u32),
    Timeout(Seq<char>),
    Other(Seq<char>),
}

impl View for Cause {
    type V = CauseModel;

    open spec fn view(&self) -> CauseModel {
        match self {
            Cause::Status(s) => CauseModel::Status(s@),
            Cause::Protocol(r) => CauseModel::Protocol(*r),
            Cause::Timeout(t) => CauseModel::Timeout(t@),
            Cause::Other(t) => CauseModel::Other(t@),
        }
    }
}

/// A failed call: the error itself first, then each underlying cause in turn.
#[derive(Debug)]
pub struct Failure {
    pub chain: Vec<Cause>,
}

impl View for Failure {
    type V = Seq<CauseModel>;

    open spec fn view(&self) -> Seq<CauseModel> {
        self.chain@.map_values(|c: Cause| c@)
    }
}

/// The first status or timeout at or after position `i` of a cause chain, as
/// a status; a timeout becomes a "cancelled" status with its text.
pub open spec fn status_in_chain_from(chain: Seq<CauseModel>, i: int) -> Option<StatusModel>
    decreases chain.len() - i,
{
    if i < 0 || i >= chain.len() {
        None
    } else {
        match chain[i] {
            CauseModel::Status(s) => Some(s),
            CauseModel::Timeout(t) => Some(StatusModel { code: CODE_CANCELLED, message: t }),
            _ => status_in_chain_from(chain, i + 1),
        }
    }
}

/// The status that a failure is classified into, if any: the failure's own
/// status, else the status of its protocol error, else the first status or
/// timeout in its chain of causes.
pub open spec fn classify(chain: Seq<CauseModel>) -> Option<StatusModel> {
    if chain.len() > 0 && chain[0] is Protocol {
        let r = chain[0]->Protocol_0;
        Some(StatusModel { code: h2_reason_code(r), message: h2_reason_message(r) })
    } else {
        status_in_chain_from(chain, 0)
    }
}

/// Looks through the failure's chain of causes for a status or an expired
/// deadline.
pub fn find_status_in_source_chain(err: &Failure) -> (r: Option<Status>)
    ensures
        r matches Some(s) ==> status_in_chain_from(err@, 0) == Some(s@),
        r is None ==> status_in_chain_from(err@, 0) is None,
{
    let n = err.chain.len();
    let mut i: usize = 0;
    while i < n
        invariant
            n == err.chain@.len(),
            i <= n,
            status_in_chain_from(err@, 0) == status_in_chain_from(err@, i as int),
        decreases n - i,
    {
        match &err.chain[i] {
            Cause::Status(s) => {
                return Some(Status::new(s.code, s.message.clone()));
            },
            Cause::Timeout(t) => {
                return Some(Status::cancelled(t.clone()));
            },
            _ => {},
        }
        i = i + 1;
    }
    None
}

/// Classifies a failure into a status; a failure that no status can
/// represent is handed back.
pub fn try_status_from_error(err: Failure) -> (r: Result<Status, Failure>)
    ensures
        r matches Ok(s) ==> classify(err@) == Some(s@),
        r matches Err(e) ==> classify(err@) is None && e@ == err@,
{
    if err.chain.len() > 0 {
        if let Cause::Protocol(reason) = &err.chain[0] {
            return Ok(Status::from_h2_reason(*reason));
        }
    }
    match find_status_in_source_chain(&err) {
        Some(s) => Ok(s),
        None => Err(err),
    }
}

/// A response body that is either a handler's real body or empty.
#[derive(Debug)]
pub struct MaybeEmptyBody<B> {
    inner: Option<B>,
}

impl<B> View for MaybeEmptyBody<B> {
    type V = Option<B>;

    closed spec fn view(&self) -> Option<B> {
        self.inner
    }
}

impl<B> MaybeEmptyBody<B> {
    /// A body that hands out `inner`.
    pub fn full(inner: B) -> (r: Self)
        ensures
            r@ == Some(inner),
    {
        MaybeEmptyBody { inner: Some(inner) }
    }

    /// A body with no data and no trailers.
    pub fn empty() -> (r: Self)
        ensures
            r@ is None,
    {
        MaybeEmptyBody { inner: None }
    }

    /// Whether this body is the empty one.
    pub fn is_empty(&self) -> (r: bool)
        ensures
            r == self@ is None,
    {
        self.inner.is_none()
    }

    /// The real body, if there is one.
    pub fn get_ref(&self) -> (r: Option<&B>)
        ensures
            r matches Some(b) ==> self@ == Some(*b),
            r is None ==> self@ is None,
    {
        match &self.inner {
            Some(b) => Some(b),
            None => None,
        }
    }

    /// The real body, if there is one.
    pub fn into_inner(self) -> (r: Option<B>)
        ensures
            r == self@,
    {
        self.inner
    }

    /// Whether the body has come to its end, given whether the real body has;
    /// the empty body is always at its end.
    pub fn is_end_stream(&self, inner_at_end: bool) -> (r: bool)
        ensures
            r == (self@ is None || inner_at_end),
    {
        self.inner.is_none() || inner_at_end
    }
}

/// A response after recovery: a status where the call failed with one, and
/// a body.
pub struct RecoveredResponse<B> {
    pub status: Option<Status>,
    pub body: MaybeEmptyBody<B>,
}

/// Middleware that turns a wrapped service's failures into status
/// responses where a status can represent them.
#[derive(Debug, Clone)]
pub struct RecoverError<S> {
    inner: S,
}

impl<S> RecoverError<S> {
    /// Wraps `inner`.
    pub fn new(inner: S) -> (r: Self)
        ensures
            r.inner() == inner,
    {
        RecoverError { inner }
    }

    /// The wrapped service.
    pub closed spec fn inner(&self) -> S {
        self.inner
    }

    /// The wrapped service.
    pub fn get_ref(&self) -> (r: &S)
        ensures
            *r == self.inner(),
    {
        &self.inner
    }

    /// The wrapped service, taken out.
    pub fn into_inner(self) -> (r: S)
        ensures
            r == self.inner(),
    {
        self.inner
    }
}

/// The outcome of a call after recovery. A success keeps its body; a failure
/// that classifies into a status becomes a response with that status and an
/// empty body; any other failure is handed on.
pub fn recover<B>(outcome: Result<B, Failure>) -> (r: Result<RecoveredResponse<B>, Failure>)
    ensures
        outcome matches Ok(b) ==> (r matches Ok(resp) && resp.status is None && resp.body@
            == Some(b)),
        outcome matches Err(e) ==> match classify(e@) {
            Some(s) => r matches Ok(resp) && resp.status matches Some(t) && t@ == s
                && resp.body@ is None,
            None => r matches Err(f) && f@ == e@,
        },
{
    match outcome {
        Ok(b) => Ok(RecoveredResponse { status: None, body: MaybeEmptyBody::full(b) }),
        Err(e) => match try_status_from_error(e) {
            Ok(s) => Ok(RecoveredResponse { status: Some(s), body: MaybeEmptyBody::empty() }),
            Err(f) => Err(f),
        },
    }
}

/// A failure that carries a status is classified into exactly that status,
/// whatever its causes.
pub proof fn lemma_embedded_status_kept(s: StatusModel, causes: Seq<CauseModel>)
    ensures
        classify(seq![CauseModel::Status(s)] + causes) == Some(s),
{
    let chain = seq![CauseModel::Status(s)] + causes;
    assert(chain[0] == CauseModel::Status(s));
}

/// A failure made only of unrecognised errors classifies into no status,
/// so it is handed on rather than answered.
pub proof fn lemma_unrecognised_not_recovered(chain: Seq<CauseModel>)
    requires
        forall|i: int| 0 <= i < chain.len() ==> chain[i] is Other,
    ensures
        classify(chain) is None,
{
    lemma_unrecognised_from(chain, 0);
}

/// No status is found from any position of a chain of unrecognised errors.
proof fn lemma_unrecognised_from(chain: Seq<CauseModel>, i: int)
    requires
        0 <= i,
        forall|j: int| 0 <= j < chain.len() ==> chain[j] is Other,
    ensures
        status_in_chain_from(chain, i) is None,
    decreases chain.len() - i,
{
    if i < chain.len() {
        lemma_unrecognised_from(chain, i + 1);
    }
}

} // verus!
