//! Status values: the classified outcome of a failed call, with a numeric
//! code and a message.
use vstd::prelude::*;

verus! {

/// The call was cancelled.
pub const CODE_CANCELLED: i32 = 1;

/// An error of no known kind.
pub const CODE_UNKNOWN: i32 = 2;

/// A requested entity was not found.
pub const CODE_NOT_FOUND: i32 = 5;

/// The caller lacks permission.
pub const CODE_PERMISSION_DENIED: i32 = 7;

/// A resource has been exhausted.
pub const CODE_RESOURCE_EXHAUSTED: i32 = 8;

/// The operation is not implemented by the server.
pub const CODE_UNIMPLEMENTED: i32 = 12;

/// An internal error.
pub const CODE_INTERNAL: i32 = 13;

/// The service is currently unavailable.
pub const CODE_UNAVAILABLE: i32 = 14;

/// A status: a code and a message.
#[derive(Debug)]
pub struct Status {
    pub code: i32,
    pub message: String,
}

/// The mathematical value of a status.
pub struct StatusModel {
    pub code: i32,
    pub message: Seq<char>,
}

impl View for Status {
    type V = StatusModel;

    open spec fn view(&self) -> StatusModel {
        StatusModel { code: self.code, message: self.message@ }
    }
}

/// The status code that an HTTP/2 error with reason `reason` maps to.
pub open spec fn h2_reason_code(reason: u32) -> i32 {
    if reason == 0 || reason == 1 || reason == 2 || reason == 3 || reason == 4 || reason == 9
        || reason == 10 {
        CODE_INTERNAL
    } else if reason == 7 {
        CODE_UNAVAILABLE
    } else if reason == 8 {
        CODE_CANCELLED
    } else if reason == 11 {
        CODE_RESOURCE_EXHAUSTED
    } else if reason == 12 {
        CODE_PERMISSION_DENIED
    } else {
        CODE_UNKNOWN
    }
}

/// The text with which HTTP/2 describes a reason code.
pub open spec fn h2_reason_description(reason: u32) -> Seq<char> {
    if reason == 0 {
        "not a result of an error"@
    } else if reason == 1 {
        "unspecific protocol error detected"@
    } else if reason == 2 {
        "unexpected internal error encountered"@
    } else if reason == 3 {
        "flow-control protocol violated"@
    } else if reason == 4 {
        "settings ACK not received in timely manner"@
    } else if reason == 5 {
        "received frame when stream half-closed"@
    } else if reason == 6 {
        "frame with invalid size"@
    } else if reason == 7 {
        "refused stream before processing any application logic"@
    } else if reason == 8 {
        "stream no longer needed"@
    } else if reason == 9 {
        "unable to maintain the header compression context"@
    } else if reason == 10 {
        "connection established in response to a CONNECT request was reset or abnormally closed"@
    } else if reason == 11 {
        "detected excessive load generating behavior"@
    } else if reason == 12 {
        "security properties do not meet minimum requirements"@
    } else if reason == 13 {
        "endpoint requires HTTP/1.1"@
    } else {
        "unknown reason"@
    }
}

/// The message of the status that an HTTP/2 error with reason `reason` maps to.
pub open spec fn h2_reason_message(reason: u32) -> Seq<char> {
    "h2 protocol error: protocol error: "@ + h2_reason_description(reason)
}

/// Relies on `tonic::Status::from(h2::Error)`, applied to the error made from
/// the reason code by `h2::Error::from(h2::Reason::from(u32))`: it picks the
/// status code by the reason, and writes a message from the error's text,
/// which is "protocol error: " and the reason's description.
#[verifier::external_body]
fn h2_status_parts(reason: u32) -> (r: (i32, String))
    ensures
        r.0 == h2_reason_code(reason),
        r.1@ == h2_reason_message(reason),
{
    let status = tonic::Status::from(h2::Error::from(h2::Reason::from(reason)));
    (i32::from(status.code()), status.message().to_string())
}

impl Status {
    /// A status with the given code and message.
    pub fn new(code: i32, message: String) -> (r: Status)
        ensures
            r.code == code,
            r.message@ == message@,
    {
        Status { code, message }
    }

    /// A "cancelled" status with the given message.
    pub fn cancelled(message: String) -> (r: Status)
        ensures
            r.code == CODE_CANCELLED,
            r.message@ == message@,
    {
        Status { code: CODE_CANCELLED, message }
    }

    /// The "unimplemented" status with which a request that no service
    /// claims is answered.
    pub fn unimplemented() -> (r: Status)
        ensures
            r.code == CODE_UNIMPLEMENTED,
            r.message@ == Seq::<char>::empty(),
    {
        Status { code: CODE_UNIMPLEMENTED, message: String::new() }
    }

    /// The status that an HTTP/2 protocol error with the given reason code
    /// maps to.
    pub fn from_h2_reason(reason: u32) -> (r: Status)
        ensures
            r.code == h2_reason_code(reason),
            r.message@ == h2_reason_message(reason),
    {
        let (code, message) = h2_status_parts(reason);
        Status { code, message }
    }

    /// A copy of this status.
    pub fn duplicate(&self) -> (r: Status)
        ensures
            r@ == self@,
    {
        Status { code: self.code, message: self.message.clone() }
    }

    /// The code of this status.
    pub fn code(&self) -> (r: i32)
        ensures
            r == self.code,
    {
        self.code
    }

    /// The message of this status.
    pub fn message(&self) -> (r: &str)
        ensures
            r@ == self.message@,
    {
        self.message.as_str()
    }
}

} // verus!
