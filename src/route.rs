//! Routing of requests to registered services by the request's path: a
//! chain of route nodes, the most recently registered service first.
use vstd::prelude::*;
use vstd::string::*;
use std::sync::Arc;

verus! {

/// Whether `path` begins with `prefix`.
pub fn starts_with(path: &str, prefix: &str) -> (r: bool)
    ensures
        r == prefix@.is_prefix_of(path@),
{
    let n = path.unicode_len();
    let m = prefix.unicode_len();
    if m > n {
        return false;
    }
    let mut i: usize = 0;
    while i < m
        invariant
            m == prefix@.len(),
            n == path@.len(),
            m <= n,
            i <= m,
            forall|j: int| 0 <= j < i ==> prefix@[j] == path@[j],
        decreases m - i,
    {
        if path.get_char(i) != prefix.get_char(i) {
            return false;
        }
        i = i + 1;
    }
    true
}

/// Whether `path` lies under `route`: it is the route itself, or the route
/// followed by `/` and more.
pub open spec fn under_route(route: Seq<char>, path: Seq<char>) -> bool {
    path == route || (route + seq!['/']).is_prefix_of(path)
}

/// Whether `path` lies under `route`, as a path segment boundary: a route
/// that is only a text prefix of the path's segment does not match.
pub fn is_under_route(path: &str, route: &str) -> (r: bool)
    ensures
        r == under_route(route@, path@),
{
    if !starts_with(path, route) {
        proof {
            if (route@ + seq!['/']).is_prefix_of(path@) {
                assert(route@.is_prefix_of(path@));
            }
        }
        return false;
    }
    let n = path.unicode_len();
    let m = route.unicode_len();
    if n == m {
        proof {
            assert(path@ =~= route@);
        }
        true
    } else {
        let c = path.get_char(m);
        proof {
            if path@ == route@ {
                assert(path@.len() == route@.len());
            }
            if c == '/' {
                assert((route@ + seq!['/']) =~= path@.subrange(0, m as int + 1));
            } else {
                assert((route@ + seq!['/'])[m as int] == '/');
            }
        }
        c == '/'
    }
}

/// The route of a service with the given name: `/` followed by the name.
pub open spec fn route_of(name: Seq<char>) -> Seq<char> {
    seq!['/'] + name
}

/// The value of an optional string.
pub open spec fn opt_view(o: Option<String>) -> Option<Seq<char>> {
    match o {
        Some(s) => Some(s@),
        None => None,
    }
}

/// The route of a service with an optional name.
pub open spec fn route_opt(name: Option<Seq<char>>) -> Option<Seq<char>> {
    match name {
        Some(n) => Some(route_of(n)),
        None => None,
    }
}

/// Whether a request with path `path` is routed to a service named `name`;
/// a service without a name is reached by no path.
pub open spec fn name_matches(name: Option<Seq<char>>, path: Seq<char>) -> bool {
    name matches Some(n) && under_route(route_of(n), path)
}

/// The service that a request with path `path` reaches, given the names of
/// the registered services in order of registration: the most recently
/// registered one under whose route the path lies. `None` means that no
/// service claims the request.
pub open spec fn route_target(names: Seq<Option<Seq<char>>>, path: Seq<char>) -> Option<nat>
    decreases names.len(),
{
    if names.len() == 0 {
        None
    } else if name_matches(names.last(), path) {
        Some((names.len() - 1) as nat)
    } else {
        route_target(names.drop_last(), path)
    }
}

/// Where a request goes: to the service registered at an index, or to the
/// fallback that answers "unimplemented".
#[derive(PartialEq, Eq, Structural, Debug, Clone, Copy)]
pub enum Dispatch {
    Service(usize),
    Unimplemented,
}

impl Dispatch {
    /// The index of the service reached, if any.
    pub open spec fn target(&self) -> Option<nat> {
        match self {
            Dispatch::Service(k) => Some(*k as nat),
            Dispatch::Unimplemented => None,
        }
    }
}

/// A routing test on a request's path: the path lies under a route, or,
/// without a route, it never matches.
#[derive(Debug)]
pub struct Predicate {
    route: Option<String>,
}

impl View for Predicate {
    type V = Option<Seq<char>>;

    closed spec fn view(&self) -> Option<Seq<char>> {
        opt_view(self.route)
    }
}

impl Predicate {
    /// The predicate that matches no request.
    pub fn never() -> (r: Predicate)
        ensures
            r@ is None,
    {
        Predicate { route: None }
    }

    /// The predicate that matches a path under `route`.
    pub fn path_prefix(route: String) -> (r: Predicate)
        ensures
            r@ == Some(route@),
    {
        Predicate { route: Some(route) }
    }

    /// The predicate that matches the requests for a service with the given
    /// name.
    pub fn for_service(service_name: &Option<String>) -> (r: Predicate)
        ensures
            r@ == route_opt(opt_view(*service_name)),
    {
        match service_name {
            Some(name) => {
                let mut route = String::from_str("/");
                proof {
                    reveal_strlit("/");
                }
                route.append(name.as_str());
                proof {
                    assert(route@ == route_of(name@));
                }
                Predicate { route: Some(route) }
            },
            None => Predicate { route: None },
        }
    }

    /// Whether a request with path `path` matches.
    pub fn matches(&self, path: &str) -> (r: bool)
        ensures
            r == (self@ matches Some(p) && under_route(p, path@)),
    {
        match &self.route {
            Some(p) => is_under_route(path, p.as_str()),
            None => false,
        }
    }
}

/// A handler held in a route node, its concrete kind made uniform.
#[derive(Debug)]
pub enum InnerBoxedService {
    /// The fallback, which answers every request with "unimplemented".
    Unimplemented,
    /// A nested chain of routes, shared with the router it came from.
    Routes(Arc<Routes>),
    /// A registered service, by its index in order of registration.
    NeverError(usize),
}

/// A handler with its optional service name.
#[derive(Debug)]
pub struct BoxedService {
    service_name: Option<String>,
    service: InnerBoxedService,
}

impl BoxedService {
    /// The service name.
    pub closed spec fn name(&self) -> Option<Seq<char>> {
        opt_view(self.service_name)
    }

    /// The handler.
    pub closed spec fn inner(&self) -> InnerBoxedService {
        self.service
    }

    /// A nested chain held here is well formed.
    pub open spec fn wf(&self) -> bool {
        self.inner() matches InnerBoxedService::Routes(r) ==> r.is_chain()
    }

    /// The service that a request with path `path` reaches through this
    /// handler; `None` is the "unimplemented" fallback.
    pub open spec fn target(&self, path: Seq<char>) -> Option<nat> {
        match self.inner() {
            InnerBoxedService::Unimplemented => None,
            InnerBoxedService::Routes(r) => route_target(r.names(), path),
            InnerBoxedService::NeverError(k) => Some(k as nat),
        }
    }

    /// The registered service at index `index`, with its name.
    pub fn from_never_error(service_name: Option<String>, index: usize) -> (r: BoxedService)
        ensures
            r.name() == opt_view(service_name),
            r.inner() == InnerBoxedService::NeverError(index),
    {
        BoxedService { service_name, service: InnerBoxedService::NeverError(index) }
    }

    /// A nested chain of routes, without a name.
    pub fn from_routes(routes: Arc<Routes>) -> (r: BoxedService)
        ensures
            r.name() is None,
            r.inner() == InnerBoxedService::Routes(routes),
    {
        BoxedService { service_name: None, service: InnerBoxedService::Routes(routes) }
    }

    /// The "unimplemented" fallback, without a name.
    pub fn unimplemented() -> (r: BoxedService)
        ensures
            r.name() is None,
            r.inner() == InnerBoxedService::Unimplemented,
    {
        BoxedService { service_name: None, service: InnerBoxedService::Unimplemented }
    }

    /// Where a request with path `path` goes through this handler.
    pub fn call(&self, path: &str) -> (r: Dispatch)
        requires
            self.wf(),
        ensures
            r.target() == self.target(path@),
    {
        match &self.service {
            InnerBoxedService::Unimplemented => Dispatch::Unimplemented,
            InnerBoxedService::Routes(routes) => routes.call(path),
            InnerBoxedService::NeverError(k) => Dispatch::Service(*k),
        }
    }
}

/// A route node: requests that match the predicate go to `a`, the others to
/// `b`.
#[derive(Debug)]
pub struct Or {
    predicate: Arc<Predicate>,
    a: BoxedService,
    b: BoxedService,
}

impl Or {
    /// The predicate's route.
    pub closed spec fn predicate(&self) -> Option<Seq<char>> {
        self.predicate@
    }

    /// The handler for matching requests.
    pub closed spec fn a(&self) -> BoxedService {
        self.a
    }

    /// The handler for the other requests.
    pub closed spec fn b(&self) -> BoxedService {
        self.b
    }

    /// Whether a request with path `path` matches the predicate.
    pub open spec fn matches(&self, path: Seq<char>) -> bool {
        self.predicate() matches Some(p) && under_route(p, path)
    }

    /// A node with the given predicate and handlers.
    pub fn new(predicate: Predicate, a: BoxedService, b: BoxedService) -> (r: Or)
        ensures
            r.predicate() == predicate@,
            r.a() == a,
            r.b() == b,
    {
        Or { predicate: Arc::new(predicate), a, b }
    }

    /// Whether the node is ready for a request. It always is: the predicate
    /// is only tested per request, so the readiness of the handlers behind it
    /// is not consulted here.
    pub fn poll_ready(&self) -> (r: bool)
        ensures
            r,
    {
        true
    }

    /// Where a request with path `path` goes: to `a` where it matches the
    /// predicate, else to `b`.
    pub fn call(&self, path: &str) -> (r: Dispatch)
        requires
            self.a().wf(),
            self.b().wf(),
        ensures
            r.target() == (if self.matches(path@) {
                self.a().target(path@)
            } else {
                self.b().target(path@)
            }),
    {
        if self.predicate.matches(path) {
            self.a.call(path)
        } else {
            self.b.call(path)
        }
    }
}

impl Clone for InnerBoxedService {
    /// A copy that shares a nested chain rather than copying it.
    fn clone(&self) -> (r: InnerBoxedService)
        ensures
            r == *self,
    {
        match self {
            InnerBoxedService::Unimplemented => InnerBoxedService::Unimplemented,
            InnerBoxedService::Routes(routes) => InnerBoxedService::Routes(routes.clone()),
            InnerBoxedService::NeverError(k) => InnerBoxedService::NeverError(*k),
        }
    }
}

impl Clone for BoxedService {
    fn clone(&self) -> (r: BoxedService)
        ensures
            r.name() == self.name(),
            r.inner() == self.inner(),
    {
        let service_name = match &self.service_name {
            Some(n) => Some(n.clone()),
            None => None,
        };
        BoxedService { service_name, service: self.service.clone() }
    }
}

impl Clone for Or {
    /// A copy that shares the predicate.
    fn clone(&self) -> (r: Or)
        ensures
            r.predicate() == self.predicate(),
            r.a().name() == self.a().name(),
            r.a().inner() == self.a().inner(),
            r.b().name() == self.b().name(),
            r.b().inner() == self.b().inner(),
    {
        Or { predicate: self.predicate.clone(), a: self.a.clone(), b: self.b.clone() }
    }
}

/// A chain of route nodes.
#[derive(Debug)]
pub struct Routes {
    routes: Or,
}

impl Routes {
    /// The head node.
    pub closed spec fn head(&self) -> Or {
        self.routes
    }

    /// The names of the services in the chain, in order of registration: the
    /// head node's service is the last.
    pub closed spec fn names(&self) -> Seq<Option<Seq<char>>>
        decreases self,
    {
        match self.routes.b.service {
            InnerBoxedService::Routes(inner) => inner.names().push(
                opt_view(self.routes.a.service_name),
            ),
            _ => Seq::empty(),
        }
    }

    /// Whether this is a chain as registration builds it: at its end a node
    /// that never matches, whose handlers are both the fallback; before it,
    /// nodes that each route the service registered at the next index by its
    /// name and hand all else on to the rest of the chain.
    pub closed spec fn is_chain(&self) -> bool
        decreases self,
    {
        match self.routes.b.service {
            InnerBoxedService::Routes(inner) => inner.is_chain() && (
            self.routes.a.service matches InnerBoxedService::NeverError(k) && k == inner.names().len())
                && self.routes.predicate@ == route_opt(opt_view(self.routes.a.service_name)),
            InnerBoxedService::Unimplemented => self.routes.a.service is Unimplemented
                && self.routes.predicate@ is None,
            _ => false,
        }
    }

    /// Whether the chain is ready for a request. It always is, as each of
    /// its nodes is.
    pub fn poll_ready(&self) -> (r: bool)
        ensures
            r,
    {
        self.routes.poll_ready()
    }

    /// A chain whose head node has the given predicate and handlers. With
    /// a predicate that never matches and the fallback on both sides, it is
    /// the chain with no services; with a service, its route, and a chain
    /// behind it that holds as many services as the service's index, it is
    /// that chain with the service registered after the others.
    pub fn new(predicate: Predicate, a: BoxedService, b: BoxedService) -> (r: Routes)
        ensures
            r.head().predicate() == predicate@,
            r.head().a() == a,
            r.head().b() == b,
            predicate@ is None && a.inner() is Unimplemented && b.inner() is Unimplemented
                ==> r.is_chain() && r.names() == Seq::<Option<Seq<char>>>::empty(),
            b.inner() is Routes && b.inner()->Routes_0.is_chain() && a.inner() is NeverError
                && a.inner()->NeverError_0 == b.inner()->Routes_0.names().len()
                && predicate@ == route_opt(a.name()) ==> r.is_chain() && r.names()
                == b.inner()->Routes_0.names().push(a.name()),
    {
        Routes { routes: Or::new(predicate, a, b) }
    }

    /// Where a request with path `path` goes: to the most recently
    /// registered service under whose route the path lies, else to the fallback.
    pub fn call(&self, path: &str) -> (r: Dispatch)
        requires
            self.is_chain(),
        ensures
            r.target() == route_target(self.names(), path@),
    {
        let mut cur: &Routes = self;
        loop
            invariant
                cur.is_chain(),
                route_target(self.names(), path@) == route_target(cur.names(), path@),
            decreases cur.names().len(),
        {
            match &cur.routes.b.service {
                InnerBoxedService::Routes(inner) => {
                    if cur.routes.predicate.matches(path) {
                        match &cur.routes.a.service {
                            InnerBoxedService::NeverError(k) => {
                                return Dispatch::Service(*k);
                            },
                            _ => {
                                return Dispatch::Unimplemented;
                            },
                        }
                    }
                    proof {
                        assert(cur.names().drop_last() =~= inner.names());
                    }
                    cur = &**inner;
                },
                _ => {
                    return Dispatch::Unimplemented;
                },
            }
        }
    }
}

/// A builder of the route chain: services are registered one by one, and
/// each request goes to the most recently registered service whose route
/// its path lies under, or else is answered "unimplemented".
#[derive(Debug)]
pub struct Router {
    routes: Arc<Routes>,
    len: usize,
}

impl View for Router {
    type V = Seq<Option<Seq<char>>>;

    /// The names of the registered services, in order of registration.
    closed spec fn view(&self) -> Seq<Option<Seq<char>>> {
        self.routes.names()
    }
}

impl Router {
    /// The chain is well formed, and its length is known.
    pub closed spec fn wf(&self) -> bool {
        self.routes.is_chain() && self.len == self.routes.names().len()
    }

    /// A router with no services.
    pub fn new() -> (r: Router)
        ensures
            r.wf(),
            r@ == Seq::<Option<Seq<char>>>::empty(),
    {
        let routes = Routes::new(
            Predicate::never(),
            BoxedService::unimplemented(),
            BoxedService::unimplemented(),
        );
        Router { routes: Arc::new(routes), len: 0 }
    }

    /// The number of registered services.
    pub fn len(&self) -> (r: usize)
        requires
            self.wf(),
        ensures
            r == self@.len(),
    {
        self.len
    }

    /// A new router that holds this one's services and, after them, a
    /// service with the given name; that service gets the next index. This
    /// router is left as it was: both share their chain.
    pub fn add_service(&mut self, service_name: Option<String>) -> (r: Router)
        requires
            old(self).wf(),
            old(self)@.len() < usize::MAX,
        ensures
            *final(self) == *old(self),
            r.wf(),
            r@ == old(self)@.push(opt_view(service_name)),
    {
        let predicate = Predicate::for_service(&service_name);
        let service = BoxedService::from_never_error(service_name, self.len);
        let rest = BoxedService::from_routes(self.routes.clone());
        let routes = Routes::new(predicate, service, rest);
        let len = self.len + 1;
        Router { routes: Arc::new(routes), len }
    }

    /// Where a request with path `path` goes: to the most recently
    /// registered service under whose route the path lies, else to the fallback.
    pub fn call(&self, path: &str) -> (r: Dispatch)
        requires
            self.wf(),
        ensures
            r.target() == route_target(self@, path@),
    {
        self.routes.call(path)
    }
}

impl Clone for Routes {
    fn clone(&self) -> (r: Routes)
        ensures
            r.names() == self.names(),
            r.is_chain() == self.is_chain(),
    {
        let r = Routes { routes: self.routes.clone() };
        proof {
            lemma_same_links_same_chain(*self, r);
        }
        r
    }
}

/// Two chains whose head nodes agree on their predicate, their handlers and
/// the first handler's name have the same names and the same shape.
proof fn lemma_same_links_same_chain(x: Routes, y: Routes)
    requires
        x.routes.predicate@ == y.routes.predicate@,
        opt_view(x.routes.a.service_name) == opt_view(y.routes.a.service_name),
        x.routes.a.service == y.routes.a.service,
        x.routes.b.service == y.routes.b.service,
    ensures
        x.names() == y.names(),
        x.is_chain() == y.is_chain(),
{
}

impl Clone for Router {
    fn clone(&self) -> (r: Router)
        ensures
            r == *self,
    {
        Router { routes: self.routes.clone(), len: self.len }
    }
}

/// Whether a name holds no `/`, as a service name does.
pub open spec fn no_slash(n: Seq<char>) -> bool {
    forall|i: int| 0 <= i < n.len() ==> n[i] != '/'
}

/// A path lies under the routes of at most one name without `/`.
pub proof fn lemma_route_unique(m: Seq<char>, n: Seq<char>, path: Seq<char>)
    requires
        no_slash(m),
        no_slash(n),
        under_route(route_of(m), path),
        under_route(route_of(n), path),
    ensures
        m == n,
{
    let rm = route_of(m);
    let rn = route_of(n);
    assert(forall|i: int| 0 <= i < rm.len() ==> path[i] == rm[i]) by {
        if path != rm {
            assert(forall|i: int| 0 <= i < rm.len() ==> (rm + seq!['/'])[i] == rm[i]);
        }
    }
    assert(forall|i: int| 0 <= i < rn.len() ==> path[i] == rn[i]) by {
        if path != rn {
            assert(forall|i: int| 0 <= i < rn.len() ==> (rn + seq!['/'])[i] == rn[i]);
        }
    }
    assert(path.len() > rm.len() ==> path[rm.len() as int] == '/') by {
        if path.len() > rm.len() {
            assert((rm + seq!['/'])[rm.len() as int] == '/');
        }
    }
    assert(path.len() > rn.len() ==> path[rn.len() as int] == '/') by {
        if path.len() > rn.len() {
            assert((rn + seq!['/'])[rn.len() as int] == '/');
        }
    }
    assert(path.len() >= rm.len() && path.len() >= rn.len());
    if m.len() < n.len() {
        assert(rn[rm.len() as int] == n[m.len() as int]);
        assert(false);
    } else if n.len() < m.len() {
        assert(rm[rn.len() as int] == m[n.len() as int]);
        assert(false);
    }
    assert forall|i: int| 0 <= i < m.len() implies m[i] == n[i] by {
        assert(rm[i + 1] == m[i]);
        assert(rn[i + 1] == n[i]);
    }
    assert(m =~= n);
}

/// A request for a registered service, by its route alone or followed by
/// `/` and more, reaches that service when the names are distinct and hold
/// no `/`, whatever text prefixes the names have of one another, and
/// whichever was registered first.
pub proof fn lemma_route_reaches_service(
    names: Seq<Option<Seq<char>>>,
    k: int,
    n: Seq<char>,
    path: Seq<char>,
)
    requires
        0 <= k < names.len(),
        names[k] == Some(n),
        forall|i: int, j: int|
            0 <= i < names.len() && 0 <= j < names.len() && i != j && names[i] is Some
                ==> names[i] != names[j],
        forall|j: int| 0 <= j < names.len() && names[j] is Some ==> no_slash(names[j]->0),
        under_route(route_of(n), path),
    ensures
        route_target(names, path) == Some(k as nat),
    decreases names.len(),
{
    let last = names.len() - 1;
    if k < last {
        if name_matches(names[last], path) {
            lemma_route_unique(names[last]->0, n, path);
            assert(false);
        }
        let rest = names.drop_last();
        lemma_route_reaches_service(rest, k, n, path);
    }
}

/// Of two services registered with the same name, the earlier one is never
/// reached: the later one wins.
pub proof fn lemma_latest_same_name_wins(
    names: Seq<Option<Seq<char>>>,
    i: int,
    j: int,
    path: Seq<char>,
)
    requires
        0 <= i < j < names.len(),
        names[i] == names[j],
    ensures
        route_target(names, path) != Some(i as nat),
        name_matches(names[j], path) ==> route_target(names, path) is Some
            && route_target(names, path)->0 >= j,
    decreases names.len(),
{
    if j < names.len() - 1 {
        lemma_latest_same_name_wins(names.drop_last(), i, j, path);
    } else if !name_matches(names[j], path) {
        lemma_route_target_bound(names.drop_last(), path);
        lemma_route_target_matches(names.drop_last(), path);
    }
}

/// The service that a request reaches has an index among the registered
/// services.
pub proof fn lemma_route_target_bound(names: Seq<Option<Seq<char>>>, path: Seq<char>)
    ensures
        route_target(names, path) matches Some(k) ==> k < names.len(),
    decreases names.len(),
{
    if names.len() > 0 {
        lemma_route_target_bound(names.drop_last(), path);
    }
}

/// The service that a request reaches has a route that its path lies under.
pub proof fn lemma_route_target_matches(names: Seq<Option<Seq<char>>>, path: Seq<char>)
    ensures
        route_target(names, path) matches Some(k) ==> k < names.len() && name_matches(
            names[k as int],
            path,
        ),
    decreases names.len(),
{
    if names.len() > 0 {
        lemma_route_target_matches(names.drop_last(), path);
    }
}

/// A request whose path lies under no registered service's route is
/// answered "unimplemented".
pub proof fn lemma_unmatched_is_unimplemented(names: Seq<Option<Seq<char>>>, path: Seq<char>)
    requires
        forall|j: int| 0 <= j < names.len() ==> !name_matches(names[j], path),
    ensures
        route_target(names, path) is None,
    decreases names.len(),
{
    if names.len() > 0 {
        lemma_unmatched_is_unimplemented(names.drop_last(), path);
    }
}

/// With no services registered, every request is answered "unimplemented".
pub proof fn lemma_no_services_unimplemented(path: Seq<char>)
    ensures
        route_target(Seq::<Option<Seq<char>>>::empty(), path) is None,
{
}

/// A router and its clone route every request alike: each request's
/// destination depends on the router's services and the request's path
/// alone, so requests through either do not affect one another.
pub proof fn lemma_clone_routes_alike(
    router: Router,
    copy: Router,
    path1: Seq<char>,
    path2: Seq<char>,
)
    requires
        copy == router,
    ensures
        copy@ == router@,
        route_target(copy@, path1) == route_target(router@, path1),
        route_target(copy@, path2) == route_target(router@, path2),
{
}

} // verus!
