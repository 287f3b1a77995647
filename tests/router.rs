use tonic_router::recover::{
    find_status_in_source_chain, recover, try_status_from_error, Cause, Failure, MaybeEmptyBody,
    RecoverError,
};
use tonic_router::route::{is_under_route, starts_with, BoxedService, Dispatch, Or, Predicate, Router, Routes};
use tonic_router::status::{Status, CODE_CANCELLED, CODE_INTERNAL, CODE_NOT_FOUND, CODE_UNIMPLEMENTED};

fn named(name: &str) -> Option<String> {
    Some(name.to_string())
}

#[test]
fn test_into_boxed_service() {}

#[test]
fn test_2() {
    let router = Router::new()
        .add_service(named("echo.Echo"))
        .add_service(named("echo.Echo"))
        .add_service(named("echo.Echo"));
    assert_eq!(router.len(), 3);
}

#[test]
fn distinct_names_reach_their_services() {
    let router = Router::new()
        .add_service(named("echo.Echo"))
        .add_service(named("echo.Echo2"))
        .add_service(named("echo.Echo3"));
    assert_eq!(router.call("/echo.Echo/Echo"), Dispatch::Service(0));
    assert_eq!(router.call("/echo.Echo2/Echo"), Dispatch::Service(1));
    assert_eq!(router.call("/echo.Echo3/Echo"), Dispatch::Service(2));
    assert_eq!(router.call("/echo.Echo"), Dispatch::Service(0));
    assert_eq!(router.call("/echo.Echo2"), Dispatch::Service(1));
}

#[test]
fn later_prefix_name_does_not_capture() {
    let router = Router::new()
        .add_service(named("echo.Echo2"))
        .add_service(named("echo.Echo"));
    assert_eq!(router.call("/echo.Echo2/Echo"), Dispatch::Service(0));
    assert_eq!(router.call("/echo.Echo/Echo"), Dispatch::Service(1));
    let router = Router::new()
        .add_service(named("echo.Echo3"))
        .add_service(named("echo.Echo2"))
        .add_service(named("echo.Echo"));
    assert_eq!(router.call("/echo.Echo2/Echo"), Dispatch::Service(1));
    assert_eq!(router.call("/echo.Echo3/Echo"), Dispatch::Service(0));
    assert_eq!(router.call("/echo.Echo/Echo"), Dispatch::Service(2));
    let router = Router::new().add_service(named("a2")).add_service(named("a"));
    assert_eq!(router.call("/a2"), Dispatch::Service(0));
    assert_eq!(router.call("/a"), Dispatch::Service(1));
}

#[test]
fn text_prefix_of_segment_does_not_match() {
    let router = Router::new().add_service(named("a"));
    assert_eq!(router.call("/a2"), Dispatch::Unimplemented);
    assert_eq!(router.call("/a2/m"), Dispatch::Unimplemented);
    assert_eq!(router.call("/a/m"), Dispatch::Service(0));
    assert_eq!(router.call("/a"), Dispatch::Service(0));
    assert_eq!(router.call("/a/"), Dispatch::Service(0));
}

#[test]
fn hand_built_chain_dispatches() {
    let empty = Routes::new(
        Predicate::never(),
        BoxedService::unimplemented(),
        BoxedService::unimplemented(),
    );
    let chain = Routes::new(
        Predicate::for_service(&named("s.S")),
        BoxedService::from_never_error(named("s.S"), 0),
        BoxedService::from_routes(std::sync::Arc::new(empty)),
    );
    assert_eq!(chain.call("/s.S/M"), Dispatch::Service(0));
    assert_eq!(chain.call("/s.T/M"), Dispatch::Unimplemented);
}

#[test]
fn same_name_latest_wins() {
    let router = Router::new()
        .add_service(named("echo.Echo"))
        .add_service(named("echo.Echo"));
    assert_eq!(router.call("/echo.Echo/Echo"), Dispatch::Service(1));
}

#[test]
fn unmatched_request_is_unimplemented() {
    let router = Router::new()
        .add_service(named("echo.Echo"))
        .add_service(named("echo.Echo2"));
    assert_eq!(router.call("/other.Service/Call"), Dispatch::Unimplemented);
    assert_eq!(router.call("echo.Echo/Echo"), Dispatch::Unimplemented);
    assert_eq!(router.call(""), Dispatch::Unimplemented);
    let s = Status::unimplemented();
    assert_eq!(s.code(), CODE_UNIMPLEMENTED);
    assert_eq!(s.code(), 12);
}

#[test]
fn empty_router_is_unimplemented() {
    let router = Router::new();
    assert_eq!(router.len(), 0);
    assert_eq!(router.call("/echo.Echo/Echo"), Dispatch::Unimplemented);
    assert_eq!(router.call("/"), Dispatch::Unimplemented);
}

#[test]
fn unnamed_service_is_unreachable() {
    let router = Router::new().add_service(None).add_service(named("a.B"));
    assert_eq!(router.len(), 2);
    assert_eq!(router.call("/a.B/M"), Dispatch::Service(1));
    assert_eq!(router.call("/"), Dispatch::Unimplemented);
    assert_eq!(router.call("/None"), Dispatch::Unimplemented);
}

#[test]
fn clone_routes_independently() {
    let mut base = Router::new().add_service(named("a.A"));
    let extended = base.add_service(named("b.B"));
    let copy = extended.clone();
    assert_eq!(base.len(), 1);
    assert_eq!(base.call("/b.B/M"), Dispatch::Unimplemented);
    assert_eq!(extended.call("/b.B/M"), Dispatch::Service(1));
    assert_eq!(copy.call("/a.A/M"), Dispatch::Service(0));
    assert_eq!(extended.call("/a.A/M"), Dispatch::Service(0));
    assert_eq!(copy.call("/b.B/M"), Dispatch::Service(1));
}

#[test]
fn or_node_chooses_by_predicate() {
    let inner = Router::new().add_service(named("x.Y"));
    let node = Or::new(
        Predicate::path_prefix("/p".to_string()),
        BoxedService::from_never_error(named("p"), 7),
        BoxedService::unimplemented(),
    );
    assert_eq!(node.call("/p/q"), Dispatch::Service(7));
    assert_eq!(node.call("/q"), Dispatch::Unimplemented);
    let chain = Routes::new(
        Predicate::never(),
        BoxedService::unimplemented(),
        BoxedService::unimplemented(),
    );
    assert_eq!(chain.call("/anything"), Dispatch::Unimplemented);
    drop(inner);
}

#[test]
fn prefix_test() {
    assert!(starts_with("/echo.Echo/Echo", "/echo.Echo"));
    assert!(starts_with("abc", ""));
    assert!(!starts_with("ab", "abc"));
    assert!(!starts_with("/x", "/y"));
    assert!(Predicate::for_service(&named("s")).matches("/s/m"));
    assert!(!Predicate::for_service(&named("s")).matches("/st/m"));
    assert!(Predicate::for_service(&named("s")).matches("/s"));
    assert!(is_under_route("/s/m", "/s"));
    assert!(is_under_route("/s", "/s"));
    assert!(!is_under_route("/sx", "/s"));
    assert!(!is_under_route("/", "/s"));
    assert!(!Predicate::for_service(&named("s")).matches("s/m"));
    assert!(!Predicate::for_service(&None).matches("/"));
    assert!(!Predicate::never().matches(""));
}

#[test]
fn success_body_round_trips() {
    let bytes = vec![1u8, 2, 3, 250];
    let r = recover::<Vec<u8>>(Ok(bytes.clone())).ok().unwrap();
    assert!(r.status.is_none());
    assert!(!r.body.is_empty());
    assert!(!r.body.is_end_stream(false));
    assert_eq!(r.body.into_inner(), Some(bytes));
}

#[test]
fn embedded_status_is_returned() {
    let failure = Failure {
        chain: vec![Cause::Status(Status::new(CODE_NOT_FOUND, "x".to_string()))],
    };
    let r = recover::<Vec<u8>>(Err(failure)).ok().unwrap();
    let s = r.status.unwrap();
    assert_eq!(s.code(), 5);
    assert_eq!(s.message(), "x");
    assert!(r.body.is_empty());
    assert!(r.body.is_end_stream(false));
    assert!(r.body.get_ref().is_none());
}

#[test]
fn nested_status_is_found() {
    let failure = Failure {
        chain: vec![
            Cause::Other("outer".to_string()),
            Cause::Status(Status::new(CODE_NOT_FOUND, "inner".to_string())),
        ],
    };
    let s = find_status_in_source_chain(&failure).unwrap();
    assert_eq!(s.code(), CODE_NOT_FOUND);
    assert_eq!(s.message(), "inner");
    let s = try_status_from_error(failure).ok().unwrap();
    assert_eq!(s.message(), "inner");
}

#[test]
fn timeout_becomes_cancelled() {
    let failure = Failure {
        chain: vec![
            Cause::Other("outer".to_string()),
            Cause::Timeout("Timeout expired".to_string()),
            Cause::Status(Status::new(CODE_NOT_FOUND, "later".to_string())),
        ],
    };
    let s = try_status_from_error(failure).ok().unwrap();
    assert_eq!(s.code(), CODE_CANCELLED);
    assert_eq!(s.message(), "Timeout expired");
}

#[test]
fn protocol_error_maps_to_status() {
    let s = try_status_from_error(Failure { chain: vec![Cause::Protocol(8)] }).ok().unwrap();
    assert_eq!(s.code(), CODE_CANCELLED);
    assert_eq!(s.message(), "h2 protocol error: protocol error: stream no longer needed");
    assert_eq!(
        Status::from_h2_reason(99).message(),
        "h2 protocol error: protocol error: unknown reason"
    );
    assert_eq!(
        Status::from_h2_reason(10).message(),
        "h2 protocol error: protocol error: connection established in response to a CONNECT request was reset or abnormally closed"
    );
    let s = Status::from_h2_reason(1);
    assert_eq!(s.code(), CODE_INTERNAL);
    assert_eq!(Status::from_h2_reason(7).code(), 14);
    assert_eq!(Status::from_h2_reason(11).code(), 8);
    assert_eq!(Status::from_h2_reason(12).code(), 7);
    assert_eq!(Status::from_h2_reason(5).code(), 2);
}

#[test]
fn unrecognised_error_is_handed_on() {
    let failure = Failure { chain: vec![Cause::Other("boom".to_string())] };
    let e = recover::<Vec<u8>>(Err(failure)).err().unwrap();
    assert_eq!(e.chain.len(), 1);
    assert!(find_status_in_source_chain(&Failure { chain: vec![] }).is_none());
    assert!(try_status_from_error(Failure { chain: vec![] }).is_err());
}

#[test]
fn recover_error_wraps_service() {
    let r = RecoverError::new(41u32);
    assert_eq!(*r.get_ref(), 41);
    assert_eq!(r.into_inner(), 41);
    let b: MaybeEmptyBody<u8> = MaybeEmptyBody::full(3);
    assert_eq!(b.get_ref(), Some(&3));
    let e: MaybeEmptyBody<u8> = MaybeEmptyBody::empty();
    assert_eq!(e.into_inner(), None);
}

#[test]
fn chain_clones_and_is_always_ready() {
    let node = Or::new(
        Predicate::path_prefix("/p".to_string()),
        BoxedService::from_never_error(named("p"), 3),
        BoxedService::unimplemented(),
    );
    let copy = node.clone();
    assert!(node.poll_ready());
    assert_eq!(copy.call("/p/x"), Dispatch::Service(3));
    assert_eq!(copy.call("/x"), Dispatch::Unimplemented);
    let chain = Routes::new(
        Predicate::path_prefix("/q".to_string()),
        BoxedService::from_never_error(named("q"), 0),
        BoxedService::unimplemented(),
    );
    let chain_copy = chain.clone();
    assert!(chain_copy.poll_ready());
    let boxed = BoxedService::from_never_error(None, 9).clone();
    assert_eq!(boxed.call("/anything"), Dispatch::Service(9));
}
