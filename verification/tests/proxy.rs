use revproxy::backend::Backend;
use revproxy::discovery::parse_backends;
use revproxy::inbound::{plan_inbound, InboundError};
use revproxy::outbound::{plan_outbound, select_backend, OutboundError, Policy};
use revproxy::registry::{Lookup, Mgr, RefreshEvent, Service, SyncAction};
use revproxy::relay::{check_length, relay_body, RelayError};

fn zeroed(b: &Backend) {
    assert_eq!(b.reqs, 0);
    assert_eq!(b.count, 0);
    assert_eq!(b.rtt, 0);
    assert_eq!(b.rtt_mean, 0);
}

#[test]
fn backend_new_is_zeroed() {
    let b = Backend::new("10.0.0.1");
    assert_eq!(b.ip, "10.0.0.1");
    zeroed(&b);
}

#[test]
fn mean_rtt_follows_recurrence() {
    let mut b = Backend::new("10.0.0.1");
    b.dispatch();
    assert_eq!(b.reqs, 1);
    b.complete(100);
    assert_eq!(b.reqs, 0);
    assert_eq!(b.count, 1);
    assert_eq!(b.rtt, 100);
    assert_eq!(b.rtt_mean, 100);
    b.dispatch();
    b.complete(50);
    // 100 + (50 - 100) / 2 under truncating division: 100 - 25 = 75
    assert_eq!(b.count, 2);
    assert_eq!(b.rtt_mean, 75);
    b.dispatch();
    b.complete(85);
    // 75 + (85 - 75) / 3 = 75 + 3 = 78
    assert_eq!(b.count, 3);
    assert_eq!(b.rtt, 85);
    assert_eq!(b.rtt_mean, 78);
}

#[test]
fn lookup_absent_name_needs_one_fetch_then_cached() {
    let mut m = Mgr::new();
    assert!(matches!(m.get_service("svc"), Lookup::NeedsFetch));
    m.record_fetched("svc", Some(vec![Backend::new("10.0.0.1")]));
    match m.get_service("svc") {
        Lookup::Cached(Some(list)) => {
            assert_eq!(list.len(), 1);
            assert_eq!(list[0].ip, "10.0.0.1");
        }
        _ => panic!("expected a cached backend list"),
    }
}

#[test]
fn lookup_present_name_is_answered_from_cache() {
    let mut m = Mgr::new();
    m.record_fetched("svc", None);
    assert!(matches!(m.get_service("svc"), Lookup::Cached(None)));
    assert!(matches!(m.get_service("other"), Lookup::NeedsFetch));
}

#[test]
fn refresh_for_unknown_name_is_a_noop() {
    let mut m = Mgr::new();
    m.apply_refresh(Service::new("ghost", Some(vec![Backend::new("10.0.0.9")])));
    assert!(matches!(m.get_service("ghost"), Lookup::NeedsFetch));
}

#[test]
fn refresh_for_known_name_replaces_wholesale() {
    let mut m = Mgr::new();
    m.record_fetched("svc", Some(vec![Backend::new("10.0.0.1")]));
    m.apply_refresh(Service::new(
        "svc",
        Some(vec![Backend::new("10.0.0.2"), Backend::new("10.0.0.3")]),
    ));
    match m.get_service("svc") {
        Lookup::Cached(Some(list)) => {
            assert_eq!(list.len(), 2);
            assert_eq!(list[0].ip, "10.0.0.2");
            assert_eq!(list[1].ip, "10.0.0.3");
        }
        _ => panic!("expected the replaced backend list"),
    }
}

#[test]
fn refresh_can_replace_a_list_with_an_absent_one() {
    let mut m = Mgr::new();
    m.record_fetched("svc", Some(vec![Backend::new("10.0.0.1")]));
    m.apply_refresh(Service::new("svc", None));
    assert!(matches!(m.get_service("svc"), Lookup::Cached(None)));
}

#[test]
fn parsing_handles_text_beyond_ascii() {
    let v = parse_backends("méta,\"10.0.0.1\"").expect("backends");
    assert_eq!(v.len(), 1);
    assert_eq!(v[0].ip, "10.0.0.1");
}

#[test]
fn sync_step_applies_refresh_and_continues() {
    let mut m = Mgr::new();
    m.record_fetched("svc", None);
    let a = m.sync_step(RefreshEvent::Refresh(Service::new(
        "svc",
        Some(vec![Backend::new("10.0.0.4")]),
    )));
    assert!(matches!(a, SyncAction::Continue));
    match m.get_service("svc") {
        Lookup::Cached(Some(list)) => assert_eq!(list[0].ip, "10.0.0.4"),
        _ => panic!("expected the refreshed backend list"),
    }
}

#[test]
fn sync_step_stops_on_closed_channel_only() {
    let mut m = Mgr::new();
    assert!(matches!(m.sync_step(RefreshEvent::Empty), SyncAction::Continue));
    assert!(matches!(m.sync_step(RefreshEvent::Closed), SyncAction::Stop));
}

#[test]
fn null_anywhere_means_no_backends() {
    assert!(parse_backends("null").is_none());
    assert!(parse_backends("svcmeta,\"ip\":[\"10.0.0.1\"],null").is_none());
    assert!(parse_backends("before null after,\"10.0.0.1\"").is_none());
}

#[test]
fn two_quoted_addresses_parse_with_zeroed_counters() {
    let v = parse_backends("svcmeta,\"ip\":[\"10.0.0.1\",\"10.0.0.2\"]").expect("backends");
    assert_eq!(v.len(), 2);
    assert_eq!(v[0].ip, "10.0.0.1");
    assert_eq!(v[1].ip, "10.0.0.2");
    zeroed(&v[0]);
    zeroed(&v[1]);
}

#[test]
fn text_without_commas_parses_to_no_address_tokens() {
    let v = parse_backends("svcmeta").expect("backends");
    assert_eq!(v.len(), 0);
}

#[test]
fn token_without_second_quote_is_kept_unchanged() {
    let v = parse_backends("meta,abc").expect("backends");
    assert_eq!(v.len(), 1);
    assert_eq!(v[0].ip, "abc");
}

#[test]
fn first_token_is_cut_after_ip_marker() {
    let v = parse_backends("meta,ip:[rest").expect("backends");
    assert_eq!(v.len(), 1);
    assert_eq!(v[0].ip, "rest");
}

#[test]
fn inbound_rewrite_keeps_path_and_strips_port() {
    let plan = plan_inbound(
        Some("203.0.113.5:54321"),
        "/foo",
        "http://localhost:31104",
    )
    .expect("plan");
    assert_eq!(plan.forwarded_for, "203.0.113.5");
    assert_eq!(plan.target, "http://localhost:31104/foo");
    assert_eq!(plan.url.as_str(), "http://localhost:31104/foo");
}

#[test]
fn inbound_rewrite_keeps_query() {
    let plan = plan_inbound(
        Some("203.0.113.5:54321"),
        "/foo?a=1",
        "http://localhost:31104",
    )
    .expect("plan");
    assert_eq!(plan.target, "http://localhost:31104/foo?a=1");
}

#[test]
fn inbound_without_caller_address_is_refused() {
    let r = plan_inbound(None, "/foo", "http://localhost:31104");
    assert!(matches!(r, Err(InboundError::AddressParse)));
}

#[test]
fn inbound_address_unfit_for_a_header_is_refused() {
    let r = plan_inbound(Some("\u{7f}bad"), "/foo", "http://localhost:31104");
    assert!(matches!(r, Err(InboundError::AddressParse)));
}

#[test]
fn inbound_unparsable_target_is_refused() {
    let r = plan_inbound(Some("203.0.113.5"), "/foo", "");
    assert!(matches!(r, Err(InboundError::UriBuild)));
}

#[test]
fn outbound_resolves_service_and_keeps_query() {
    let plan = plan_outbound("svc:8080", "/a/b", "x=1", "http://localhost:31104").expect("plan");
    assert_eq!(plan.service, "svc");
    assert_eq!(plan.target, "http://localhost:31104/a/b?x=1");
    let plain = plan_outbound("svc", "/a", "", "http://localhost:31104").expect("plan");
    assert_eq!(plain.target, "http://localhost:31104/a");
}

#[test]
fn outbound_empty_host_is_refused() {
    let r = plan_outbound(":8080", "/a", "", "http://localhost:31104");
    assert!(matches!(r, Err(OutboundError::ServiceResolution)));
    let r = plan_outbound("svc", "/a", "", "");
    assert!(matches!(r, Err(OutboundError::UriBuild)));
}

#[test]
fn selection_prefers_least_outstanding_and_first_tie() {
    let mut a = Backend::new("a");
    let mut b = Backend::new("b");
    let c = Backend::new("c");
    a.dispatch();
    a.dispatch();
    a.dispatch();
    b.dispatch();
    let list = vec![a, b, c];
    // c has no outstanding request at all
    assert_eq!(select_backend(Policy::LeastOutstanding, &list), Some(2));
    let tie = vec![Backend::new("x"), Backend::new("y")];
    assert_eq!(select_backend(Policy::LeastOutstanding, &tie), Some(0));
    assert_eq!(select_backend(Policy::LeastOutstanding, &Vec::new()), None);
}

#[test]
fn selection_by_mean_rtt_prefers_the_fastest() {
    let mut a = Backend::new("a");
    a.dispatch();
    a.complete(90);
    let mut b = Backend::new("b");
    b.dispatch();
    b.complete(40);
    let list = vec![a, b];
    assert_eq!(select_backend(Policy::LeastMeanRtt, &list), Some(1));
    assert!(matches!(Policy::default(), Policy::LeastOutstanding));
}

#[test]
fn missing_length_is_an_invalid_length_error() {
    let r = check_length(None);
    match r {
        Err(e) => {
            assert!(matches!(e, RelayError::InvalidLength));
            assert_eq!(e.message(), "Invalid length received");
        }
        Ok(_) => panic!("a missing length must be refused"),
    }
    match check_length(Some(0)) {
        Ok(n) => assert_eq!(n, 0),
        Err(_) => panic!("a zero length is still a declared length"),
    }
}

#[test]
fn declared_length_is_passed_through() {
    match check_length(Some(42)) {
        Ok(n) => assert_eq!(n, 42),
        Err(_) => panic!("a declared length must be accepted"),
    }
}

#[test]
fn empty_body_relays_as_end_of_stream() {
    let resp = relay_body(Ok(Vec::new())).expect("response");
    assert_eq!(resp.status, 200);
    assert_eq!(resp.body, b"End of stream".to_vec());
}

#[test]
fn nonempty_body_relays_unchanged() {
    let resp = relay_body(Ok(vec![1u8, 2, 3])).expect("response");
    assert_eq!(resp.status, 200);
    assert_eq!(resp.body, vec![1u8, 2, 3]);
}

#[test]
fn unreadable_body_is_an_invalid_body_error() {
    match relay_body(Err("boom".to_string())) {
        Err(e) => assert_eq!(e.message(), "Could not fetch body: boom"),
        Ok(_) => panic!("an unreadable body must be refused"),
    }
}
