use opensovd::component::ComponentId;
use opensovd::error::SovdError;
use opensovd::resources::FaultFilter;
use opensovd::wire::{
    HttpFailure, component_entity_url, component_url, entity_path, fault_query_pairs, host_url,
    join_segments, map_http_error, map_reqwest_err, resource_path,
};

#[test]
fn map_http_error_variants() {
    assert!(matches!(
        map_http_error(404, Some("Not Found"), "nope"),
        SovdError::NotFound { .. }
    ));
    assert!(matches!(
        map_http_error(401, Some("Unauthorized"), "nope"),
        SovdError::Unauthorized
    ));
    assert!(matches!(
        map_http_error(500, Some("Internal Server Error"), "boom"),
        SovdError::Internal(_)
    ));
    // 502 is a 5xx and therefore maps to Internal; BAD_REQUEST covers the
    // generic Transport mapping for non-{401, 404, 5xx} failures.
    assert!(matches!(
        map_http_error(400, Some("Bad Request"), "bad"),
        SovdError::Transport(_)
    ));
}

#[test]
fn http_error_messages_carry_status_and_body() {
    match map_http_error(404, Some("Not Found"), "nope") {
        SovdError::NotFound { entity } => assert_eq!(entity, "remote 404: nope"),
        other => panic!("unexpected {other:?}"),
    }
    match map_http_error(502, Some("Bad Gateway"), "down") {
        SovdError::Internal(m) => assert_eq!(m, "remote 502 Bad Gateway: down"),
        other => panic!("unexpected {other:?}"),
    }
    match map_http_error(499, None, "x") {
        SovdError::Transport(m) => assert_eq!(m, "remote 499 <unknown status code>: x"),
        other => panic!("unexpected {other:?}"),
    }
}

fn failure(connect: bool, status: Option<u16>) -> HttpFailure {
    HttpFailure {
        is_connect: connect,
        is_timeout: false,
        is_request: false,
        status,
        message: "boom".to_owned(),
    }
}

#[test]
fn reqwest_failures_map_onto_errors() {
    let c = ComponentId::new("cvc");
    match map_reqwest_err(&c, &failure(true, Some(404))) {
        SovdError::BackendUnavailable(id) => assert_eq!(id, c),
        other => panic!("unexpected {other:?}"),
    }
    match map_reqwest_err(&c, &failure(false, Some(404))) {
        SovdError::NotFound { entity } => assert_eq!(entity, "cda:cvc"),
        other => panic!("unexpected {other:?}"),
    }
    assert!(matches!(map_reqwest_err(&c, &failure(false, Some(403))), SovdError::Transport(_)));
    assert!(matches!(map_reqwest_err(&c, &failure(false, Some(401))), SovdError::Transport(_)));
    match map_reqwest_err(&c, &failure(false, None)) {
        SovdError::Transport(m) => assert_eq!(m, "boom"),
        other => panic!("unexpected {other:?}"),
    }
}

#[test]
fn component_paths() {
    let c = ComponentId::new("cvc");
    assert_eq!(resource_path(&c, "faults"), "sovd/v1/components/cvc/faults");
    assert_eq!(entity_path(&c), "sovd/v1/components/cvc");
    let tail = join_segments("operations", "motor_self_test");
    assert_eq!(
        resource_path(&c, &tail),
        "sovd/v1/components/cvc/operations/motor_self_test"
    );
}

#[test]
fn fault_query_pairs_follow_the_filter() {
    assert!(fault_query_pairs(&FaultFilter::all()).is_empty());
    let filter = FaultFilter {
        status_keys: vec![("aggregatedStatus".to_owned(), "active".to_owned())],
        severity: Some(-3),
        scope: Some("Default".to_owned()),
    };
    let pairs = fault_query_pairs(&filter);
    assert_eq!(
        pairs,
        vec![
            ("severity".to_owned(), "-3".to_owned()),
            ("scope".to_owned(), "Default".to_owned()),
            ("status[aggregatedStatus]".to_owned(), "active".to_owned()),
        ]
    );
}

fn ensure_trailing_slash(mut url: url::Url) -> url::Url {
    let path = opensovd::text::with_trailing_slash(url.path());
    if path != url.path() {
        url.set_path(&path);
    }
    url
}

#[test]
fn ensure_trailing_slash_noop_when_already_present() {
    let url = url::Url::parse("http://x/y/").unwrap();
    assert_eq!(ensure_trailing_slash(url.clone()), url);
}

#[test]
fn ensure_trailing_slash_appends_when_missing() {
    let url = url::Url::parse("http://x/y").unwrap();
    assert_eq!(ensure_trailing_slash(url).as_str(), "http://x/y/");
}

#[test]
fn trailing_slash_is_added_when_missing() {
    let url = url::Url::parse("http://localhost:20002").expect("parse");
    assert!(ensure_trailing_slash(url).path().ends_with('/'));
}

#[test]
fn component_url_builds_nested_path() {
    let url = url::Url::parse("http://localhost:20002/").expect("parse");
    let base = ensure_trailing_slash(url);
    let got = component_url(base.as_str(), &ComponentId::new("cvc"), "faults").expect("join");
    let got = url::Url::parse(&got).expect("parse");
    assert_eq!(got.path(), "/sovd/v1/components/cvc/faults");
}

#[test]
fn cda_urls_are_joined_below_the_base() {
    let cvc = ComponentId::new("cvc");
    assert_eq!(
        component_url("http://cda:8080/api/", &cvc, "faults/P0A1F").expect("join"),
        "http://cda:8080/api/sovd/v1/components/cvc/faults/P0A1F"
    );
    assert_eq!(
        component_entity_url("http://cda:8080/", &cvc).expect("join"),
        "http://cda:8080/sovd/v1/components/cvc"
    );
    match component_url("not a url", &cvc, "faults") {
        Err(SovdError::InvalidRequest(m)) => {
            assert_eq!(m, "bad CDA URL: relative URL without a base")
        }
        other => panic!("unexpected {other:?}"),
    }
}

#[test]
fn host_urls_drop_leading_slashes_of_the_path() {
    assert_eq!(
        host_url("http://gw:9000/remote/", "//sovd/v1/components").expect("join"),
        "http://gw:9000/remote/sovd/v1/components"
    );
    match host_url("not a url", "x") {
        Err(SovdError::Internal(m)) => {
            assert_eq!(m, "RemoteHost: bad URL join: relative URL without a base")
        }
        other => panic!("unexpected {other:?}"),
    }
}
