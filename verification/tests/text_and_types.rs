use opensovd::component::ComponentId;
use opensovd::data::DataIdentifier;
use opensovd::dtc::{DtcId, DtcStatusMask};
use opensovd::error::SovdError;
use opensovd::filter::FaultQuery;
use opensovd::roles::{Configuration, health};
use opensovd::routine::RoutineId;
use opensovd::text::{
    decimal_string, signed_decimal_string, split_once, str_eq, trim_leading_slashes,
    with_trailing_slash,
};

#[test]
fn health_returns_ok_status() {
    let body = health("0.1.0");
    assert_eq!(body.status, "ok");
    assert_eq!(body.version, "0.1.0");
}

#[test]
fn trailing_slash_is_appended_only_when_missing() {
    assert_eq!(with_trailing_slash("/y/"), "/y/");
    assert_eq!(with_trailing_slash("/y"), "/y/");
    assert_eq!(with_trailing_slash(""), "/");
    let once = with_trailing_slash("/a/b");
    assert_eq!(with_trailing_slash(&once), once);
}

#[test]
fn leading_slashes_are_trimmed() {
    assert_eq!(trim_leading_slashes("//sovd/v1"), "sovd/v1");
    assert_eq!(trim_leading_slashes("sovd/"), "sovd/");
    assert_eq!(trim_leading_slashes("///"), "");
}

#[test]
fn identifiers_render_as_padded_hex() {
    assert_eq!(DataIdentifier(0xF190).to_string(), "0xF190");
    assert_eq!(DataIdentifier(0x1A).to_string(), "0x001A");
    assert_eq!(DtcId(0x00_01_02).to_string(), "0x000102");
    assert_eq!(DtcId(0x1234_5678).to_string(), "0x12345678");
    assert_eq!(RoutineId(0x0203).to_string(), "0x0203");
}

#[test]
fn numbers_render_in_decimal() {
    assert_eq!(decimal_string(0), "0");
    assert_eq!(decimal_string(65536), "65536");
    assert_eq!(signed_decimal_string(-42), "-42");
    assert_eq!(signed_decimal_string(7), "7");
    assert_eq!(signed_decimal_string(i64::MIN), "-9223372036854775808");
}

#[test]
fn split_at_first_colon() {
    assert_eq!(
        split_once("a:b:c", ':'),
        Some(("a".to_owned(), "b:c".to_owned()))
    );
    assert_eq!(split_once("abc", ':'), None);
    assert!(str_eq("ä:b", "ä:b"));
    assert!(!str_eq("ab", "abc"));
}

#[test]
fn fault_query_becomes_a_filter() {
    let q = FaultQuery {
        severity: Some(3),
        scope: Some("Default".to_owned()),
        status_key: Some("aggregatedStatus:active".to_owned()),
    };
    let f = q.into_filter();
    assert_eq!(f.severity, Some(3));
    assert_eq!(f.scope.as_deref(), Some("Default"));
    assert_eq!(
        f.status_keys,
        vec![("aggregatedStatus".to_owned(), "active".to_owned())]
    );
    let no_colon = FaultQuery { status_key: Some("broken".to_owned()), ..FaultQuery::default() };
    assert!(no_colon.into_filter().status_keys.is_empty());
}

#[test]
fn component_id_text_round_trips() {
    let id = ComponentId::new("cvc");
    assert_eq!(id.as_str(), "cvc");
    assert_eq!(id.clone(), ComponentId::new("cvc"));
    assert_ne!(id, ComponentId::new("fzc"));
}

#[test]
fn mask_all_is_zero_and_default_config() {
    assert_eq!(DtcStatusMask::all().0, 0);
    let c = Configuration::default();
    assert_eq!(c.server.address, "0.0.0.0");
    assert_eq!(c.server.port, 20002);
}

#[test]
fn error_messages_describe_the_error() {
    assert_eq!(
        SovdError::NotFound { entity: "component \"bcm\"".to_owned() }.message(),
        "not found: component \"bcm\""
    );
    assert_eq!(SovdError::InvalidRequest("x".to_owned()).message(), "invalid request: x");
    assert_eq!(
        SovdError::BackendUnavailable(ComponentId::new("cvc")).message(),
        "backend unavailable for component: cvc"
    );
    assert_eq!(SovdError::Unauthorized.message(), "unauthorized");
    assert_eq!(
        SovdError::OperationFailed { id: "op".to_owned(), reason: "why".to_owned() }.message(),
        "operation op failed: why"
    );
    assert_eq!(SovdError::Transport("t".to_owned()).message(), "transport error: t");
    assert_eq!(SovdError::Internal("i".to_owned()).message(), "internal error: i");
}
