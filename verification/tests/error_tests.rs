use skeleton::error::{HandlerError, HandlerErrorKind};

#[test]
fn classify_is_total_and_deterministic() {
    let g = HandlerErrorKind::General(String::from("g"));
    let i = HandlerErrorKind::Internal(String::from("i"));
    assert_eq!(g.http_status(), 500);
    assert_eq!(g.http_status(), 500);
    assert_eq!(i.http_status(), 500);
    assert_eq!(i.http_status(), 500);
    assert_eq!(g.errno(), 500);
    assert_eq!(g.errno(), 500);
    assert_eq!(i.errno(), 510);
    assert_eq!(i.errno(), 510);
}

#[test]
fn classify_ignores_message_text() {
    let a = HandlerErrorKind::Internal(String::from("db down"));
    let b = HandlerErrorKind::Internal(String::from("other"));
    assert_eq!(a.errno(), b.errno());
    assert_eq!(a.http_status(), b.http_status());
}

#[test]
fn render_response_internal_is_510() {
    let err = HandlerError::from_kind(HandlerErrorKind::Internal(String::from("x")));
    let resp = err.error_response();
    assert_eq!(resp.status, 500);
    assert_eq!(resp.body, "510");
    assert_eq!(resp.content_type, Some(String::from("application/json")));
}

#[test]
fn render_response_general_is_500() {
    let err = HandlerError::from_kind(HandlerErrorKind::General(String::from("x")));
    let resp = err.error_response();
    assert_eq!(resp.status, 500);
    assert_eq!(resp.body, "500");
    assert_eq!(resp.content_type, Some(String::from("application/json")));
}

#[test]
fn render_404_is_empty() {
    let resp = HandlerError::render_404();
    assert_eq!(resp.status, 404);
    assert_eq!(resp.body, "");
    assert_eq!(resp.content_type, None);
}

#[test]
fn internal_constructor_sets_kind() {
    let err = HandlerError::internal("boom");
    assert_eq!(
        *err.kind(),
        HandlerErrorKind::Internal(String::from("boom"))
    );
    assert_eq!(err.status_code(), 500);
}

#[test]
fn kind_display_quotes_message() {
    let g = HandlerErrorKind::General(String::from("bad"));
    assert_eq!(g.display_string(), "General error: \"bad\"");
    let i = HandlerErrorKind::Internal(String::from("worse"));
    assert_eq!(i.display_string(), "Internal error: \"worse\"");
}

#[test]
fn display_string_has_kind_then_backtrace() {
    let err = HandlerError::internal("x");
    let text = err.display_string();
    assert!(text.starts_with("Error: Internal error: \"x\"\nBacktrace:\n"));
}
