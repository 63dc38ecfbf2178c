use skeleton::error::HandlerErrorKind;
use skeleton::extractors::ExampleRequest;
use skeleton::numfmt::u16_to_dec;
use skeleton::settings::Settings;

#[test]
fn default_settings_match_documented_values() {
    let settings = Settings::default();
    assert!(!settings.debug);
    assert_eq!(settings.port, 8000);
    assert_eq!(settings.host, "127.0.0.1");
    assert!(!settings.human_logs);
    assert_eq!(settings.statsd_label, "skeleton");
    assert_eq!(settings.statsd_host, None);
    assert_eq!(settings.statsd_port, 8125);
    assert_eq!(settings.actix_keep_alive, None);
}

#[test]
fn banner_shows_scheme_host_and_port() {
    let settings = Settings::default();
    assert_eq!(settings.banner(), "http://127.0.0.1:8000");

    let mut other = Settings::default();
    other.host = String::from("0.0.0.0");
    other.port = 443;
    assert_eq!(other.banner(), "http://0.0.0.0:443");
}

#[test]
fn decimal_rendering_handles_edges() {
    assert_eq!(u16_to_dec(0), "0");
    assert_eq!(u16_to_dec(7), "7");
    assert_eq!(u16_to_dec(8000), "8000");
    assert_eq!(u16_to_dec(65535), "65535");
}

#[test]
fn extractor_succeeds_with_state() {
    assert!(ExampleRequest::from_request_state(true).is_ok());
}

#[test]
fn extractor_rejects_missing_state() {
    let err = ExampleRequest::from_request_state(false).expect_err("no state");
    assert_eq!(
        *err.kind(),
        HandlerErrorKind::General(String::from("Bad state"))
    );
    assert_eq!(err.kind().errno(), 500);
    assert_eq!(err.kind().http_status(), 500);
}
