use minigame_client::client::{
    accept_header_value, base_url, handle_response, stable_token_url, user_agent_value,
    REQUEST_TIMEOUT_SECS,
};
use minigame_client::error::Error;

#[test]
fn simulated_401_is_a_permission_error() {
    let r = handle_response(401, "denied");
    assert!(matches!(r, Err(Error::Permission(_))));
}

#[test]
fn simulated_403_is_a_permission_error() {
    let r = handle_response(403, "denied");
    assert!(matches!(r, Err(Error::Permission(_))));
}

#[test]
fn simulated_404_is_a_not_found_error() {
    let r = handle_response(404, "no such endpoint");
    assert!(matches!(r, Err(Error::NotFound(_))));
}

#[test]
fn simulated_500_is_an_other_error() {
    let r = handle_response(500, "server fell over");
    let e = r.unwrap_err();
    assert!(matches!(e, Error::Other(_)));
    assert_eq!(e.context().as_str(), "server fell over");
}

#[test]
fn connection_failure_without_status_is_an_other_error() {
    let e = Error::classify(None, String::from("connection refused"));
    assert!(matches!(e, Error::Other(_)));
    assert_eq!(e.context().as_str(), "connection refused");
}

#[test]
fn classification_is_a_three_way_lookup() {
    assert!(matches!(
        Error::classify(Some(401), String::new()),
        Error::Permission(_)
    ));
    assert!(matches!(
        Error::classify(Some(403), String::new()),
        Error::Permission(_)
    ));
    assert!(matches!(
        Error::classify(Some(404), String::new()),
        Error::NotFound(_)
    ));
    assert!(matches!(
        Error::classify(Some(400), String::new()),
        Error::Other(_)
    ));
    assert!(matches!(
        Error::classify(Some(302), String::new()),
        Error::Other(_)
    ));
}

#[test]
fn successful_status_with_well_formed_body_decodes() {
    let r = handle_response(200, "{\"access_token\":\"ABC123\",\"expires_in\":7200}");
    let resp = r.unwrap();
    assert_eq!(resp.access_token, "ABC123");
    assert_eq!(resp.expires_in, 7200);
}

#[test]
fn successful_status_with_malformed_body_is_an_other_error() {
    let r = handle_response(200, "not json at all");
    let e = r.unwrap_err();
    assert!(matches!(e, Error::Other(_)));
    assert_eq!(e.context().as_str(), "malformed access token response body");
}

#[test]
fn fixed_client_configuration() {
    assert_eq!(base_url(), "https://api.weixin.qq.com/cgi-bin");
    assert_eq!(stable_token_url(), "https://api.weixin.qq.com/cgi-bin/stable_token");
    assert_eq!(accept_header_value(), "application/vnd.github.v3+json");
    assert_eq!(user_agent_value(), "crates.io (https://crates.io)");
    assert_eq!(REQUEST_TIMEOUT_SECS, 10);
}
