use minigame_client::access_token::{
    AccessTokenRequest, AccessTokenRequestBuilder, AccessTokenResponse,
};

#[test]
fn build_sets_grant_type_regardless_of_input() {
    let req = AccessTokenRequestBuilder::new()
        .appid("wxabc")
        .secret("shh")
        .build();
    assert_eq!(req.grant_type, "client_credential");

    // Even a builder whose grant_type field was overwritten by hand builds
    // to the fixed grant type.
    let mut odd = AccessTokenRequestBuilder::new();
    odd.grant_type = String::from("something_else");
    let req = odd.build();
    assert_eq!(req.grant_type, "client_credential");
}

#[test]
fn force_refresh_none_normalizes_to_false() {
    let req = AccessTokenRequestBuilder::new()
        .appid("a")
        .secret("b")
        .force_refresh(None)
        .build();
    assert!(!req.force_refresh);
}

#[test]
fn force_refresh_some_false_normalizes_to_false() {
    let req = AccessTokenRequestBuilder::new()
        .appid("a")
        .secret("b")
        .force_refresh(Some(false))
        .build();
    assert!(!req.force_refresh);
}

#[test]
fn force_refresh_some_true_normalizes_to_true() {
    let req = AccessTokenRequestBuilder::new()
        .appid("a")
        .secret("b")
        .force_refresh(Some(true))
        .build();
    assert!(req.force_refresh);
}

#[test]
fn builder_defaults_build_to_false_refresh_and_empty_credentials() {
    let req = AccessTokenRequestBuilder::new().build();
    assert_eq!(req.grant_type, "client_credential");
    assert_eq!(req.appid, "");
    assert_eq!(req.secret, "");
    assert!(!req.force_refresh);
}

#[test]
fn new_builds_in_one_call() {
    let req = AccessTokenRequest::new("wx123", "s3cr3t", Some(true));
    assert_eq!(req.grant_type, "client_credential");
    assert_eq!(req.appid, "wx123");
    assert_eq!(req.secret, "s3cr3t");
    assert!(req.force_refresh);

    let req = AccessTokenRequest::new("wx123", "s3cr3t", None);
    assert!(!req.force_refresh);
}

#[test]
fn request_body_has_the_documented_shape() {
    let req = AccessTokenRequestBuilder::new()
        .appid("wx123")
        .secret("s3cr3t")
        .force_refresh(Some(true))
        .build();
    assert_eq!(
        req.to_json(),
        "{\"grant_type\":\"client_credential\",\"appid\":\"wx123\",\"secret\":\"s3cr3t\",\"force_refresh\":true}"
    );
}

#[test]
fn request_body_is_valid_json_with_the_same_four_fields() {
    let req = AccessTokenRequestBuilder::new()
        .appid("wx123")
        .secret("s3cr3t")
        .force_refresh(Some(true))
        .build();
    let value: serde_json::Value = serde_json::from_str(&req.to_json()).unwrap();
    assert_eq!(value["grant_type"].as_str(), Some("client_credential"));
    assert_eq!(value["appid"].as_str(), Some("wx123"));
    assert_eq!(value["secret"].as_str(), Some("s3cr3t"));
    assert_eq!(value["force_refresh"].as_bool(), Some(true));
    assert_eq!(value.as_object().unwrap().len(), 4);
}

#[test]
fn request_round_trips_through_json() {
    let req = AccessTokenRequestBuilder::new()
        .appid("wx123")
        .secret("s3cr3t")
        .force_refresh(Some(true))
        .build();
    let back = AccessTokenRequest::from_json(&req.to_json()).unwrap();
    assert_eq!(back.grant_type, req.grant_type);
    assert_eq!(back.appid, req.appid);
    assert_eq!(back.secret, req.secret);
    assert_eq!(back.force_refresh, req.force_refresh);
}

#[test]
fn request_with_awkward_characters_round_trips() {
    let req = AccessTokenRequest::new("id \"quoted\"", "back\\slash", Some(false));
    let body = req.to_json();
    let back = AccessTokenRequest::from_json(&body).unwrap();
    assert_eq!(back.appid, "id \"quoted\"");
    assert_eq!(back.secret, "back\\slash");
    assert!(!back.force_refresh);

    // An independent JSON reader agrees on the escaped fields.
    let value: serde_json::Value = serde_json::from_str(&body).unwrap();
    assert_eq!(value["appid"].as_str(), Some("id \"quoted\""));
    assert_eq!(value["secret"].as_str(), Some("back\\slash"));
}

#[test]
fn empty_credentials_round_trip() {
    let req = AccessTokenRequest::new("", "", None);
    let back = AccessTokenRequest::from_json(&req.to_json()).unwrap();
    assert_eq!(back.appid, "");
    assert_eq!(back.secret, "");
}

#[test]
fn malformed_request_text_is_rejected() {
    assert!(AccessTokenRequest::from_json("").is_none());
    assert!(AccessTokenRequest::from_json("{}").is_none());
    // Trailing text after the closing brace.
    let req = AccessTokenRequest::new("a", "b", None);
    let mut body = req.to_json();
    body.push(' ');
    assert!(AccessTokenRequest::from_json(&body).is_none());
    // A lone backslash starts an escape that never ends.
    assert!(AccessTokenRequest::from_json(
        "{\"grant_type\":\"client_credential\",\"appid\":\"\\",
    )
    .is_none());
}

#[test]
fn well_formed_response_decodes() {
    let resp =
        AccessTokenResponse::from_json("{\"access_token\":\"ABC123\",\"expires_in\":7200}")
            .unwrap();
    assert_eq!(resp.access_token, "ABC123");
    assert_eq!(resp.expires_in, 7200);
}

#[test]
fn response_with_escapes_decodes() {
    let resp =
        AccessTokenResponse::from_json("{\"access_token\":\"a\\\"b\\\\c\\n\",\"expires_in\":1}")
            .unwrap();
    assert_eq!(resp.access_token, "a\"b\\c\n");
    assert_eq!(resp.expires_in, 1);
}

#[test]
fn malformed_response_text_is_rejected() {
    assert!(AccessTokenResponse::from_json("").is_none());
    assert!(AccessTokenResponse::from_json("{\"access_token\":\"x\"}").is_none());
    assert!(AccessTokenResponse::from_json("{\"access_token\":\"x\",\"expires_in\":}").is_none());
    assert!(
        AccessTokenResponse::from_json("{\"access_token\":\"x\",\"expires_in\":12} ").is_none()
    );
    // An unknown escape is rejected.
    assert!(
        AccessTokenResponse::from_json("{\"access_token\":\"\\x\",\"expires_in\":1}").is_none()
    );
}

#[test]
fn oversized_expiry_is_rejected() {
    let body = format!(
        "{{\"access_token\":\"x\",\"expires_in\":{}0}}",
        usize::MAX
    );
    assert!(AccessTokenResponse::from_json(&body).is_none());
}

#[test]
fn largest_expiry_is_accepted() {
    let body = format!("{{\"access_token\":\"x\",\"expires_in\":{}}}", usize::MAX);
    let resp = AccessTokenResponse::from_json(&body).unwrap();
    assert_eq!(resp.expires_in, usize::MAX);
}
