use minecraft_ipv6::lookup::{
    get_uuid, lookup_request, read_id, settle_lookup, status_is_success, IdField, LookupError,
    LOOKUP_TIMEOUT_SECS,
};

#[test]
fn lookup_request_names_the_user() {
    assert_eq!(
        lookup_request("Notch"),
        "https://api.mojang.com/users/profiles/minecraft/Notch"
    );
    assert_eq!(LOOKUP_TIMEOUT_SECS, 5);
}

#[test]
fn success_is_any_2xx() {
    assert!(status_is_success(200));
    assert!(status_is_success(204));
    assert!(status_is_success(299));
    assert!(!status_is_success(199));
    assert!(!status_is_success(300));
    assert!(!status_is_success(404));
    assert!(!status_is_success(429));
}

#[test]
fn identifier_is_read_from_the_body() {
    let body = br#"{"id":"069a79f444e94726a5befca90e38aaf5","name":"Notch"}"#;
    assert_eq!(
        get_uuid(200, body),
        Ok("069a79f444e94726a5befca90e38aaf5".to_string())
    );
    let body = br#" { "name" : "x", "id" : "abc" } "#;
    assert_eq!(get_uuid(201, body), Ok("abc".to_string()));
    assert_eq!(get_uuid(200, br#"{"id":""}"#), Ok(String::new()));
    assert_eq!(get_uuid(200, br#"{"id":"ab\"c"}"#), Ok("ab\"c".to_string()));
}

#[test]
fn missing_id_is_an_error() {
    assert_eq!(get_uuid(200, br#"{"name":"Notch"}"#), Err(LookupError::MissingId));
    assert_eq!(get_uuid(200, br#"{"id":5}"#), Err(LookupError::MissingId));
    assert_eq!(get_uuid(200, br#"{"id":null}"#), Err(LookupError::MissingId));
    assert_eq!(get_uuid(200, br#"["id"]"#), Err(LookupError::MissingId));
    assert_eq!(get_uuid(200, br#""id""#), Err(LookupError::MissingId));
    assert_eq!(get_uuid(200, b"null"), Err(LookupError::MissingId));
}

fn malformed(cause: &str) -> Result<String, LookupError> {
    Err(LookupError::Malformed(cause.to_string()))
}

#[test]
fn body_that_is_no_json_is_an_error() {
    assert_eq!(
        get_uuid(200, b""),
        malformed("EOF while parsing a value at line 1 column 0")
    );
    assert_eq!(
        get_uuid(200, b"{"),
        malformed("EOF while parsing an object at line 1 column 1")
    );
    assert_eq!(
        get_uuid(200, b"<html>"),
        malformed("expected value at line 1 column 1")
    );
    assert_eq!(
        get_uuid(200, br#"{"id":"x"} trailing"#),
        malformed("trailing characters at line 1 column 12")
    );
}

#[test]
fn cause_of_a_malformed_body_is_the_parser_s() {
    let bodies: [&[u8]; 5] = [b"", b"{", b"[1,", b"nul", b"{\"id\":}"];
    for body in bodies {
        let cause = serde_json::from_slice::<serde_json::Value>(body)
            .unwrap_err()
            .to_string();
        assert_eq!(get_uuid(200, body), Err(LookupError::Malformed(cause)));
    }
}

#[test]
fn other_statuses_are_errors_whatever_the_body() {
    let body = br#"{"id":"abc"}"#;
    assert_eq!(get_uuid(404, body), Err(LookupError::Status(404)));
    assert_eq!(get_uuid(429, body), Err(LookupError::Status(429)));
    assert_eq!(get_uuid(500, b"oops"), Err(LookupError::Status(500)));
    assert_eq!(get_uuid(199, body), Err(LookupError::Status(199)));
    assert_eq!(get_uuid(300, body), Err(LookupError::Status(300)));
}

#[test]
fn read_id_tells_the_three_cases_apart() {
    assert!(matches!(read_id(br#"{"id":"abc"}"#), IdField::Present(id) if id == "abc"));
    assert!(matches!(read_id(br#"{"ID":"abc"}"#), IdField::Absent));
    assert!(matches!(
        read_id(b"id"),
        IdField::Malformed(cause) if cause == "expected value at line 1 column 1"
    ));
}

#[test]
fn settle_lookup_by_status_and_field() {
    assert_eq!(
        settle_lookup(200, IdField::Present("abc".to_string())),
        Ok("abc".to_string())
    );
    assert_eq!(settle_lookup(200, IdField::Absent), Err(LookupError::MissingId));
    assert_eq!(
        settle_lookup(200, IdField::Malformed("why".to_string())),
        Err(LookupError::Malformed("why".to_string()))
    );
    assert_eq!(
        settle_lookup(404, IdField::Present("abc".to_string())),
        Err(LookupError::Status(404))
    );
    assert_eq!(
        settle_lookup(503, IdField::Malformed("why".to_string())),
        Err(LookupError::Status(503))
    );
}

#[test]
fn lookup_errors_in_words() {
    assert_eq!(
        LookupError::Status(404).message("alice"),
        "Failed to get UUID for alice: 404 Not Found"
    );
    assert_eq!(
        LookupError::Status(429).message("bob"),
        "Failed to get UUID for bob: 429 Too Many Requests"
    );
    assert_eq!(
        LookupError::Status(500).message(""),
        "Failed to get UUID for : 500 Internal Server Error"
    );
    assert_eq!(
        LookupError::Status(599).message("alice"),
        "Failed to get UUID for alice: 599 <unknown status code>"
    );
    assert_eq!(LookupError::MissingId.message("alice"), "UUID not found in response");
    assert_eq!(
        LookupError::Malformed("expected value at line 1 column 1".to_string()).message("alice"),
        "error decoding response body: expected value at line 1 column 1"
    );
}

#[test]
fn statuses_are_shown_as_the_client_shows_them() {
    for status in [100u16, 199, 300, 301, 400, 403, 404, 418, 429, 500, 503, 999] {
        let shown = reqwest::StatusCode::from_u16(status).unwrap().to_string();
        assert_eq!(
            LookupError::Status(status).message("alice"),
            format!("Failed to get UUID for alice: {}", shown)
        );
    }
}

#[test]
fn a_number_that_is_no_status_is_shown_bare() {
    assert_eq!(
        LookupError::Status(99).message("alice"),
        "Failed to get UUID for alice: 99"
    );
    assert_eq!(
        LookupError::Status(0).message("alice"),
        "Failed to get UUID for alice: 0"
    );
    assert_eq!(
        LookupError::Status(1000).message("alice"),
        "Failed to get UUID for alice: 1000"
    );
    assert_eq!(
        LookupError::Status(65535).message("alice"),
        "Failed to get UUID for alice: 65535"
    );
}

#[test]
fn lookup_of_alice_answered_with_404() {
    let error = get_uuid(404, br#"{"id":"abc"}"#).unwrap_err();
    assert_eq!(error, LookupError::Status(404));
    assert_eq!(
        error.message("alice"),
        "Failed to get UUID for alice: 404 Not Found"
    );
}
