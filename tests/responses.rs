use reddit_core::{classify_response, finish_response, ApiError};

#[test]
fn error_status_is_bad_request() {
    let r = finish_response(404, "GET /x".to_string(), "404 Not Found".to_string(), "{}".to_string());
    assert_eq!(r, Err(ApiError::BadRequest { request: "GET /x".to_string(), response: "404 Not Found".to_string() }));
}

#[test]
fn undecodable_body_is_bad_response() {
    let r = finish_response(200, "GET /x".to_string(), "200 OK".to_string(), "<html>".to_string());
    assert_eq!(r, Err(ApiError::BadResponse { request: "GET /x".to_string(), response: "<html>".to_string() }));
}

#[test]
fn json_body_is_returned() {
    let r = finish_response(200, "GET /x".to_string(), "200 OK".to_string(), "{\"data\": [1, 2]}".to_string());
    let v = r.unwrap();
    assert_eq!(v["data"][1].as_i64(), Some(2));
    let r = finish_response(299, "q".to_string(), "s".to_string(), "true".to_string());
    assert_eq!(r.unwrap().as_bool(), Some(true));
    let r = finish_response(300, "q".to_string(), "s".to_string(), "true".to_string());
    assert!(matches!(r, Err(ApiError::BadRequest { .. })));
}

#[test]
fn classify_takes_parsed_value() {
    let r = classify_response(500, "q".to_string(), "s".to_string(), "b".to_string(), None);
    assert_eq!(r, Err(ApiError::BadRequest { request: "q".to_string(), response: "s".to_string() }));
    let r = classify_response(201, "q".to_string(), "s".to_string(), "b".to_string(), None);
    assert_eq!(r, Err(ApiError::BadResponse { request: "q".to_string(), response: "b".to_string() }));
    let r = classify_response(200, "q".to_string(), "s".to_string(), "b".to_string(), Some(serde_json::Value::Null));
    assert_eq!(r, Ok(serde_json::Value::Null));
}
