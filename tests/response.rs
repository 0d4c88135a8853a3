use waki::body::Body;
use waki::client::Client;
use waki::multipart::parser::DecodeError;
use waki::multipart::Form;
use waki::response::{ErrorCode, MultipartError, Response, ResponseBuilder};

#[test]
fn new_response_defaults() {
    let r = Response::new();
    assert_eq!(r.status_code(), 200);
    assert!(r.headers().is_empty());
    assert!(r.chunk(10).is_none());
    assert!(r.body().is_empty());
}

#[test]
fn builder_sets_status_headers_and_body() {
    let r = Response::builder()
        .status_code(400)
        .header("Content-Type", "application/json")
        .body(b"{}".to_vec())
        .build()
        .unwrap();
    assert_eq!(r.status_code(), 400);
    assert_eq!(r.header("content-type").map(|s| s.as_str()), Some("application/json"));
    assert_eq!(r.header("CONTENT-TYPE").map(|s| s.as_str()), Some("application/json"));
    assert!(r.header("accept").is_none());
    assert_eq!(r.body(), b"{}".to_vec());
}

#[test]
fn builder_defers_header_errors() {
    let e = ResponseBuilder::new().header("X", "a\rb").status_code(201).build().err();
    assert_eq!(e, Some(ErrorCode::InternalError(Some("failed to parse header value".to_string()))));
    let e = ResponseBuilder::new().header("bad name", "v").build().err();
    assert_eq!(e, Some(ErrorCode::InternalError(Some("invalid HTTP header name".to_string()))));
}

#[test]
fn builder_headers_replace_by_name() {
    let r = ResponseBuilder::new()
        .headers(vec![("Accept".to_string(), "*/*".to_string()), ("ACCEPT".to_string(), "text/html".to_string())])
        .build()
        .unwrap();
    assert_eq!(r.headers(), &vec![("accept".to_string(), "text/html".to_string())]);
}

#[test]
fn multipart_response_round_trip() {
    let form = Form::with_boundary("boundary".to_string()).text("k".to_string(), b"Hello World".to_vec());
    let r = Response::builder().multipart(form).build().unwrap();
    assert_eq!(r.header("Content-Type").map(|s| s.as_str()), Some("multipart/form-data; boundary=boundary"));
    let parts = r.multipart().unwrap();
    assert_eq!(parts.get("k").unwrap().value, b"Hello World");
}

#[test]
fn multipart_response_errors() {
    assert_eq!(Response::new().multipart().err(), Some(MultipartError::MissingContentType));
    let r = Response::builder().header("Content-Type", "text/plain").build().unwrap();
    assert_eq!(r.multipart().err(), Some(MultipartError::MissingBoundary));
    let r = Response::builder().header("Content-Type", "nonsense").build().unwrap();
    assert_eq!(r.multipart().err(), Some(MultipartError::InvalidContentType));
    let r = Response::builder()
        .header("Content-Type", "multipart/form-data; boundary=zz")
        .body(b"garbage".to_vec())
        .build()
        .unwrap();
    assert_eq!(r.multipart().err(), Some(MultipartError::Decode(DecodeError::MissingBoundary)));
}

#[test]
fn body_bytes_and_chunk() {
    let b = Body::Bytes(b"abc".to_vec());
    assert!(b.chunk(2).is_none());
    assert_eq!(b.bytes(), b"abc".to_vec());
}

#[test]
fn client_new() {
    assert_eq!(Client::new(), Client {});
}
