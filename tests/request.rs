use waki::multipart::Form;
use waki::request::{Method, Request, RequestBuilder, RequestError};
use waki::header::HeaderError;

#[test]
fn builder_parses_uri() {
    let req = Request::builder(Method::Get, "https://httpbin.org/get?a=1").build().unwrap();
    assert_eq!(req.method(), Method::Get);
    assert_eq!(req.path(), "/get");
    assert_eq!(req.authority(), &Some("httpbin.org".to_string()));
    assert_eq!(req.query(), vec![("a".to_string(), "1".to_string())]);
}

#[test]
fn invalid_uri_is_deferred() {
    let r = RequestBuilder::new(Method::Post, "http://[::1").header("X", "y").build();
    assert_eq!(r.err(), Some(RequestError::InvalidUri));
}

#[test]
fn query_is_appended_and_encoded() {
    let req = RequestBuilder::new(Method::Get, "http://localhost/search?x=0")
        .query(vec![("name".to_string(), "a b".to_string()), ("k".to_string(), "&".to_string())])
        .build()
        .unwrap();
    assert_eq!(req.path(), "/search");
    assert_eq!(
        req.query(),
        vec![
            ("x".to_string(), "0".to_string()),
            ("name".to_string(), "a b".to_string()),
            ("k".to_string(), "&".to_string()),
        ]
    );
}

#[test]
fn query_keeps_later_value() {
    let req = RequestBuilder::new(Method::Get, "http://localhost?name=ia&name=ib&z=1").build().unwrap();
    assert_eq!(
        req.query(),
        vec![("name".to_string(), "ib".to_string()), ("z".to_string(), "1".to_string())]
    );
}

#[test]
fn query_without_path() {
    let req = RequestBuilder::new(Method::Get, "http://localhost").query(vec![("a".to_string(), "b".to_string())]).build().unwrap();
    assert_eq!(req.query(), vec![("a".to_string(), "b".to_string())]);
    assert_eq!(req.path(), "/");
}

#[test]
fn request_headers_body_timeout() {
    let req = RequestBuilder::new(Method::Put, "http://localhost/x")
        .header("Accept", "*/*")
        .headers(vec![("X-A".to_string(), "1".to_string())])
        .body(b"data".to_vec())
        .connect_timeout(5_000_000_000)
        .build()
        .unwrap();
    assert_eq!(req.header("accept").map(|s| s.as_str()), Some("*/*"));
    assert_eq!(req.headers().len(), 2);
    assert!(req.chunk(4).is_none());
    assert_eq!(req.body(), b"data".to_vec());
    let e = RequestBuilder::new(Method::Get, "http://localhost").header("A", "\u{7f}").build().err();
    assert_eq!(e, Some(RequestError::Header(HeaderError::InvalidValue)));
}

#[test]
fn request_multipart_round_trip() {
    let form = Form::with_boundary("bnd".to_string()).text("key1".to_string(), b"Hello".to_vec());
    let req = RequestBuilder::new(Method::Post, "http://localhost").multipart(form).build().unwrap();
    assert_eq!(req.header("content-type").map(|s| s.as_str()), Some("multipart/form-data; boundary=bnd"));
    let parts = req.multipart().unwrap();
    assert_eq!(parts.get("key1").unwrap().value, b"Hello");
}

#[test]
fn other_method_and_new() {
    let req = Request::builder(Method::Other("PURGE".to_string()), "/cache").build().unwrap();
    assert_eq!(req.method(), Method::Other("PURGE".to_string()));
    assert_eq!(req.path(), "/cache");
    assert_eq!(req.authority(), &None);
}
