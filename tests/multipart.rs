use waki::media_type::MediaType;
use waki::multipart::parser::{parse, DecodeError};
use waki::multipart::{generate_random_string, Form, Part, PartError};

fn text_plain() -> MediaType {
    MediaType::parse("text/plain").unwrap()
}

#[test]
fn test_parse() {
    let data = b"--boundary\r\nContent-Disposition: form-data; name=field1\r\n\r\nvalue1\r\n--boundary\r\nContent-Disposition: form-data; name=field2; filename=file.txt\r\nContent-Type: text/plain\r\n\r\nhello\r\n--boundary--";

    let parts = parse(data, "boundary").unwrap();
    let field1 = parts.get("field1").unwrap();
    assert_eq!(field1.key, "field1");
    assert_eq!(field1.value, b"value1");
    assert_eq!(field1.filename, None);
    assert_eq!(field1.mime, None);
    assert_eq!(field1.headers.len(), 1);

    let field2 = parts.get("field2").unwrap();
    assert_eq!(field2.key, "field2");
    assert_eq!(field2.value, b"hello");
    assert_eq!(field2.filename, Some("file.txt".into()));
    assert_eq!(field2.mime, Some(text_plain()));
    assert_eq!(field2.headers.len(), 2);
}

const LITERAL: &[u8] = b"--boundary\r\nContent-Disposition: form-data; name=field1\r\n\r\nvalue1\r\n--boundary\r\nContent-Disposition: form-data; name=field2; filename=\"file.txt\"\r\nContent-Type: text/plain\r\n\r\nhello\r\n--boundary--";

fn literal_form() -> Form {
    Form::with_boundary("boundary".to_string())
        .text("field1".to_string(), b"value1".to_vec())
        .part(
            Part::new("field2".to_string(), b"hello".to_vec())
                .filename("file.txt".to_string())
                .mime_str("text/plain")
                .unwrap(),
        )
}

#[test]
fn encode_literal_scenario() {
    assert_eq!(literal_form().build(), LITERAL.to_vec());
}

#[test]
fn decode_literal_scenario() {
    let parts = parse(LITERAL, "boundary").unwrap();
    assert_eq!(parts.len(), 2);
    let f1 = parts.get("field1").unwrap();
    assert_eq!(f1.value, b"value1");
    assert_eq!(f1.filename, None);
    assert_eq!(f1.mime, None);
    let f2 = parts.get("field2").unwrap();
    assert_eq!(f2.value, b"hello");
    assert_eq!(f2.filename, Some("file.txt".to_string()));
    assert_eq!(f2.mime.as_ref().unwrap().as_str(), "text/plain");
}

#[test]
fn round_trip_keeps_fields() {
    let form = Form::with_boundary("XyZ123".to_string())
        .text("a".to_string(), b"first value".to_vec())
        .text("b".to_string(), Vec::new())
        .part(
            Part::new("c".to_string(), b"<html></html>".to_vec())
                .filename("page.html".to_string())
                .mime_str("text/html; charset=utf-8")
                .unwrap(),
        );
    let body = form.build();
    let parts = parse(&body, "XyZ123").unwrap();
    assert_eq!(parts.len(), 3);
    assert_eq!(parts.get("a").unwrap().value, b"first value");
    assert_eq!(parts.get("b").unwrap().value, b"");
    let c = parts.get("c").unwrap();
    assert_eq!(c.value, b"<html></html>");
    assert_eq!(c.filename, Some("page.html".to_string()));
    assert_eq!(c.mime, Some(MediaType::parse("text/html; charset=utf-8").unwrap()));
}

#[test]
fn missing_terminator_fails() {
    let body = b"--boundary\r\nContent-Disposition: form-data; name=field1\r\n\r\nvalue1\r\n";
    let r = parse(body, "boundary");
    assert!(matches!(r, Err(DecodeError::IncompleteBody) | Err(DecodeError::MissingBoundary)));
    let cut = &LITERAL[..LITERAL.len() - 2];
    let r = parse(cut, "boundary");
    assert!(matches!(r, Err(DecodeError::IncompleteBody) | Err(DecodeError::MissingBoundary)));
}

#[test]
fn missing_name_fails() {
    let body = b"--b\r\nContent-Disposition: form-data; filename=x.txt\r\n\r\nv\r\n--b--";
    assert!(matches!(parse(body, "b"), Err(DecodeError::MissingName)));
}

#[test]
fn later_part_wins() {
    let body = b"--b\r\nContent-Disposition: form-data; name=k\r\n\r\nfirst\r\n--b\r\nContent-Disposition: form-data; name=k\r\n\r\nsecond\r\n--b--";
    let parts = parse(body, "b").unwrap();
    assert_eq!(parts.len(), 1);
    assert_eq!(parts.get("k").unwrap().value, b"second");
}

#[test]
fn decoding_twice_gives_the_same() {
    let a = parse(LITERAL, "boundary").unwrap();
    let b = parse(LITERAL, "boundary").unwrap();
    assert_eq!(a.len(), b.len());
    for k in ["field1", "field2"] {
        assert_eq!(a.get(k), b.get(k));
    }
    let bad = b"--b\r\nno blank line";
    assert_eq!(parse(bad, "b").err(), parse(bad, "b").err());
}

#[test]
fn generated_boundaries_are_alphanumeric_and_distinct() {
    let mut seen = std::collections::HashSet::new();
    for _ in 0..200 {
        let s = generate_random_string(10);
        assert_eq!(s.len(), 10);
        assert!(s.chars().all(|c| c.is_ascii_alphanumeric()));
        assert!(seen.insert(s));
    }
    let f = Form::new();
    assert!(f.boundary().starts_with("--FormBoundary"));
    assert_eq!(f.boundary().len(), 24);
    assert!(f.boundary()[14..].chars().all(|c| c.is_ascii_alphanumeric()));
}

#[test]
fn missing_opening_boundary() {
    assert_eq!(parse(b"no delimiter here", "b").err(), Some(DecodeError::MissingBoundary));
    assert_eq!(parse(b"", "b").err(), Some(DecodeError::MissingBoundary));
}

#[test]
fn incomplete_headers() {
    let body = b"--b\r\nContent-Disposition: form-data; name=k\r\n";
    assert_eq!(parse(body, "b").err(), Some(DecodeError::IncompleteHeaders));
}

#[test]
fn malformed_header_syntax() {
    let body = b"--b\r\nnot a header line\r\n\r\nv\r\n--b--";
    assert_eq!(parse(body, "b").err(), Some(DecodeError::MalformedHeaderSyntax));
}

#[test]
fn non_utf8_header_value() {
    let body = b"--b\r\nX-Note: \xff\xfe\r\nContent-Disposition: form-data; name=k\r\n\r\nv\r\n--b--";
    assert_eq!(parse(body, "b").err(), Some(DecodeError::InvalidHeaderEncoding));
}

#[test]
fn bad_content_type() {
    let body = b"--b\r\nContent-Disposition: form-data; name=k\r\nContent-Type: nonsense\r\n\r\nv\r\n--b--";
    assert_eq!(parse(body, "b").err(), Some(DecodeError::InvalidHeaderEncoding));
}

#[test]
fn missing_value_delimiter() {
    let body = b"--b\r\nContent-Disposition: form-data; name=k\r\n\r\nvalue without end";
    assert_eq!(parse(body, "b").err(), Some(DecodeError::IncompleteBody));
}

#[test]
fn trailing_delimiter_without_two_bytes() {
    let body = b"--b\r\nContent-Disposition: form-data; name=k\r\n\r\nv\r\n--b";
    assert_eq!(parse(body, "b").err(), Some(DecodeError::IncompleteBody));
}

#[test]
fn header_names_fold_case() {
    let body = b"--b\r\ncontent-disposition: form-data; NAME=k; Filename=\"a b.txt\"\r\nCONTENT-TYPE: Text/Plain\r\n\r\nv\r\n--b--";
    let parts = parse(body, "b").unwrap();
    let k = parts.get("k").unwrap();
    assert_eq!(k.filename, Some("a b.txt".to_string()));
    assert_eq!(k.mime.as_ref().unwrap().as_str(), "text/plain");
}

#[test]
fn preamble_is_skipped() {
    let body = b"preamble text\r\n--b\r\nContent-Disposition: form-data; name=k\r\n\r\nv\r\n--b--";
    let parts = parse(body, "b").unwrap();
    assert_eq!(parts.get("k").unwrap().value, b"v");
    assert!(parts.get("other").is_none());
}

#[test]
fn part_builders() {
    let p = Part::new("k".to_string(), b"v".to_vec());
    assert_eq!(p.filename, None);
    assert!(p.headers.is_empty());
    assert_eq!(
        Part::new("k".to_string(), Vec::new()).mime_str("not a type").err(),
        Some(PartError::InvalidMediaType)
    );
    let p = Part::new("k".to_string(), Vec::new())
        .headers(vec![("X-Trace".to_string(), "1".to_string()), ("x-trace".to_string(), "2".to_string())])
        .unwrap();
    assert_eq!(p.headers, vec![("x-trace".to_string(), "2".to_string())]);
    assert_eq!(
        Part::new("k".to_string(), Vec::new())
            .headers(vec![("X".to_string(), "bad\nvalue".to_string())])
            .err(),
        Some(PartError::InvalidHeaderValue)
    );
    assert_eq!(
        Part::new("k".to_string(), Vec::new())
            .headers(vec![("bad name".to_string(), "v".to_string())])
            .err(),
        Some(PartError::InvalidHeaderName)
    );
}

#[test]
fn extra_headers_are_encoded() {
    let form = Form::with_boundary("b".to_string()).part(
        Part::new("k".to_string(), b"v".to_vec())
            .headers(vec![("X-Trace".to_string(), "7".to_string())])
            .unwrap(),
    );
    assert_eq!(
        form.build(),
        b"--b\r\nContent-Disposition: form-data; name=k\r\nx-trace: 7\r\n\r\nv\r\n--b--".to_vec()
    );
}

#[test]
fn empty_form_is_only_terminator() {
    assert_eq!(Form::with_boundary("b".to_string()).build(), b"--b--".to_vec());
}

#[test]
fn file_part_infers_type_and_name() {
    let p = Part::file("doc".to_string(), "dir/notes.txt", b"hi".to_vec());
    assert_eq!(p.filename, Some("notes.txt".to_string()));
    assert_eq!(p.mime.as_ref().unwrap().as_str(), "text/plain");
    assert_eq!(p.value, b"hi");
    let q = Part::file("blob".to_string(), "data.unknownext", Vec::new());
    assert_eq!(q.mime.as_ref().unwrap().as_str(), "application/octet-stream");
    let f = Form::with_boundary("b".to_string()).file("doc".to_string(), "x.json", b"{}".to_vec());
    let body = f.build();
    let parts = parse(&body, "b").unwrap();
    assert_eq!(parts.get("doc").unwrap().mime.as_ref().unwrap().as_str(), "application/json");
}

#[test]
fn media_type_params() {
    let m = MediaType::parse("text/plain; Charset=UTF-8; x=\"q v\"").unwrap();
    assert_eq!(m.get_param("charset").map(|s| s.as_str()), Some("utf-8"));
    assert_eq!(m.get_param("X").map(|s| s.as_str()), Some("q v"));
    assert!(m.get_param("missing").is_none());
    assert!(MediaType::parse("plain").is_none());
}
