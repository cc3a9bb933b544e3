use deplorable::http::{Headers, Response, StatusCode};

fn fields(pairs: &[(&str, &str)]) -> Vec<(Vec<u8>, Vec<u8>)> {
    pairs.iter().map(|(name, value)| (name.as_bytes().to_vec(), value.as_bytes().to_vec())).collect()
}

#[test]
fn status_codes_have_their_numbers() {
    assert_eq!(StatusCode::Success.as_u16(), 200);
    assert_eq!(StatusCode::BadRequest.as_u16(), 400);
    assert_eq!(StatusCode::Unauthorized.as_u16(), 401);
    assert_eq!(StatusCode::NotFound.as_u16(), 404);
}

#[test]
fn status_codes_have_their_reasons() {
    assert_eq!(StatusCode::Success.canonical_reason(), "OK");
    assert_eq!(StatusCode::BadRequest.canonical_reason(), "Bad Request");
    assert_eq!(StatusCode::Unauthorized.canonical_reason(), "Unauthorized");
    assert_eq!(StatusCode::NotFound.canonical_reason(), "Not Found");
}

#[test]
fn headers_are_found_whatever_the_case() {
    let headers = Headers::parse(&fields(&[("Content-Length", "12"), ("X-GitHub-Event", "push")]));
    assert_eq!(headers.get("content-length"), Some(&b"12".to_vec()));
    assert_eq!(headers.get("CONTENT-LENGTH"), Some(&b"12".to_vec()));
    assert_eq!(headers.get("x-github-event"), Some(&b"push".to_vec()));
    assert_eq!(headers.get("X-Github-Event"), Some(&b"push".to_vec()));
}

#[test]
fn headers_that_are_absent_are_not_found() {
    let headers = Headers::parse(&fields(&[("Host", "example.org")]));
    assert_eq!(headers.get("x-hub-signature"), None);
    assert_eq!(headers.get(""), None);
    assert_eq!(headers.get("hos"), None);
    let none = Headers::parse(&[]);
    assert_eq!(none.get("host"), None);
    assert_eq!(none.len(), 0);
}

#[test]
fn the_last_field_of_a_name_counts() {
    let headers = Headers::parse(&fields(&[("X-Test", "one"), ("Other", "x"), ("x-test", "two")]));
    assert_eq!(headers.get("X-TEST"), Some(&b"two".to_vec()));
    assert_eq!(headers.len(), 3);
}

#[test]
fn header_values_keep_their_bytes() {
    let raw = vec![(b"X-Raw".to_vec(), vec![0xff, 0x00, b'A'])];
    let headers = Headers::parse(&raw);
    assert_eq!(headers.get("x-raw"), Some(&vec![0xff, 0x00, b'A']));
}

#[test]
fn fields_are_kept_in_order_with_small_names() {
    let headers = Headers::parse(&fields(&[("B-Two", "2"), ("A-One", "1")]));
    assert_eq!(headers.field(0), (&b"b-two"[..], &b"2"[..]));
    assert_eq!(headers.field(1), (&b"a-one"[..], &b"1"[..]));
}

#[test]
fn an_empty_response_has_no_body() {
    let response = Response::empty(StatusCode::NotFound);
    assert_eq!(response.status, StatusCode::NotFound);
    assert_eq!(response.headers.len(), 0);
    assert!(response.body.is_empty());
}

#[test]
fn a_response_with_body_keeps_it() {
    let response = Response::with_body(StatusCode::Success, bytes::Bytes::from_static(b"hello"));
    assert_eq!(response.status, StatusCode::Success);
    assert_eq!(response.headers.len(), 0);
    assert_eq!(&response.body[..], b"hello");
}
