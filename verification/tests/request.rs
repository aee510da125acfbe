use hyper::Uri;
use simple_hyper_client::{Error, Method, RequestDetails, SharedBody};

#[test]
fn body_not_allowed_for_get_head_delete() {
    for method in [Method::Get, Method::Head, Method::Delete] {
        let mut details = RequestDetails::new(method, Uri::from_static("http://example.com/"));
        details.set_body(SharedBody::from_static(b"payload"));
        match details.into_request() {
            Err(Error::BodyNotAllowed(m)) => assert_eq!(m, method),
            _ => panic!("expected a body-not-allowed error"),
        }
    }
}

#[test]
fn get_without_body_passes_through() {
    let details = RequestDetails::new(Method::Get, Uri::from_static("http://example.com/"));
    let req = details.into_request().unwrap();
    assert_eq!(req.method, Method::Get);
    assert_eq!(req.body.len(), 0);
    assert_eq!(req.headers.len(), 0);
    assert!(req.headers.get("content-length").is_none());
}

#[test]
fn absent_body_normalized_to_empty_with_zero_length() {
    let details = RequestDetails::new(Method::Post, Uri::from_static("http://example.com/"));
    let req = details.into_request().unwrap();
    assert_eq!(req.body.len(), 0);
    assert_eq!(req.headers.get("content-length").unwrap(), b"0");
}

#[test]
fn content_length_equals_body_length() {
    for n in [0usize, 1, 13, 255, 1000] {
        let mut details = RequestDetails::new(Method::Put, Uri::from_static("http://example.com/"));
        details.set_body(SharedBody::from_vec(vec![7u8; n]));
        let req = details.into_request().unwrap();
        assert_eq!(req.body.len(), n);
        assert_eq!(req.headers.get("content-length").unwrap(), n.to_string().as_bytes());
    }
}

#[test]
fn content_length_replaces_stale_value() {
    let mut details = RequestDetails::new(Method::Post, Uri::from_static("http://example.com/"));
    details.insert_header("content-length".to_owned(), b"999".to_vec());
    details.insert_header("accept".to_owned(), b"*/*".to_vec());
    details.set_body(SharedBody::from_static(b"hi"));
    let req = details.into_request().unwrap();
    assert_eq!(req.headers.len(), 2);
    assert_eq!(req.headers.get("content-length").unwrap(), b"2");
    assert_eq!(req.headers.get("accept").unwrap(), b"*/*");
}

#[test]
fn methods_allowing_bodies() {
    assert!(!Method::Get.allows_body());
    assert!(!Method::Head.allows_body());
    assert!(!Method::Delete.allows_body());
    assert!(Method::Post.allows_body());
    assert!(Method::Patch.allows_body());
    assert!(Method::Put.allows_body());
}

#[test]
fn error_messages() {
    let err = Error::BodyNotAllowed(Method::Get);
    assert_eq!(err.message(), "GET requests are not allowed to have a body");
    let err = Error::Hyper("peer reset".to_owned());
    assert_eq!(err.message(), "peer reset");
    let err = Error::Http("invalid uri".to_owned());
    assert_eq!(err.message(), "invalid uri");
}
