use simple_hyper_client::{ClientBuilder, SharedBody};
use std::sync::Arc;

#[test]
fn empty_body_has_no_buffer() {
    let mut body = SharedBody::empty();
    assert_eq!(body.len(), 0);
    assert!(body.take_buf().is_none());
}

#[test]
fn default_body_is_empty() {
    let body = SharedBody::default();
    assert_eq!(body.len(), 0);
}

#[test]
fn body_from_vec_hands_over_once() {
    let mut body = SharedBody::from_vec(b"hello".to_vec());
    assert_eq!(body.len(), 5);
    let buf = body.take_buf().unwrap();
    assert_eq!(buf.remaining(), 5);
    assert_eq!(buf.remaining_to_vec(), b"hello");
    assert_eq!(body.len(), 0);
    assert!(body.take_buf().is_none());
}

#[test]
fn body_from_empty_vec_still_hands_over() {
    let mut body = SharedBody::from_vec(Vec::new());
    assert_eq!(body.len(), 0);
    let buf = body.take_buf().unwrap();
    assert_eq!(buf.remaining(), 0);
}

#[test]
fn body_from_static_and_string() {
    let body = SharedBody::from_static(b"abc");
    assert_eq!(body.len(), 3);
    let body = SharedBody::from_string("hi there".to_owned());
    assert_eq!(body.len(), 8);
}

#[test]
fn body_shares_one_arc() {
    let buf = Arc::new(b"shared".to_vec());
    let a = SharedBody::from_arc(buf.clone());
    let b = a.clone();
    assert_eq!(a.len(), 6);
    assert_eq!(b.len(), 6);
    assert_eq!(Arc::strong_count(&buf), 3);
}

#[test]
fn buf_advance_clamps() {
    let mut body = SharedBody::from_static(b"abcdef");
    let mut buf = body.take_buf().unwrap();
    buf.advance(2);
    assert_eq!(buf.remaining(), 4);
    assert_eq!(buf.byte_at(0), b'c');
    assert_eq!(buf.remaining_to_vec(), b"cdef");
    buf.advance(100);
    assert_eq!(buf.remaining(), 0);
    assert_eq!(buf.len(), 6);
}

#[test]
fn builder_defaults_and_setters() {
    let mut b = ClientBuilder::new();
    assert_eq!(b.max_idle(), usize::MAX);
    assert_eq!(b.idle_timeout(), Some(90_000));
    b.pool_max_idle_per_host(4).pool_idle_timeout(None);
    assert_eq!(b.max_idle(), 4);
    assert_eq!(b.idle_timeout(), None);
}

#[test]
fn blocking_builder_mirrors_async_builder() {
    let mut b = simple_hyper_client::blocking::ClientBuilder::new();
    b.pool_max_idle_per_host(2).pool_idle_timeout(Some(1_000));
    let inner = b.as_async_builder();
    assert_eq!(inner.max_idle(), 2);
    assert_eq!(inner.idle_timeout(), Some(1_000));
}
