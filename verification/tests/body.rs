use simple_hyper_client::blocking::body::{drive_chunks, read_all, ChunkItem};
use simple_hyper_client::blocking::{Body, BodyError};

fn ok(bytes: &[u8]) -> ChunkItem {
    Ok(bytes.to_vec())
}

fn fail(message: &str) -> ChunkItem {
    Err(BodyError { message: message.to_owned() })
}

/// Feed the forwarded items of `chunks` into a channel and hand back the
/// reading end, as the driving task would after the stream ended.
fn body_from_chunks(chunks: Vec<ChunkItem>) -> Body {
    let forwarded = drive_chunks(chunks);
    let (tx, rx) = tokio::sync::mpsc::channel(forwarded.len() + 1);
    for item in forwarded {
        tx.try_send(item).unwrap();
    }
    drop(tx);
    Body::new(rx)
}

fn read_to_end(body: &mut Body) -> Result<Vec<u8>, BodyError> {
    let mut bytes = Vec::new();
    loop {
        let chunk = body.read(8192)?;
        if chunk.is_empty() {
            return Ok(bytes);
        }
        bytes.extend_from_slice(&chunk);
    }
}

#[test]
fn single_chunk() {
    let mut reader = body_from_chunks(vec![ok(b"hello, world!")]);
    let bytes = read_to_end(&mut reader).unwrap();
    assert_eq!(bytes, b"hello, world!");
}

#[test]
fn multiple_chunks() {
    let mut reader = body_from_chunks(vec![ok(b"hello"), ok(b", "), ok(b"world!")]);
    let bytes = read_to_end(&mut reader).unwrap();
    assert_eq!(bytes, b"hello, world!");
}

#[test]
fn with_empty_chunk() {
    let mut reader = body_from_chunks(vec![ok(b"hello"), ok(b""), ok(b", world!")]);
    let bytes = read_to_end(&mut reader).unwrap();
    assert_eq!(bytes, b"hello, world!");
}

#[test]
fn hyper_error() {
    let mut reader =
        body_from_chunks(vec![ok(b"hello"), ok(b" "), ok(b"world"), fail("broken pipe")]);

    let mut bytes = Vec::new();
    let err = loop {
        match reader.read(8192) {
            Ok(chunk) => {
                assert!(!chunk.is_empty(), "stream ended before the error was delivered");
                bytes.extend_from_slice(&chunk);
            }
            Err(e) => break e,
        }
    };
    assert_eq!(err.message, "broken pipe");
    assert_eq!(bytes, b"hello world");

    let n = reader.read(8).unwrap();
    assert_eq!(n.len(), 0);
}

#[test]
fn driver_drops_empty_chunks_only() {
    let forwarded = drive_chunks(vec![ok(b""), ok(b"a"), ok(b""), ok(b"bc"), ok(b"")]);
    assert_eq!(forwarded.len(), 2);
    assert_eq!(forwarded[0].as_ref().unwrap(), &b"a".to_vec());
    assert_eq!(forwarded[1].as_ref().unwrap(), &b"bc".to_vec());
}

#[test]
fn driver_stops_at_first_error() {
    let forwarded = drive_chunks(vec![ok(b"a"), fail("boom"), ok(b"b"), fail("later")]);
    assert_eq!(forwarded.len(), 2);
    assert_eq!(forwarded[0].as_ref().unwrap(), &b"a".to_vec());
    assert_eq!(forwarded[1].as_ref().unwrap_err().message, "boom");
}

#[test]
fn read_all_concatenates() {
    let (bytes, err) = read_all(drive_chunks(vec![ok(b"ab"), ok(b""), ok(b"cd")]));
    assert_eq!(bytes, b"abcd");
    assert!(err.is_none());
}

#[test]
fn read_all_reports_error_after_bytes() {
    let (bytes, err) = read_all(drive_chunks(vec![ok(b"abc"), fail("cut")]));
    assert_eq!(bytes, b"abc");
    assert_eq!(err.unwrap().message, "cut");
}

#[test]
fn reader_serves_buffered_bytes_in_parts() {
    let mut reader = body_from_chunks(vec![ok(b"abcdef")]);
    assert_eq!(reader.read(2).unwrap(), b"ab");
    assert_eq!(reader.read(3).unwrap(), b"cde");
    assert_eq!(reader.read(10).unwrap(), b"f");
    assert_eq!(reader.read(10).unwrap(), b"");
}
