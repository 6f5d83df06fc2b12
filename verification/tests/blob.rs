use bytes::Bytes;
use mssql_client::blob::BlobReader;

#[test]
fn test_blob_reader_creation() {
    let data = Bytes::from_static(b"Hello, World!");
    let reader = BlobReader::from_bytes(data);
    assert_eq!(reader.len(), Some(13));
    assert!(!reader.is_empty());
    assert_eq!(reader.bytes_read(), 0);
    assert_eq!(reader.remaining(), Some(13));
}

#[test]
fn test_blob_reader_empty() {
    let reader = BlobReader::empty();
    assert_eq!(reader.len(), Some(0));
    assert!(reader.is_empty());
    assert!(reader.is_exhausted());
}

#[test]
fn test_blob_reader_from_slice() {
    let reader = BlobReader::from_slice(b"test data");
    assert_eq!(reader.len(), Some(9));
    assert_eq!(reader.as_bytes().as_ref(), b"test data");
}

#[test]
fn test_blob_reader_read_all() {
    let mut reader = BlobReader::from_bytes(Bytes::from_static(b"Hello, World!"));
    let output = reader.read_up_to(usize::MAX);
    assert_eq!(output, b"Hello, World!");
    assert_eq!(reader.bytes_read(), 13);
    assert!(reader.is_exhausted());
}

#[test]
fn test_blob_reader_read_chunked() {
    let mut reader = BlobReader::from_bytes(Bytes::from_static(b"0123456789ABCDEF"));
    assert_eq!(reader.read_up_to(4), b"0123");
    assert_eq!(reader.bytes_read(), 4);
    assert_eq!(reader.read_up_to(4), b"4567");
    assert_eq!(reader.bytes_read(), 8);
    assert_eq!(reader.read_up_to(100), b"89ABCDEF");
    assert!(reader.is_exhausted());
}

#[test]
fn test_blob_reader_empty_read() {
    let mut reader = BlobReader::empty();
    assert!(reader.read_up_to(10).is_empty());
}

#[test]
fn test_blob_reader_rewind() {
    let mut reader = BlobReader::from_bytes(Bytes::from_static(b"test"));
    let _ = reader.read_up_to(4);
    assert!(reader.is_exhausted());
    reader.rewind();
    assert_eq!(reader.bytes_read(), 0);
    assert!(!reader.is_exhausted());
}

#[test]
fn test_blob_reader_into_bytes() {
    let data = Bytes::from_static(b"Hello");
    let reader = BlobReader::from_bytes(data.clone());
    assert_eq!(reader.into_bytes(), data);
}

#[test]
fn test_blob_reader_unread_slice() {
    let mut reader = BlobReader::from_bytes(Bytes::from_static(b"Hello"));
    assert_eq!(reader.unread_slice(), b"Hello");
    let _ = reader.read_up_to(2);
    assert_eq!(reader.unread_slice(), b"llo");
    assert_eq!(reader.remaining(), Some(3));
}

#[test]
fn test_blob_reader_clone() {
    let mut source = BlobReader::from_bytes(Bytes::from_static(b"test"));
    let _ = source.read_up_to(2);
    let cloned = source.clone();
    assert_eq!(cloned.bytes_read(), 0);
    assert_eq!(source.bytes_read(), 2);
    assert_eq!(cloned.len(), Some(4));
}

#[test]
fn chunked_reads_concatenate() {
    let data: Vec<u8> = (0..=255).collect();
    let mut reader = BlobReader::from_slice(&data);
    let mut out = Vec::new();
    loop {
        let chunk = reader.read_up_to(7);
        if chunk.is_empty() {
            break;
        }
        out.extend_from_slice(&chunk);
    }
    assert_eq!(out, data);
    assert!(BlobReader::default().is_empty());
}

#[test]
fn test_blob_reader_from_conversions() {
    let from_vec: BlobReader = vec![1u8, 2, 3].into();
    assert_eq!(from_vec.len(), Some(3));

    let from_slice: BlobReader = b"hello".as_slice().into();
    assert_eq!(from_slice.len(), Some(5));

    let from_str: BlobReader = "world".into();
    assert_eq!(from_str.len(), Some(5));

    let from_string: BlobReader = String::from("test").into();
    assert_eq!(from_string.len(), Some(4));
}

#[test]
fn blob_reader_from_bytes_keeps_every_byte() {
    let from_bytes: BlobReader = Bytes::from_static(b"abc").into();
    assert_eq!(from_bytes.len(), Some(3));
    assert_eq!(from_bytes.remaining(), Some(3));
}

#[test]
fn test_blob_reader_debug() {
    let reader = BlobReader::from_bytes(Bytes::from_static(b"test"));
    let debug = reader.debug_text();

    assert!(debug.contains("BlobReader"));
    assert!(debug.contains("total_len"));
    assert!(debug.contains("position"));
    assert_eq!(debug, "BlobReader { total_len: 4, position: 0, remaining: Some(4) }");
    assert!(format!("{:?}", reader).contains("BlobReader"));
}
