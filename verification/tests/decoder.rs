use mnist_viewer::ViewerError;
use mnist_viewer::decoder::decode_images;
use mnist_viewer::decoder::decode_labels;

fn be(word: u32) -> [u8; 4] {
    [
        (word >> 24) as u8,
        (word >> 16) as u8,
        (word >> 8) as u8,
        word as u8,
    ]
}

fn images_file(magic: u32, count: u32, rows: u32, cols: u32, body: &[u8]) -> Vec<u8> {
    let mut bytes: Vec<u8> = Vec::new();
    bytes.extend_from_slice(&be(magic));
    bytes.extend_from_slice(&be(count));
    bytes.extend_from_slice(&be(rows));
    bytes.extend_from_slice(&be(cols));
    bytes.extend_from_slice(body);
    bytes
}

fn labels_file(magic: u32, count: u32, body: &[u8]) -> Vec<u8> {
    let mut bytes: Vec<u8> = Vec::new();
    bytes.extend_from_slice(&be(magic));
    bytes.extend_from_slice(&be(count));
    bytes.extend_from_slice(body);
    bytes
}

#[test]
fn decode_images_returns_declared_count() {
    let mut body: Vec<u8> = Vec::new();
    for i in 0..(2 * 784) {
        body.push((i % 251) as u8);
    }
    let bytes = images_file(2051, 2, 28, 28, &body);
    let imgs = decode_images(&bytes).unwrap();
    assert_eq!(imgs.len(), 2);
    for (k, img) in imgs.iter().enumerate() {
        assert_eq!(img.pixels.len(), 784);
        assert_eq!(&img.pixels[..], &body[k * 784..(k + 1) * 784]);
    }
}

#[test]
fn decode_images_rejects_bad_magic() {
    let bytes = images_file(2052, 0, 28, 28, &[]);
    assert_eq!(decode_images(&bytes), Err(ViewerError::FormatError));
}

#[test]
fn decode_images_rejects_short_magic() {
    let bytes: Vec<u8> = vec![0, 0, 8];
    assert_eq!(decode_images(&bytes), Err(ViewerError::FormatError));
}

#[test]
fn decode_images_rejects_wrong_dims() {
    let bytes = images_file(2051, 0, 14, 56, &[]);
    assert_eq!(decode_images(&bytes), Err(ViewerError::FormatError));
}

#[test]
fn decode_images_rejects_truncated_body() {
    let body = vec![5u8; 2 * 784 - 1];
    let bytes = images_file(2051, 2, 28, 28, &body);
    assert_eq!(decode_images(&bytes), Err(ViewerError::TruncationError));
}

#[test]
fn decode_images_rejects_truncated_header() {
    let mut bytes = images_file(2051, 1, 28, 28, &[]);
    bytes.truncate(12);
    assert_eq!(decode_images(&bytes), Err(ViewerError::TruncationError));
}

#[test]
fn decode_images_accepts_empty_dataset() {
    let bytes = images_file(2051, 0, 28, 28, &[]);
    let imgs = decode_images(&bytes).unwrap();
    assert_eq!(imgs.len(), 0);
}

#[test]
fn decode_labels_returns_all_bytes_unchanged() {
    let body: Vec<u8> = vec![0, 1, 2, 3, 4, 5, 6, 7, 8, 9, 3, 7];
    let bytes = labels_file(2049, body.len() as u32, &body);
    let labels = decode_labels(&bytes).unwrap();
    assert_eq!(labels.len(), bytes.len() - 8);
    assert_eq!(labels, body);
}

#[test]
fn decode_labels_rejects_bad_magic() {
    let bytes = labels_file(2051, 2, &[1, 2]);
    assert_eq!(decode_labels(&bytes), Err(ViewerError::FormatError));
}

#[test]
fn decode_labels_rejects_truncated_header() {
    let mut bytes = labels_file(2049, 0, &[]);
    bytes.truncate(6);
    assert_eq!(decode_labels(&bytes), Err(ViewerError::TruncationError));
}
