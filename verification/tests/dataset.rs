use feedforward::parse_images;
use feedforward::parse_labels;
use feedforward::DatasetError;
use feedforward::Shape;

fn image_archive(count: u32, w: u32, h: u32, pixels: &[u8]) -> Vec<u8> {
    let mut bytes = Vec::new();
    bytes.extend_from_slice(&2051u32.to_be_bytes());
    bytes.extend_from_slice(&count.to_be_bytes());
    bytes.extend_from_slice(&w.to_be_bytes());
    bytes.extend_from_slice(&h.to_be_bytes());
    bytes.extend_from_slice(pixels);
    bytes
}

fn label_archive(count: u32, labels: &[u8]) -> Vec<u8> {
    let mut bytes = Vec::new();
    bytes.extend_from_slice(&2049u32.to_be_bytes());
    bytes.extend_from_slice(&count.to_be_bytes());
    bytes.extend_from_slice(labels);
    bytes
}

#[test]
fn parses_two_images() {
    let pixels: Vec<u8> = (1..=12).collect();
    let set = parse_images(&image_archive(2, 2, 3, &pixels)).unwrap();
    assert_eq!(set.shape, Shape::new(2, 3));
    assert_eq!(set.images.len(), 2);
    assert_eq!(set.images[0], (1..=6).collect::<Vec<u8>>());
    assert_eq!(set.images[1], (7..=12).collect::<Vec<u8>>());
}

#[test]
fn parses_empty_image_archive() {
    let set = parse_images(&image_archive(0, 28, 28, &[])).unwrap();
    assert_eq!(set.shape, Shape::new(28, 28));
    assert_eq!(set.images.len(), 0);
}

#[test]
fn rejects_wrong_image_magic() {
    let mut bytes = image_archive(1, 1, 1, &[9]);
    bytes[3] = 0;
    assert!(matches!(
        parse_images(&bytes),
        Err(DatasetError::WrongMagic { found: 2048 })
    ));
}

#[test]
fn rejects_truncated_image_archive() {
    assert!(matches!(
        parse_images(&vec![0; 15]),
        Err(DatasetError::Truncated)
    ));
    let pixels: Vec<u8> = vec![1, 2, 3, 4, 5];
    // Two 2x3 images need 12 pixel bytes; five are not enough.
    assert!(matches!(
        parse_images(&image_archive(2, 2, 3, &pixels)),
        Err(DatasetError::Truncated)
    ));
}

#[test]
fn parses_labels() {
    assert_eq!(
        parse_labels(&label_archive(3, &[7, 1, 2])).unwrap(),
        vec![7, 1, 2]
    );
}

#[test]
fn rejects_wrong_label_magic() {
    let mut bytes = label_archive(1, &[5]);
    bytes[3] = 7;
    assert_eq!(
        parse_labels(&bytes),
        Err(DatasetError::WrongMagic { found: 2055 })
    );
}

#[test]
fn rejects_truncated_label_archive() {
    assert_eq!(parse_labels(&vec![0; 7]), Err(DatasetError::Truncated));
    assert_eq!(
        parse_labels(&label_archive(4, &[1, 2])),
        Err(DatasetError::Truncated)
    );
}
