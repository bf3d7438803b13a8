use image_tags::error::TagError;
use image_tags::file_info::{file_info, get_file_info, ImageFacts};
use std::io::Write;
use tempfile::TempDir;

const TEST_IMAGE_WIDTH: u32 = 2;
const TEST_IMAGE_HEIGHT: u32 = 3;
const TEST_IMAGE_SIZE: u64 = 69;

fn setup_info_dir() -> TempDir {
    TempDir::new().expect("Failed to create temp dir")
}

fn create_file(dir: &TempDir, name: &str, content: &[u8]) -> tempfile::NamedTempFile {
    let mut file = tempfile::Builder::new()
        .prefix(name)
        .suffix("")
        .rand_bytes(0)
        .tempfile_in(dir.path())
        .expect("Failed to create test file");
    file.write_all(content).expect("Failed to create test file");
    file.flush().expect("Failed to create test file");
    file
}

fn create_test_image(dir: &TempDir, name: &str) -> tempfile::NamedTempFile {
    let png_data = [
        0x89, 0x50, 0x4E, 0x47, 0x0D, 0x0A, 0x1A, 0x0A, // PNG signature
        0x00, 0x00, 0x00, 0x0D, // IHDR chunk length
        0x49, 0x48, 0x44, 0x52, // IHDR chunk type
        0x00, 0x00, 0x00, 0x02, // Width (2)
        0x00, 0x00, 0x00, 0x03, // Height (3)
        0x08, 0x02, 0x00, 0x00, 0x00, // Bit depth, color type, compression, filter, interlace
        0x12, 0x16, 0xF1, 0x4D, // CRC
        0x00, 0x00, 0x00, 0x0C, // IDAT chunk length
        0x49, 0x44, 0x41, 0x54, // IDAT chunk type
        0x08, 0x99, 0x01, 0x01, 0x00, 0x00, 0x00, 0xFF, 0xFF, 0x00, 0x00, 0x00, // Image data
        0x02, 0x00, 0x01, 0x00, // CRC
        0x00, 0x00, 0x00, 0x00, // IEND chunk length
        0x49, 0x45, 0x4E, 0x44, // IEND chunk type
        0xAE, 0x42, 0x60, 0x82, // CRC
    ];
    create_file(dir, name, &png_data)
}

#[test]
fn test_get_file_info_success() {
    let temp_dir = setup_info_dir();
    let test_file = create_test_image(&temp_dir, "test.png");

    let result = get_file_info(test_file.path().to_str().unwrap().to_string());

    assert!(result.is_ok());
    let file_info = result.unwrap();
    assert_eq!(file_info.size, TEST_IMAGE_SIZE);
    assert_eq!(file_info.width, TEST_IMAGE_WIDTH);
    assert_eq!(file_info.height, TEST_IMAGE_HEIGHT);
}

#[test]
fn test_get_file_info_nonexistent_file() {
    let result = get_file_info("/nonexistent/file.png".to_string());

    assert!(result.is_err());
    assert!(result.unwrap_err().message().contains("does not exist"));
}

#[test]
fn test_get_file_info_directory_instead_of_file() {
    let temp_dir = setup_info_dir();
    let dir_path = temp_dir.path().to_str().unwrap().to_string();

    let result = get_file_info(dir_path);

    assert!(result.is_err());
    assert!(result.unwrap_err().message().contains("is not a file"));
}

#[test]
fn test_get_file_info_invalid_image() {
    let temp_dir = setup_info_dir();
    let test_file = create_file(&temp_dir, "test.txt", b"This is not an image");

    let result = get_file_info(test_file.path().to_str().unwrap().to_string());

    assert!(result.is_err());
    assert!(result
        .unwrap_err()
        .message()
        .contains("Failed to get image dimensions"));
}

#[test]
fn test_get_file_info_file_size_consistency() {
    let temp_dir = setup_info_dir();
    let test_file = create_test_image(&temp_dir, "test.png");

    let result = get_file_info(test_file.path().to_str().unwrap().to_string());

    assert!(result.is_ok());
    let file_info = result.unwrap();

    assert_eq!(file_info.size, TEST_IMAGE_SIZE);
    assert_eq!(file_info.width, TEST_IMAGE_WIDTH);
    assert_eq!(file_info.height, TEST_IMAGE_HEIGHT);
}

#[test]
fn test_get_file_info_with_different_extensions() {
    let temp_dir = setup_info_dir();

    let extensions = ["test.png", "test.jpg", "test.jpeg", "test.gif", "test.webp"];

    for ext in extensions.iter() {
        let test_file = create_test_image(&temp_dir, ext);

        let result = get_file_info(test_file.path().to_str().unwrap().to_string());

        assert!(result.is_ok(), "Failed for extension: {}", ext);

        let file_info = result.unwrap();
        assert_eq!(file_info.width, TEST_IMAGE_WIDTH, "Width mismatch for {}", ext);
        assert_eq!(file_info.height, TEST_IMAGE_HEIGHT, "Height mismatch for {}", ext);
        assert_eq!(file_info.size, TEST_IMAGE_SIZE, "Size mismatch for {}", ext);
    }
}

#[test]
fn file_info_goes_through_the_checks_in_order() {
    let facts = |exists, is_file, size: Result<u64, &str>, dimensions: Result<(usize, usize), &str>| ImageFacts {
        exists,
        is_file,
        size: size.map_err(|e| e.to_string()),
        dimensions: dimensions.map_err(|e| e.to_string()),
    };

    let result = file_info("p.png", facts(false, false, Err("a"), Err("b")));
    assert!(matches!(result, Err(TagError::NotFound(p)) if p == "p.png"));

    let result = file_info("p.png", facts(true, false, Ok(1), Ok((1, 1))));
    assert!(matches!(result, Err(TagError::NotAFile(p)) if p == "p.png"));

    let result = file_info("p.png", facts(true, true, Err("denied"), Err("bad")));
    assert_eq!(result.unwrap_err().message(), "Failed to get file metadata: denied");

    let result = file_info("p.png", facts(true, true, Ok(7), Err("bad")));
    assert_eq!(result.unwrap_err().message(), "Failed to get image dimensions: bad");

    let info = file_info("p.png", facts(true, true, Ok(7), Ok((640, 480)))).unwrap();
    assert_eq!((info.size, info.width, info.height), (7, 640, 480));
}

#[test]
fn width_and_height_keep_their_lower_32_bits() {
    let wide = (u32::MAX as usize).wrapping_add(6);
    let facts = ImageFacts { exists: true, is_file: true, size: Ok(1), dimensions: Ok((wide, u32::MAX as usize)) };

    let info = file_info("p.png", facts).unwrap();

    assert_eq!(info.width, wide as u32);
    assert_eq!(info.height, u32::MAX);
}

#[test]
fn a_file_that_cannot_be_measured_still_tells_why() {
    let temp_dir = setup_info_dir();
    let empty = create_file(&temp_dir, "empty.png", b"");

    let result = get_file_info(empty.path().to_str().unwrap().to_string());

    let text = result.unwrap_err().message();
    assert!(text.starts_with("Failed to get image dimensions: "), "{}", text);
    assert!(text.len() > "Failed to get image dimensions: ".len());
}

#[test]
fn what_is_no_regular_file_is_not_probed() {
    let temp_dir = setup_info_dir();
    let dir_path = temp_dir.path().to_str().unwrap().to_string();

    assert!(matches!(get_file_info(dir_path.clone()), Err(TagError::NotAFile(p)) if p == dir_path));
    let missing = temp_dir.path().join("missing.png").to_str().unwrap().to_string();
    assert!(matches!(get_file_info(missing.clone()), Err(TagError::NotFound(p)) if p == missing));
}
