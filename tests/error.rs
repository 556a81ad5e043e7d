use merge_images_engine::MergeError;

#[test]
fn test_error_display_no_images() {
    let err = MergeError::NoImages;
    assert_eq!(err.message(), "No images provided");
    assert_eq!(err.code(), "NO_IMAGES");
}

#[test]
fn test_error_display_decode() {
    let err = MergeError::DecodeError {
        index: 2,
        file_name: Some("photo.jpg".to_string()),
        message: "invalid PNG header".to_string(),
    };
    assert!(err.message().contains("index 2"));
    assert!(err.message().contains("invalid PNG header"));
    assert!(err.message().contains("photo.jpg"));
    assert_eq!(err.code(), "DECODE_FAILED");
}

#[test]
fn test_error_display_decode_no_filename() {
    let err = MergeError::DecodeError { index: 2, file_name: None, message: "invalid PNG header".to_string() };
    assert!(err.message().contains("index 2"));
    assert!(!err.message().contains("file:"));
    assert_eq!(err.code(), "DECODE_FAILED");
}

#[test]
fn test_error_display_too_large() {
    let err = MergeError::TooLarge { width: 10000, height: 20000, pixels: 200_000_000, max: 16_000_000 };
    assert!(err.message().contains("10000x20000"));
    assert!(err.message().contains("200000000"));
    assert!(err.message().contains("16000000"));
    assert_eq!(err.code(), "TOO_LARGE");
}

#[test]
fn test_error_display_encode() {
    let err = MergeError::EncodeError { message: "PNG write failed".to_string() };
    assert!(err.message().contains("PNG write failed"));
    assert_eq!(err.code(), "INTERNAL_ERROR");
}

#[test]
fn invalid_input_error() {
    let err = MergeError::InvalidInput { index: 7 };
    assert_eq!(err.code(), "INVALID_INPUT");
    assert_eq!(err.message(), "Expected image bytes at index 7");
}

#[test]
fn decode_message_exact_text() {
    let err = MergeError::DecodeError { index: 10, file_name: Some("a.png".to_string()), message: "bad".to_string() };
    assert_eq!(err.message(), "Failed to decode image at index 10: bad (file: a.png)");
}
