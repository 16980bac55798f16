use taskchart::capture::{capture_image, CaptureError};

#[test]
fn capture_missing_window_reports_not_found() {
    let result = capture_image(false, 0, 0, Vec::new());
    assert!(matches!(result, Err(CaptureError::WindowNotFound)));
}

#[test]
fn capture_zero_width_reports_not_visible() {
    let result = capture_image(true, 0, 5, Vec::new());
    assert!(matches!(result, Err(CaptureError::WindowNotVisible)));
}

#[test]
fn capture_zero_height_reports_not_visible() {
    let result = capture_image(true, 5, 0, Vec::new());
    assert!(matches!(result, Err(CaptureError::WindowNotVisible)));
}

#[test]
fn capture_keeps_readback_bytes() {
    let pixels: Vec<u8> = (0u8..8u8).collect();
    let img = capture_image(true, 2, 1, pixels.clone()).unwrap();
    assert_eq!(img.width, 2);
    assert_eq!(img.height, 1);
    assert_eq!(img.buf, pixels);
    // channel order within a pixel is (b, g, r, pad)
    assert_eq!(img.get_color(0, 0), (2, 1, 0));
    assert_eq!(img.get_color(1, 0), (6, 5, 4));
}
