use std::io::Cursor;

use whatsapp_usb_bridge::adb::AdbError;
use whatsapp_usb_bridge::screen::frame_of_capture;

fn png_of(w: u32, h: u32, pixels: Vec<u8>) -> Vec<u8> {
    let img = image::RgbaImage::from_raw(w, h, pixels).unwrap();
    let mut buf = Vec::new();
    img.write_to(&mut Cursor::new(&mut buf), image::ImageFormat::Png).unwrap();
    buf
}

#[test]
fn capture_decodes_to_rgba_frame() {
    let pixels = vec![255, 0, 0, 255, 0, 128, 255, 64];
    let png = png_of(2, 1, pixels.clone());
    assert_eq!(frame_of_capture(Ok(png)), Some((2, 1, pixels)));
}

#[test]
fn failed_or_garbled_capture_has_no_frame() {
    assert_eq!(frame_of_capture(Err(AdbError::CaptureFailed("x".into()))), None);
    assert_eq!(frame_of_capture(Ok(vec![1, 2, 3, 4])), None);
    assert_eq!(frame_of_capture(Ok(Vec::new())), None);
}
