//! The mirrored screen: decoding captured frames, and turning a pointer
//! gesture on them into a device command.
use vstd::prelude::*;
use crate::adb::AdbError;

verus! {

/// Width, height and RGBA pixels (four bytes each, row by row) of the image
/// that `image::load_from_memory` decodes from `png`, after `to_rgba8`; `None`
/// when it cannot be decoded.
pub uninterp spec fn png_rgba(png: Seq<u8>) -> Option<(u32, u32, Seq<u8>)>;

/// Decodes an image with `image::load_from_memory` and converts it with
/// `DynamicImage::to_rgba8`. The result is `png_rgba` of the bytes; nothing
/// else is claimed of it.
#[verifier::external_body]
fn decode_png(png: &[u8]) -> (r: Option<(u32, u32, Vec<u8>)>)
    ensures
        match r {
            Some((w, h, px)) => png_rgba(png@) == Some((w, h, px@)),
            None => png_rgba(png@) is None,
        },
{
    let img = image::load_from_memory(png).ok()?.to_rgba8();
    let (w, h) = img.dimensions();
    Some((w, h, img.into_raw()))
}

/// The frame shown for one screen capture: none when the capture failed or
/// cannot be decoded.
pub fn frame_of_capture(capture: Result<Vec<u8>, AdbError>) -> (r: Option<(u32, u32, Vec<u8>)>)
    ensures
        match capture {
            Err(_) => r is None,
            Ok(b) => match r {
                Some((w, h, px)) => png_rgba(b@) == Some((w, h, px@)),
                None => png_rgba(b@) is None,
            },
        },
{
    match capture {
        Err(_) => None,
        Ok(b) => decode_png(b.as_slice()),
    }
}

/// A gesture as the device receives it.
#[derive(Debug, Clone, Copy, PartialEq, Eq, Structural)]
pub enum TouchGesture {
    Tap { x: i32, y: i32 },
    Swipe { x1: i32, y1: i32, x2: i32, y2: i32, duration_ms: u32 },
}

/// A press held `held_ms` (100 when unknown) lasts from 80 to 1000 ms.
pub open spec fn gesture_duration(held_ms: Option<u32>) -> u32 {
    let d = match held_ms {
        Some(v) => v,
        None => 100,
    };
    if d < 80 {
        80
    } else if d > 1000 {
        1000
    } else {
        d
    }
}

/// A press and release less than 20 device pixels apart is a tap where it
/// started; anything longer is a swipe.
pub open spec fn gesture_of(x1: i32, y1: i32, x2: i32, y2: i32, held_ms: Option<u32>) -> TouchGesture {
    let dx = x1 - x2;
    let dy = y1 - y2;
    if dx * dx + dy * dy < 400 {
        TouchGesture::Tap { x: x1, y: y1 }
    } else {
        TouchGesture::Swipe { x1, y1, x2, y2, duration_ms: gesture_duration(held_ms) }
    }
}

/// The gesture from a press at `(x1, y1)` to a release at `(x2, y2)`, in device pixels.
pub fn classify_touch(x1: i32, y1: i32, x2: i32, y2: i32, held_ms: Option<u32>) -> (g: TouchGesture)
    ensures
        g == gesture_of(x1, y1, x2, y2, held_ms),
{
    let dx: i128 = x1 as i128 - x2 as i128;
    let dy: i128 = y1 as i128 - y2 as i128;
    assert(0 <= dx * dx <= 0x1_0000_0000_0000_0000) by (nonlinear_arith)
        requires
            -0x1_0000_0000 <= dx <= 0x1_0000_0000,
    ;
    assert(0 <= dy * dy <= 0x1_0000_0000_0000_0000) by (nonlinear_arith)
        requires
            -0x1_0000_0000 <= dy <= 0x1_0000_0000,
    ;
    let dist: i128 = dx * dx + dy * dy;
    if dist < 400 {
        TouchGesture::Tap { x: x1, y: y1 }
    } else {
        let d: u32 = match held_ms {
            Some(v) => v,
            None => 100,
        };
        let clamped: u32 = if d < 80 {
            80
        } else if d > 1000 {
            1000
        } else {
            d
        };
        TouchGesture::Swipe { x1, y1, x2, y2, duration_ms: clamped }
    }
}

/// Milliseconds between captured frames at `target_fps` frames per second (at least one).
pub fn frame_interval_ms(target_fps: u32) -> (r: u64)
    ensures
        r as int == 1000int / (if target_fps < 1 {
            1int
        } else {
            target_fps as int
        }),
{
    let fps: u32 = if target_fps < 1 {
        1
    } else {
        target_fps
    };
    (1000 / fps) as u64
}

} // verus!
