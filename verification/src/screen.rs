//! Screen frames and the pacing of their capture.

use vstd::prelude::*;

verus! {

/// One captured frame: 4 bytes a pixel, rows of `width` pixels one after
/// another, and its time since the recording started.
#[derive(Debug, Clone)]
pub struct VideoFrame {
    pub data: Vec<u8>,
    pub width: u32,
    pub height: u32,
    pub timestamp_us: i64,
}

/// The time between two frames at `fps` frames a second, in nanoseconds.
pub fn frame_interval_nanos(fps: u32) -> (r: u64)
    requires
        fps > 0,
    ensures
        r == 1_000_000_000int / (fps as int),
{
    1_000_000_000u64 / (fps as u64)
}

/// How many captured pixels make one logical pixel across (2 on a Retina
/// screen); 1 when the logical width is unknown.
pub fn capture_scale(capture_width: u32, logical_width: u32) -> (r: u32)
    ensures
        logical_width > 0 ==> r == capture_width / logical_width,
        logical_width == 0 ==> r == 1,
{
    if logical_width > 0 {
        capture_width / logical_width
    } else {
        1
    }
}

/// The logical size of a monitor: what it reports, 1920 by 1080 where it
/// reports nothing.
pub fn logical_size_or_default(width: Option<u32>, height: Option<u32>) -> (r: (u32, u32))
    ensures
        r.0 == match width {
            Some(w) => w,
            None => 1920,
        },
        r.1 == match height {
            Some(h) => h,
            None => 1080,
        },
{
    let w = match width {
        Some(w) => w,
        None => 1920,
    };
    let h = match height {
        Some(h) => h,
        None => 1080,
    };
    (w, h)
}

} // verus!
