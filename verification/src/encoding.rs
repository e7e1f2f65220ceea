//! The decisions of the encoding loop: where captured pixels go in the
//! encoder's frame, when frames are stamped, how audio is cut into the
//! encoder's frames, and when the loop ends.

use vstd::prelude::*;

use crate::presets::QualityPreset;
use crate::screen::VideoFrame;

verus! {

/// What the encoder is started with.
#[derive(Debug, Clone)]
pub struct EncoderConfig {
    pub width: u32,
    pub height: u32,
    pub capture_width: u32,
    pub capture_height: u32,
    pub fps: u32,
    pub audio_sample_rate: u32,
    pub audio_channels: u16,
    pub output_path: String,
    pub preset: QualityPreset,
}

/// The video and audio encoder of a recording.
pub struct Encoder;

/// The time base of encoded video: 1/90000 of a second.
pub const VIDEO_TIME_BASE_DEN: i32 = 90_000;

/// The audio frame size used when the encoder reports none.
pub const DEFAULT_AUDIO_FRAME_SIZE: usize = 1024;

/// `a / b` rounded toward zero, as integer division does.
pub open spec fn trunc_div(a: int, b: int) -> int {
    if a >= 0 { a / b } else { -((-a) / b) }
}

/// The presentation time of a frame captured `timestamp_us` microseconds
/// into the recording, in units of 1/`time_base_den` second, rounded.
pub fn video_pts(timestamp_us: i64, time_base_den: i64) -> (r: i64)
    requires
        i64::MIN <= (timestamp_us as int) * (time_base_den as int) <= i64::MAX,
        i64::MIN <= (timestamp_us as int) * (time_base_den as int) + 500_000 <= i64::MAX,
    ensures
        r == trunc_div((timestamp_us as int) * (time_base_den as int) + 500_000, 1_000_000),
{
    let scaled = timestamp_us * time_base_den + 500_000;
    scaled / 1_000_000
}

/// The number of samples a channel carries in one encoded audio frame: the
/// encoder's own frame size, or 1024 when it reports none.
pub fn audio_frame_size(reported: usize) -> (r: usize)
    ensures
        r == if reported == 0 { DEFAULT_AUDIO_FRAME_SIZE } else { reported },
{
    if reported == 0 {
        DEFAULT_AUDIO_FRAME_SIZE
    } else {
        reported
    }
}

/// Frames between two key frames: one key frame every two seconds.
pub fn keyframe_interval(fps: u32) -> (r: u32)
    requires
        fps <= u32::MAX / 2,
    ensures
        r == 2 * fps,
{
    fps * 2
}

/// The encoding loop is done once recording has stopped and no video frame
/// and no audio is waiting.
pub fn encoding_finished(still_recording: bool, video_waiting: bool, audio_waiting: bool) -> (r: bool)
    ensures
        r == (!still_recording && !video_waiting && !audio_waiting),
{
    !still_recording && !video_waiting && !audio_waiting
}

/// `dst` with `len` bytes at `dst_start` replaced by those of `src` at `src_start`.
pub open spec fn copy_span(dst: Seq<u8>, dst_start: int, src: Seq<u8>, src_start: int, len: int) -> Seq<u8> {
    dst.take(dst_start) + src.subrange(src_start, src_start + len) + dst.skip(dst_start + len)
}

/// Copies `src[src_start..src_start + len]` over `dst[dst_start..dst_start + len]`.
fn copy_bytes(dst: &mut [u8], dst_start: usize, src: &[u8], src_start: usize, len: usize)
    requires
        dst_start + len <= old(dst)@.len(),
        src_start + len <= src@.len(),
    ensures
        final(dst)@ == copy_span(old(dst)@, dst_start as int, src@, src_start as int, len as int),
{
    let dst_len = dst.len();
    let src_len = src.len();
    let mut k: usize = 0;
    while k < len
        invariant
            k <= len,
            dst_start + len <= dst_len,
            src_start + len <= src_len,
            dst_len == dst@.len(),
            src_len == src@.len(),
            dst_start + len <= dst@.len(),
            src_start + len <= src@.len(),
            dst@.len() == old(dst)@.len(),
            forall|i: int| 0 <= i < dst@.len() ==> #[trigger] dst@[i] == (if dst_start <= i < dst_start + k {
                src@[src_start + i - dst_start]
            } else {
                old(dst)@[i]
            }),
        decreases len - k,
    {
        dst[dst_start + k] = src[src_start + k];
        k = k + 1;
    }
    assert(dst@ =~= copy_span(old(dst)@, dst_start as int, src@, src_start as int, len as int));
}

/// `dst` after the first `n` rows of `src` were copied row by row: row `y`
/// of `row_bytes` bytes starts at `y * row_bytes` in `src` and goes to
/// `y * stride` in `dst`; a row that does not fit in either is skipped.
pub open spec fn rows_copied(dst: Seq<u8>, src: Seq<u8>, row_bytes: int, stride: int, n: int) -> Seq<u8>
    decreases n,
{
    if n <= 0 {
        dst
    } else {
        let d = rows_copied(dst, src, row_bytes, stride, n - 1);
        let y = n - 1;
        if y * row_bytes + row_bytes <= src.len() && y * stride + row_bytes <= d.len() {
            copy_span(d, y * stride, src, y * row_bytes, row_bytes)
        } else {
            d
        }
    }
}

/// The encoder's frame after `frame` is copied into it, whose rows are
/// `stride` bytes apart and `capture_height` high: in one piece when the
/// rows are packed alike and the frame is complete, row by row otherwise.
pub open spec fn frame_copied(dst: Seq<u8>, frame_data: Seq<u8>, frame_width: u32, frame_height: u32, stride: int, capture_height: u32) -> Seq<u8> {
    let row_bytes = 4 * frame_width;
    let total = row_bytes * capture_height;
    if stride == row_bytes && frame_data.len() >= total {
        copy_span(dst, 0, frame_data, 0, total)
    } else {
        let rows: int = if capture_height < frame_height { capture_height as int } else { frame_height as int };
        rows_copied(dst, frame_data, row_bytes, stride, rows)
    }
}

/// Copies the pixels of `frame` into `dst`, the encoder's frame of
/// `capture_height` rows `stride` bytes apart (see `frame_copied`).
pub fn copy_frame_into(dst: &mut [u8], stride: usize, frame: &VideoFrame, capture_height: u32)
    requires
        frame.width < 0x4000_0000,
        (capture_height as int) * (stride as int + 4 * frame.width) + 4 * frame.width <= usize::MAX,
        stride == 4 * frame.width && frame.data@.len() >= 4 * frame.width * capture_height
            ==> old(dst)@.len() >= 4 * frame.width * capture_height,
    ensures
        final(dst)@ == frame_copied(old(dst)@, frame.data@, frame.width, frame.height, stride as int, capture_height),
{
    let row_bytes: usize = (frame.width * 4) as usize;
    proof {
        assert((capture_height as int) * (row_bytes as int) <= (capture_height as int) * (stride as int + row_bytes)) by (nonlinear_arith)
            requires stride >= 0, capture_height >= 0, row_bytes >= 0;
        assert(4 * frame.width * capture_height == (capture_height as int) * (row_bytes as int)) by (nonlinear_arith)
            requires row_bytes == 4 * frame.width;
    }
    let total: usize = row_bytes * (capture_height as usize);
    if stride == row_bytes && frame.data.len() >= total {
        copy_bytes(dst, 0, frame.data.as_slice(), 0, total);
        return;
    }
    let rows: u32 = if capture_height < frame.height { capture_height } else { frame.height };
    let ghost start = dst@;
    let mut y: usize = 0;
    let mut src_offset: usize = 0;
    let mut dst_offset: usize = 0;
    while y < rows as usize
        invariant
            y <= rows,
            rows <= capture_height,
            row_bytes == 4 * frame.width,
            src_offset == y * row_bytes,
            dst_offset == y * stride,
            (capture_height as int) * (stride as int + row_bytes) + row_bytes <= usize::MAX,
            dst@.len() == start.len(),
            dst@ == rows_copied(start, frame.data@, row_bytes as int, stride as int, y as int),
        decreases rows - y,
    {
        proof {
            assert((y as int) * (stride as int) + (y as int) * (row_bytes as int) <= (capture_height as int) * (stride as int + row_bytes)) by (nonlinear_arith)
                requires y < capture_height, stride >= 0, row_bytes >= 0;
            assert((y as int + 1) * (row_bytes as int) == y * row_bytes + row_bytes) by (nonlinear_arith);
            assert((y as int + 1) * (stride as int) == y * stride + stride) by (nonlinear_arith);
            assert((y as int + 1) * (stride as int) + (y as int + 1) * (row_bytes as int) <= (capture_height as int) * (stride as int + row_bytes)) by (nonlinear_arith)
                requires y + 1 <= capture_height, stride >= 0, row_bytes >= 0;
        }
        if src_offset + row_bytes <= frame.data.len() && dst_offset + row_bytes <= dst.len() {
            copy_bytes(dst, dst_offset, frame.data.as_slice(), src_offset, row_bytes);
        }
        src_offset = src_offset + row_bytes;
        dst_offset = dst_offset + stride;
        y = y + 1;
    }
}

/// Cuts the samples waiting in `buffer` into full frames of `chunk`
/// samples, in order; what does not fill a frame stays in `buffer`.
pub fn take_full_chunks<T: Copy>(buffer: &mut Vec<T>, chunk: usize) -> (r: Vec<Vec<T>>)
    requires
        chunk > 0,
    ensures
        r@.len() == (old(buffer)@.len() as int) / (chunk as int),
        forall|k: int| 0 <= k < r@.len() ==> #[trigger] r@[k]@ == old(buffer)@.subrange(k * chunk, (k + 1) * chunk),
        final(buffer)@ == old(buffer)@.subrange(r@.len() * chunk, old(buffer)@.len() as int),
{
    let ghost all = buffer@;
    let mut out: Vec<Vec<T>> = Vec::new();
    let mut offset: usize = 0;
    proof {
        assert(out@.len() == 0);
        assert(0 * (chunk as int) == 0) by (nonlinear_arith);
    }
    while buffer.len() - offset >= chunk
        invariant
            buffer@ == all,
            chunk > 0,
            offset <= buffer.len(),
            offset == out@.len() * chunk,
            forall|k: int| 0 <= k < out@.len() ==> #[trigger] out@[k]@ == all.subrange(k * chunk, (k + 1) * chunk),
        decreases buffer.len() - offset,
    {
        let mut piece: Vec<T> = Vec::new();
        let mut i: usize = 0;
        while i < chunk
            invariant
                buffer@ == all,
                i <= chunk,
                offset + chunk <= buffer.len(),
                piece@ == all.subrange(offset as int, offset + i),
            decreases chunk - i,
        {
            piece.push(buffer[offset + i]);
            assert(piece@ =~= all.subrange(offset as int, offset + i + 1));
            i = i + 1;
        }
        proof {
            assert((out@.len() + 1) * chunk == out@.len() * chunk + chunk) by (nonlinear_arith);
        }
        out.push(piece);
        offset = offset + chunk;
    }
    let mut rest: Vec<T> = Vec::new();
    let mut j: usize = offset;
    while j < buffer.len()
        invariant
            buffer@ == all,
            offset <= j <= buffer.len(),
            rest@ == all.subrange(offset as int, j as int),
        decreases buffer.len() - j,
    {
        rest.push(buffer[j]);
        assert(rest@ =~= all.subrange(offset as int, j + 1));
        j = j + 1;
    }
    proof {
        let n = out@.len() as int;
        let c = chunk as int;
        assert(all.len() - n * c < c);
        assert(n * c <= all.len());
        assert(n == (all.len() as int) / c) by (nonlinear_arith)
            requires n * c <= all.len(), all.len() - n * c < c, c > 0, n >= 0;
    }
    *buffer = rest;
    out
}

/// A frame's presentation time is its capture time in time-base units,
/// rounded to the nearest unit (halves up): it is never more than half a
/// unit away from the exact time; and a later frame never gets an earlier
/// time.
pub proof fn law_video_pts_rounds(t1: int, t2: int, den: int)
    requires
        0 <= t1 <= t2,
        den > 0,
    ensures
        ({
            let r = trunc_div(t1 * den + 500_000, 1_000_000);
            r * 1_000_000 <= t1 * den + 500_000 < r * 1_000_000 + 1_000_000
        }),
        trunc_div(t1 * den + 500_000, 1_000_000) <= trunc_div(t2 * den + 500_000, 1_000_000),
{
    assert(t1 * den <= t2 * den) by (nonlinear_arith)
        requires t1 <= t2, den > 0;
    assert(t1 * den >= 0) by (nonlinear_arith)
        requires t1 >= 0, den > 0;
    let a = t1 * den + 500_000;
    let b = t2 * den + 500_000;
    assert(a / 1_000_000 <= b / 1_000_000) by (nonlinear_arith)
        requires 0 <= a <= b;
    assert((a / 1_000_000) * 1_000_000 <= a < (a / 1_000_000) * 1_000_000 + 1_000_000) by (nonlinear_arith)
        requires a >= 0;
}

/// Copying a span replaces exactly the `len` bytes at `dst_start` with the
/// `len` bytes of `src` at `src_start`; every other byte, and the length,
/// stay as they were.
pub proof fn law_copy_span_replaces_the_span(dst: Seq<u8>, dst_start: int, src: Seq<u8>, src_start: int, len: int)
    requires
        0 <= dst_start,
        0 <= len,
        dst_start + len <= dst.len(),
        0 <= src_start,
        src_start + len <= src.len(),
    ensures
        copy_span(dst, dst_start, src, src_start, len).len() == dst.len(),
        forall|k: int| dst_start <= k < dst_start + len ==>
            #[trigger] copy_span(dst, dst_start, src, src_start, len)[k] == src[src_start + k - dst_start],
        forall|k: int| 0 <= k < dst.len() && !(dst_start <= k < dst_start + len) ==>
            #[trigger] copy_span(dst, dst_start, src, src_start, len)[k] == dst[k],
{
}

} // verus!
