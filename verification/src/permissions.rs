//! Screen recording permission. Outside macOS no permission is needed; on
//! macOS a test capture decides, by whether it shows more than a plain
//! colour.

use vstd::prelude::*;

verus! {

/// Whether the screen may be recorded; always so outside macOS.
pub fn has_screen_recording_permission() -> (r: bool)
    ensures
        r,
{
    true
}

/// Asks the system for screen recording permission; outside macOS there
/// is nothing to ask.
pub fn request_screen_recording_permission() {
}

/// Opens the system's screen recording settings; outside macOS there are
/// none to open.
pub fn open_screen_recording_settings() {
}

/// A colour with 16 levels a channel, as sampled from a capture.
pub open spec fn quantized(r: u8, g: u8, b: u8) -> (u8, u8, u8) {
    ((r / 16) as u8, (g / 16) as u8, (b / 16) as u8)
}

/// The byte where the pixel at column `x` and row `y` starts, rows being
/// `stride` bytes apart.
pub open spec fn pixel_index(x: usize, y: usize, stride: usize) -> int {
    y * stride + x * 4
}

/// The quantized colours of the first `n` sample points that lie inside the
/// capture, in order.
pub open spec fn sampled_colors(data: Seq<u8>, stride: usize, points: Seq<(usize, usize)>, n: int) -> Seq<(u8, u8, u8)>
    decreases n,
{
    if n <= 0 {
        Seq::empty()
    } else {
        let before = sampled_colors(data, stride, points, n - 1);
        let idx = pixel_index(points[n - 1].0, points[n - 1].1, stride);
        if idx + 3 < data.len() {
            before.push(quantized(data[idx], data[idx + 1], data[idx + 2]))
        } else {
            before
        }
    }
}

/// A capture shows real content when it holds at least 100 bytes and the
/// sample points show at least 3 different quantized colours.
pub open spec fn shows_variety(data: Seq<u8>, stride: usize, points: Seq<(usize, usize)>) -> bool {
    data.len() >= 100 && sampled_colors(data, stride, points, points.len() as int).to_set().len() >= 3
}

/// Adding an element to a sequence adds it to the sequence's set.
proof fn lemma_push_to_set<A>(s: Seq<A>, x: A)
    ensures
        s.push(x).to_set() == s.to_set().insert(x),
{
    let t = s.push(x);
    assert forall|a: A| #[trigger] t.to_set().contains(a) <==> s.to_set().insert(x).contains(a) by {
        if a == x {
            assert(t[s.len() as int] == x);
        } else if s.contains(a) {
            let i = choose|i: int| 0 <= i < s.len() && s[i] == a;
            assert(t[i] == a);
        } else if t.contains(a) {
            let i = choose|i: int| 0 <= i < t.len() && t[i] == a;
            assert(i < s.len());
            assert(s[i] == a);
        }
    }
    assert(t.to_set() =~= s.to_set().insert(x));
}

/// Whether a test capture (`data`, rows `stride` bytes apart) shows real
/// content at the sample points `points` (column and row each), as
/// `shows_variety` says. Without permission macOS returns a plain image.
pub fn has_color_variety(data: &Vec<u8>, stride: usize, points: &Vec<(usize, usize)>) -> (r: bool)
    requires
        forall|k: int| 0 <= k < points@.len() ==>
            pixel_index((#[trigger] points@[k]).0, points@[k].1, stride) + 3 <= usize::MAX,
    ensures
        r == shows_variety(data@, stride, points@),
{
    if data.len() < 100 {
        return false;
    }
    let mut seen: Vec<(u8, u8, u8)> = Vec::new();
    let mut i: usize = 0;
    while i < points.len()
        invariant
            i <= points.len(),
            forall|k: int| 0 <= k < points@.len() ==>
                pixel_index((#[trigger] points@[k]).0, points@[k].1, stride) + 3 <= usize::MAX,
            seen@.no_duplicates(),
            seen@.to_set() == sampled_colors(data@, stride, points@, i as int).to_set(),
        decreases points.len() - i,
    {
        let (x, y) = points[i];
        assert(pixel_index(points@[i as int].0, points@[i as int].1, stride) + 3 <= usize::MAX);
        let idx = y * stride + x * 4;
        let ghost before = sampled_colors(data@, stride, points@, i as int);
        if idx + 3 < data.len() {
            let c: (u8, u8, u8) = (data[idx] / 16, data[idx + 1] / 16, data[idx + 2] / 16);
            assert(c == quantized(data@[idx as int], data@[idx + 1], data@[idx + 2]));
            proof { lemma_push_to_set(before, c); }
            let mut present = false;
            let mut k: usize = 0;
            while k < seen.len()
                invariant
                    k <= seen.len(),
                    present == exists|j: int| 0 <= j < k && seen@[j] == c,
                decreases seen.len() - k,
            {
                if seen[k].0 == c.0 && seen[k].1 == c.1 && seen[k].2 == c.2 {
                    present = true;
                }
                k = k + 1;
            }
            if !present {
                let ghost old_seen = seen@;
                seen.push(c);
                proof { lemma_push_to_set(old_seen, c); }
            } else {
                assert(seen@.to_set().contains(c));
                assert(seen@.to_set().insert(c) =~= seen@.to_set());
            }
        }
        i = i + 1;
    }
    proof {
        seen@.unique_seq_to_set();
    }
    seen.len() >= 3
}

} // verus!
