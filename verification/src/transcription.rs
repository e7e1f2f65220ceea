//! Transcripts: the segments that speech recognition gives, their SubRip
//! (SRT) rendering, and the checks on the speech model's file.

use vstd::prelude::*;

use crate::text::owned;

verus! {

/// The smallest size of a model file that is taken as complete.
pub const MODEL_MIN_SIZE: u64 = 100_000_000;

/// How far the model download has come.
#[derive(Debug, Clone)]
pub struct ModelDownloadProgress {
    pub percent: u8,
    pub bytes_downloaded: u64,
    pub total_bytes: u64,
}

/// A piece of recognised speech, with its time span in milliseconds.
#[derive(Debug, Clone)]
pub struct Segment {
    pub start_ms: i64,
    pub end_ms: i64,
    pub text: String,
}

/// Whether the model at its place can be used: the file exists and is
/// larger than `MODEL_MIN_SIZE`.
pub fn model_available(exists: bool, size: Option<u64>) -> (r: bool)
    ensures
        r == (exists && (size matches Some(s) && s > MODEL_MIN_SIZE)),
{
    exists && match size {
        Some(s) => s > MODEL_MIN_SIZE,
        None => false,
    }
}

/// Whether a downloaded model file of `size` bytes is kept: one smaller
/// than `MODEL_MIN_SIZE` is taken as corrupted.
pub fn download_large_enough(size: u64) -> (r: bool)
    ensures
        r == (size >= MODEL_MIN_SIZE),
{
    size >= MODEL_MIN_SIZE
}

/// How many threads speech recognition uses: what the machine offers
/// (4 when unknown), at most 8.
pub fn whisper_thread_count(available: Option<usize>) -> (r: i32)
    ensures
        ({
            let n: i32 = match available {
                Some(n) => n as i32,
                None => 4,
            };
            r == if n < 8 { n } else { 8 }
        }),
{
    let n: i32 = match available {
        Some(n) => n as i32,
        None => 4,
    };
    if n < 8 {
        n
    } else {
        8
    }
}

/// The characters with the Unicode White_Space property.
pub open spec fn is_white_space(c: char) -> bool {
    let u = c as u32;
    (0x9 <= u && u <= 0xd) || u == 0x20 || u == 0x85 || u == 0xa0 || u == 0x1680
        || (0x2000 <= u && u <= 0x200a) || u == 0x2028 || u == 0x2029 || u == 0x202f
        || u == 0x205f || u == 0x3000
}

/// `t` is `s` without its leading and trailing white space.
pub open spec fn trimmed(s: Seq<char>, t: Seq<char>) -> bool {
    exists|a: int, b: int| {
        &&& 0 <= a <= b <= s.len()
        &&& t == s.subrange(a, b)
        &&& forall|k: int| 0 <= k < a ==> is_white_space(#[trigger] s[k])
        &&& forall|k: int| b <= k < s.len() ==> is_white_space(#[trigger] s[k])
        &&& a < b ==> !is_white_space(s[a]) && !is_white_space(s[b - 1])
    }
}

/// Calls `str::trim`, which removes leading and trailing characters with
/// the Unicode White_Space property, and takes the rest as a `String`.
#[verifier::external_body]
fn trim_owned(s: &str) -> (r: String)
    ensures
        trimmed(s@, r@),
{
    s.trim().to_string()
}

/// A segment from the recogniser's time stamps, which count centiseconds,
/// and its text without surrounding white space.
pub fn segment_from_recognizer(t0: i64, t1: i64, text: &str) -> (r: Segment)
    requires
        -922_337_203_685_477_580 <= t0 <= 922_337_203_685_477_580,
        -922_337_203_685_477_580 <= t1 <= 922_337_203_685_477_580,
    ensures
        r.start_ms == t0 * 10,
        r.end_ms == t1 * 10,
        trimmed(text@, r.text@),
{
    Segment { start_ms: t0 * 10, end_ms: t1 * 10, text: trim_owned(text) }
}

/// The decimal digit `d`.
pub open spec fn digit(d: int) -> Seq<char> {
    if d == 0 { "0"@ }
    else if d == 1 { "1"@ }
    else if d == 2 { "2"@ }
    else if d == 3 { "3"@ }
    else if d == 4 { "4"@ }
    else if d == 5 { "5"@ }
    else if d == 6 { "6"@ }
    else if d == 7 { "7"@ }
    else if d == 8 { "8"@ }
    else { "9"@ }
}

/// `n` written in decimal, without leading zeros.
pub open spec fn decimal(n: nat) -> Seq<char>
    decreases n,
{
    if n < 10 { digit(n as int) } else { decimal(n / 10) + digit((n % 10) as int) }
}

/// `k` zeros.
pub open spec fn zeros(k: int) -> Seq<char>
    decreases k,
{
    if k <= 0 { Seq::empty() } else { zeros(k - 1) + "0"@ }
}

/// `n` in decimal, padded with zeros in front to at least `width` digits.
pub open spec fn padded(n: nat, width: int) -> Seq<char> {
    zeros(width - decimal(n).len()) + decimal(n)
}

/// The decimal digit `d` as a string slice.
fn digit_str(d: u64) -> (r: &'static str)
    requires
        d < 10,
    ensures
        r@ == digit(d as int),
{
    if d == 0 { "0" }
    else if d == 1 { "1" }
    else if d == 2 { "2" }
    else if d == 3 { "3" }
    else if d == 4 { "4" }
    else if d == 5 { "5" }
    else if d == 6 { "6" }
    else if d == 7 { "7" }
    else if d == 8 { "8" }
    else { "9" }
}

/// A digit is one character.
proof fn lemma_digit_len(d: int)
    ensures
        digit(d).len() == 1,
{
    reveal_strlit("0");
    reveal_strlit("1");
    reveal_strlit("2");
    reveal_strlit("3");
    reveal_strlit("4");
    reveal_strlit("5");
    reveal_strlit("6");
    reveal_strlit("7");
    reveal_strlit("8");
    reveal_strlit("9");
}

/// A number has at least one digit.
proof fn lemma_decimal_len(n: nat)
    ensures
        1 <= decimal(n).len(),
    decreases n,
{
    lemma_digit_len(n as int);
    if n >= 10 {
        lemma_decimal_len(n / 10);
        lemma_digit_len((n % 10) as int);
    }
}

/// `zeros(k)` has `k` characters, none when `k` is not positive.
proof fn lemma_zeros_len(k: int)
    ensures
        zeros(k).len() == if k <= 0 { 0 } else { k },
    decreases k,
{
    reveal_strlit("0");
    if k > 0 {
        lemma_zeros_len(k - 1);
    }
}

/// `n` written in decimal.
pub fn decimal_string(n: u64) -> (r: String)
    ensures
        r@ == decimal(n as nat),
    decreases n,
{
    if n < 10 {
        owned(digit_str(n))
    } else {
        let mut s = decimal_string(n / 10);
        s.append(digit_str(n % 10));
        s
    }
}

/// `n` in decimal, padded with zeros in front to at least `width` digits.
pub fn padded_string(n: u64, width: usize) -> (r: String)
    ensures
        r@ == padded(n as nat, width as int),
{
    let d = decimal_string(n);
    proof {
        lemma_decimal_len(n as nat);
    }
    let len = d.as_str().unicode_len();
    let mut s = owned("");
    let mut k: usize = 0;
    let missing: usize = if width > len { width - len } else { 0 };
    proof {
        reveal_strlit("");
    }
    while k < missing
        invariant
            k <= missing,
            s@ == zeros(k as int),
        decreases missing - k,
    {
        s.append("0");
        k = k + 1;
    }
    proof {
        if width <= len {
            assert(zeros(width - decimal(n as nat).len()) == zeros(0));
        }
    }
    s.append(d.as_str());
    s
}

/// The SubRip time of `ms` milliseconds, `HH:MM:SS,mmm`; negative times
/// count as zero, and hours beyond 99 take more digits.
pub open spec fn srt_time(ms: i64) -> Seq<char> {
    let t: nat = if ms < 0 { 0 } else { ms as nat };
    padded(t / 3_600_000, 2) + ":"@ + padded((t % 3_600_000) / 60_000, 2) + ":"@
        + padded((t % 60_000) / 1_000, 2) + ","@ + padded(t % 1_000, 3)
}

/// Renders a time in SubRip form (see `srt_time`).
pub fn format_srt_time(ms: i64) -> (r: String)
    ensures
        r@ == srt_time(ms),
{
    let t: u64 = if ms < 0 { 0 } else { ms as u64 };
    let mut s = padded_string(t / 3_600_000, 2);
    s.append(":");
    s.append(padded_string((t % 3_600_000) / 60_000, 2).as_str());
    s.append(":");
    s.append(padded_string((t % 60_000) / 1_000, 2).as_str());
    s.append(",");
    s.append(padded_string(t % 1_000, 3).as_str());
    s
}

/// The number a string of decimal digits stands for.
pub open spec fn digits_value(s: Seq<char>) -> int
    decreases s.len(),
{
    if s.len() == 0 { 0 } else { digits_value(s.drop_last()) * 10 + (s.last() as int - '0' as int) }
}

/// Ten to the power `k`.
pub open spec fn pow10(k: nat) -> nat
    decreases k,
{
    if k == 0 { 1 } else { 10 * pow10((k - 1) as nat) }
}

/// The digit `d` is one character standing for `d`.
proof fn lemma_digit_value(d: int)
    requires
        0 <= d < 10,
    ensures
        digit(d).len() == 1,
        digits_value(digit(d)) == d,
{
    lemma_digit_len(d);
    reveal_strlit("0");
    reveal_strlit("1");
    reveal_strlit("2");
    reveal_strlit("3");
    reveal_strlit("4");
    reveal_strlit("5");
    reveal_strlit("6");
    reveal_strlit("7");
    reveal_strlit("8");
    reveal_strlit("9");
    let c = digit(d);
    assert(c.drop_last().len() == 0);
    assert(digits_value(c.drop_last()) == 0);
    if d == 0 { assert(c.last() == '0'); }
    else if d == 1 { assert(c.last() == '1'); }
    else if d == 2 { assert(c.last() == '2'); }
    else if d == 3 { assert(c.last() == '3'); }
    else if d == 4 { assert(c.last() == '4'); }
    else if d == 5 { assert(c.last() == '5'); }
    else if d == 6 { assert(c.last() == '6'); }
    else if d == 7 { assert(c.last() == '7'); }
    else if d == 8 { assert(c.last() == '8'); }
    else { assert(c.last() == '9'); }
    assert(digits_value(c) == digits_value(c.drop_last()) * 10 + (c.last() as int - '0' as int));
}

/// Appending one digit multiplies by ten and adds it.
proof fn lemma_digits_value_push(x: Seq<char>, d: Seq<char>)
    requires
        d.len() == 1,
    ensures
        digits_value(x + d) == digits_value(x) * 10 + digits_value(d),
{
    assert((x + d).drop_last() =~= x);
    assert(d.drop_last() =~= Seq::<char>::empty());
    assert(digits_value(d.drop_last()) == 0);
    assert((x + d).last() == d.last());
    assert(digits_value(d) == digits_value(d.drop_last()) * 10 + (d.last() as int - '0' as int));
    assert(digits_value(x + d) == digits_value((x + d).drop_last()) * 10 + ((x + d).last() as int - '0' as int));
}

/// `decimal(n)` reads back as `n`.
proof fn lemma_decimal_value(n: nat)
    ensures
        digits_value(decimal(n)) == n,
    decreases n,
{
    if n < 10 {
        lemma_digit_value(n as int);
    } else {
        lemma_decimal_value(n / 10);
        lemma_digit_value((n % 10) as int);
        lemma_digits_value_push(decimal(n / 10), digit((n % 10) as int));
    }
}

/// Zeros in front change no value.
proof fn lemma_leading_zeros_value(k: int, x: Seq<char>)
    ensures
        digits_value(zeros(k) + x) == digits_value(x),
    decreases x.len(), k,
{
    if x.len() == 0 {
        assert(zeros(k) + x =~= zeros(k));
        if k > 0 {
            lemma_leading_zeros_value(k - 1, x);
            assert(zeros(k - 1) + x =~= zeros(k - 1));
            reveal_strlit("0");
            lemma_digit_value(0);
            lemma_digits_value_push(zeros(k - 1), "0"@);
            assert(digits_value(zeros(k - 1)) == 0);
        } else {
            assert(zeros(k) =~= Seq::<char>::empty());
        }
    } else {
        lemma_leading_zeros_value(k, x.drop_last());
        let y = zeros(k) + x;
        assert(y.drop_last() =~= zeros(k) + x.drop_last());
        assert(y.last() == x.last());
        assert(digits_value(y) == digits_value(y.drop_last()) * 10 + (y.last() as int - '0' as int));
        assert(digits_value(x) == digits_value(x.drop_last()) * 10 + (x.last() as int - '0' as int));
    }
}

/// A number below `10^k` has at most `k` digits.
proof fn lemma_decimal_len_below(n: nat, k: nat)
    requires
        k >= 1,
        n < pow10(k),
    ensures
        decimal(n).len() <= k,
    decreases n,
{
    lemma_digit_len(n as int);
    if n >= 10 {
        assert(k >= 2) by {
            if k == 1 { assert(pow10(1) == 10 * pow10(0)); }
        }
        assert(pow10(k) == 10 * pow10((k - 1) as nat));
        lemma_decimal_len_below(n / 10, (k - 1) as nat);
        lemma_digit_len((n % 10) as int);
    }
}

/// A padded number reads back as itself, and takes exactly `width`
/// characters when it has no more digits than that.
pub proof fn law_padded_reads_back(n: nat, width: nat)
    ensures
        digits_value(padded(n, width as int)) == n,
        n < pow10(width) && width >= 1 ==> padded(n, width as int).len() == width,
{
    lemma_decimal_value(n);
    lemma_leading_zeros_value(width - decimal(n).len(), decimal(n));
    lemma_decimal_len(n);
    lemma_zeros_len(width - decimal(n).len());
    if n < pow10(width) && width >= 1 {
        lemma_decimal_len_below(n, width);
    }
}

/// A SubRip time reads back as the milliseconds it was made from (zero for
/// a negative time): it is the hours, minutes, seconds and milliseconds,
/// each padded, whose sum in milliseconds is the time; minutes and seconds
/// stay below 60 and take two digits, the milliseconds three.
pub proof fn law_srt_time_reads_back(ms: i64)
    ensures
        ({
            let t: nat = if ms < 0 { 0 } else { ms as nat };
            let h = t / 3_600_000;
            let m = (t % 3_600_000) / 60_000;
            let s = (t % 60_000) / 1_000;
            let f = t % 1_000;
            &&& srt_time(ms) == padded(h, 2) + ":"@ + padded(m, 2) + ":"@ + padded(s, 2) + ","@ + padded(f, 3)
            &&& h * 3_600_000 + m * 60_000 + s * 1_000 + f == t
            &&& m < 60 && s < 60 && f < 1_000
            &&& digits_value(padded(h, 2)) == h
            &&& digits_value(padded(m, 2)) == m && padded(m, 2).len() == 2
            &&& digits_value(padded(s, 2)) == s && padded(s, 2).len() == 2
            &&& digits_value(padded(f, 3)) == f && padded(f, 3).len() == 3
        }),
{
    let t: nat = if ms < 0 { 0 } else { ms as nat };
    let h = t / 3_600_000;
    let m = (t % 3_600_000) / 60_000;
    let s = (t % 60_000) / 1_000;
    let f = t % 1_000;
    assert(pow10(2) == 100) by {
        assert(pow10(0) == 1);
        assert(pow10(1) == 10);
    }
    assert(pow10(3) == 1000) by {
        assert(pow10(2) == 100);
    }
    law_padded_reads_back(h, 2);
    law_padded_reads_back(m, 2);
    law_padded_reads_back(s, 2);
    law_padded_reads_back(f, 3);
    assert(h * 3_600_000 + m * 60_000 + s * 1_000 + f == t) by (nonlinear_arith)
        requires
            h == t / 3_600_000,
            m == (t % 3_600_000) / 60_000,
            s == (t % 60_000) / 1_000,
            f == t % 1_000,
    {
    }
}

/// The SubRip block of the segment at position `i` (counting from 0).
pub open spec fn srt_block(i: nat, start_ms: i64, end_ms: i64, text: Seq<char>) -> Seq<char> {
    decimal(i + 1) + "\n"@ + srt_time(start_ms) + " --> "@ + srt_time(end_ms) + "\n"@ + text + "\n\n"@
}

/// The SubRip text of the first `n` segments: one block for each segment
/// with text, numbered by the segment's position.
pub open spec fn srt_text(segments: Seq<Segment>, n: int) -> Seq<char>
    decreases n,
{
    if n <= 0 {
        Seq::empty()
    } else {
        let before = srt_text(segments, n - 1);
        let seg = segments[n - 1];
        if seg.text@.len() == 0 {
            before
        } else {
            before + srt_block((n - 1) as nat, seg.start_ms, seg.end_ms, seg.text@)
        }
    }
}

/// The SubRip block of `seg` at position `i`.
fn srt_block_string(i: usize, seg: &Segment) -> (r: String)
    requires
        i < usize::MAX,
    ensures
        r@ == srt_block(i as nat, seg.start_ms, seg.end_ms, seg.text@),
{
    let mut out = decimal_string((i as u64) + 1);
    out.append("\n");
    out.append(format_srt_time(seg.start_ms).as_str());
    out.append(" --> ");
    out.append(format_srt_time(seg.end_ms).as_str());
    out.append("\n");
    out.append(seg.text.as_str());
    out.append("\n\n");
    out
}

/// The SubRip text of the segments (see `srt_text`).
pub fn srt_content(segments: &Vec<Segment>) -> (r: String)
    ensures
        r@ == srt_text(segments@, segments@.len() as int),
{
    let mut out = owned("");
    proof {
        reveal_strlit("");
    }
    let mut i: usize = 0;
    while i < segments.len()
        invariant
            i <= segments.len(),
            out@ == srt_text(segments@, i as int),
        decreases segments.len() - i,
    {
        let seg = &segments[i];
        if !seg.text.as_str().is_empty() {
            let block = srt_block_string(i, seg);
            out.append(block.as_str());
        }
        i = i + 1;
    }
    out
}

/// Where the number, its line break and the text lie in a block appended
/// after `before`.
proof fn lemma_block_layout(before: Seq<char>, num: Seq<char>, ts: Seq<char>, te: Seq<char>, text: Seq<char>)
    ensures
        ({
            let all = before + (num + "\n"@ + ts + " --> "@ + te + "\n"@ + text + "\n\n"@);
            &&& all.subrange(0, before.len() as int) == before
            &&& all.subrange(before.len() as int, (before.len() + num.len()) as int) == num
            &&& all[(before.len() + num.len()) as int] == '\n'
            &&& all.subrange(all.len() - text.len() - 2, all.len() as int) == text + "\n\n"@
        }),
{
    reveal_strlit("\n");
    reveal_strlit("\n\n");
    let all = before + (num + "\n"@ + ts + " --> "@ + te + "\n"@ + text + "\n\n"@);
    assert(all.subrange(0, before.len() as int) =~= before);
    assert(all.subrange(before.len() as int, (before.len() + num.len()) as int) =~= num);
    assert(all[(before.len() + num.len()) as int] == "\n"@[0]);
    assert(all.subrange(all.len() - text.len() - 2, all.len() as int) =~= text + "\n\n"@);
}

/// Subtitles skip a segment without text; a segment with text adds one
/// block after those before it, numbered by the segment's position counting
/// from 1 (its number reads back as that position), then a line break, and
/// ending with the text and a blank line.
pub proof fn law_srt_blocks(segments: Seq<Segment>, n: int)
    requires
        0 < n <= segments.len(),
    ensures
        segments[n - 1].text@.len() == 0 ==> srt_text(segments, n) == srt_text(segments, n - 1),
        segments[n - 1].text@.len() > 0 ==> ({
            let before = srt_text(segments, n - 1);
            let all = srt_text(segments, n);
            let num = decimal(n as nat);
            let text = segments[n - 1].text@;
            &&& all.subrange(0, before.len() as int) == before
            &&& all.subrange(before.len() as int, (before.len() + num.len()) as int) == num
            &&& digits_value(num) == n
            &&& all[(before.len() + num.len()) as int] == '\n'
            &&& all.subrange(all.len() - text.len() - 2, all.len() as int) == text + "\n\n"@
        }),
{
    lemma_decimal_value(n as nat);
    let seg = segments[n - 1];
    if seg.text@.len() > 0 {
        assert((n - 1) as nat + 1 == n as nat);
        lemma_block_layout(srt_text(segments, n - 1), decimal(n as nat), srt_time(seg.start_ms),
            srt_time(seg.end_ms), seg.text@);
    }
}

} // verus!
