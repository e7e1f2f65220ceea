use effective_recorder::transcription::{
    decimal_string, download_large_enough, format_srt_time, model_available, padded_string,
    segment_from_recognizer, srt_content, whisper_thread_count, Segment, MODEL_MIN_SIZE,
};

fn seg(start_ms: i64, end_ms: i64, text: &str) -> Segment {
    Segment { start_ms, end_ms, text: text.to_string() }
}

#[test]
fn srt_times() {
    assert_eq!(format_srt_time(0), "00:00:00,000");
    assert_eq!(format_srt_time(3_661_001), "01:01:01,001");
    assert_eq!(format_srt_time(59_999), "00:00:59,999");
    assert_eq!(format_srt_time(-5), "00:00:00,000");
    assert_eq!(format_srt_time(360_000_000), "100:00:00,000");
    assert_eq!(format_srt_time(45_296_789), "12:34:56,789");
}

#[test]
fn decimal_rendering() {
    assert_eq!(decimal_string(0), "0");
    assert_eq!(decimal_string(1234567890), "1234567890");
    assert_eq!(decimal_string(u64::MAX), "18446744073709551615");
    assert_eq!(padded_string(7, 3), "007");
    assert_eq!(padded_string(1234, 2), "1234");
}

#[test]
fn srt_document_numbers_by_position_and_skips_empty_text() {
    let segments = vec![seg(0, 1500, "Hello"), seg(1500, 2000, ""), seg(2000, 62_010, "World")];
    assert_eq!(
        srt_content(&segments),
        "1\n00:00:00,000 --> 00:00:01,500\nHello\n\n3\n00:00:02,000 --> 00:01:02,010\nWorld\n\n"
    );
    assert_eq!(srt_content(&Vec::new()), "");
}

#[test]
fn recognizer_segments_are_in_milliseconds_and_trimmed() {
    let s = segment_from_recognizer(123, 456, "  hello there \n");
    assert_eq!(s.start_ms, 1230);
    assert_eq!(s.end_ms, 4560);
    assert_eq!(s.text, "hello there");
    assert_eq!(segment_from_recognizer(0, 0, "\u{3000} \t").text, "");
}

#[test]
fn model_checks() {
    assert!(!model_available(false, Some(MODEL_MIN_SIZE + 1)));
    assert!(!model_available(true, None));
    assert!(!model_available(true, Some(MODEL_MIN_SIZE)));
    assert!(model_available(true, Some(MODEL_MIN_SIZE + 1)));
    assert!(download_large_enough(MODEL_MIN_SIZE));
    assert!(!download_large_enough(MODEL_MIN_SIZE - 1));
}

#[test]
fn thread_count_is_capped_at_eight() {
    assert_eq!(whisper_thread_count(None), 4);
    assert_eq!(whisper_thread_count(Some(2)), 2);
    assert_eq!(whisper_thread_count(Some(8)), 8);
    assert_eq!(whisper_thread_count(Some(64)), 8);
}

#[test]
fn srt_time_reads_back_as_its_milliseconds() {
    for ms in [0i64, 1, 999, 1_000, 59_999, 60_000, 3_599_999, 3_600_000, 45_296_789, 359_999_999] {
        let s = format_srt_time(ms);
        let (hms, millis) = s.split_once(',').unwrap();
        let parts: Vec<i64> = hms.split(':').map(|p| p.parse().unwrap()).collect();
        assert_eq!(parts.len(), 3);
        assert_eq!(millis.len(), 3);
        let back = parts[0] * 3_600_000 + parts[1] * 60_000 + parts[2] * 1_000 + millis.parse::<i64>().unwrap();
        assert_eq!(back, ms);
    }
}
