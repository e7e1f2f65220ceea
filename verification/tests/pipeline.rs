use effective_recorder::audio::order_device_names;
use effective_recorder::encoding::{
    audio_frame_size, copy_frame_into, encoding_finished, keyframe_interval, take_full_chunks, video_pts,
    VIDEO_TIME_BASE_DEN,
};
use effective_recorder::permissions::{
    has_color_variety, has_screen_recording_permission, open_screen_recording_settings,
    request_screen_recording_permission,
};
use effective_recorder::screen::{capture_scale, frame_interval_nanos, VideoFrame};

#[test]
fn pts_rounds_capture_time_to_the_time_base() {
    assert_eq!(video_pts(1_000_000, VIDEO_TIME_BASE_DEN as i64), 90_000);
    assert_eq!(video_pts(0, 90_000), 0);
    assert_eq!(video_pts(5, 90_000), 0);
    assert_eq!(video_pts(6, 90_000), 1);
    assert_eq!(video_pts(33_333, 90_000), 3000);
    assert_eq!(video_pts(-20, 90_000), -1);
}

#[test]
fn audio_frames_and_keyframes() {
    assert_eq!(audio_frame_size(0), 1024);
    assert_eq!(audio_frame_size(960), 960);
    assert_eq!(keyframe_interval(12), 24);
    assert!(encoding_finished(false, false, false));
    assert!(!encoding_finished(true, false, false));
    assert!(!encoding_finished(false, true, false));
    assert!(!encoding_finished(false, false, true));
}

#[test]
fn audio_is_cut_into_full_frames() {
    let mut buffer: Vec<i32> = (0..10).collect();
    let chunks = take_full_chunks(&mut buffer, 4);
    assert_eq!(chunks, vec![vec![0, 1, 2, 3], vec![4, 5, 6, 7]]);
    assert_eq!(buffer, vec![8, 9]);
    let mut small = vec![1.5f32, 2.5];
    assert!(take_full_chunks(&mut small, 3).is_empty());
    assert_eq!(small, vec![1.5f32, 2.5]);
}

fn frame(width: u32, height: u32) -> VideoFrame {
    let data: Vec<u8> = (0..(width * height * 4)).map(|i| (i % 251) as u8).collect();
    VideoFrame { data, width, height, timestamp_us: 0 }
}

#[test]
fn packed_frames_are_copied_in_one_piece() {
    let f = frame(2, 2);
    let mut dst = vec![0u8; 20];
    copy_frame_into(&mut dst, 8, &f, 2);
    assert_eq!(&dst[..16], &f.data[..]);
    assert_eq!(&dst[16..], &[0u8; 4]);
}

#[test]
fn padded_rows_are_copied_one_by_one() {
    let f = frame(2, 3);
    let mut dst = vec![0xffu8; 12 * 2];
    copy_frame_into(&mut dst, 12, &f, 2);
    assert_eq!(&dst[0..8], &f.data[0..8]);
    assert_eq!(&dst[8..12], &[0xffu8; 4]);
    assert_eq!(&dst[12..20], &f.data[8..16]);
    assert_eq!(&dst[20..24], &[0xffu8; 4]);
}

#[test]
fn rows_that_do_not_fit_are_skipped() {
    let f = frame(2, 1);
    let mut dst = vec![0u8; 16];
    copy_frame_into(&mut dst, 8, &f, 2);
    assert_eq!(&dst[0..8], &f.data[..]);
    assert_eq!(&dst[8..16], &[0u8; 8]);
}

#[test]
fn capture_pacing() {
    assert_eq!(frame_interval_nanos(24), 41_666_666);
    assert_eq!(frame_interval_nanos(5), 200_000_000);
    assert_eq!(capture_scale(2992, 1496), 2);
    assert_eq!(capture_scale(1920, 0), 1);
}

#[test]
fn default_microphone_first_and_names_once() {
    let names = vec![String::from("USB"), String::from("Built-in"), String::from("USB"), String::from("Headset")];
    assert_eq!(order_device_names(&String::from("Built-in"), &names), vec!["Built-in (default)", "USB", "Headset"]);
    assert_eq!(order_device_names(&String::new(), &names), vec!["USB", "Built-in", "Headset"]);
    assert!(order_device_names(&String::new(), &Vec::new()).is_empty());
}

#[test]
fn permission_outside_macos() {
    assert!(has_screen_recording_permission());
    request_screen_recording_permission();
    open_screen_recording_settings();
}

fn image(colors: &[[u8; 3]]) -> Vec<u8> {
    let mut data = Vec::new();
    for c in colors {
        data.extend_from_slice(&[c[0], c[1], c[2], 255]);
    }
    while data.len() < 120 {
        data.push(0);
    }
    data
}

#[test]
fn variety_needs_three_quantized_colours() {
    let points = vec![(0usize, 0usize), (1, 0), (2, 0), (3, 0)];
    let plain = image(&[[10, 10, 10], [12, 12, 12], [15, 15, 15], [0, 0, 0]]);
    assert!(!has_color_variety(&plain, 16, &points));
    let rich = image(&[[10, 10, 10], [200, 0, 0], [0, 200, 0], [0, 0, 0]]);
    assert!(has_color_variety(&rich, 16, &points));
    let two = image(&[[10, 10, 10], [200, 0, 0], [200, 1, 2], [0, 0, 0]]);
    assert!(!has_color_variety(&two, 16, &points));
    let tiny = vec![0u8, 255, 0, 0, 0, 255, 0, 0, 0, 255, 0, 0];
    assert!(!has_color_variety(&tiny, 12, &vec![(0, 0), (1, 0), (2, 0)]));
    assert!(!has_color_variety(&rich, 16, &vec![(1000, 0), (0, 1000)]));
}
