use opendisplay::capture::{select_target_output, OutputRect};
use opendisplay::encode::{is_keyframe, pack_u32_pair, DEFAULT_BITRATE_BPS, DEFAULT_FRAME_RATE};

fn rect(left: i32, top: i32, width: i32, height: i32) -> OutputRect {
    OutputRect { left, top, right: left + width, bottom: top + height }
}

#[test]
fn the_output_of_the_display_size_away_from_the_primary_origin_is_chosen() {
    let outputs = [rect(0, 0, 1170, 2532), rect(1920, 0, 1170, 2532)];
    assert_eq!(select_target_output(&outputs, 1170, 2532), Some(1));
}

#[test]
fn an_output_at_the_primary_origin_is_the_fallback() {
    let outputs = [rect(0, 0, 1920, 1080), rect(0, 0, 1170, 2532)];
    assert_eq!(select_target_output(&outputs, 1170, 2532), Some(1));
}

#[test]
fn no_output_of_the_display_size_selects_none() {
    let outputs = [rect(0, 0, 1920, 1080), rect(1920, 0, 2560, 1440)];
    assert_eq!(select_target_output(&outputs, 1170, 2532), None);
    assert_eq!(select_target_output(&[], 1, 1), None);
}

#[test]
fn frame_attributes_pack_two_u32s_high_then_low() {
    assert_eq!(pack_u32_pair(1920, 1080), (1920u64 << 32) | 1080);
    assert_eq!(pack_u32_pair(DEFAULT_FRAME_RATE, 1), (60u64 << 32) | 1);
    assert_eq!(pack_u32_pair(u32::MAX, u32::MAX), u64::MAX);
    assert_eq!(DEFAULT_BITRATE_BPS, 8_000_000);
}

#[test]
fn the_low_sample_flag_bit_marks_a_keyframe() {
    assert!(is_keyframe(1));
    assert!(is_keyframe(3));
    assert!(!is_keyframe(0));
    assert!(!is_keyframe(2));
}
