use opendisplay::base64::base64_encode;
use opendisplay::cursor::{encode_cursor_event, CursorEvent};

fn widened(value: f32) -> String {
    serde_json::Value::from(value).to_string()
}

#[test]
fn empty_input_encodes_to_an_empty_string() {
    assert_eq!(base64_encode(b""), "");
}

#[test]
fn a_length_matching_a_multiple_of_3_needs_no_padding() {
    assert_eq!(base64_encode(b"Man"), "TWFu");
}

#[test]
fn a_length_one_short_of_a_multiple_of_3_gets_one_padding_char() {
    assert_eq!(base64_encode(b"Ma"), "TWE=");
}

#[test]
fn a_length_two_short_of_a_multiple_of_3_gets_two_padding_chars() {
    assert_eq!(base64_encode(b"M"), "TQ==");
}

#[test]
fn a_longer_payload_encodes_correctly() {
    assert_eq!(base64_encode(b"hello world"), "aGVsbG8gd29ybGQ=");
}

#[test]
fn every_byte_value_encodes_with_the_standard_alphabet() {
    assert_eq!(base64_encode(&[0xfb, 0xff, 0xfe]), "+//+");
    assert_eq!(base64_encode(&[0x00, 0x00, 0x00, 0x00]), "AAAAAA==");
}

#[test]
fn a_visible_cursor_event_encodes_type_v_and_position() {
    let event = CursorEvent::Cursor { position: Some((widened(0.25), widened(0.75))), visible: true };

    let value: serde_json::Value = serde_json::from_slice(&encode_cursor_event(&event)).unwrap();

    assert_eq!(value["type"], "cursor");
    assert_eq!(value["v"], 1);
    assert_eq!(value["x"], 0.25);
    assert_eq!(value["y"], 0.75);
}

#[test]
fn a_hidden_cursor_event_encodes_v_zero_with_no_position_fields() {
    let event = CursorEvent::Cursor { position: None, visible: false };

    let value: serde_json::Value = serde_json::from_slice(&encode_cursor_event(&event)).unwrap();

    assert_eq!(value["type"], "cursor");
    assert_eq!(value["v"], 0);
    assert!(value.get("x").is_none());
    assert!(value.get("y").is_none());
}

#[test]
fn a_cursor_img_event_encodes_base64_png_and_normalized_geometry() {
    let event = CursorEvent::CursorImg {
        png: b"hello world".to_vec(),
        width_norm: widened(0.1),
        height_norm: widened(0.2),
        hotspot_x_norm: widened(0.3),
        hotspot_y_norm: widened(0.4),
    };

    let value: serde_json::Value = serde_json::from_slice(&encode_cursor_event(&event)).unwrap();

    assert_eq!(value["type"], "cursorImg");
    assert_eq!(value["png"], "aGVsbG8gd29ybGQ=");
    assert_eq!(value["nw"], serde_json::Value::from(0.1_f32));
    assert_eq!(value["nh"], serde_json::Value::from(0.2_f32));
    assert_eq!(value["ax"], serde_json::Value::from(0.3_f32));
    assert_eq!(value["ay"], serde_json::Value::from(0.4_f32));
}

#[test]
fn a_cursor_event_is_compact_json_in_field_order() {
    let event = CursorEvent::Cursor { position: Some(("0.5".into(), "1.0".into())), visible: true };
    assert_eq!(encode_cursor_event(&event), br#"{"type":"cursor","v":1,"x":0.5,"y":1.0}"#.to_vec());
}

#[test]
fn base64_text_has_four_characters_per_started_group_and_only_trailing_padding() {
    for len in 0..10usize {
        let bytes: Vec<u8> = (0..len as u8).map(|b| b.wrapping_mul(37)).collect();
        let text = base64_encode(&bytes);
        assert_eq!(text.len(), 4 * ((len + 2) / 3));
        let padding = match len % 3 {
            1 => 2,
            2 => 1,
            _ => 0,
        };
        let body = &text[..text.len() - padding];
        assert!(!body.contains('='));
        assert!(text[text.len() - padding..].chars().all(|c| c == '='));
    }
}
