//! Cursor forwarding: deciding, from two consecutive snapshots of the
//! Windows cursor, which `cursor`/`cursorImg` control messages to send, and
//! the JSON those messages are written as.
//!
//! Reading the cursor, extracting its image as PNG and normalizing pixel
//! coordinates to the display are OS and floating-point work outside this
//! library; normalized values arrive here as JSON number text.

use vstd::prelude::*;
use crate::base64::{base64_encode, spec_base64};
use crate::json::{decimal_text, json_bytes_render, render_json_bytes, Json, JsonValue};

verus! {

/// A cursor's identity for change detection: the cursor handle's numeric
/// value, stable while the cursor image is unchanged.
#[derive(Debug, Clone, Copy, PartialEq, Eq, Structural)]
pub struct CursorIdentity(pub isize);

/// One poll of the cursor: its position in display pixels, whether it is
/// showing, and which cursor image it shows, if any.
#[derive(Debug, Clone, Copy, PartialEq, Eq, Structural)]
pub struct CursorSnapshot {
    pub x_px: i32,
    pub y_px: i32,
    pub visible: bool,
    pub icon: Option<CursorIdentity>,
}

/// The previous poll's snapshot, handed from one poll to the next by the
/// loop that drives polling.
#[derive(Debug, Clone, Copy, PartialEq, Eq, Structural)]
pub struct CursorSnapshotHandle(pub CursorSnapshot);

/// A `cursor` message to send: the position in display pixels when the
/// cursor is showing (`None` when hidden), and whether it is showing.
#[derive(Debug, Clone, Copy, PartialEq, Eq)]
pub struct CursorReport {
    pub position_px: Option<(i32, i32)>,
    pub visible: bool,
}

/// What changed between two consecutive snapshots: the `cursor` message to
/// send, if the position or visibility changed, and the new cursor image to
/// send as `cursorImg`, if the image changed to one.
#[derive(Debug, Clone, Copy, PartialEq, Eq)]
pub struct CursorUpdate {
    pub cursor: Option<CursorReport>,
    pub new_icon: Option<CursorIdentity>,
}

/// The image a previous snapshot showed, if any.
pub open spec fn previous_icon(previous: Option<CursorSnapshot>) -> Option<CursorIdentity> {
    match previous {
        Some(p) => p.icon,
        None => None,
    }
}

/// Whether the position or visibility changed; always so for the first poll.
pub open spec fn position_or_visibility_changed(previous: Option<CursorSnapshot>, current: CursorSnapshot) -> bool {
    match previous {
        Some(p) => p.x_px != current.x_px || p.y_px != current.y_px || p.visible != current.visible,
        None => true,
    }
}

/// The update two consecutive snapshots call for.
pub open spec fn spec_diff_snapshots(previous: Option<CursorSnapshot>, current: CursorSnapshot) -> CursorUpdate {
    CursorUpdate {
        cursor: if position_or_visibility_changed(previous, current) {
            Some(
                CursorReport {
                    position_px: if current.visible { Some((current.x_px, current.y_px)) } else { None },
                    visible: current.visible,
                },
            )
        } else {
            None
        },
        new_icon: if previous_icon(previous) != current.icon { current.icon } else { None },
    }
}

/// Diffs two consecutive snapshots into what must be sent: a `cursor`
/// message whenever the position or visibility changed (or on the first
/// poll), and a `cursorImg` for the new image whenever the image changed to
/// one.
pub fn diff_snapshots(previous: Option<CursorSnapshot>, current: CursorSnapshot) -> (u: CursorUpdate)
    ensures
        u == spec_diff_snapshots(previous, current),
        (match previous {
            Some(p) => p.x_px != current.x_px || p.y_px != current.y_px || p.visible != current.visible,
            None => true,
        }) ==> u.cursor == Some(
            CursorReport {
                position_px: if current.visible { Some((current.x_px, current.y_px)) } else { None },
                visible: current.visible,
            },
        ),
{
    let changed = match previous {
        Some(prev) => prev.x_px != current.x_px || prev.y_px != current.y_px || prev.visible != current.visible,
        None => true,
    };
    let cursor = if changed {
        Some(
            CursorReport {
                position_px: if current.visible { Some((current.x_px, current.y_px)) } else { None },
                visible: current.visible,
            },
        )
    } else {
        None
    };
    let prev_icon = match previous {
        Some(p) => p.icon,
        None => None,
    };
    let icon_changed = match (prev_icon, current.icon) {
        (Some(a), Some(b)) => a.0 != b.0,
        (None, None) => false,
        _ => true,
    };
    CursorUpdate { cursor, new_icon: if icon_changed { current.icon } else { None } }
}

/// Every move and every show or hide is reported: whenever the cursor's
/// position (either coordinate) or visibility differs from the previous
/// poll's, or there was no previous poll, the update carries a `cursor`
/// report of the current visibility and, while showing, the current
/// position. And whenever the cursor image changes to one, that image is
/// sent.
pub proof fn lemma_changes_are_reported(previous: Option<CursorSnapshot>, current: CursorSnapshot)
    ensures
        (match previous {
            Some(p) => p.x_px != current.x_px || p.y_px != current.y_px || p.visible != current.visible,
            None => true,
        }) ==> spec_diff_snapshots(previous, current).cursor == Some(
            CursorReport {
                position_px: if current.visible { Some((current.x_px, current.y_px)) } else { None },
                visible: current.visible,
            },
        ),
        (match previous {
            Some(p) => p.x_px == current.x_px && p.y_px == current.y_px && p.visible == current.visible,
            None => false,
        }) ==> spec_diff_snapshots(previous, current).cursor is None,
        current.icon is Some && (match previous {
            Some(p) => p.icon != current.icon,
            None => true,
        }) ==> spec_diff_snapshots(previous, current).new_icon == current.icon,
{
}

/// An unchanged snapshot calls for nothing: polling a still cursor sends no
/// message.
pub proof fn lemma_unchanged_cursor_sends_nothing(snapshot: CursorSnapshot)
    ensures
        spec_diff_snapshots(Some(snapshot), snapshot) == (CursorUpdate { cursor: None, new_icon: None }),
{
}

/// One outbound cursor message. Normalized values are JSON number text.
#[derive(Debug, PartialEq, Eq)]
pub enum CursorEvent {
    /// `cursor`: `x`/`y` normalized to the display (absent when hidden),
    /// and `v`, whether the cursor is showing.
    Cursor { position: Option<(String, String)>, visible: bool },
    /// `cursorImg`: the sprite as raw PNG bytes (base64-encoded on the
    /// wire), its size normalized to the display and its hotspot
    /// normalized to the sprite.
    CursorImg {
        png: Vec<u8>,
        width_norm: String,
        height_norm: String,
        hotspot_x_norm: String,
        hotspot_y_norm: String,
    },
}

/// The JSON a cursor message is written as.
pub open spec fn cursor_event_json(e: CursorEvent) -> Json {
    match e {
        CursorEvent::Cursor { position, visible } => {
            let base = seq![
                ("type"@, Json::Str("cursor"@)),
                ("v"@, Json::Number(decimal_text(if visible { 1 } else { 0 }))),
            ];
            Json::Object(
                match position {
                    Some((x, y)) => base + seq![("x"@, Json::Number(x@)), ("y"@, Json::Number(y@))],
                    None => base,
                },
            )
        },
        CursorEvent::CursorImg { png, width_norm, height_norm, hotspot_x_norm, hotspot_y_norm } => Json::Object(
            seq![
                ("type"@, Json::Str("cursorImg"@)),
                ("nw"@, Json::Number(width_norm@)),
                ("nh"@, Json::Number(height_norm@)),
                ("ax"@, Json::Number(hotspot_x_norm@)),
                ("ay"@, Json::Number(hotspot_y_norm@)),
                ("png"@, Json::Str(spec_base64(png@))),
            ],
        ),
    }
}

/// Builds the wire payload for one cursor message: `cursor { type, v, x?, y? }`
/// or `cursorImg { type, nw, nh, ax, ay, png }`, with the PNG base64-encoded.
pub fn encode_cursor_event(event: &CursorEvent) -> (bytes: Vec<u8>)
    ensures
        bytes@ == json_bytes_render(cursor_event_json(*event)),
{
    let mut es: Vec<(String, JsonValue)> = Vec::new();
    match event {
        CursorEvent::Cursor { position, visible } => {
            crate::json::push_entry(&mut es, "type", crate::json::json_str("cursor"));
            let v: u32 = if *visible { 1 } else { 0 };
            crate::json::push_entry(&mut es, "v", JsonValue::Number(crate::json::u32_text(v)));
            let ghost base = crate::json::object_view(es@);
            assert(base =~= seq![
                ("type"@, Json::Str("cursor"@)),
                ("v"@, Json::Number(decimal_text(if *visible { 1 } else { 0 }))),
            ]);
            match position {
                Some((x, y)) => {
                    crate::json::push_entry(&mut es, "x", JsonValue::Number(x.clone()));
                    crate::json::push_entry(&mut es, "y", JsonValue::Number(y.clone()));
                    assert(crate::json::object_view(es@) =~= base + seq![("x"@, Json::Number(x@)), ("y"@, Json::Number(y@))]);
                },
                None => {},
            }
        },
        CursorEvent::CursorImg { png, width_norm, height_norm, hotspot_x_norm, hotspot_y_norm } => {
            crate::json::push_entry(&mut es, "type", crate::json::json_str("cursorImg"));
            crate::json::push_entry(&mut es, "nw", JsonValue::Number(width_norm.clone()));
            crate::json::push_entry(&mut es, "nh", JsonValue::Number(height_norm.clone()));
            crate::json::push_entry(&mut es, "ax", JsonValue::Number(hotspot_x_norm.clone()));
            crate::json::push_entry(&mut es, "ay", JsonValue::Number(hotspot_y_norm.clone()));
            crate::json::push_entry(&mut es, "png", JsonValue::Str(base64_encode(png.as_slice())));
            assert(crate::json::object_view(es@) =~= seq![
                ("type"@, Json::Str("cursorImg"@)),
                ("nw"@, Json::Number(width_norm@)),
                ("nh"@, Json::Number(height_norm@)),
                ("ax"@, Json::Number(hotspot_x_norm@)),
                ("ay"@, Json::Number(hotspot_y_norm@)),
                ("png"@, Json::Str(spec_base64(png@))),
            ]);
        },
    }
    let value = crate::json::json_object(es);
    assert(value@ == cursor_event_json(*event));
    render_json_bytes(&value)
}

} // verus!
