use opendisplay::cursor::{diff_snapshots, CursorIdentity, CursorReport, CursorSnapshot, CursorUpdate};

fn snapshot(x: i32, y: i32, visible: bool, icon: Option<isize>) -> CursorSnapshot {
    CursorSnapshot { x_px: x, y_px: y, visible, icon: icon.map(CursorIdentity) }
}

#[test]
fn the_first_poll_reports_position_and_image() {
    let update = diff_snapshots(None, snapshot(10, 20, true, Some(7)));
    assert_eq!(
        update,
        CursorUpdate {
            cursor: Some(CursorReport { position_px: Some((10, 20)), visible: true }),
            new_icon: Some(CursorIdentity(7)),
        }
    );
}

#[test]
fn an_unchanged_cursor_reports_nothing() {
    let s = snapshot(10, 20, true, Some(7));
    assert_eq!(diff_snapshots(Some(s), s), CursorUpdate { cursor: None, new_icon: None });
}

#[test]
fn a_move_reports_only_the_position() {
    let update = diff_snapshots(Some(snapshot(10, 20, true, Some(7))), snapshot(11, 20, true, Some(7)));
    assert_eq!(update.cursor, Some(CursorReport { position_px: Some((11, 20)), visible: true }));
    assert_eq!(update.new_icon, None);
}

#[test]
fn hiding_the_cursor_reports_it_hidden_without_a_position() {
    let update = diff_snapshots(Some(snapshot(10, 20, true, Some(7))), snapshot(10, 20, false, Some(7)));
    assert_eq!(update.cursor, Some(CursorReport { position_px: None, visible: false }));
}

#[test]
fn a_new_image_is_reported_but_losing_the_image_is_not() {
    let update = diff_snapshots(Some(snapshot(1, 1, true, Some(7))), snapshot(1, 1, true, Some(8)));
    assert_eq!(update, CursorUpdate { cursor: None, new_icon: Some(CursorIdentity(8)) });
    let update = diff_snapshots(Some(snapshot(1, 1, true, Some(7))), snapshot(1, 1, true, None));
    assert_eq!(update, CursorUpdate { cursor: None, new_icon: None });
}
