use opendisplay::input::{
    inject_touch_at, next_touch_action, ClickAction, InputInjector, InputLog, RecordedInput, TouchPhase, WHEEL_DELTA,
};

#[derive(Default)]
struct FakeInjector {
    moves: Vec<(i32, i32)>,
    downs: u32,
    ups: u32,
    scrolls: Vec<(i32, i32)>,
}

impl InputInjector for FakeInjector {
    fn move_cursor(&mut self, x: i32, y: i32) {
        self.moves.push((x, y));
    }
    fn mouse_down(&mut self) {
        self.downs += 1;
    }
    fn mouse_up(&mut self) {
        self.ups += 1;
    }
    fn scroll(&mut self, horizontal: i32, vertical: i32) {
        self.scrolls.push((horizontal, vertical));
    }
}

#[test]
fn began_presses_the_button_and_sets_is_down() {
    assert_eq!(next_touch_action(false, TouchPhase::Began), (true, Some(ClickAction::Down)));
}

#[test]
fn moved_never_changes_button_state() {
    assert_eq!(next_touch_action(true, TouchPhase::Moved), (true, None));
    assert_eq!(next_touch_action(false, TouchPhase::Moved), (false, None));
}

#[test]
fn ended_while_down_releases_the_button() {
    assert_eq!(next_touch_action(true, TouchPhase::Ended), (false, Some(ClickAction::Up)));
}

#[test]
fn a_spurious_up_with_no_matching_down_is_ignored() {
    assert_eq!(next_touch_action(false, TouchPhase::Ended), (false, None));
    assert_eq!(next_touch_action(false, TouchPhase::Cancelled), (false, None));
}

#[test]
fn a_touch_at_a_mapped_point_moves_there_then_presses_down() {
    let mut injector = FakeInjector::default();
    let mut is_down = false;

    inject_touch_at(&mut injector, &mut is_down, TouchPhase::Began, 500, 1000);

    assert_eq!(injector.moves, vec![(500, 1000)]);
    assert_eq!(injector.downs, 1);
    assert_eq!(injector.ups, 0);
    assert!(is_down);
}

#[test]
fn a_touch_ending_releases_only_when_previously_down() {
    let mut injector = FakeInjector::default();
    let mut is_down = true;
    inject_touch_at(&mut injector, &mut is_down, TouchPhase::Ended, 0, 0);
    assert_eq!(injector.ups, 1);
    assert!(!is_down);

    inject_touch_at(&mut injector, &mut is_down, TouchPhase::Cancelled, 0, 0);
    assert_eq!(injector.ups, 1, "no second release without a press");
    assert_eq!(injector.moves.len(), 2);
    assert!(injector.scrolls.is_empty());
}

#[test]
fn a_whole_drag_presses_once_and_releases_once() {
    let mut injector = FakeInjector::default();
    let mut is_down = false;
    for (phase, x) in [(TouchPhase::Began, 1), (TouchPhase::Moved, 2), (TouchPhase::Moved, 3), (TouchPhase::Ended, 4)] {
        inject_touch_at(&mut injector, &mut is_down, phase, x, x);
    }
    assert_eq!(injector.downs, 1);
    assert_eq!(injector.ups, 1);
    assert_eq!(injector.moves, vec![(1, 1), (2, 2), (3, 3), (4, 4)]);
    assert!(!is_down);
}

#[test]
fn one_wheel_notch_is_one_hundred_twenty_units() {
    assert_eq!(WHEEL_DELTA, 120);
}

#[test]
fn releases_never_outnumber_presses_over_a_run_of_phases() {
    let phases = [
        TouchPhase::Ended,
        TouchPhase::Began,
        TouchPhase::Began,
        TouchPhase::Moved,
        TouchPhase::Ended,
        TouchPhase::Cancelled,
        TouchPhase::Ended,
        TouchPhase::Began,
        TouchPhase::Moved,
    ];
    let (mut is_down, mut downs, mut ups) = (false, 0, 0);
    for phase in phases {
        let (next, action) = next_touch_action(is_down, phase);
        match action {
            Some(ClickAction::Down) => downs += 1,
            Some(ClickAction::Up) => ups += 1,
            None => {}
        }
        is_down = next;
        assert!(ups + usize::from(is_down) <= downs);
    }
    assert_eq!((is_down, downs, ups), (true, 3, 1));
}

#[test]
fn a_touch_records_the_move_then_the_click_in_that_order() {
    let mut log = InputLog::new();
    let mut is_down = false;
    inject_touch_at(&mut log, &mut is_down, TouchPhase::Began, 500, 1000);
    inject_touch_at(&mut log, &mut is_down, TouchPhase::Moved, 510, 1010);
    inject_touch_at(&mut log, &mut is_down, TouchPhase::Ended, 520, 1020);
    inject_touch_at(&mut log, &mut is_down, TouchPhase::Cancelled, 530, 1030);
    log.scroll(120, -240);
    assert_eq!(
        log.entries(),
        &vec![
            RecordedInput::Move { x: 500, y: 1000 },
            RecordedInput::Down,
            RecordedInput::Move { x: 510, y: 1010 },
            RecordedInput::Move { x: 520, y: 1020 },
            RecordedInput::Up,
            RecordedInput::Move { x: 530, y: 1030 },
            RecordedInput::Scroll { horizontal: 120, vertical: -240 },
        ]
    );
    assert!(!is_down);
}
