//! Touch and scroll input: the click-state machine that turns `touch`
//! control messages into mouse-button transitions, and the seam behind which
//! the actual OS input injection sits.

use vstd::prelude::*;

verus! {

/// `touch.phase` values.
#[derive(Debug, Clone, Copy, PartialEq, Eq, Structural)]
pub enum TouchPhase {
    Began,
    Moved,
    Ended,
    Cancelled,
}

/// A mouse button transition [`next_touch_action`] decides on, for an
/// [`InputInjector`] to carry out.
#[derive(Debug, Clone, Copy, PartialEq, Eq, Structural)]
pub enum ClickAction {
    Down,
    Up,
}

/// One call made to an [`InputInjector`].
pub ghost enum InputCall {
    Move { x: i32, y: i32 },
    Down,
    Up,
    Scroll { horizontal: i32, vertical: i32 },
}

/// The actual OS input calls. `x`/`y` are absolute virtual-desktop pixel
/// coordinates (top-left origin); `horizontal`/`vertical` are signed wheel
/// deltas in `WHEEL_DELTA` units.
pub trait InputInjector {
    /// Whether this injector keeps the record [`InputInjector::calls`]. One
    /// that does not keeps none, and its calls say nothing of it.
    closed spec fn keeps_record(&self) -> bool {
        false
    }

    /// Every call made to the injector so far, in order, where it keeps the
    /// record.
    closed spec fn calls(&self) -> Seq<InputCall> {
        Seq::empty()
    }

    fn move_cursor(&mut self, x: i32, y: i32)
        ensures
            final(self).keeps_record() == old(self).keeps_record(),
            old(self).keeps_record() ==> final(self).calls() == old(self).calls().push(InputCall::Move { x, y }),
    ;

    fn mouse_down(&mut self)
        ensures
            final(self).keeps_record() == old(self).keeps_record(),
            old(self).keeps_record() ==> final(self).calls() == old(self).calls().push(InputCall::Down),
    ;

    fn mouse_up(&mut self)
        ensures
            final(self).keeps_record() == old(self).keeps_record(),
            old(self).keeps_record() ==> final(self).calls() == old(self).calls().push(InputCall::Up),
    ;

    fn scroll(&mut self, horizontal: i32, vertical: i32)
        ensures
            final(self).keeps_record() == old(self).keeps_record(),
            old(self).keeps_record() ==> final(self).calls() == old(self).calls().push(
                InputCall::Scroll { horizontal, vertical },
            ),
    ;
}

/// One call an [`InputLog`] recorded.
#[derive(Debug, Clone, Copy, PartialEq, Eq, Structural)]
pub enum RecordedInput {
    Move { x: i32, y: i32 },
    Down,
    Up,
    Scroll { horizontal: i32, vertical: i32 },
}

/// The call a recorded entry stands for.
pub open spec fn input_call_of(entry: RecordedInput) -> InputCall {
    match entry {
        RecordedInput::Move { x, y } => InputCall::Move { x, y },
        RecordedInput::Down => InputCall::Down,
        RecordedInput::Up => InputCall::Up,
        RecordedInput::Scroll { horizontal, vertical } => InputCall::Scroll { horizontal, vertical },
    }
}

/// An injector that moves nothing on screen and records every call, in
/// order.
pub struct InputLog {
    entries: Vec<RecordedInput>,
}

impl InputLog {
    /// A log with nothing recorded yet.
    pub fn new() -> (log: Self)
        ensures
            log.keeps_record(),
            log.calls() == Seq::<InputCall>::empty(),
    {
        let log = InputLog { entries: Vec::new() };
        assert(log.calls() =~= Seq::<InputCall>::empty());
        log
    }

    /// The calls recorded so far, in order.
    pub fn entries(&self) -> (entries: &Vec<RecordedInput>)
        ensures
            entries@.map_values(|e: RecordedInput| input_call_of(e)) == self.calls(),
    {
        &self.entries
    }

    fn record(&mut self, entry: RecordedInput)
        ensures
            final(self).calls() == old(self).calls().push(input_call_of(entry)),
    {
        self.entries.push(entry);
        assert(self.calls() =~= old(self).calls().push(input_call_of(entry)));
    }
}

impl InputInjector for InputLog {
    closed spec fn keeps_record(&self) -> bool {
        true
    }

    closed spec fn calls(&self) -> Seq<InputCall> {
        self.entries@.map_values(|e: RecordedInput| input_call_of(e))
    }

    fn move_cursor(&mut self, x: i32, y: i32) {
        self.record(RecordedInput::Move { x, y });
    }

    fn mouse_down(&mut self) {
        self.record(RecordedInput::Down);
    }

    fn mouse_up(&mut self) {
        self.record(RecordedInput::Up);
    }

    fn scroll(&mut self, horizontal: i32, vertical: i32) {
        self.record(RecordedInput::Scroll { horizontal, vertical });
    }
}

/// The injector call a click transition makes, if any.
pub open spec fn click_calls(action: Option<ClickAction>) -> Seq<InputCall> {
    match action {
        Some(ClickAction::Down) => seq![InputCall::Down],
        Some(ClickAction::Up) => seq![InputCall::Up],
        None => seq![],
    }
}

/// The magnitude of one standard wheel "click".
pub const WHEEL_DELTA: i32 = 120;

/// The click transition for one `touch` message: `began` presses, `moved`
/// never changes button state, `ended`/`cancelled` release only when a press
/// is outstanding (a spurious up with no matching down is ignored).
pub open spec fn spec_next_touch_action(is_down: bool, phase: TouchPhase) -> (bool, Option<ClickAction>) {
    match phase {
        TouchPhase::Began => (true, Some(ClickAction::Down)),
        TouchPhase::Moved => (is_down, None),
        TouchPhase::Ended | TouchPhase::Cancelled => if is_down {
            (false, Some(ClickAction::Up))
        } else {
            (false, None)
        },
    }
}

/// Decides the click-button transition for one `touch` message. Returns the
/// new `is_down` state and the action to carry out, if any.
pub fn next_touch_action(is_down: bool, phase: TouchPhase) -> (r: (bool, Option<ClickAction>))
    ensures
        r == spec_next_touch_action(is_down, phase),
{
    match phase {
        TouchPhase::Began => (true, Some(ClickAction::Down)),
        TouchPhase::Moved => (is_down, None),
        TouchPhase::Ended | TouchPhase::Cancelled => {
            if is_down {
                (false, Some(ClickAction::Up))
            } else {
                (false, None)
            }
        },
    }
}

/// Applies one `touch` message whose position is already mapped to the
/// pixel point `(x, y)`: moves the cursor there, then carries out whatever
/// click transition [`next_touch_action`] decides. `is_down` is the
/// session's persisted touch state across calls.
pub fn inject_touch_at<I: InputInjector>(
    injector: &mut I,
    is_down: &mut bool,
    phase: TouchPhase,
    x: i32,
    y: i32,
)
    ensures
        *final(is_down) == spec_next_touch_action(*old(is_down), phase).0,
        final(injector).keeps_record() == old(injector).keeps_record(),
        old(injector).keeps_record() ==> final(injector).calls() == old(injector).calls().push(
            InputCall::Move { x, y },
        ) + click_calls(spec_next_touch_action(*old(is_down), phase).1),
{
    injector.move_cursor(x, y);
    let (next_is_down, action) = next_touch_action(*is_down, phase);
    *is_down = next_is_down;
    match action {
        Some(ClickAction::Down) => injector.mouse_down(),
        Some(ClickAction::Up) => injector.mouse_up(),
        None => {},
    }
    assert(old(injector).keeps_record() ==> injector.calls() =~= old(injector).calls().push(
        InputCall::Move { x, y },
    ) + click_calls(action));
}

/// The state after feeding `phases` to the click-state machine from
/// `is_down`, with how many presses and releases it decided on.
pub open spec fn run_touches(is_down: bool, phases: Seq<TouchPhase>) -> (bool, nat, nat)
    decreases phases.len(),
{
    if phases.len() == 0 {
        (is_down, 0, 0)
    } else {
        let (next, action) = spec_next_touch_action(is_down, phases[0]);
        let (last, downs, ups) = run_touches(next, phases.drop_first());
        (
            last,
            downs + if action == Some(ClickAction::Down) { 1nat } else { 0nat },
            ups + if action == Some(ClickAction::Up) { 1nat } else { 0nat },
        )
    }
}

/// A release is decided only while a press is outstanding, and leaves none.
pub proof fn lemma_up_only_while_down(is_down: bool, phase: TouchPhase)
    ensures
        spec_next_touch_action(is_down, phase).1 == Some(ClickAction::Up) ==> is_down
            && !spec_next_touch_action(is_down, phase).0,
{
}

/// Across any run of touch phases the releases never outnumber the presses:
/// releases, plus one if a press is still outstanding at the end, are at
/// most the presses, plus one if a press was outstanding at the start.
pub proof fn lemma_ups_follow_downs(is_down: bool, phases: Seq<TouchPhase>)
    ensures
        ({
            let (last, downs, ups) = run_touches(is_down, phases);
            ups + (if last { 1int } else { 0int }) <= downs + (if is_down { 1int } else { 0int })
        }),
    decreases phases.len(),
{
    if phases.len() > 0 {
        let (next, action) = spec_next_touch_action(is_down, phases[0]);
        lemma_ups_follow_downs(next, phases.drop_first());
    }
}

} // verus!
