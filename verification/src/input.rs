//! Input handling: the closed set of directional buttons, discrete
//! pressed/released events, and the latched button state the simulation
//! keeps across ticks (the last event for a button wins).

use vstd::prelude::*;

verus! {

/// The directional buttons the simulation reacts to.
#[derive(Copy, Clone, Debug, PartialEq, Eq, Structural)]
pub enum Button {
    Up,
    Down,
    Left,
    Right,
}

/// One discrete input event: a button changed to pressed or released.
#[derive(Copy, Clone, Debug, PartialEq, Eq, Structural)]
pub struct InputEvent {
    pub button: Button,
    pub pressed: bool,
}

/// The latched state of every button.
#[derive(Copy, Clone, Debug, PartialEq, Eq, Structural)]
pub struct ButtonsState {
    pub up: bool,
    pub down: bool,
    pub left: bool,
    pub right: bool,
}

impl ButtonsState {
    /// All buttons released.
    pub fn released() -> (b: ButtonsState)
        ensures
            b == (ButtonsState { up: false, down: false, left: false, right: false }),
    {
        ButtonsState { up: false, down: false, left: false, right: false }
    }

    /// Whether `button` is currently held.
    pub fn pressed(&self, button: Button) -> (r: bool)
        ensures
            r == self.spec_pressed(button),
    {
        match button {
            Button::Up => self.up,
            Button::Down => self.down,
            Button::Left => self.left,
            Button::Right => self.right,
        }
    }

    /// The latched state of one button.
    pub open spec fn spec_pressed(self, button: Button) -> bool {
        match button {
            Button::Up => self.up,
            Button::Down => self.down,
            Button::Left => self.left,
            Button::Right => self.right,
        }
    }
}

/// The button state after one event: the named button takes the event's
/// pressed state, the others keep theirs.
pub open spec fn latch_one(bs: ButtonsState, e: InputEvent) -> ButtonsState {
    match e.button {
        Button::Up => ButtonsState { up: e.pressed, ..bs },
        Button::Down => ButtonsState { down: e.pressed, ..bs },
        Button::Left => ButtonsState { left: e.pressed, ..bs },
        Button::Right => ButtonsState { right: e.pressed, ..bs },
    }
}

/// The button state after a whole tick's events, applied in order, so for
/// each button the last event naming it wins.
pub open spec fn latch_all(bs: ButtonsState, events: Seq<InputEvent>) -> ButtonsState
    decreases events.len(),
{
    if events.len() == 0 {
        bs
    } else {
        latch_one(latch_all(bs, events.drop_last()), events.last())
    }
}

/// Fold a tick's events into the latched button state, in order.
pub fn latch_events(bs: &mut ButtonsState, events: &Vec<InputEvent>)
    ensures
        *final(bs) == latch_all(*old(bs), events@),
{
    let mut j: usize = 0;
    while j < events.len()
        invariant
            j <= events.len(),
            *bs == latch_all(*old(bs), events@.take(j as int)),
        decreases events.len() - j,
    {
        let e = events[j];
        proof {
            assert(events@.take(j + 1).drop_last() =~= events@.take(j as int));
        }
        match e.button {
            Button::Up => bs.up = e.pressed,
            Button::Down => bs.down = e.pressed,
            Button::Left => bs.left = e.pressed,
            Button::Right => bs.right = e.pressed,
        }
        j += 1;
    }
    proof {
        assert(events@.take(events@.len() as int) =~= events@);
    }
}

} // verus!
