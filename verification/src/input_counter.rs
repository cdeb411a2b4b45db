//! Frame-accurate input debouncing.
//!
//! One [`InputCounter`] per key turns the raw "is the key held" bit into
//! discrete handle events, with a first delay and a repeat interval
//! (DAS/ARR semantics).  An [`InputManager`] keeps one counter per
//! registered key of the input bitmask.

use vstd::prelude::*;
use crate::common::{FIRM_DROP, HARD_DROP, HOLD, Input, MOVE_LEFT, MOVE_RIGHT, ROTATE_CCW,
    ROTATE_CW, SOFT_DROP};

verus! {

/// A value that can say whether it carries a given input flag.
pub trait Contains {
    /// Abstract flag membership.
    spec fn spec_contains(&self, v: Input) -> bool;

    /// Whether every bit of `v` is set in `self`.
    fn contains(&self, v: Input) -> (r: bool)
        ensures
            r == self.spec_contains(v),
    ;
}

impl Contains for u8 {
    open spec fn spec_contains(&self, v: Input) -> bool {
        *self & v == v
    }

    fn contains(&self, v: Input) -> (r: bool) {
        *self & v == v
    }
}

/// Phase of one key's debounce machine.
#[derive(Debug, Copy, Clone, PartialEq, Eq, Structural)]
pub enum InputState {
    /// The key is not held.
    Inactive,
    /// The key is held; the first delay is running.
    Delay,
    /// The key is held; triggers repeat periodically.
    Repeat,
    /// The key is held; a one-shot key fired and stays silent until
    /// released.
    End,
}

/// Debounce state of one key: a four-state machine parameterized by the
/// repeat interval and the first delay, both in frames.
#[derive(Debug, Copy, Clone, PartialEq, Eq, Structural)]
pub struct InputCounter {
    opt_repeat: u64,
    opt_first_delay: u64,
    state: InputState,
    can_handle: bool,
    is_handled: bool,
    n: u64,
}

impl InputCounter {
    /// The counter `new(repeat, first_delay)` returns: a first delay of
    /// zero means "repeat from the start", so it is replaced by the repeat
    /// interval.
    pub closed spec fn spec_new(repeat: u64, first_delay: u64) -> InputCounter {
        InputCounter {
            opt_repeat: repeat,
            opt_first_delay: if first_delay == 0 {
                repeat
            } else {
                first_delay
            },
            state: InputState::Inactive,
            can_handle: false,
            is_handled: false,
            n: 0,
        }
    }

    /// Internal counters stay below their limits, so one tick never
    /// overflows.
    pub closed spec fn wf(&self) -> bool {
        &&& (self.state is Inactive ==> self.n == 0)
        &&& (self.opt_first_delay == 0 ==> self.opt_repeat == 0)
        &&& (self.state is Delay ==> self.n < self.opt_first_delay && self.opt_repeat >= 1)
        &&& (self.state is Repeat ==> self.n < self.opt_repeat)
    }

    /// Whether a trigger is pending.
    pub closed spec fn spec_can_handle(&self) -> bool {
        self.can_handle
    }

    /// Whether the machine is in its auto-repeat phase (as opposed to a
    /// fresh, first trigger).
    pub closed spec fn spec_is_repeating(&self) -> bool {
        self.state is Repeat
    }

    /// One tick of the machine: releasing the key resets it; a pending,
    /// unconsumed trigger freezes it; otherwise the current phase counts
    /// toward its next trigger.
    pub closed spec fn spec_update(c: InputCounter, active: bool) -> InputCounter {
        if !active {
            InputCounter {
                state: InputState::Inactive,
                can_handle: false,
                is_handled: false,
                n: 0,
                ..c
            }
        } else if c.can_handle && !c.is_handled {
            c
        } else {
            let c1 = InputCounter { is_handled: false, ..c };
            match c1.state {
                InputState::Inactive => InputCounter {
                    can_handle: true,
                    state: if c1.opt_repeat == 0 {
                        InputState::End
                    } else {
                        InputState::Delay
                    },
                    ..c1
                },
                InputState::Delay => {
                    let n1 = (c1.n + 1) as u64;
                    if n1 == c1.opt_first_delay {
                        InputCounter { n: 0, can_handle: true, state: InputState::Repeat, ..c1 }
                    } else {
                        InputCounter { n: n1, can_handle: false, ..c1 }
                    }
                },
                InputState::Repeat => {
                    let n1 = ((c1.n + 1) as u64) % c1.opt_repeat;
                    InputCounter { n: n1, can_handle: n1 == 0, ..c1 }
                },
                InputState::End => c1,
            }
        }
    }

    /// What `handle` returns and leaves behind: a pending trigger is
    /// consumed exactly once.
    pub closed spec fn spec_handle(c: InputCounter) -> (bool, InputCounter) {
        if c.can_handle {
            (true, InputCounter { can_handle: false, is_handled: true, ..c })
        } else {
            (false, c)
        }
    }

    /// Build a counter with the given repeat interval and first delay.  A
    /// repeat of zero makes the key one-shot; a first delay of zero makes
    /// the repeat interval double as the first delay.
    pub fn new(repeat: u64, first_delay: u64) -> (c: InputCounter)
        ensures
            c == InputCounter::spec_new(repeat, first_delay),
            c.wf(),
    {
        InputCounter {
            opt_repeat: repeat,
            opt_first_delay: if first_delay == 0 {
                repeat
            } else {
                first_delay
            },
            state: InputState::Inactive,
            can_handle: false,
            is_handled: false,
            n: 0,
        }
    }

    /// Advance the machine one frame with the raw held bit.
    pub fn update(&mut self, active: bool)
        requires
            old(self).wf(),
        ensures
            *final(self) == InputCounter::spec_update(*old(self), active),
            final(self).wf(),
    {
        if !active {
            self.state = InputState::Inactive;
            self.can_handle = false;
            self.is_handled = false;
            self.n = 0;
            return ;
        }
        if self.can_handle && !self.is_handled {
            return ;
        }
        self.is_handled = false;
        match self.state {
            InputState::Inactive => {
                self.can_handle = true;
                self.state = if self.opt_repeat == 0 {
                    InputState::End
                } else {
                    InputState::Delay
                };
            },
            InputState::Delay => {
                self.n = self.n + 1;
                self.can_handle = self.n == self.opt_first_delay;
                if self.can_handle {
                    self.n = 0;
                    self.state = InputState::Repeat;
                }
            },
            InputState::Repeat => {
                self.n = (self.n + 1) % self.opt_repeat;
                self.can_handle = self.n == 0;
            },
            InputState::End => {},
        }
    }

    /// Whether a trigger is pending.
    pub fn can_handle(&self) -> (r: bool)
        ensures
            r == self.spec_can_handle(),
    {
        self.can_handle
    }

    /// Whether the machine is auto-repeating (the pending trigger, if any,
    /// is not a fresh first press).
    pub fn is_repeating(&self) -> (r: bool)
        ensures
            r == self.spec_is_repeating(),
    {
        match self.state {
            InputState::Repeat => true,
            _ => false,
        }
    }

    /// Consume the pending trigger: returns `true` and acknowledges it if
    /// one was pending, else returns `false` and changes nothing.
    pub fn handle(&mut self) -> (r: bool)
        ensures
            r == InputCounter::spec_handle(*old(self)).0,
            *final(self) == InputCounter::spec_handle(*old(self)).1,
            old(self).wf() ==> final(self).wf(),
    {
        if self.can_handle {
            self.can_handle = false;
            self.is_handled = true;
            return true;
        }
        false
    }
}

/// Law: debouncer idempotence.  Two `handle` calls with no `update` in
/// between return `true` at most once: the first consumes the pending
/// trigger, so the second finds none.
pub proof fn lemma_handle_at_most_once(c: InputCounter)
    ensures
        !(InputCounter::spec_handle(c).0 && InputCounter::spec_handle(
            InputCounter::spec_handle(c).1,
        ).0),
{
}

/// One debounce counter per registered key of the 8-bit input mask.
#[derive(Debug, Clone, PartialEq)]
pub struct InputManager {
    hard_drop: Option<InputCounter>,
    soft_drop: Option<InputCounter>,
    firm_drop: Option<InputCounter>,
    move_left: Option<InputCounter>,
    move_right: Option<InputCounter>,
    rotate_cw: Option<InputCounter>,
    rotate_ccw: Option<InputCounter>,
    hold: Option<InputCounter>,
}

/// One registered counter ticked with its key's raw bit.
pub open spec fn spec_update_slot(c: Option<InputCounter>, active: bool) -> Option<InputCounter> {
    match c {
        Some(c) => Some(InputCounter::spec_update(c, active)),
        None => None,
    }
}

/// What handling one registered counter returns and leaves behind.
pub open spec fn spec_handle_slot(c: Option<InputCounter>) -> (bool, Option<InputCounter>) {
    match c {
        Some(c) => (InputCounter::spec_handle(c).0, Some(InputCounter::spec_handle(c).1)),
        None => (false, None),
    }
}

/// Tick one registered counter with its key's raw bit.
fn update_slot(slot: &mut Option<InputCounter>, active: bool)
    requires
        *old(slot) matches Some(c) ==> c.wf(),
    ensures
        *final(slot) == spec_update_slot(*old(slot), active),
        *final(slot) matches Some(c) ==> c.wf(),
{
    if let Some(mut c) = *slot {
        c.update(active);
        *slot = Some(c);
    }
}

impl InputManager {
    /// The manager with no key registered.
    pub closed spec fn spec_empty() -> InputManager {
        InputManager {
            hard_drop: None,
            soft_drop: None,
            firm_drop: None,
            move_left: None,
            move_right: None,
            rotate_cw: None,
            rotate_ccw: None,
            hold: None,
        }
    }

    /// The counter registered for `key`, if any.  Only the eight named
    /// input flags can be registered.
    pub closed spec fn spec_slot(&self, key: Input) -> Option<InputCounter> {
        if key == HARD_DROP {
            self.hard_drop
        } else if key == SOFT_DROP {
            self.soft_drop
        } else if key == FIRM_DROP {
            self.firm_drop
        } else if key == MOVE_LEFT {
            self.move_left
        } else if key == MOVE_RIGHT {
            self.move_right
        } else if key == ROTATE_CW {
            self.rotate_cw
        } else if key == ROTATE_CCW {
            self.rotate_ccw
        } else if key == HOLD {
            self.hold
        } else {
            None
        }
    }

    /// Every registered counter is well-formed.
    pub open spec fn wf(&self) -> bool {
        forall|key: Input|
            (#[trigger] self.spec_slot(key)) matches Some(c) ==> c.wf()
    }

    /// The manager after one frame: every registered counter ticked with
    /// its key's bit of `input`.
    pub closed spec fn spec_update(m: InputManager, input: Input) -> InputManager {
        InputManager {
            hard_drop: spec_update_slot(m.hard_drop, input & HARD_DROP == HARD_DROP),
            soft_drop: spec_update_slot(m.soft_drop, input & SOFT_DROP == SOFT_DROP),
            firm_drop: spec_update_slot(m.firm_drop, input & FIRM_DROP == FIRM_DROP),
            move_left: spec_update_slot(m.move_left, input & MOVE_LEFT == MOVE_LEFT),
            move_right: spec_update_slot(m.move_right, input & MOVE_RIGHT == MOVE_RIGHT),
            rotate_cw: spec_update_slot(m.rotate_cw, input & ROTATE_CW == ROTATE_CW),
            rotate_ccw: spec_update_slot(m.rotate_ccw, input & ROTATE_CCW == ROTATE_CCW),
            hold: spec_update_slot(m.hold, input & HOLD == HOLD),
        }
    }

    /// What handling `key` returns and leaves behind.
    pub closed spec fn spec_handle(m: InputManager, key: Input) -> (bool, InputManager) {
        if key == HARD_DROP {
            let (r, c) = spec_handle_slot(m.hard_drop);
            (r, InputManager { hard_drop: c, ..m })
        } else if key == SOFT_DROP {
            let (r, c) = spec_handle_slot(m.soft_drop);
            (r, InputManager { soft_drop: c, ..m })
        } else if key == FIRM_DROP {
            let (r, c) = spec_handle_slot(m.firm_drop);
            (r, InputManager { firm_drop: c, ..m })
        } else if key == MOVE_LEFT {
            let (r, c) = spec_handle_slot(m.move_left);
            (r, InputManager { move_left: c, ..m })
        } else if key == MOVE_RIGHT {
            let (r, c) = spec_handle_slot(m.move_right);
            (r, InputManager { move_right: c, ..m })
        } else if key == ROTATE_CW {
            let (r, c) = spec_handle_slot(m.rotate_cw);
            (r, InputManager { rotate_cw: c, ..m })
        } else if key == ROTATE_CCW {
            let (r, c) = spec_handle_slot(m.rotate_ccw);
            (r, InputManager { rotate_ccw: c, ..m })
        } else if key == HOLD {
            let (r, c) = spec_handle_slot(m.hold);
            (r, InputManager { hold: c, ..m })
        } else {
            (false, m)
        }
    }

    /// The manager after `counter` was registered for `key`, and what the
    /// key's slot held before.  A key outside the eight named flags is not
    /// tracked.
    pub closed spec fn spec_register(m: InputManager, key: Input, counter: InputCounter) -> (
        Option<InputCounter>,
        InputManager,
    ) {
        if key == HARD_DROP {
            (m.hard_drop, InputManager { hard_drop: Some(counter), ..m })
        } else if key == SOFT_DROP {
            (m.soft_drop, InputManager { soft_drop: Some(counter), ..m })
        } else if key == FIRM_DROP {
            (m.firm_drop, InputManager { firm_drop: Some(counter), ..m })
        } else if key == MOVE_LEFT {
            (m.move_left, InputManager { move_left: Some(counter), ..m })
        } else if key == MOVE_RIGHT {
            (m.move_right, InputManager { move_right: Some(counter), ..m })
        } else if key == ROTATE_CW {
            (m.rotate_cw, InputManager { rotate_cw: Some(counter), ..m })
        } else if key == ROTATE_CCW {
            (m.rotate_ccw, InputManager { rotate_ccw: Some(counter), ..m })
        } else if key == HOLD {
            (m.hold, InputManager { hold: Some(counter), ..m })
        } else {
            (None, m)
        }
    }

    /// Register `counter` for `key`, returning the counter the key had
    /// before, if any.  Only the eight named input flags are tracked; any
    /// other key is ignored.
    pub fn register(&mut self, key: Input, counter: InputCounter) -> (r: Option<InputCounter>)
        ensures
            r == InputManager::spec_register(*old(self), key, counter).0,
            *final(self) == InputManager::spec_register(*old(self), key, counter).1,
            old(self).wf() && counter.wf() ==> final(self).wf(),
    {
        proof {
            if old(self).wf() && counter.wf() {
                let m2 = InputManager::spec_register(*old(self), key, counter).1;
                assert forall|k: Input| (#[trigger] m2.spec_slot(k)) is Some implies (m2.spec_slot(
                    k,
                )->Some_0).wf() by {
                    assert(old(self).spec_slot(k) matches Some(c0) ==> c0.wf());
                }
            }
        }
        if key == HARD_DROP {
            let r = self.hard_drop;
            self.hard_drop = Some(counter);
            r
        } else if key == SOFT_DROP {
            let r = self.soft_drop;
            self.soft_drop = Some(counter);
            r
        } else if key == FIRM_DROP {
            let r = self.firm_drop;
            self.firm_drop = Some(counter);
            r
        } else if key == MOVE_LEFT {
            let r = self.move_left;
            self.move_left = Some(counter);
            r
        } else if key == MOVE_RIGHT {
            let r = self.move_right;
            self.move_right = Some(counter);
            r
        } else if key == ROTATE_CW {
            let r = self.rotate_cw;
            self.rotate_cw = Some(counter);
            r
        } else if key == ROTATE_CCW {
            let r = self.rotate_ccw;
            self.rotate_ccw = Some(counter);
            r
        } else if key == HOLD {
            let r = self.hold;
            self.hold = Some(counter);
            r
        } else {
            None
        }
    }

    /// Advance every registered counter one frame with the raw input mask.
    pub fn update(&mut self, input: Input)
        requires
            old(self).wf(),
        ensures
            *final(self) == InputManager::spec_update(*old(self), input),
            final(self).wf(),
    {
        proof {
            assert(old(self).spec_slot(HARD_DROP) == old(self).hard_drop);
            assert(old(self).spec_slot(SOFT_DROP) == old(self).soft_drop);
            assert(old(self).spec_slot(FIRM_DROP) == old(self).firm_drop);
            assert(old(self).spec_slot(MOVE_LEFT) == old(self).move_left);
            assert(old(self).spec_slot(MOVE_RIGHT) == old(self).move_right);
            assert(old(self).spec_slot(ROTATE_CW) == old(self).rotate_cw);
            assert(old(self).spec_slot(ROTATE_CCW) == old(self).rotate_ccw);
            assert(old(self).spec_slot(HOLD) == old(self).hold);
        }
        update_slot(&mut self.hard_drop, input.contains(HARD_DROP));
        update_slot(&mut self.soft_drop, input.contains(SOFT_DROP));
        update_slot(&mut self.firm_drop, input.contains(FIRM_DROP));
        update_slot(&mut self.move_left, input.contains(MOVE_LEFT));
        update_slot(&mut self.move_right, input.contains(MOVE_RIGHT));
        update_slot(&mut self.rotate_cw, input.contains(ROTATE_CW));
        update_slot(&mut self.rotate_ccw, input.contains(ROTATE_CCW));
        update_slot(&mut self.hold, input.contains(HOLD));
        proof {
            assert forall|key: Input| (#[trigger] self.spec_slot(key)) is Some implies (self.spec_slot(
                key,
            )->Some_0).wf() by {
                assert(old(self).spec_slot(key) matches Some(c0) ==> c0.wf());
            }
        }
    }

    /// Whether the counter registered for `key` has a pending trigger.
    pub fn can_handle(&self, key: Input) -> (r: bool)
        ensures
            r == (self.spec_slot(key) matches Some(c) && c.spec_can_handle()),
    {
        match self.slot(key) {
            Some(c) => c.can_handle(),
            None => false,
        }
    }

    /// Whether the counter registered for `key` is auto-repeating.
    pub fn is_repeating(&self, key: Input) -> (r: bool)
        ensures
            r == (self.spec_slot(key) matches Some(c) && c.spec_is_repeating()),
    {
        match self.slot(key) {
            Some(c) => c.is_repeating(),
            None => false,
        }
    }

    /// Consume the pending trigger of `key`, if any.
    pub fn handle(&mut self, key: Input) -> (r: bool)
        ensures
            r == InputManager::spec_handle(*old(self), key).0,
            *final(self) == InputManager::spec_handle(*old(self), key).1,
            old(self).wf() ==> final(self).wf(),
    {
        let r = if key == HARD_DROP {
            if let Some(mut c) = self.hard_drop {
                let r = c.handle();
                self.hard_drop = Some(c);
                r
            } else {
                false
            }
        } else if key == SOFT_DROP {
            if let Some(mut c) = self.soft_drop {
                let r = c.handle();
                self.soft_drop = Some(c);
                r
            } else {
                false
            }
        } else if key == FIRM_DROP {
            if let Some(mut c) = self.firm_drop {
                let r = c.handle();
                self.firm_drop = Some(c);
                r
            } else {
                false
            }
        } else if key == MOVE_LEFT {
            if let Some(mut c) = self.move_left {
                let r = c.handle();
                self.move_left = Some(c);
                r
            } else {
                false
            }
        } else if key == MOVE_RIGHT {
            if let Some(mut c) = self.move_right {
                let r = c.handle();
                self.move_right = Some(c);
                r
            } else {
                false
            }
        } else if key == ROTATE_CW {
            if let Some(mut c) = self.rotate_cw {
                let r = c.handle();
                self.rotate_cw = Some(c);
                r
            } else {
                false
            }
        } else if key == ROTATE_CCW {
            if let Some(mut c) = self.rotate_ccw {
                let r = c.handle();
                self.rotate_ccw = Some(c);
                r
            } else {
                false
            }
        } else if key == HOLD {
            if let Some(mut c) = self.hold {
                let r = c.handle();
                self.hold = Some(c);
                r
            } else {
                false
            }
        } else {
            false
        };
        proof {
            if old(self).wf() {
                assert forall|k: Input| (#[trigger] self.spec_slot(k)) is Some implies (self.spec_slot(
                    k,
                )->Some_0).wf() by {
                    assert(old(self).spec_slot(k) matches Some(c0) ==> c0.wf());
                }
            }
        }
        r
    }

    /// The counter registered for `key`, if any.
    fn slot(&self, key: Input) -> (r: Option<InputCounter>)
        ensures
            r == self.spec_slot(key),
    {
        if key == HARD_DROP {
            self.hard_drop
        } else if key == SOFT_DROP {
            self.soft_drop
        } else if key == FIRM_DROP {
            self.firm_drop
        } else if key == MOVE_LEFT {
            self.move_left
        } else if key == MOVE_RIGHT {
            self.move_right
        } else if key == ROTATE_CW {
            self.rotate_cw
        } else if key == ROTATE_CCW {
            self.rotate_ccw
        } else if key == HOLD {
            self.hold
        } else {
            None
        }
    }
}

impl Default for InputManager {
    /// The manager with no key registered.
    fn default() -> (r: InputManager)
        ensures
            r == InputManager::spec_empty(),
            r.wf(),
    {
        InputManager {
            hard_drop: None,
            soft_drop: None,
            firm_drop: None,
            move_left: None,
            move_right: None,
            rotate_cw: None,
            rotate_ccw: None,
            hold: None,
        }
    }
}

} // verus!
