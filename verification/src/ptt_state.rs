//! Per-source push-to-talk state machine.
use vstd::prelude::*;

verus! {

/// Whether a source is an always-open mic or push-to-talk.
#[derive(Debug, Clone, Copy, PartialEq, Eq, Structural)]
pub enum Mode {
    Open,
    Ptt,
}

/// The mode of one source together with whether its hold key is down.
#[derive(Debug, Clone, Copy, PartialEq, Eq, Structural)]
pub struct PerSourceState {
    pub mode: Mode,
    pub hold_active: bool,
}

/// What a transition asks the runtime to do.
#[derive(Debug, Clone, PartialEq, Eq)]
pub struct Effects {
    pub source_name: String,
    pub set_muted: Option<bool>,
    pub mode_changed: Option<Mode>,
    pub transmit_changed: Option<bool>,
    pub notify_mode: Option<Mode>,
    pub persist_mode: Option<Mode>,
}

pub open spec fn flip(m: Mode) -> Mode {
    match m {
        Mode::Open => Mode::Ptt,
        Mode::Ptt => Mode::Open,
    }
}

impl PerSourceState {
    /// An open mic always transmits; a push-to-talk mic transmits while held.
    pub open spec fn is_transmitting(self) -> bool {
        match self.mode {
            Mode::Open => true,
            Mode::Ptt => self.hold_active,
        }
    }

    pub fn transmitting(&self) -> (r: bool)
        ensures
            r == self.is_transmitting(),
    {
        match self.mode {
            Mode::Open => true,
            Mode::Ptt => self.hold_active,
        }
    }
}

impl Default for PerSourceState {
    fn default() -> (s: Self)
        ensures
            s == (PerSourceState { mode: Mode::Open, hold_active: false }),
    {
        PerSourceState { mode: Mode::Open, hold_active: false }
    }
}

/// State after a mode toggle: the mode flips and any hold is released.
pub open spec fn toggled(s: PerSourceState) -> PerSourceState {
    PerSourceState { mode: flip(s.mode), hold_active: false }
}

/// State after a hold-key press: only a push-to-talk source not already held changes.
pub open spec fn pressed(s: PerSourceState) -> PerSourceState {
    if s.mode == Mode::Ptt && !s.hold_active {
        PerSourceState { mode: s.mode, hold_active: true }
    } else {
        s
    }
}

/// State after a hold-key release: only a held push-to-talk source changes.
pub open spec fn released(s: PerSourceState) -> PerSourceState {
    if s.mode == Mode::Ptt && s.hold_active {
        PerSourceState { mode: s.mode, hold_active: false }
    } else {
        s
    }
}

/// The effects that carry nothing but the source name.
pub open spec fn no_effects(e: Effects, source: Seq<char>) -> bool {
    &&& e.source_name@ == source
    &&& e.set_muted is None
    &&& e.mode_changed is None
    &&& e.transmit_changed is None
    &&& e.notify_mode is None
    &&& e.persist_mode is None
}

fn quiet(source: &str) -> (e: Effects)
    ensures
        no_effects(e, source@),
{
    Effects {
        source_name: source.to_owned(),
        set_muted: None,
        mode_changed: None,
        transmit_changed: None,
        notify_mode: None,
        persist_mode: None,
    }
}

/// Flip the mode of a source. The source is muted exactly when it no longer
/// transmits; a transmit change is reported only when transmitting changed.
pub fn toggle_mode(state: &mut PerSourceState, source: &str) -> (e: Effects)
    ensures
        *final(state) == toggled(*old(state)),
        e.source_name@ == source@,
        e.set_muted == Some(!toggled(*old(state)).is_transmitting()),
        e.mode_changed == Some(flip(old(state).mode)),
        e.transmit_changed == (if old(state).is_transmitting() != toggled(
            *old(state),
        ).is_transmitting() {
            Some(toggled(*old(state)).is_transmitting())
        } else {
            None
        }),
        e.notify_mode == Some(flip(old(state).mode)),
        e.persist_mode == Some(flip(old(state).mode)),
{
    let old_transmitting = state.transmitting();
    let new_mode = match state.mode {
        Mode::Open => Mode::Ptt,
        Mode::Ptt => Mode::Open,
    };
    state.mode = new_mode;
    state.hold_active = false;
    let new_transmitting = state.transmitting();
    Effects {
        source_name: source.to_owned(),
        set_muted: Some(!new_transmitting),
        mode_changed: Some(new_mode),
        transmit_changed: if old_transmitting != new_transmitting {
            Some(new_transmitting)
        } else {
            None
        },
        notify_mode: Some(new_mode),
        persist_mode: Some(new_mode),
    }
}

/// Press the hold key. A push-to-talk source that is not held starts
/// transmitting and is unmuted; anything else is left as it was.
pub fn hold_press(state: &mut PerSourceState, source: &str) -> (e: Effects)
    ensures
        *final(state) == pressed(*old(state)),
        e.source_name@ == source@,
        (old(state).mode == Mode::Ptt && !old(state).hold_active) ==> {
            &&& e.set_muted == Some(false)
            &&& e.transmit_changed == Some(true)
            &&& e.mode_changed is None
            &&& e.notify_mode is None
            &&& e.persist_mode is None
        },
        !(old(state).mode == Mode::Ptt && !old(state).hold_active) ==> no_effects(e, source@),
{
    if state.mode != Mode::Ptt || state.hold_active {
        return quiet(source);
    }
    state.hold_active = true;
    Effects {
        source_name: source.to_owned(),
        set_muted: Some(false),
        mode_changed: None,
        transmit_changed: Some(true),
        notify_mode: None,
        persist_mode: None,
    }
}

/// Release the hold key. A held push-to-talk source stops transmitting and
/// is muted; anything else is left as it was.
pub fn hold_release(state: &mut PerSourceState, source: &str) -> (e: Effects)
    ensures
        *final(state) == released(*old(state)),
        e.source_name@ == source@,
        (old(state).mode == Mode::Ptt && old(state).hold_active) ==> {
            &&& e.set_muted == Some(true)
            &&& e.transmit_changed == Some(false)
            &&& e.mode_changed is None
            &&& e.notify_mode is None
            &&& e.persist_mode is None
        },
        !(old(state).mode == Mode::Ptt && old(state).hold_active) ==> no_effects(e, source@),
{
    if state.mode != Mode::Ptt || !state.hold_active {
        return quiet(source);
    }
    state.hold_active = false;
    Effects {
        source_name: source.to_owned(),
        set_muted: Some(true),
        mode_changed: None,
        transmit_changed: Some(false),
        notify_mode: None,
        persist_mode: None,
    }
}

/// Toggling twice restores the mode and leaves the hold released.
pub proof fn law_toggle_twice(s: PerSourceState)
    ensures
        toggled(toggled(s)) == (PerSourceState { mode: s.mode, hold_active: false }),
{
}

/// In push-to-talk mode a press starts transmitting and the matching release
/// returns exactly to the state before the press.
pub proof fn law_press_then_release(s: PerSourceState)
    requires
        s.mode == Mode::Ptt,
        !s.hold_active,
    ensures
        !s.is_transmitting(),
        pressed(s).is_transmitting(),
        released(pressed(s)) == s,
{
}

/// A second press, or a second release, changes nothing.
pub proof fn law_hold_idempotent(s: PerSourceState)
    ensures
        pressed(pressed(s)) == pressed(s),
        released(released(s)) == released(s),
{
}

/// An open mic always transmits, and the hold key leaves it alone.
pub proof fn law_open_ignores_hold(s: PerSourceState)
    requires
        s.mode == Mode::Open,
    ensures
        s.is_transmitting(),
        pressed(s) == s,
        released(s) == s,
{
}

/// Switching into push-to-talk always leaves the mic muted (not transmitting).
pub proof fn law_toggle_into_ptt_mutes(s: PerSourceState)
    requires
        s.mode == Mode::Open,
    ensures
        toggled(s).mode == Mode::Ptt,
        !toggled(s).is_transmitting(),
{
}

} // verus!
