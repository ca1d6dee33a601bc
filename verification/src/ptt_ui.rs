//! What the push-to-talk settings section and status pill show.
use vstd::prelude::*;
use crate::ptt_state::{Mode, PerSourceState};

verus! {

/// How key presses reach the plugin.
#[derive(Debug, Clone, Copy, PartialEq, Eq, Structural)]
pub enum CaptureMethod {
    NotSet,
    Portal,
    Evdev,
}

impl Default for CaptureMethod {
    fn default() -> (r: Self)
        ensures
            r == CaptureMethod::NotSet,
    {
        CaptureMethod::NotSet
    }
}

pub open spec fn capture_key_spec(c: CaptureMethod) -> Seq<char> {
    match c {
        CaptureMethod::NotSet => "none"@,
        CaptureMethod::Portal => "portal"@,
        CaptureMethod::Evdev => "evdev"@,
    }
}

impl CaptureMethod {
    /// The lowercase name the method is published under.
    pub fn key(&self) -> (r: &'static str)
        ensures
            r@ == capture_key_spec(*self),
    {
        match self {
            CaptureMethod::NotSet => "none",
            CaptureMethod::Portal => "portal",
            CaptureMethod::Evdev => "evdev",
        }
    }
}

/// The section heading for a capture method.
pub fn heading_text(c: CaptureMethod) -> (r: &'static str)
    ensures
        r@ == (match c {
            CaptureMethod::Portal => "Push-to-talk (XDG portal)"@,
            CaptureMethod::Evdev => "Push-to-talk (evdev)"@,
            CaptureMethod::NotSet => "Push-to-talk"@,
        }),
{
    match c {
        CaptureMethod::Portal => "Push-to-talk (XDG portal)",
        CaptureMethod::Evdev => "Push-to-talk (evdev)",
        CaptureMethod::NotSet => "Push-to-talk",
    }
}

/// The fix an error banner offers: a label and the event it raises.
pub fn banner_action(c: CaptureMethod) -> (r: Option<(&'static str, &'static str)>)
    ensures
        match c {
            CaptureMethod::Evdev => r is Some && r.unwrap().0@ == "Grant input access"@
                && r.unwrap().1@ == "tideline-ptt:install_udev_rule"@,
            CaptureMethod::Portal => r is Some && r.unwrap().0@ == "Configure shortcuts in System Settings"@
                && r.unwrap().1@ == "tideline-ptt:configure_shortcuts"@,
            CaptureMethod::NotSet => r is None,
        },
{
    match c {
        CaptureMethod::Evdev => Some(("Grant input access", "tideline-ptt:install_udev_rule")),
        CaptureMethod::Portal => Some(("Configure shortcuts in System Settings", "tideline-ptt:configure_shortcuts")),
        CaptureMethod::NotSet => None,
    }
}

/// Only evdev capture lets the user record bindings in the section.
pub fn shows_binding_captures(c: CaptureMethod) -> (r: bool)
    ensures
        r == (c == CaptureMethod::Evdev),
{
    match c {
        CaptureMethod::Evdev => true,
        _ => false,
    }
}

/// One control of the settings section.
#[derive(Debug, Clone, Copy, PartialEq, Eq, Structural)]
pub enum SectionPart {
    Heading,
    /// The error, with the fix the capture method offers.
    ErrorBanner,
    /// The binding that switches between open mic and push-to-talk.
    ModeToggleCapture,
    /// The binding held to transmit.
    HoldCapture,
    /// The select of the input device, with the host's sources as options.
    InputDeviceSelect,
    /// The switch that puts the input source at this position under
    /// push-to-talk.
    SourceToggle(usize),
}

/// The controls of the settings section, top to bottom: the heading; the
/// error banner where there is an error; the two binding captures under
/// evdev capture; the input device select; then one switch per input source
/// the host lists.
pub open spec fn section_layout_spec(c: CaptureMethod, has_error: bool, sources: nat) -> Seq<SectionPart> {
    seq![SectionPart::Heading]
        + (if has_error { seq![SectionPart::ErrorBanner] } else { Seq::empty() })
        + (if c == CaptureMethod::Evdev {
            seq![SectionPart::ModeToggleCapture, SectionPart::HoldCapture]
        } else {
            Seq::empty()
        })
        + seq![SectionPart::InputDeviceSelect]
        + Seq::new(sources, |i: int| SectionPart::SourceToggle(i as usize))
}

pub fn section_layout(c: CaptureMethod, has_error: bool, sources: usize) -> (r: Vec<SectionPart>)
    ensures
        r@ == section_layout_spec(c, has_error, sources as nat),
{
    let mut r: Vec<SectionPart> = Vec::new();
    r.push(SectionPart::Heading);
    if has_error {
        r.push(SectionPart::ErrorBanner);
    }
    if shows_binding_captures(c) {
        r.push(SectionPart::ModeToggleCapture);
        r.push(SectionPart::HoldCapture);
    }
    r.push(SectionPart::InputDeviceSelect);
    let ghost head = r@;
    let mut i: usize = 0;
    while i < sources
        invariant
            i <= sources,
            r@ == head + Seq::new(i as nat, |k: int| SectionPart::SourceToggle(k as usize)),
        decreases sources - i,
    {
        r.push(SectionPart::SourceToggle(i));
        assert(r@ =~= head + Seq::new((i + 1) as nat, |k: int| SectionPart::SourceToggle(k as usize)));
        i = i + 1;
    }
    assert(r@ =~= section_layout_spec(c, has_error, sources as nat));
    r
}

/// The error banner of the settings section: the error's text, a warning
/// tone, and the fix the capture method offers.
#[derive(Debug, Clone, PartialEq, Eq)]
pub struct ErrorBanner {
    pub text: String,
    pub tone: &'static str,
    pub action: Option<(&'static str, &'static str)>,
}

pub fn error_banner(c: CaptureMethod, error: &str) -> (b: ErrorBanner)
    ensures
        b.text@ == error@,
        b.tone@ == "warning"@,
        b.action is Some <==> c != CaptureMethod::NotSet,
        c == CaptureMethod::Evdev ==> b.action.unwrap().0@ == "Grant input access"@ && b.action.unwrap().1@
            == "tideline-ptt:install_udev_rule"@,
        c == CaptureMethod::Portal ==> b.action.unwrap().0@ == "Configure shortcuts in System Settings"@
            && b.action.unwrap().1@ == "tideline-ptt:configure_shortcuts"@,
{
    ErrorBanner { text: error.to_owned(), tone: "warning", action: banner_action(c) }
}

/// The text, tone and pulse of the status pill.
#[derive(Debug, Clone, Copy, PartialEq, Eq)]
pub struct Pill {
    pub text: &'static str,
    pub tone: &'static str,
    pub pulse: bool,
}

/// An error overrides everything; otherwise an open mic is "Open mic", a
/// held push-to-talk mic is live and an idle one muted. The pill pulses
/// while the mic transmits and there is no error.
pub fn status_pill(state: PerSourceState, has_error: bool) -> (p: Pill)
    ensures
        has_error ==> p.text@ == "PTT error"@ && p.tone@ == "warning"@,
        !has_error && state.mode == Mode::Open ==> p.text@ == "Open mic"@ && p.tone@ == "primary"@,
        !has_error && state.mode == Mode::Ptt && state.is_transmitting() ==> p.text@ == "PTT — live"@
            && p.tone@ == "primary"@,
        !has_error && state.mode == Mode::Ptt && !state.is_transmitting() ==> p.text@ == "PTT — muted"@
            && p.tone@ == "error"@,
        p.pulse == (state.is_transmitting() && !has_error),
{
    let tx = state.transmitting();
    let (text, tone): (&'static str, &'static str) = if has_error {
        ("PTT error", "warning")
    } else {
        match state.mode {
            Mode::Open => ("Open mic", "primary"),
            Mode::Ptt => if tx {
                ("PTT — live", "primary")
            } else {
                ("PTT — muted", "error")
            },
        }
    };
    Pill { text, tone, pulse: tx && !has_error }
}

} // verus!
