//! What the push-to-talk plugin makes of key presses and of events from its
//! settings section.
use vstd::prelude::*;
use crate::binding::{parse_spec, Binding, BindingView};
use crate::text::{concat3, find_char, first_from, lemma_first_from_bounds, split_once, str_is, substring};

verus! {

/// The settings section the plugin renders.
pub open spec fn ptt_section() -> Seq<char> {
    "tideline-ptt"@
}

/// The input overlay the plugin registers.
pub open spec fn input_overlay_id() -> Seq<char> {
    "tideline-ptt-input"@
}

/// A key action the host reports.
#[derive(Debug, Clone, Copy, PartialEq, Eq, Structural)]
pub enum KeyOp {
    ToggleMode,
    HoldPress,
    HoldRelease,
}

pub open spec fn key_op_spec(op: Seq<char>) -> Option<KeyOp> {
    if op == "toggle_mode"@ {
        Some(KeyOp::ToggleMode)
    } else if op == "hold_press"@ {
        Some(KeyOp::HoldPress)
    } else if op == "hold_release"@ {
        Some(KeyOp::HoldRelease)
    } else {
        None
    }
}

/// A keybind action id is an operation, optionally followed by `:` and the
/// source it is meant for.
pub open spec fn keybind_spec(action_id: Seq<char>) -> (Option<KeyOp>, Option<Seq<char>>) {
    match split_once(action_id, ':') {
        Some((op, src)) => (key_op_spec(op), Some(src)),
        None => (key_op_spec(action_id), None),
    }
}

fn key_op_of(op: &str) -> (r: Option<KeyOp>)
    ensures
        r == key_op_spec(op@),
{
    if str_is(op, "toggle_mode") {
        Some(KeyOp::ToggleMode)
    } else if str_is(op, "hold_press") {
        Some(KeyOp::HoldPress)
    } else if str_is(op, "hold_release") {
        Some(KeyOp::HoldRelease)
    } else {
        None
    }
}

/// Decodes a keybind action id into its operation (none where unknown) and
/// the source it names, if any.
pub fn decode_keybind(action_id: &str) -> (r: (Option<KeyOp>, Option<String>))
    ensures
        r.0 == keybind_spec(action_id@).0,
        match r.1 {
            Some(s) => keybind_spec(action_id@).1 == Some(s@),
            None => keybind_spec(action_id@).1.is_none(),
        },
{
    let n = action_id.unicode_len();
    match find_char(action_id, ':') {
        Some(i) => {
            proof {
                lemma_first_from_bounds(action_id@, ':', 0);
            }
            let op = substring(action_id, 0, i);
            let src = substring(action_id, i + 1, n);
            (key_op_of(op.as_str()), Some(src))
        },
        None => (key_op_of(action_id), None),
    }
}

/// The sources an action applies to: the named one, or every enabled one.
pub fn target_sources(named: Option<String>, enabled: &Vec<String>) -> (r: Vec<String>)
    ensures
        match named {
            Some(s) => r@.len() == 1 && r@[0]@ == s@,
            None => r@.map_values(|x: String| x@) == enabled@.map_values(|x: String| x@),
        },
{
    match named {
        Some(s) => vec![s],
        None => {
            let mut r: Vec<String> = Vec::new();
            let mut i: usize = 0;
            while i < enabled.len()
                invariant
                    i <= enabled@.len(),
                    r@.len() == i,
                    r@.map_values(|x: String| x@) == enabled@.take(i as int).map_values(|x: String| x@),
                decreases enabled@.len() - i,
            {
                let ghost before = r@;
                let c = enabled[i].clone();
                r.push(c);
                proof {
                    let a = r@.map_values(|x: String| x@);
                    let b = enabled@.take(i as int + 1).map_values(|x: String| x@);
                    let p = enabled@.take(i as int).map_values(|x: String| x@);
                    assert(a.len() == b.len());
                    assert forall|k: int| 0 <= k < a.len() implies a[k] == b[k] by {
                        if k < i {
                            assert(r@[k] == before[k]);
                            assert(a[k] == p[k]);
                        } else {
                            assert(r@[k] == enabled@[k]);
                        }
                    }
                    assert(a =~= b);
                }
                i = i + 1;
            }
            assert(enabled@.take(enabled@.len() as int) =~= enabled@);
            r
        },
    }
}

/// The value of a settings event, as far as the plugin reads it.
#[derive(Debug, Clone)]
pub enum PttEventValue {
    Null,
    Text(String),
    Flag(bool),
    /// Any other value, with the binding it decodes to, if it decodes.
    Other(Option<Binding>),
}

/// A settings event: which section, which control, its value and the
/// source it was raised for.
#[derive(Debug, Clone)]
pub struct PttEventParams {
    pub section_id: String,
    pub event_id: String,
    pub value: PttEventValue,
    pub context_source: Option<String>,
}

/// What a settings event asks the plugin to do.
#[derive(Debug, Clone, PartialEq, Eq)]
pub enum PttCommand {
    /// Flip the mode of the named source, or of every enabled source.
    ToggleMode { source: Option<String> },
    /// Turn push-to-talk on or off for a source.
    SetInputEnabled { source: String, enabled: bool },
    /// Replace the mode-toggle binding (`mode_toggle`) or the hold binding.
    SetBinding { mode_toggle: bool, binding: Option<Binding> },
    InstallUdevRule,
    ConfigureShortcuts,
    /// Nothing to do: the event lacked what it needs or is unknown.
    Ignore,
}

pub enum PttCommandView {
    ToggleMode { source: Option<Seq<char>> },
    SetInputEnabled { source: Seq<char>, enabled: bool },
    SetBinding { mode_toggle: bool, binding: Option<BindingView> },
    InstallUdevRule,
    ConfigureShortcuts,
    Ignore,
}

pub open spec fn opt_seq(o: Option<String>) -> Option<Seq<char>> {
    match o {
        Some(s) => Some(s@),
        None => None,
    }
}

pub open spec fn opt_binding(o: Option<Binding>) -> Option<BindingView> {
    match o {
        Some(b) => Some(b@),
        None => None,
    }
}

impl View for PttCommand {
    type V = PttCommandView;

    open spec fn view(&self) -> PttCommandView {
        match self {
            PttCommand::ToggleMode { source } => PttCommandView::ToggleMode { source: opt_seq(*source) },
            PttCommand::SetInputEnabled { source, enabled } => PttCommandView::SetInputEnabled {
                source: source@,
                enabled: *enabled,
            },
            PttCommand::SetBinding { mode_toggle, binding } => PttCommandView::SetBinding {
                mode_toggle: *mode_toggle,
                binding: opt_binding(*binding),
            },
            PttCommand::InstallUdevRule => PttCommandView::InstallUdevRule,
            PttCommand::ConfigureShortcuts => PttCommandView::ConfigureShortcuts,
            PttCommand::Ignore => PttCommandView::Ignore,
        }
    }
}

/// The binding a binding event sets: none for a null value, the parsed
/// string (or nothing to do where it does not parse), or the decoded value.
pub open spec fn binding_choice(v: PttEventValue) -> Option<Option<BindingView>> {
    match v {
        PttEventValue::Null => Some(None),
        PttEventValue::Text(s) => match parse_spec(s@) {
            Ok(b) => Some(Some(b)),
            Err(_) => None,
        },
        PttEventValue::Flag(_) => None,
        PttEventValue::Other(b) => match b {
            Some(x) => Some(Some(x@)),
            None => None,
        },
    }
}

pub open spec fn decode_ptt_spec(p: PttEventParams) -> Result<PttCommandView, Seq<char>> {
    let sid = p.section_id@;
    let eid = p.event_id@;
    if sid != ptt_section() && sid != input_overlay_id() {
        Err("unknown section_id "@ + sid)
    } else if eid == "tideline-ptt:toggle_mode"@ {
        Ok(PttCommandView::ToggleMode { source: opt_seq(p.context_source) })
    } else if eid == "tideline-ptt:input_enabled"@ {
        match p.context_source {
            None => Ok(PttCommandView::Ignore),
            Some(s) => Ok(PttCommandView::SetInputEnabled {
                source: s@,
                enabled: match p.value {
                    PttEventValue::Flag(b) => b,
                    _ => false,
                },
            }),
        }
    } else if eid == "tideline-ptt:set_mode_toggle_binding"@ || eid == "tideline-ptt:set_hold_binding"@ {
        match binding_choice(p.value) {
            None => Ok(PttCommandView::Ignore),
            Some(b) => Ok(PttCommandView::SetBinding {
                mode_toggle: eid == "tideline-ptt:set_mode_toggle_binding"@,
                binding: b,
            }),
        }
    } else if eid == "tideline-ptt:install_udev_rule"@ {
        Ok(PttCommandView::InstallUdevRule)
    } else if eid == "tideline-ptt:configure_shortcuts"@ {
        Ok(PttCommandView::ConfigureShortcuts)
    } else {
        Ok(PttCommandView::Ignore)
    }
}

fn copy_opt(o: &Option<String>) -> (r: Option<String>)
    ensures
        opt_seq(r) == opt_seq(*o),
{
    match o {
        Some(s) => Some(s.clone()),
        None => None,
    }
}

fn binding_of(v: &PttEventValue) -> (r: Option<Option<Binding>>)
    ensures
        match r {
            Some(b) => binding_choice(*v) == Some(opt_binding(b)),
            None => binding_choice(*v).is_none(),
        },
{
    match v {
        PttEventValue::Null => Some(None),
        PttEventValue::Text(s) => match Binding::parse(s.as_str()) {
            Ok(b) => Some(Some(b)),
            Err(_) => None,
        },
        PttEventValue::Flag(_) => None,
        PttEventValue::Other(b) => match b {
            Some(x) => Some(Some(x.clone_binding())),
            None => None,
        },
    }
}

/// Decodes a settings event; an unknown section is an error with this message.
pub fn decode_ptt_event(p: &PttEventParams) -> (r: Result<PttCommand, String>)
    ensures
        match r {
            Ok(c) => decode_ptt_spec(*p) == Ok::<PttCommandView, Seq<char>>(c@),
            Err(m) => decode_ptt_spec(*p) == Err::<PttCommandView, Seq<char>>(m@),
        },
{
    proof {
        reveal_strlit("");
    }
    let sid = p.section_id.as_str();
    let eid = p.event_id.as_str();
    if !str_is(sid, "tideline-ptt") && !str_is(sid, "tideline-ptt-input") {
        return Err(concat3("unknown section_id ", sid, ""));
    }
    if str_is(eid, "tideline-ptt:toggle_mode") {
        Ok(PttCommand::ToggleMode { source: copy_opt(&p.context_source) })
    } else if str_is(eid, "tideline-ptt:input_enabled") {
        match &p.context_source {
            None => Ok(PttCommand::Ignore),
            Some(s) => {
                let enabled = match &p.value {
                    PttEventValue::Flag(b) => *b,
                    _ => false,
                };
                Ok(PttCommand::SetInputEnabled { source: s.clone(), enabled })
            },
        }
    } else if str_is(eid, "tideline-ptt:set_mode_toggle_binding") || str_is(eid, "tideline-ptt:set_hold_binding") {
        match binding_of(&p.value) {
            None => Ok(PttCommand::Ignore),
            Some(b) => Ok(PttCommand::SetBinding {
                mode_toggle: str_is(eid, "tideline-ptt:set_mode_toggle_binding"),
                binding: b,
            }),
        }
    } else if str_is(eid, "tideline-ptt:install_udev_rule") {
        Ok(PttCommand::InstallUdevRule)
    } else if str_is(eid, "tideline-ptt:configure_shortcuts") {
        Ok(PttCommand::ConfigureShortcuts)
    } else {
        Ok(PttCommand::Ignore)
    }
}

/// Whether a render request names the plugin's section; otherwise the
/// error message it is refused with.
pub fn check_render_section(section_id: &str) -> (r: Result<(), String>)
    ensures
        match r {
            Ok(()) => section_id@ == ptt_section(),
            Err(m) => section_id@ != ptt_section() && m@ == "unknown section_id "@ + section_id@,
        },
{
    proof {
        reveal_strlit("");
    }
    if str_is(section_id, "tideline-ptt") {
        Ok(())
    } else {
        Err(concat3("unknown section_id ", section_id, ""))
    }
}

} // verus!
