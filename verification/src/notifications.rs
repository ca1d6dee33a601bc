//! The notifications plugin: a desktop notification when push-to-talk
//! changes mode.
use vstd::prelude::*;
use crate::rpc::AudioSource;
use crate::text::{concat3, str_is};

verus! {

#[derive(Debug, Clone, Copy, PartialEq, Eq, Structural)]
pub struct NotifConfig {
    pub enabled: bool,
}

pub fn default_enabled() -> (r: bool)
    ensures
        r,
{
    true
}

impl Default for NotifConfig {
    fn default() -> (c: Self)
        ensures
            c == (NotifConfig { enabled: true }),
    {
        NotifConfig { enabled: default_enabled() }
    }
}

/// The topic the plugin listens to.
pub open spec fn mode_topic() -> Seq<char> {
    "tideline-ptt:mode_changed"@
}

/// The heading and body for a mode.
pub open spec fn mode_text(mode: Seq<char>) -> Option<(Seq<char>, Seq<char>)> {
    if mode == "open"@ {
        Some(("Open mic"@, "Microphone always on"@))
    } else if mode == "ptt"@ {
        Some(("PTT mode"@, "Hold the bind to transmit"@))
    } else {
        None
    }
}

/// The description of the first listed source with this name.
pub open spec fn described(sources: Seq<AudioSource>, name: Seq<char>, k: nat) -> Option<Seq<char>>
    decreases sources.len() - k,
{
    if k >= sources.len() {
        None
    } else if sources[k as int].name@ == name {
        Some(sources[k as int].description@)
    } else {
        described(sources, name, k + 1)
    }
}

/// The label of a source: its description where the host lists it,
/// otherwise its name.
pub open spec fn source_label(sources: Option<Seq<AudioSource>>, name: Seq<char>) -> Seq<char> {
    match sources {
        Some(list) => match described(list, name, 0) {
            Some(d) => d,
            None => name,
        },
        None => name,
    }
}

/// The notification for a mode change: none where notifications are off or
/// the mode is unknown; else the mode's heading (after the source's label
/// and ` — ` where a source is named) and its body.
pub open spec fn notification_spec(
    enabled: bool,
    mode: Seq<char>,
    source: Option<Seq<char>>,
    sources: Option<Seq<AudioSource>>,
) -> Option<(Seq<char>, Seq<char>)> {
    if !enabled {
        None
    } else {
        match mode_text(mode) {
            None => None,
            Some((label, body)) => match source {
                Some(src) => Some((source_label(sources, src) + " — "@ + label, body)),
                None => Some((label, body)),
            },
        }
    }
}

fn describe(sources: &Vec<AudioSource>, name: &str) -> (r: Option<String>)
    ensures
        match r {
            Some(d) => described(sources@, name@, 0) == Some(d@),
            None => described(sources@, name@, 0).is_none(),
        },
{
    let mut i: usize = 0;
    while i < sources.len()
        invariant
            i <= sources@.len(),
            described(sources@, name@, 0) == described(sources@, name@, i as nat),
        decreases sources@.len() - i,
    {
        if str_is(sources[i].name.as_str(), name) {
            return Some(sources[i].description.clone());
        }
        i = i + 1;
    }
    None
}

/// The title and body of the notification for a mode change; `sources` is
/// the host's list of input sources, or `None` where it could not be had.
pub fn notification_for(
    enabled: bool,
    mode: &str,
    source: Option<&str>,
    sources: Option<&Vec<AudioSource>>,
) -> (r: Option<(String, String)>)
    ensures
        match r {
            Some((t, b)) => notification_spec(enabled, mode@, match source {
                Some(s) => Some(s@),
                None => None,
            }, match sources {
                Some(l) => Some(l@),
                None => None,
            }) == Some((t@, b@)),
            None => notification_spec(enabled, mode@, match source {
                Some(s) => Some(s@),
                None => None,
            }, match sources {
                Some(l) => Some(l@),
                None => None,
            }).is_none(),
        },
{
    if !enabled {
        return None;
    }
    let (label, body): (&str, &str) = if str_is(mode, "open") {
        ("Open mic", "Microphone always on")
    } else if str_is(mode, "ptt") {
        ("PTT mode", "Hold the bind to transmit")
    } else {
        return None;
    };
    match source {
        Some(src) => {
            let shown: String = match sources {
                Some(list) => match describe(list, src) {
                    Some(d) => d,
                    None => src.to_owned(),
                },
                None => src.to_owned(),
            };
            Some((concat3(shown.as_str(), " — ", label), body.to_owned()))
        },
        None => Some((label.to_owned(), body.to_owned())),
    }
}

/// The configuration after a settings event: the toggle sets `enabled`;
/// anything else changes nothing.
pub fn apply_settings_event(cfg: NotifConfig, event_id: &str, flag: Option<bool>) -> (r: NotifConfig)
    ensures
        r == (if event_id@ == "enabled"@ && flag is Some { NotifConfig { enabled: flag.unwrap() } } else { cfg }),
{
    if str_is(event_id, "enabled") {
        match flag {
            Some(b) => NotifConfig { enabled: b },
            None => cfg,
        }
    } else {
        cfg
    }
}

/// Whether a request names the plugin's section; otherwise the error
/// message it is refused with.
pub fn check_section(section_id: &str) -> (r: Result<(), String>)
    ensures
        match r {
            Ok(()) => section_id@ == "main"@,
            Err(m) => section_id@ != "main"@ && m@ == "unknown section_id "@ + section_id@,
        },
{
    proof {
        reveal_strlit("");
    }
    if str_is(section_id, "main") {
        Ok(())
    } else {
        Err(concat3("unknown section_id ", section_id, ""))
    }
}

} // verus!
