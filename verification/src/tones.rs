//! The tones plugin: plays a cue when push-to-talk starts or stops
//! transmitting.
use vstd::prelude::*;
use crate::text::{concat3, str_is};

verus! {

/// The saved configuration.
#[derive(Debug, Clone, Copy, PartialEq, Eq, Structural)]
pub struct TonesConfig {
    pub enabled: bool,
    /// Volume in percent; values above 100 are played at 100.
    pub volume: u32,
}

pub fn default_enabled() -> (r: bool)
    ensures
        r,
{
    true
}

pub fn default_volume() -> (r: u32)
    ensures
        r == 100,
{
    100
}

impl Default for TonesConfig {
    fn default() -> (c: Self)
        ensures
            c == (TonesConfig { enabled: true, volume: 100 }),
    {
        TonesConfig { enabled: default_enabled(), volume: default_volume() }
    }
}

impl TonesConfig {
    /// The volume, at most 100.
    pub fn clamped_volume(&self) -> (v: u32)
        ensures
            v == (if self.volume < 100 { self.volume } else { 100 }),
    {
        if self.volume < 100 {
            self.volume
        } else {
            100
        }
    }
}

/// The settings section and its controls.
pub open spec fn tones_section() -> Seq<char> {
    "main"@
}

/// The cue to play.
#[derive(Debug, Clone, Copy, PartialEq, Eq, Structural)]
pub enum Tone {
    /// Transmitting started.
    Up,
    /// Transmitting stopped.
    Down,
}

/// The topic the plugin listens to.
pub open spec fn ptt_state_topic() -> Seq<char> {
    "tideline-ptt:state_changed"@
}

pub open spec fn tone_spec(topic: Seq<char>, enabled: bool, play_tone: Option<Seq<char>>) -> Option<Tone> {
    if topic != ptt_state_topic() || !enabled {
        None
    } else {
        match play_tone {
            Some(t) => if t == "up"@ {
                Some(Tone::Up)
            } else if t == "down"@ {
                Some(Tone::Down)
            } else {
                None
            },
            None => None,
        }
    }
}

/// The cue an event asks for: only push-to-talk state changes that carry a
/// known `play_tone`, and only while tones are enabled.
pub fn tone_for_event(topic: &str, enabled: bool, play_tone: Option<&str>) -> (r: Option<Tone>)
    ensures
        r == tone_spec(topic@, enabled, match play_tone {
            Some(t) => Some(t@),
            None => None,
        }),
{
    if !str_is(topic, "tideline-ptt:state_changed") || !enabled {
        return None;
    }
    match play_tone {
        Some(t) => {
            if str_is(t, "up") {
                Some(Tone::Up)
            } else if str_is(t, "down") {
                Some(Tone::Down)
            } else {
                None
            }
        },
        None => None,
    }
}

/// The shortest gap, in milliseconds, between two cues.
pub const DEBOUNCE_MS: u64 = 40u64;

/// Whether a cue at `now_ms` may play after the last one at `prev_ms`:
/// the (saturating) gap must be at least the debounce time.
pub fn debounce_allows(now_ms: u64, prev_ms: u64) -> (r: bool)
    ensures
        r == (if now_ms >= prev_ms { now_ms - prev_ms >= DEBOUNCE_MS } else { false }),
{
    let gap: u64 = if now_ms >= prev_ms { now_ms - prev_ms } else { 0 };
    gap >= DEBOUNCE_MS
}

/// A point in time of the system clock; opaque here.
#[verifier::external_type_specification]
#[verifier::external_body]
pub struct ExSystemTime(std::time::SystemTime);

/// Reads the system clock with `SystemTime::now`; nothing is promised of
/// the time it gives.
#[verifier::external_body]
fn clock_now() -> std::time::SystemTime {
    std::time::SystemTime::now()
}

/// The time elapsed from the Unix epoch to `t`, by
/// `SystemTime::duration_since`; `None` where `t` lies before the epoch.
/// Nothing is promised of which it is.
#[verifier::external_body]
fn since_epoch(t: &std::time::SystemTime) -> Option<std::time::Duration> {
    t.duration_since(std::time::UNIX_EPOCH).ok()
}

/// The whole milliseconds of a span, by `Duration::as_millis`.
#[verifier::external_body]
fn duration_millis(d: &std::time::Duration) -> u128 {
    d.as_millis()
}

/// The current time in milliseconds since the Unix epoch, cut to 64 bits;
/// zero for a clock before the epoch.
pub fn now_millis() -> u64 {
    let now = clock_now();
    match since_epoch(&now) {
        Some(d) => duration_millis(&d) as u64,
        None => 0,
    }
}

/// A settings event's value, as far as the plugin reads it.
#[derive(Debug, Clone, Copy, PartialEq, Eq)]
pub struct TonesEventValue {
    /// The value, where it is a boolean.
    pub flag: Option<bool>,
    /// The value, where it is a non-negative integer.
    pub number: Option<u64>,
}

pub open spec fn apply_event_spec(cfg: TonesConfig, event_id: Seq<char>, v: TonesEventValue) -> TonesConfig {
    if event_id == "enabled"@ {
        match v.flag {
            Some(b) => TonesConfig { enabled: b, ..cfg },
            None => cfg,
        }
    } else if event_id == "volume"@ {
        match v.number {
            Some(n) => {
                let t = (n % 0x1_0000_0000) as u32;
                TonesConfig { volume: if t < 100 { t } else { 100 }, ..cfg }
            },
            None => cfg,
        }
    } else {
        cfg
    }
}

/// The configuration after a settings event: the toggle sets `enabled`, the
/// slider sets the volume (its low 32 bits, at most 100); anything else or a
/// value of the wrong kind changes nothing.
pub fn apply_settings_event(cfg: TonesConfig, event_id: &str, value: TonesEventValue) -> (r: TonesConfig)
    ensures
        r == apply_event_spec(cfg, event_id@, value),
{
    if str_is(event_id, "enabled") {
        match value.flag {
            Some(b) => TonesConfig { enabled: b, ..cfg },
            None => cfg,
        }
    } else if str_is(event_id, "volume") {
        match value.number {
            Some(n) => {
                let t: u32 = (n % 0x1_0000_0000u64) as u32;
                TonesConfig { volume: if t < 100 { t } else { 100 }, ..cfg }
            },
            None => cfg,
        }
    } else {
        cfg
    }
}

/// Whether a request names the plugin's section; otherwise the error
/// message it is refused with.
pub fn check_section(section_id: &str) -> (r: Result<(), String>)
    ensures
        match r {
            Ok(()) => section_id@ == tones_section(),
            Err(m) => section_id@ != tones_section() && m@ == "unknown section_id "@ + section_id@,
        },
{
    proof {
        reveal_strlit("");
    }
    if str_is(section_id, "main") {
        Ok(())
    } else {
        Err(concat3("unknown section_id ", section_id, ""))
    }
}

/// A settings event never raises the volume above 100.
pub proof fn law_volume_bounded(cfg: TonesConfig, event_id: Seq<char>, v: TonesEventValue)
    requires
        cfg.volume <= 100,
    ensures
        apply_event_spec(cfg, event_id, v).volume <= 100,
{
}

} // verus!
