//! The effects audition: one channel at a time records a sample (or takes
//! a file) and loops it through its chain. This is the session's phase
//! machine; recording, playing and signalling the player are done by the
//! caller between the steps.
use vstd::prelude::*;
use crate::ids::{hyphenated_text, hyphenated_uuid};
use crate::text::concat3;

verus! {

#[derive(Debug, Clone, Copy, PartialEq, Eq, Structural)]
pub enum AuditionPhase {
    Idle,
    Recording,
    Looping,
    Paused,
}

/// The name a phase is shown under in messages.
pub open spec fn phase_name(p: AuditionPhase) -> Seq<char> {
    match p {
        AuditionPhase::Idle => "Idle"@,
        AuditionPhase::Recording => "Recording"@,
        AuditionPhase::Looping => "Looping"@,
        AuditionPhase::Paused => "Paused"@,
    }
}

fn phase_label(p: AuditionPhase) -> (r: &'static str)
    ensures
        r@ == phase_name(p),
{
    match p {
        AuditionPhase::Idle => "Idle",
        AuditionPhase::Recording => "Recording",
        AuditionPhase::Looping => "Looping",
        AuditionPhase::Paused => "Paused",
    }
}

/// The wire name of a phase.
pub open spec fn phase_key(p: AuditionPhase) -> Seq<char> {
    match p {
        AuditionPhase::Idle => "idle"@,
        AuditionPhase::Recording => "recording"@,
        AuditionPhase::Looping => "looping"@,
        AuditionPhase::Paused => "paused"@,
    }
}

impl AuditionPhase {
    pub fn key(&self) -> (r: &'static str)
        ensures
            r@ == phase_key(*self),
    {
        match self {
            AuditionPhase::Idle => "idle",
            AuditionPhase::Recording => "recording",
            AuditionPhase::Looping => "looping",
            AuditionPhase::Paused => "paused",
        }
    }
}

/// The current session.
#[derive(Debug, Clone)]
pub struct AuditionSession {
    pub channel: u128,
    pub phase: AuditionPhase,
    pub sample_path: Option<String>,
    /// Whether the sample was made here (and so is deleted on discard)
    /// rather than chosen by the user.
    pub owns_sample: bool,
}

pub struct SessionView {
    pub channel: u128,
    pub phase: AuditionPhase,
    pub sample_path: Option<Seq<char>>,
    pub owns_sample: bool,
}

pub open spec fn path_view(o: Option<String>) -> Option<Seq<char>> {
    match o {
        Some(s) => Some(s@),
        None => None,
    }
}

impl View for AuditionSession {
    type V = SessionView;

    open spec fn view(&self) -> SessionView {
        SessionView {
            channel: self.channel,
            phase: self.phase,
            sample_path: path_view(self.sample_path),
            owns_sample: self.owns_sample,
        }
    }
}

/// What a channel's audition panel shows.
#[derive(Debug, Clone, PartialEq, Eq)]
pub struct AuditionStatus {
    pub channel_uuid: Option<u128>,
    pub phase: AuditionPhase,
    pub has_sample: bool,
}

/// The audition store: no session, or the one session.
pub struct Audition {
    pub session: Option<AuditionSession>,
}

pub open spec fn session_view(s: Option<AuditionSession>) -> Option<SessionView> {
    match s {
        Some(x) => Some(x@),
        None => None,
    }
}

impl View for Audition {
    type V = Option<SessionView>;

    open spec fn view(&self) -> Option<SessionView> {
        session_view(self.session)
    }
}

/// The refusal of a step for a session of another channel.
pub open spec fn belongs_msg(owner: u128, channel: u128) -> Seq<char> {
    "audition belongs to "@ + hyphenated_text(owner) + ", not "@ + hyphenated_text(channel)
}

pub open spec fn busy_msg(s: SessionView) -> Seq<char> {
    "audition busy on channel "@ + hyphenated_text(s.channel) + " (phase "@ + phase_name(s.phase) + ")"@
}

/// A new session may start unless one is recording or playing.
pub open spec fn start_check(a: Option<SessionView>) -> Result<(), Seq<char>> {
    match a {
        Some(s) => if s.phase != AuditionPhase::Idle {
            Err(busy_msg(s))
        } else {
            Ok(())
        },
        None => Ok(()),
    }
}

/// The session of `channel`, or why there is none: `missing` where there is
/// no session at all.
pub open spec fn own_session(a: Option<SessionView>, channel: u128, missing: Seq<char>) -> Result<SessionView, Seq<char>> {
    match a {
        None => Err(missing),
        Some(s) => if s.channel != channel {
            Err(belongs_msg(s.channel, channel))
        } else {
            Ok(s)
        },
    }
}

pub open spec fn with_phase(a: Option<SessionView>, p: AuditionPhase) -> Option<SessionView> {
    match a {
        Some(s) => Some(SessionView { phase: p, ..s }),
        None => None,
    }
}

fn belongs_message(owner: u128, channel: u128) -> (r: String)
    ensures
        r@ == belongs_msg(owner, channel),
{
    let a = hyphenated_uuid(owner);
    let b = hyphenated_uuid(channel);
    let mut r = concat3("audition belongs to ", a.as_str(), ", not ");
    r.append(b.as_str());
    r
}

fn phase_message(prefix: &str, p: AuditionPhase, suffix: &str) -> (r: String)
    ensures
        r@ == prefix@ + phase_name(p) + suffix@,
{
    concat3(prefix, phase_label(p), suffix)
}

impl Audition {
    pub fn new() -> (a: Audition)
        ensures
            a@ is None,
    {
        Audition { session: None }
    }

    fn check_start(&self) -> (r: Result<(), String>)
        ensures
            match r {
                Ok(()) => start_check(self@) is Ok,
                Err(m) => start_check(self@) == Err::<(), Seq<char>>(m@),
            },
    {
        match &self.session {
            Some(s) => {
                if s.phase != AuditionPhase::Idle {
                    let id = hyphenated_uuid(s.channel);
                    let mut m = concat3("audition busy on channel ", id.as_str(), " (phase ");
                    m.append(phase_label(s.phase));
                    m.append(")");
                    Err(m)
                } else {
                    Ok(())
                }
            },
            None => Ok(()),
        }
    }

    fn own(&self, channel: u128, missing: &str) -> (r: Result<&AuditionSession, String>)
        ensures
            match r {
                Ok(s) => own_session(self@, channel, missing@) == Ok::<SessionView, Seq<char>>(s@),
                Err(m) => own_session(self@, channel, missing@) == Err::<SessionView, Seq<char>>(m@),
            },
    {
        match &self.session {
            None => Err(missing.to_owned()),
            Some(s) => {
                if s.channel != channel {
                    Err(belongs_message(s.channel, channel))
                } else {
                    Ok(s)
                }
            },
        }
    }

    /// Whether recording may start: no session is busy and the channel has
    /// a physical source to record from.
    pub fn check_start_record(&self, physical_source: &str) -> (r: Result<(), String>)
        ensures
            match r {
                Ok(()) => start_check(self@) is Ok && physical_source@.len() > 0,
                Err(m) => match start_check(self@) {
                    Err(e) => m@ == e,
                    Ok(()) => physical_source@.len() == 0
                        && m@ == "channel has no physical_source — cannot record"@,
                },
            },
    {
        self.check_start()?;
        if physical_source.unicode_len() == 0 {
            return Err("channel has no physical_source — cannot record".to_owned());
        }
        Ok(())
    }

    /// Recording has started into a sample file made here.
    pub fn record_started(&mut self, channel: u128, sample_path: String)
        ensures
            final(self)@ == Some(SessionView {
                channel,
                phase: AuditionPhase::Recording,
                sample_path: Some(sample_path@),
                owns_sample: true,
            }),
    {
        self.session = Some(AuditionSession {
            channel,
            phase: AuditionPhase::Recording,
            sample_path: Some(sample_path),
            owns_sample: true,
        });
    }

    /// Whether a file may be taken as the sample: no session is busy.
    pub fn check_load_file(&self) -> (r: Result<(), String>)
        ensures
            match r {
                Ok(()) => start_check(self@) is Ok,
                Err(m) => start_check(self@) == Err::<(), Seq<char>>(m@),
            },
    {
        self.check_start()
    }

    /// The user's file is the sample now; it is referenced, not owned.
    pub fn file_loaded(&mut self, channel: u128, path: String)
        ensures
            final(self)@ == Some(SessionView {
                channel,
                phase: AuditionPhase::Idle,
                sample_path: Some(path@),
                owns_sample: false,
            }),
    {
        self.session = Some(AuditionSession {
            channel,
            phase: AuditionPhase::Idle,
            sample_path: Some(path),
            owns_sample: false,
        });
    }

    /// The sample to copy when saving: the channel's idle session must have one.
    pub fn check_save(&self, channel: u128) -> (r: Result<String, String>)
        ensures
            match own_session(self@, channel, "no audition session"@) {
                Err(e) => r is Err && r->Err_0@ == e,
                Ok(s) => if s.phase != AuditionPhase::Idle {
                    r is Err && r->Err_0@ == "cannot save while phase is "@ + phase_name(s.phase)
                        + " — stop the loop first"@
                } else {
                    match s.sample_path {
                        Some(p) => r is Ok && r->Ok_0@ == p,
                        None => r is Err && r->Err_0@ == "no sample to save"@,
                    }
                },
            },
    {
        let s = self.own(channel, "no audition session")?;
        if s.phase != AuditionPhase::Idle {
            return Err(phase_message("cannot save while phase is ", s.phase, " — stop the loop first"));
        }
        match &s.sample_path {
            Some(p) => Ok(p.clone()),
            None => Err("no sample to save".to_owned()),
        }
    }

    /// Whether the channel's session is recording, so recording may stop.
    pub fn check_stop_record(&self, channel: u128) -> (r: Result<(), String>)
        ensures
            match own_session(self@, channel, "no active audition"@) {
                Err(e) => r is Err && r->Err_0@ == e,
                Ok(s) => if s.phase != AuditionPhase::Recording {
                    r is Err && r->Err_0@ == "not recording (phase "@ + phase_name(s.phase) + ")"@
                } else {
                    r is Ok
                },
            },
    {
        let s = self.own(channel, "no active audition")?;
        if s.phase != AuditionPhase::Recording {
            return Err(phase_message("not recording (phase ", s.phase, ")"));
        }
        Ok(())
    }

    /// Recording stopped: the session is idle and its sample is returned.
    pub fn record_stopped(&mut self) -> (r: Result<String, String>)
        ensures
            final(self)@ == with_phase(old(self)@, AuditionPhase::Idle),
            match old(self)@ {
                Some(s) => match s.sample_path {
                    Some(p) => r is Ok && r->Ok_0@ == p,
                    None => r is Err && r->Err_0@ == "missing sample path"@,
                },
                None => r is Err && r->Err_0@ == "missing sample path"@,
            },
    {
        match &mut self.session {
            Some(s) => {
                s.phase = AuditionPhase::Idle;
                match &s.sample_path {
                    Some(p) => Ok(p.clone()),
                    None => Err("missing sample path".to_owned()),
                }
            },
            None => Err("missing sample path".to_owned()),
        }
    }

    /// The sample to loop: the channel's idle session must have one.
    pub fn check_start_loop(&self, channel: u128) -> (r: Result<String, String>)
        ensures
            match own_session(self@, channel, "no audition session — record first"@) {
                Err(e) => r is Err && r->Err_0@ == e,
                Ok(s) => if s.phase != AuditionPhase::Idle {
                    r is Err && r->Err_0@ == "cannot start loop in phase "@ + phase_name(s.phase)
                } else {
                    match s.sample_path {
                        Some(p) => r is Ok && r->Ok_0@ == p,
                        None => r is Err && r->Err_0@ == "no recorded sample"@,
                    }
                },
            },
    {
        proof {
            reveal_strlit("");
        }
        let s = self.own(channel, "no audition session — record first")?;
        if s.phase != AuditionPhase::Idle {
            return Err(phase_message("cannot start loop in phase ", s.phase, ""));
        }
        match &s.sample_path {
            Some(p) => Ok(p.clone()),
            None => Err("no recorded sample".to_owned()),
        }
    }

    /// Whether the channel's session is looping or paused, so the loop may stop.
    pub fn check_stop_loop(&self, channel: u128) -> (r: Result<(), String>)
        ensures
            match own_session(self@, channel, "no audition session"@) {
                Err(e) => r is Err && r->Err_0@ == e,
                Ok(s) => if s.phase != AuditionPhase::Looping && s.phase != AuditionPhase::Paused {
                    r is Err && r->Err_0@ == "not looping (phase "@ + phase_name(s.phase) + ")"@
                } else {
                    r is Ok
                },
            },
    {
        let s = self.own(channel, "no audition session")?;
        if s.phase != AuditionPhase::Looping && s.phase != AuditionPhase::Paused {
            return Err(phase_message("not looping (phase ", s.phase, ")"));
        }
        Ok(())
    }

    /// Whether the channel's loop may pause: it is looping and its player's
    /// process id (`pid`) is known.
    pub fn check_pause_loop(&self, channel: u128, pid: i32) -> (r: Result<(), String>)
        ensures
            match own_session(self@, channel, "no audition session"@) {
                Err(e) => r is Err && r->Err_0@ == e,
                Ok(s) => if s.phase != AuditionPhase::Looping {
                    r is Err && r->Err_0@ == "cannot pause from phase "@ + phase_name(s.phase)
                } else if pid <= 0 {
                    r is Err && r->Err_0@ == "audition pid not yet known — try again"@
                } else {
                    r is Ok
                },
            },
    {
        proof {
            reveal_strlit("");
        }
        let s = self.own(channel, "no audition session")?;
        if s.phase != AuditionPhase::Looping {
            return Err(phase_message("cannot pause from phase ", s.phase, ""));
        }
        if pid <= 0 {
            return Err("audition pid not yet known — try again".to_owned());
        }
        Ok(())
    }

    /// Whether the channel's loop may resume: it is paused and its player's
    /// process id is known.
    pub fn check_resume_loop(&self, channel: u128, pid: i32) -> (r: Result<(), String>)
        ensures
            match own_session(self@, channel, "no audition session"@) {
                Err(e) => r is Err && r->Err_0@ == e,
                Ok(s) => if s.phase != AuditionPhase::Paused {
                    r is Err && r->Err_0@ == "cannot resume from phase "@ + phase_name(s.phase)
                } else if pid <= 0 {
                    r is Err && r->Err_0@ == "audition pid not tracked"@
                } else {
                    r is Ok
                },
            },
    {
        proof {
            reveal_strlit("");
        }
        let s = self.own(channel, "no audition session")?;
        if s.phase != AuditionPhase::Paused {
            return Err(phase_message("cannot resume from phase ", s.phase, ""));
        }
        if pid <= 0 {
            return Err("audition pid not tracked".to_owned());
        }
        Ok(())
    }

    /// Moves the session to a new phase once the caller has done the
    /// outside part of a step (started, paused, resumed or stopped the player).
    pub fn set_phase(&mut self, phase: AuditionPhase)
        ensures
            final(self)@ == with_phase(old(self)@, phase),
    {
        match &mut self.session {
            Some(s) => {
                s.phase = phase;
            },
            None => {},
        }
    }

    /// Ends the session if it belongs to `channel`, or whatever it belongs
    /// to when `channel` is `None`; the ended session is returned so the
    /// caller can stop its processes and delete a sample made here.
    pub fn discard(&mut self, channel: Option<u128>) -> (r: Option<AuditionSession>)
        ensures
            discard_takes(old(self)@, channel) ==> final(self)@ is None && session_view(r) == old(self)@,
            !discard_takes(old(self)@, channel) ==> final(self)@ == old(self)@ && r is None,
    {
        let take = match (&self.session, channel) {
            (Some(s), Some(ch)) => s.channel == ch,
            (Some(_), None) => true,
            _ => false,
        };
        if take {
            self.session.take()
        } else {
            None
        }
    }

    /// The sample of the channel's session, where it has one.
    pub fn sample_path_for(&self, channel: u128) -> (r: Option<String>)
        ensures
            match self@ {
                Some(s) => if s.channel == channel {
                    path_view(r) == s.sample_path
                } else {
                    r is None
                },
                None => r is None,
            },
    {
        match &self.session {
            Some(s) => {
                if s.channel == channel {
                    match &s.sample_path {
                        Some(p) => Some(p.clone()),
                        None => None,
                    }
                } else {
                    None
                }
            },
            None => None,
        }
    }

    /// What the channel's panel shows; `sample_exists` says whether the
    /// session's sample file is on disk.
    pub fn status_for(&self, channel: u128, sample_exists: bool) -> (r: AuditionStatus)
        ensures
            match self@ {
                Some(s) => if s.channel == channel {
                    r == (AuditionStatus {
                        channel_uuid: Some(channel),
                        phase: s.phase,
                        has_sample: s.sample_path is Some && sample_exists,
                    })
                } else {
                    r == (AuditionStatus { channel_uuid: None, phase: AuditionPhase::Idle, has_sample: false })
                },
                None => r == (AuditionStatus { channel_uuid: None, phase: AuditionPhase::Idle, has_sample: false }),
            },
    {
        match &self.session {
            Some(s) => {
                if s.channel == channel {
                    AuditionStatus {
                        channel_uuid: Some(s.channel),
                        phase: s.phase,
                        has_sample: s.sample_path.is_some() && sample_exists,
                    }
                } else {
                    AuditionStatus { channel_uuid: None, phase: AuditionPhase::Idle, has_sample: false }
                }
            },
            None => AuditionStatus { channel_uuid: None, phase: AuditionPhase::Idle, has_sample: false },
        }
    }
}

/// Whether a discard for `channel` ends the current session.
pub open spec fn discard_takes(a: Option<SessionView>, channel: Option<u128>) -> bool {
    match a {
        Some(s) => match channel {
            Some(c) => s.channel == c,
            None => true,
        },
        None => false,
    }
}

/// Every step aimed at a channel other than the session's is refused with
/// the same message, whatever the session's phase.
pub proof fn law_other_channel_refused(a: Option<SessionView>, channel: u128, missing: Seq<char>)
    requires
        a is Some,
        a.unwrap().channel != channel,
    ensures
        own_session(a, channel, missing) == Err::<SessionView, Seq<char>>(belongs_msg(a.unwrap().channel, channel)),
{
}

/// Pausing a looping session and resuming it gives back the session as it was.
pub proof fn law_pause_resume(a: Option<SessionView>)
    requires
        a is Some,
        a.unwrap().phase == AuditionPhase::Looping,
    ensures
        with_phase(with_phase(a, AuditionPhase::Paused), AuditionPhase::Looping) == a,
{
}

/// A discard for every channel always leaves no session; a discard for
/// another channel leaves the session alone.
pub proof fn law_discard(a: Option<SessionView>, other: u128)
    ensures
        !discard_takes(None, Some(other)),
        a is Some ==> discard_takes(a, None),
        a is Some && a.unwrap().channel != other ==> !discard_takes(a, Some(other)),
{
}

/// Only an idle session (or none) lets a new recording or file start.
pub proof fn law_busy_blocks_start(a: Option<SessionView>)
    ensures
        start_check(a) is Ok <==> (a is None || a.unwrap().phase == AuditionPhase::Idle),
{
}

} // verus!
