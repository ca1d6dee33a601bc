//! The push-to-talk plugin's saved configuration and its per-source runtime
//! state, kept in agreement with each other.
use vstd::prelude::*;
use crate::binding::Binding;
use crate::ptt_state::{hold_press, hold_release, pressed, released, toggle_mode, toggled, Effects, Mode,
    PerSourceState};
use crate::strmap::StrMap;
use crate::text::str_is;

verus! {

/// The saved configuration.
#[derive(Debug, Clone, PartialEq, Eq)]
pub struct PluginConfig {
    pub mode_toggle_binding: Option<Binding>,
    pub hold_binding: Option<Binding>,
    pub enabled_sources: Vec<String>,
    pub mode_by_source: StrMap<Mode>,
}

pub open spec fn names_of(v: Seq<String>) -> Seq<Seq<char>> {
    v.map_values(|s: String| s@)
}

/// The mode a source is in: the saved one, or open where none is saved.
pub open spec fn mode_of(m: Map<Seq<char>, Mode>, source: Seq<char>) -> Mode {
    if m.contains_key(source) {
        m[source]
    } else {
        Mode::Open
    }
}

pub open spec fn mode_wire_spec(m: Mode) -> Seq<char> {
    match m {
        Mode::Open => "open"@,
        Mode::Ptt => "ptt"@,
    }
}

/// The name a mode is saved and sent under.
pub fn mode_wire(m: Mode) -> (r: &'static str)
    ensures
        r@ == mode_wire_spec(m),
{
    match m {
        Mode::Open => "open",
        Mode::Ptt => "ptt",
    }
}

/// The mode a saved name stands for.
pub fn mode_from_wire(s: &str) -> (r: Option<Mode>)
    ensures
        r == (if s@ == "open"@ {
            Some(Mode::Open)
        } else if s@ == "ptt"@ {
            Some(Mode::Ptt)
        } else {
            None
        }),
{
    if str_is(s, "open") {
        Some(Mode::Open)
    } else if str_is(s, "ptt") {
        Some(Mode::Ptt)
    } else {
        None
    }
}

/// The title of the notification shown when a source's mode changes.
pub fn notify_title(m: Mode) -> (r: &'static str)
    ensures
        r@ == (match m {
            Mode::Open => "Mic — open"@,
            Mode::Ptt => "Mic — push-to-talk"@,
        }),
{
    match m {
        Mode::Open => "Mic — open",
        Mode::Ptt => "Mic — push-to-talk",
    }
}

/// The tone that marks the start or end of transmitting.
pub fn play_tone(transmitting: bool) -> (r: &'static str)
    ensures
        r@ == (if transmitting { "up"@ } else { "down"@ }),
{
    if transmitting {
        "up"
    } else {
        "down"
    }
}

fn contains_name(v: &Vec<String>, s: &str) -> (r: bool)
    ensures
        r == names_of(v@).contains(s@),
{
    let mut i: usize = 0;
    while i < v.len()
        invariant
            i <= v@.len(),
            forall|j: int| 0 <= j < i ==> v@[j]@ != s@,
        decreases v@.len() - i,
    {
        if str_is(v[i].as_str(), s) {
            assert(names_of(v@)[i as int] == s@);
            return true;
        }
        i = i + 1;
    }
    proof {
        if names_of(v@).contains(s@) {
            let j = choose|j: int| 0 <= j < names_of(v@).len() && names_of(v@)[j] == s@;
            assert(v@[j]@ == s@);
        }
    }
    false
}

/// The names with every copy of one taken out.
pub open spec fn without_name(v: Seq<Seq<char>>, s: Seq<char>) -> Seq<Seq<char>> {
    v.filter(|x: Seq<char>| x != s)
}

fn remove_name(v: &Vec<String>, s: &str) -> (r: Vec<String>)
    ensures
        names_of(r@) == without_name(names_of(v@), s@),
{
    let mut r: Vec<String> = Vec::new();
    let mut i: usize = 0;
    while i < v.len()
        invariant
            i <= v@.len(),
            names_of(r@) == without_name(names_of(v@).take(i as int), s@),
        decreases v@.len() - i,
    {
        proof {
            reveal(Seq::filter);
            assert(names_of(v@).take(i as int + 1).drop_last() =~= names_of(v@).take(i as int));
        }
        let ghost before = r@;
        if !str_is(v[i].as_str(), s) {
            r.push(v[i].clone());
            assert(names_of(r@) =~= names_of(before).push(v@[i as int]@));
        }
        i = i + 1;
    }
    assert(names_of(v@).take(v@.len() as int) =~= names_of(v@));
    r
}

impl PluginConfig {
    pub closed spec fn wf(&self) -> bool {
        self.mode_by_source.wf()
    }

    pub open spec fn sources(&self) -> Seq<Seq<char>> {
        names_of(self.enabled_sources@)
    }

    /// No bindings, no sources, no saved modes.
    pub fn default() -> (c: PluginConfig)
        ensures
            c.wf(),
            c.mode_toggle_binding is None,
            c.hold_binding is None,
            c.enabled_sources@.len() == 0,
            c.mode_by_source@ == Map::<Seq<char>, Mode>::empty(),
    {
        PluginConfig {
            mode_toggle_binding: None,
            hold_binding: None,
            enabled_sources: Vec::new(),
            mode_by_source: StrMap::new(),
        }
    }

    /// The saved mode of a source, open where none is saved.
    pub fn mode_for(&self, source: &str) -> (m: Mode)
        requires
            self.wf(),
        ensures
            m == mode_of(self.mode_by_source@, source@),
    {
        match self.mode_by_source.get(source) {
            Some(m) => m,
            None => Mode::Open,
        }
    }

    /// Turns push-to-talk on or off for a source: on adds it (once) to the
    /// enabled sources; off removes it and forgets its saved mode.
    pub fn set_input_enabled(&mut self, source: &str, enabled: bool)
        requires
            old(self).wf(),
        ensures
            final(self).wf(),
            final(self).mode_toggle_binding == old(self).mode_toggle_binding,
            final(self).hold_binding == old(self).hold_binding,
            enabled ==> final(self).sources() == (if old(self).sources().contains(source@) {
                old(self).sources()
            } else {
                old(self).sources().push(source@)
            }),
            enabled ==> final(self).mode_by_source@ == old(self).mode_by_source@,
            !enabled ==> final(self).sources() == without_name(old(self).sources(), source@),
            !enabled ==> final(self).mode_by_source@ == old(self).mode_by_source@.remove(source@),
    {
        let already = contains_name(&self.enabled_sources, source);
        if enabled && !already {
            self.enabled_sources.push(source.to_owned());
            assert(self.sources() =~= old(self).sources().push(source@));
        } else if !enabled {
            let kept = remove_name(&self.enabled_sources, source);
            self.enabled_sources = kept;
            self.mode_by_source.remove(source);
        }
    }

    /// Reads an old configuration's single input device and mode: where no
    /// sources are enabled and the old device is named, it becomes the one
    /// enabled source, with the old mode where that was valid.
    pub fn apply_legacy(&mut self, legacy_input: Option<String>, legacy_mode: Option<Mode>)
        requires
            old(self).wf(),
        ensures
            final(self).wf(),
            final(self).mode_toggle_binding == old(self).mode_toggle_binding,
            final(self).hold_binding == old(self).hold_binding,
            (match legacy_input {
                Some(d) => old(self).sources().len() == 0 && d@.len() > 0,
                None => false,
            }) ==> {
                &&& final(self).sources() == seq![legacy_input.unwrap()@]
                &&& final(self).mode_by_source@ == (match legacy_mode {
                    Some(m) => old(self).mode_by_source@.insert(legacy_input.unwrap()@, m),
                    None => old(self).mode_by_source@,
                })
            },
            !(match legacy_input {
                Some(d) => old(self).sources().len() == 0 && d@.len() > 0,
                None => false,
            }) ==> final(self).sources() == old(self).sources() && final(self).mode_by_source@
                == old(self).mode_by_source@,
    {
        if self.enabled_sources.len() == 0 {
            match legacy_input {
                Some(d) => {
                    if d.as_str().unicode_len() > 0 {
                        self.enabled_sources.push(d.clone());
                        assert(self.sources() =~= seq![d@]);
                        match legacy_mode {
                            Some(m) => {
                                self.mode_by_source.insert(d, m);
                            },
                            None => {},
                        }
                    }
                },
                None => {},
            }
        }
    }
}

/// The live state of the push-to-talk plugin: its configuration and the
/// state of each source it has seen.
pub struct PttCore {
    pub config: PluginConfig,
    pub states: StrMap<PerSourceState>,
}

impl PttCore {
    pub closed spec fn states(&self) -> Map<Seq<char>, PerSourceState> {
        self.states@
    }

    /// The configuration is well formed and every tracked source is in the
    /// mode its configuration saves for it.
    pub closed spec fn wf(&self) -> bool {
        &&& self.config.wf()
        &&& self.states.wf()
        &&& forall|s: Seq<char>| #[trigger] self.states@.contains_key(s) ==> self.states@[s].mode == mode_of(
            self.config.mode_by_source@,
            s,
        )
    }

    /// Every tracked source is in the mode that the saved configuration
    /// holds for it; this holds after every operation of the runtime.
    pub proof fn law_modes_agree(&self)
        requires
            self.wf(),
        ensures
            forall|s: Seq<char>| #[trigger] self.states().contains_key(s) ==> self.states()[s].mode == mode_of(
                self.config.mode_by_source@,
                s,
            ),
    {
    }

    /// Starts with each enabled source in its saved mode, not held.
    pub fn new_without_client(config: PluginConfig) -> (r: PttCore)
        requires
            config.wf(),
        ensures
            r.wf(),
            r.config == config,
            forall|s: Seq<char>| #[trigger] r.states().contains_key(s) <==> config.sources().contains(s),
            forall|s: Seq<char>| #[trigger] r.states().contains_key(s) ==> !r.states()[s].hold_active,
    {
        let mut states: StrMap<PerSourceState> = StrMap::new();
        let mut i: usize = 0;
        while i < config.enabled_sources.len()
            invariant
                config.wf(),
                states.wf(),
                i <= config.enabled_sources@.len(),
                forall|s: Seq<char>| #[trigger] states@.contains_key(s) <==> names_of(config.enabled_sources@).take(i as int).contains(s),
                forall|s: Seq<char>| #[trigger] states@.contains_key(s) ==> states@[s].mode == mode_of(config.mode_by_source@, s)
                    && !states@[s].hold_active,
            decreases config.enabled_sources@.len() - i,
        {
            let src = &config.enabled_sources[i];
            let mode = config.mode_for(src.as_str());
            let ghost before = states@;
            states.insert(src.clone(), PerSourceState { mode, hold_active: false });
            proof {
                let t = names_of(config.enabled_sources@);
                assert(t.take(i as int + 1) =~= t.take(i as int).push(src@));
                assert forall|s: Seq<char>| #[trigger] states@.contains_key(s) <==> t.take(i as int + 1).contains(s) by {
                    if t.take(i as int + 1).contains(s) && s != src@ {
                        let u = t.take(i as int + 1);
                        let j = choose|j: int| 0 <= j < u.len() && u[j] == s;
                        assert(t.take(i as int)[j] == s);
                    }
                    if t.take(i as int).contains(s) {
                        let w = t.take(i as int);
                        let j = choose|j: int| 0 <= j < w.len() && w[j] == s;
                        assert(t.take(i as int + 1)[j] == s);
                    }
                    assert(t.take(i as int + 1)[i as int] == src@);
                }
            }
            i = i + 1;
        }
        proof {
            assert(names_of(config.enabled_sources@).take(config.enabled_sources@.len() as int) =~= names_of(config.enabled_sources@));
        }
        PttCore { config, states }
    }

    /// The state of a source: the tracked one, or its saved mode not held.
    pub open spec fn state_spec(&self, source: Seq<char>) -> PerSourceState {
        if self.states().contains_key(source) {
            self.states()[source]
        } else {
            PerSourceState { mode: mode_of(self.config.mode_by_source@, source), hold_active: false }
        }
    }

    pub fn state_of(&self, source: &str) -> (r: PerSourceState)
        requires
            self.wf(),
        ensures
            r == self.state_spec(source@),
    {
        match self.states.get(source) {
            Some(s) => s,
            None => PerSourceState { mode: self.config.mode_for(source), hold_active: false },
        }
    }

    /// Flips a source's mode and saves the new mode in the configuration.
    pub fn toggle_mode(&mut self, source: &str) -> (e: Effects)
        requires
            old(self).wf(),
        ensures
            final(self).wf(),
            final(self).states() == old(self).states().insert(source@, toggled(old(self).state_spec(source@))),
            final(self).config.mode_by_source@ == old(self).config.mode_by_source@.insert(
                source@,
                toggled(old(self).state_spec(source@)).mode,
            ),
            final(self).config.sources() == old(self).config.sources(),
            e.source_name@ == source@,
            e.persist_mode == Some(toggled(old(self).state_spec(source@)).mode),
            e.set_muted == Some(!toggled(old(self).state_spec(source@)).is_transmitting()),
    {
        let mut st = self.state_of(source);
        let fx = toggle_mode(&mut st, source);
        self.states.insert(source.to_owned(), st);
        self.config.mode_by_source.insert(source.to_owned(), st.mode);
        proof {
            assert forall|s: Seq<char>| #[trigger] self.states@.contains_key(s) implies self.states@[s].mode == mode_of(
                self.config.mode_by_source@,
                s,
            ) by {
                if s != source@ {
                    assert(old(self).states@.contains_key(s));
                }
            }
        }
        fx
    }

    /// Presses the hold key for a source.
    pub fn hold_press(&mut self, source: &str) -> (e: Effects)
        requires
            old(self).wf(),
        ensures
            final(self).wf(),
            final(self).states() == old(self).states().insert(source@, pressed(old(self).state_spec(source@))),
            final(self).config == old(self).config,
            e.source_name@ == source@,
            e.persist_mode is None,
    {
        let mut st = self.state_of(source);
        let fx = hold_press(&mut st, source);
        self.states.insert(source.to_owned(), st);
        proof {
            assert forall|s: Seq<char>| #[trigger] self.states@.contains_key(s) implies self.states@[s].mode == mode_of(
                self.config.mode_by_source@,
                s,
            ) by {
                if s != source@ {
                    assert(old(self).states@.contains_key(s));
                }
            }
        }
        fx
    }

    /// Releases the hold key for a source.
    pub fn hold_release(&mut self, source: &str) -> (e: Effects)
        requires
            old(self).wf(),
        ensures
            final(self).wf(),
            final(self).states() == old(self).states().insert(source@, released(old(self).state_spec(source@))),
            final(self).config == old(self).config,
            e.source_name@ == source@,
            e.persist_mode is None,
    {
        let mut st = self.state_of(source);
        let fx = hold_release(&mut st, source);
        self.states.insert(source.to_owned(), st);
        proof {
            assert forall|s: Seq<char>| #[trigger] self.states@.contains_key(s) implies self.states@[s].mode == mode_of(
                self.config.mode_by_source@,
                s,
            ) by {
                if s != source@ {
                    assert(old(self).states@.contains_key(s));
                }
            }
        }
        fx
    }

    /// Turns push-to-talk on or off for a source; turning it off also
    /// forgets the source's state.
    pub fn set_input_enabled(&mut self, source: &str, enabled: bool)
        requires
            old(self).wf(),
        ensures
            final(self).wf(),
            enabled ==> final(self).states() == old(self).states(),
            !enabled ==> final(self).states() == old(self).states().remove(source@),
            final(self).config.mode_toggle_binding == old(self).config.mode_toggle_binding,
            final(self).config.hold_binding == old(self).config.hold_binding,
            enabled ==> final(self).config.sources() == (if old(self).config.sources().contains(source@) {
                old(self).config.sources()
            } else {
                old(self).config.sources().push(source@)
            }),
            enabled ==> final(self).config.mode_by_source@ == old(self).config.mode_by_source@,
            !enabled ==> final(self).config.sources() == without_name(old(self).config.sources(), source@),
            !enabled ==> final(self).config.mode_by_source@ == old(self).config.mode_by_source@.remove(source@),
    {
        self.config.set_input_enabled(source, enabled);
        if !enabled {
            self.states.remove(source);
        }
        proof {
            assert forall|s: Seq<char>| #[trigger] self.states@.contains_key(s) implies self.states@[s].mode == mode_of(
                self.config.mode_by_source@,
                s,
            ) by {
                assert(old(self).states@.contains_key(s));
            }
        }
    }

    /// Replaces one of the two bindings.
    pub fn set_binding(&mut self, mode_toggle: bool, binding: Option<Binding>)
        requires
            old(self).wf(),
        ensures
            final(self).wf(),
            final(self).states() == old(self).states(),
            mode_toggle ==> final(self).config == (PluginConfig { mode_toggle_binding: binding, ..old(self).config }),
            !mode_toggle ==> final(self).config == (PluginConfig { hold_binding: binding, ..old(self).config }),
    {
        if mode_toggle {
            self.config.mode_toggle_binding = binding;
        } else {
            self.config.hold_binding = binding;
        }
    }

    /// Whether each tracked source should be muted: exactly when it does not
    /// transmit.
    pub fn mute_plan(&self) -> (r: Vec<(String, bool)>)
        requires
            self.wf(),
        ensures
            forall|i: int| 0 <= i < r@.len() ==> #[trigger] self.states().contains_key(r@[i].0@)
                && r@[i].1 == !self.states()[r@[i].0@].is_transmitting(),
            forall|s: Seq<char>| #[trigger] self.states().contains_key(s) ==> exists|i: int| 0 <= i < r@.len() && r@[i].0@ == s,
    {
        proof {
            self.states.lemma_names();
        }
        let mut r: Vec<(String, bool)> = Vec::new();
        let mut i: usize = 0;
        let n = self.states.len();
        while i < n
            invariant
                self.states.wf(),
                n == self.states.names().len(),
                i <= n,
                forall|k: Seq<char>| self.states@.contains_key(k) <==> self.states.names().contains(k),
                r@.len() == i,
                forall|j: int| 0 <= j < i ==> (#[trigger] r@[j]).0@ == self.states.names()[j],
                forall|j: int| 0 <= j < r@.len() ==> #[trigger] self.states@.contains_key(r@[j].0@)
                    && r@[j].1 == !self.states@[r@[j].0@].is_transmitting(),
            decreases n - i,
        {
            let name = self.states.name_at(i);
            assert(self.states.names().contains(name@)) by {
                assert(self.states.names()[i as int] == name@);
            }
            assert(self.states@.contains_key(name@));
            let st = self.states.get(name.as_str());
            let muted = match st {
                Some(s) => !s.transmitting(),
                None => false,
            };
            assert(muted == !self.states@[name@].is_transmitting());
            let nm = name.clone();
            let ghost before = r@;
            r.push((nm, muted));
            proof {
                assert(r@[i as int].0@ == name@);
                assert forall|j: int| 0 <= j < r@.len() implies #[trigger] self.states@.contains_key(r@[j].0@)
                    && r@[j].1 == !self.states@[r@[j].0@].is_transmitting() by {
                    if j < i {
                        assert(r@[j] == before[j]);
                    }
                }
                assert forall|j: int| 0 <= j < i + 1 implies (#[trigger] r@[j]).0@ == self.states.names()[j] by {
                    if j < i {
                        assert(r@[j] == before[j]);
                    }
                }
            }
            i = i + 1;
        }
        proof {
            assert forall|s: Seq<char>| #[trigger] self.states@.contains_key(s) implies exists|i: int| 0 <= i < r@.len() && r@[i].0@ == s by {
                let ns = self.states.names();
                assert(ns.contains(s));
                let j = choose|j: int| 0 <= j < ns.len() && ns[j] == s;
                assert(r@.len() == ns.len());
                assert((r@[j]).0@ == ns[j]);
                assert(r@[j].0@ == s);
            }
        }
        r
    }
}

} // verus!
