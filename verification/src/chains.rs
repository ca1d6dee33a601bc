//! The effects plugin's per-channel chain state: which effects each channel
//! carries, in what order, and the channel-level switches.
use vstd::prelude::*;
use crate::idmap::{IdMap, MapKey};

verus! {

/// The plugin standard an effect is hosted through.
#[derive(Debug, Clone, Copy, PartialEq, Eq, Hash, Structural)]
pub enum Format {
    Lv2,
    Vst2,
    Vst3,
}

/// The name effects use for a plugin's format.
pub type PluginFormat = Format;

/// The name a format is written under on disk and on the wire.
pub open spec fn format_wire_name(f: Format) -> Seq<char> {
    match f {
        Format::Lv2 => "lv2"@,
        Format::Vst2 => "vst2"@,
        Format::Vst3 => "vst3"@,
    }
}

impl Format {
    pub fn wire_name(&self) -> (s: &'static str)
        ensures
            s@ == format_wire_name(*self),
    {
        match self {
            Format::Lv2 => "lv2",
            Format::Vst2 => "vst2",
            Format::Vst3 => "vst3",
        }
    }
}

/// One effect in a channel's chain.
#[derive(Debug, Clone, PartialEq, Eq)]
pub struct Effect {
    pub id: u128,
    pub format: Format,
    pub uri: String,
    pub display_name: String,
    pub bypassed: bool,
    pub state_b64: Option<String>,
}

pub struct EffectView {
    pub id: u128,
    pub format: Format,
    pub uri: Seq<char>,
    pub display_name: Seq<char>,
    pub bypassed: bool,
    pub state_b64: Option<Seq<char>>,
}

pub open spec fn opt_str_view(o: Option<String>) -> Option<Seq<char>> {
    match o {
        Some(s) => Some(s@),
        None => None,
    }
}

impl View for Effect {
    type V = EffectView;

    open spec fn view(&self) -> EffectView {
        EffectView {
            id: self.id,
            format: self.format,
            uri: self.uri@,
            display_name: self.display_name@,
            bypassed: self.bypassed,
            state_b64: opt_str_view(self.state_b64),
        }
    }
}

impl Effect {
    /// An LV2 effect with the given id, named after its URI.
    pub fn lv2_with_id(id: u128, uri: String) -> (e: Effect)
        ensures
            e@ == (EffectView {
                id,
                format: Format::Lv2,
                uri: uri@,
                display_name: uri@,
                bypassed: false,
                state_b64: None,
            }),
    {
        let name = uri.clone();
        Effect { id, format: Format::Lv2, uri, display_name: name, bypassed: false, state_b64: None }
    }

    /// An LV2 effect with a fresh random id, named after its URI.
    pub fn new_lv2(uri: String) -> (e: Effect)
        ensures
            e.format == Format::Lv2,
            e.uri@ == uri@,
            e.display_name@ == uri@,
            !e.bypassed,
            e.state_b64.is_none(),
            crate::ids::is_random_v4(e.id),
    {
        Effect::lv2_with_id(crate::ids::fresh_id(), uri)
    }

    /// A copy with the same view.
    pub fn duplicate(&self) -> (e: Effect)
        ensures
            e@ == self@,
    {
        let state_b64 = match &self.state_b64 {
            Some(s) => Some(s.clone()),
            None => None,
        };
        Effect {
            id: self.id,
            format: self.format,
            uri: self.uri.clone(),
            display_name: self.display_name.clone(),
            bypassed: self.bypassed,
            state_b64,
        }
    }
}

/// Where an effect lives: its channel and its own id.
#[derive(Debug, Clone, Copy, PartialEq, Eq, Structural)]
pub struct SlotKey {
    pub channel: u128,
    pub effect: u128,
}

impl MapKey for SlotKey {
    fn same(&self, other: &Self) -> (r: bool) {
        self.channel == other.channel && self.effect == other.effect
    }
}

/// The gain a channel has when none was set: the bit pattern of the
/// single-precision float 1.0, unity amplification.
pub const UNITY_GAIN_BITS: u32 = 0x3F80_0000u32;

/// The version number written with every snapshot.
pub const PERSIST_VERSION: u32 = 2u32;

/// The format a saved effect is read with. A file that names no version is
/// from the first version, which held LV2 effects only and wrote no format,
/// so there a missing format is LV2; in a file that names a version an effect
/// without a format cannot be read (`None`), and the file is not used.
pub fn saved_effect_format(file_names_version: bool, format: Option<Format>) -> (r: Option<Format>)
    ensures
        r == (match format {
            Some(f) => Some(f),
            None => if file_names_version {
                None::<Format>
            } else {
                Some(Format::Lv2)
            },
        }),
{
    match format {
        Some(f) => Some(f),
        None => if file_names_version {
            None
        } else {
            Some(Format::Lv2)
        },
    }
}

/// The version a saved file is read as: a file that names no version is
/// brought to the current one; one that names a version keeps it, and `None`
/// where that version is not a number, so that the file is not used.
pub fn saved_file_version(file_names_version: bool, version: Option<u32>) -> (r: Option<u32>)
    ensures
        r == (if file_names_version {
            version
        } else {
            Some(PERSIST_VERSION)
        }),
{
    if file_names_version {
        version
    } else {
        Some(PERSIST_VERSION)
    }
}

/// The version a saved chain file is taken to have when it names none.
pub fn default_version() -> (r: u32)
    ensures
        r == PERSIST_VERSION,
{
    PERSIST_VERSION
}

/// What the chain state holds, as mathematical maps.
pub struct ChainStateView {
    pub chains: Map<u128, Seq<u128>>,
    pub effects: Map<SlotKey, EffectView>,
    pub chain_bypass: Map<u128, bool>,
    pub lowcut: Map<u128, bool>,
    pub clipguard: Map<u128, bool>,
    pub input_gain: Map<u128, u32>,
}

impl ChainStateView {
    /// The effect order of a channel; a channel without an entry has none.
    pub open spec fn chain_of(self, c: u128) -> Seq<u128> {
        if self.chains.contains_key(c) {
            self.chains[c]
        } else {
            Seq::empty()
        }
    }

    pub open spec fn bypass_of(self, c: u128) -> bool {
        self.chain_bypass.contains_key(c) && self.chain_bypass[c]
    }

    pub open spec fn lowcut_of(self, c: u128) -> bool {
        self.lowcut.contains_key(c) && self.lowcut[c]
    }

    pub open spec fn clipguard_of(self, c: u128) -> bool {
        self.clipguard.contains_key(c) && self.clipguard[c]
    }

    pub open spec fn gain_of(self, c: u128) -> u32 {
        if self.input_gain.contains_key(c) {
            self.input_gain[c]
        } else {
            UNITY_GAIN_BITS
        }
    }

    /// After attaching an effect: it is stored under its slot, and its id
    /// joins the end of the channel's order unless already there.
    pub open spec fn attached(self, c: u128, e: EffectView) -> ChainStateView {
        let order = self.chain_of(c);
        ChainStateView {
            chains: self.chains.insert(c, if order.contains(e.id) { order } else { order.push(e.id) }),
            effects: self.effects.insert(SlotKey { channel: c, effect: e.id }, e),
            ..self
        }
    }

    /// After detaching an effect: its slot is gone and its id leaves the
    /// channel's order, if the channel has one.
    pub open spec fn detached(self, c: u128, id: u128) -> ChainStateView {
        ChainStateView {
            chains: if self.chains.contains_key(c) {
                self.chains.insert(c, without(self.chains[c], id))
            } else {
                self.chains
            },
            effects: self.effects.remove(SlotKey { channel: c, effect: id }),
            ..self
        }
    }

    /// After changing one stored effect, if it is there.
    pub open spec fn with_effect(self, k: SlotKey, e: EffectView) -> ChainStateView {
        ChainStateView {
            effects: if self.effects.contains_key(k) {
                self.effects.insert(k, e)
            } else {
                self.effects
            },
            ..self
        }
    }

    /// The channels that are named anywhere in the state.
    pub open spec fn known_channel(self, c: u128) -> bool {
        ||| self.chains.contains_key(c)
        ||| self.chain_bypass.contains_key(c)
        ||| self.lowcut.contains_key(c)
        ||| self.clipguard.contains_key(c)
        ||| self.input_gain.contains_key(c)
    }

    /// The stored effects of a channel, in chain order; ids without a
    /// stored effect are skipped.
    pub open spec fn persisted_effects(self, c: u128, order: Seq<u128>) -> Seq<EffectView>
        decreases order.len(),
    {
        if order.len() == 0 {
            Seq::empty()
        } else {
            let rest = self.persisted_effects(c, order.drop_last());
            let k = SlotKey { channel: c, effect: order.last() };
            if self.effects.contains_key(k) {
                rest.push(self.effects[k])
            } else {
                rest
            }
        }
    }

    /// The record a snapshot holds for a channel.
    pub open spec fn persisted_channel(self, c: u128) -> PersistedChannelView {
        PersistedChannelView {
            bypassed: self.bypass_of(c),
            lowcut: self.lowcut_of(c),
            clipguard: self.clipguard_of(c),
            input_gain: self.gain_of(c),
            effects: self.persisted_effects(c, self.chain_of(c)),
        }
    }
}

/// The chain state of every channel.
pub struct ChainState {
    chains: IdMap<u128, Vec<u128>>,
    effects: IdMap<SlotKey, Effect>,
    chain_bypass: IdMap<u128, bool>,
    lowcut: IdMap<u128, bool>,
    clipguard: IdMap<u128, bool>,
    input_gain: IdMap<u128, u32>,
}

impl View for ChainState {
    type V = ChainStateView;

    closed spec fn view(&self) -> ChainStateView {
        ChainStateView {
            chains: self.chains@.map_values(|v: Vec<u128>| v@),
            effects: self.effects@.map_values(|e: Effect| e@),
            chain_bypass: self.chain_bypass@,
            lowcut: self.lowcut@,
            clipguard: self.clipguard@,
            input_gain: self.input_gain@,
        }
    }
}

/// One channel's record in a snapshot.
#[derive(Debug, Clone)]
pub struct PersistedChannel {
    pub bypassed: bool,
    pub lowcut: bool,
    pub clipguard: bool,
    pub input_gain: u32,
    pub effects: Vec<Effect>,
}

pub struct PersistedChannelView {
    pub bypassed: bool,
    pub lowcut: bool,
    pub clipguard: bool,
    pub input_gain: u32,
    pub effects: Seq<EffectView>,
}

impl View for PersistedChannel {
    type V = PersistedChannelView;

    open spec fn view(&self) -> PersistedChannelView {
        PersistedChannelView {
            bypassed: self.bypassed,
            lowcut: self.lowcut,
            clipguard: self.clipguard,
            input_gain: self.input_gain,
            effects: self.effects@.map_values(|e: Effect| e@),
        }
    }
}

impl Default for PersistedChannel {
    fn default() -> (p: Self)
        ensures
            p@ == (PersistedChannelView {
                bypassed: false,
                lowcut: false,
                clipguard: false,
                input_gain: UNITY_GAIN_BITS,
                effects: Seq::empty(),
            }),
    {
        let p = PersistedChannel {
            bypassed: false,
            lowcut: false,
            clipguard: false,
            input_gain: UNITY_GAIN_BITS,
            effects: Vec::new(),
        };
        assert(p@.effects =~= Seq::<EffectView>::empty());
        p
    }
}

/// Everything that is written to disk, channel by channel.
pub struct PersistedChains {
    pub version: u32,
    pub channels: IdMap<u128, PersistedChannel>,
}

/// A copy of a list of ids.
pub fn copy_ids(v: &Vec<u128>) -> (r: Vec<u128>)
    ensures
        r@ == v@,
{
    let mut r: Vec<u128> = Vec::new();
    let mut i: usize = 0;
    while i < v.len()
        invariant
            i <= v@.len(),
            r@ == v@.take(i as int),
        decreases v@.len() - i,
    {
        r.push(v[i]);
        i = i + 1;
        assert(r@ =~= v@.take(i as int));
    }
    assert(v@.take(i as int) =~= v@);
    r
}

fn contains_id(v: &Vec<u128>, x: u128) -> (r: bool)
    ensures
        r == v@.contains(x),
{
    let mut i: usize = 0;
    while i < v.len()
        invariant
            i <= v@.len(),
            forall|j: int| 0 <= j < i ==> v@[j] != x,
        decreases v@.len() - i,
    {
        if v[i] == x {
            return true;
        }
        i = i + 1;
    }
    false
}

proof fn lemma_filter_step(s: Seq<u128>, x: u128, i: int)
    requires
        0 <= i < s.len(),
    ensures
        without(s.take(i + 1), x) == (if s[i] != x {
            without(s.take(i), x).push(s[i])
        } else {
            without(s.take(i), x)
        }),
{
    reveal(Seq::filter);
    assert(s.take(i + 1).drop_last() =~= s.take(i));
}

fn without_id(v: &Vec<u128>, x: u128) -> (r: Vec<u128>)
    ensures
        r@ == without(v@, x),
{
    let mut r: Vec<u128> = Vec::new();
    let mut i: usize = 0;
    while i < v.len()
        invariant
            i <= v@.len(),
            r@ == without(v@.take(i as int), x),
        decreases v@.len() - i,
    {
        proof {
            lemma_filter_step(v@, x, i as int);
        }
        if v[i] != x {
            r.push(v[i]);
        }
        i = i + 1;
    }
    assert(v@.take(i as int) =~= v@);
    r
}

impl ChainState {
    pub closed spec fn wf(&self) -> bool {
        &&& self.chains.wf()
        &&& self.effects.wf()
        &&& self.chain_bypass.wf()
        &&& self.lowcut.wf()
        &&& self.clipguard.wf()
        &&& self.input_gain.wf()
        &&& forall|k: SlotKey| #[trigger] self.effects@.contains_key(k) ==> self.effects@[k].id == k.effect
    }

    /// Every stored effect sits under its own id.
    pub proof fn lemma_slots_match(&self)
        requires
            self.wf(),
        ensures
            forall|k: SlotKey| #[trigger] self@.effects.contains_key(k) ==> self@.effects[k].id == k.effect,
    {
    }

    pub fn new() -> (s: Self)
        ensures
            s.wf(),
            s@.chains == Map::<u128, Seq<u128>>::empty(),
            s@.effects == Map::<SlotKey, EffectView>::empty(),
            s@.chain_bypass == Map::<u128, bool>::empty(),
            s@.lowcut == Map::<u128, bool>::empty(),
            s@.clipguard == Map::<u128, bool>::empty(),
            s@.input_gain == Map::<u128, u32>::empty(),
    {
        let s = ChainState {
            chains: IdMap::new(),
            effects: IdMap::new(),
            chain_bypass: IdMap::new(),
            lowcut: IdMap::new(),
            clipguard: IdMap::new(),
            input_gain: IdMap::new(),
        };
        assert(s@.chains =~= Map::<u128, Seq<u128>>::empty());
        assert(s@.effects =~= Map::<SlotKey, EffectView>::empty());
        s
    }

    /// The effect order of a channel (empty for a channel without one).
    pub fn chain_order(&self, channel: u128) -> (r: Vec<u128>)
        requires
            self.wf(),
        ensures
            r@ == self@.chain_of(channel),
    {
        match self.chains.get(&channel) {
            Some(v) => copy_ids(v),
            None => Vec::new(),
        }
    }

    /// Stores an effect under its slot and appends its id to the channel's
    /// order unless the order has it already.
    pub fn attach_effect(&mut self, channel: u128, effect: Effect)
        requires
            old(self).wf(),
        ensures
            final(self).wf(),
            final(self)@ == old(self)@.attached(channel, effect@),
    {
        let eid = effect.id;
        let ghost ev = effect@;
        self.effects.insert(SlotKey { channel, effect: eid }, effect);
        let mut order = self.chain_order(channel);
        if !contains_id(&order, eid) {
            order.push(eid);
        }
        let ghost ov = order@;
        self.chains.insert(channel, order);
        assert(self@.chains =~= old(self)@.attached(channel, ev).chains);
        assert(self@.effects =~= old(self)@.attached(channel, ev).effects);
    }

    /// Forgets an effect's slot and drops its id from the channel's order.
    pub fn detach_effect(&mut self, channel: u128, effect_id: u128)
        requires
            old(self).wf(),
        ensures
            final(self).wf(),
            final(self)@ == old(self)@.detached(channel, effect_id),
    {
        self.effects.remove(&SlotKey { channel, effect: effect_id });
        let filtered = match self.chains.get(&channel) {
            Some(v) => Some(without_id(v, effect_id)),
            None => None,
        };
        match filtered {
            Some(f) => {
                self.chains.insert(channel, f);
            },
            None => {},
        }
        assert(self@.chains =~= old(self)@.detached(channel, effect_id).chains);
        assert(self@.effects =~= old(self)@.detached(channel, effect_id).effects);
    }

    /// Replaces a channel's effect order.
    pub fn set_chain_order(&mut self, channel: u128, order: Vec<u128>)
        requires
            old(self).wf(),
        ensures
            final(self).wf(),
            final(self)@ == (ChainStateView { chains: old(self)@.chains.insert(channel, order@), ..old(self)@ }),
    {
        let ghost ov = order@;
        self.chains.insert(channel, order);
        assert(self@.chains =~= old(self)@.chains.insert(channel, ov));
    }

    /// The channels whose effect order is not empty, each once.
    pub fn channels_with_effects(&self) -> (r: Vec<u128>)
        requires
            self.wf(),
        ensures
            r@.no_duplicates(),
            forall|c: u128| r@.contains(c) <==> self@.chains.contains_key(c) && self@.chains[c].len() > 0,
    {
        proof {
            self.chains.lemma_keys();
        }
        let ghost ks = self.chains.keys_in_order();
        let ghost m = self.chains@;
        let mut r: Vec<u128> = Vec::new();
        let n = self.chains.len();
        let mut i: usize = 0;
        while i < n
            invariant
                self.chains.wf(),
                m == self.chains@,
                n == ks.len(),
                ks == self.chains.keys_in_order(),
                i <= n,
                r@ == nonempty_of(m, ks.take(i as int)),
            decreases n - i,
        {
            let c = self.chains.key_at(i);
            assert(ks.take(i as int + 1).drop_last() =~= ks.take(i as int));
            let nonempty = match self.chains.get(&c) {
                Some(v) => v.len() > 0,
                None => false,
            };
            if nonempty {
                r.push(c);
            }
            i = i + 1;
        }
        proof {
            assert(ks.take(n as int) =~= ks);
            lemma_nonempty_of(m, ks);
            assert forall|c: u128| r@.contains(c) <==> self@.chains.contains_key(c) && self@.chains[c].len() > 0 by {
                assert(self@.chains.contains_key(c) == m.contains_key(c));
                assert(ks.contains(c) == m.contains_key(c));
                if m.contains_key(c) {
                    assert(self@.chains[c] == m[c]@);
                }
            }
        }
        r
    }

    /// Marks a stored effect as bypassed or not; an unknown slot is ignored.
    pub fn set_effect_bypassed(&mut self, channel: u128, effect_id: u128, bypassed: bool)
        requires
            old(self).wf(),
        ensures
            final(self).wf(),
            final(self)@ == old(self)@.with_effect(
                SlotKey { channel, effect: effect_id },
                EffectView { bypassed, ..old(self)@.effects[SlotKey { channel, effect: effect_id }] },
            ),
    {
        let key = SlotKey { channel, effect: effect_id };
        let updated = match self.effects.get(&key) {
            Some(e) => {
                let mut e2 = e.duplicate();
                e2.bypassed = bypassed;
                Some(e2)
            },
            None => None,
        };
        match updated {
            Some(e2) => {
                self.effects.insert(key, e2);
            },
            None => {},
        }
        assert(self@.effects =~= old(self)@.with_effect(
            key,
            EffectView { bypassed, ..old(self)@.effects[key] },
        ).effects);
    }

    /// Records the saved plugin state of a stored effect; an unknown slot is ignored.
    pub fn set_effect_state_b64(&mut self, channel: u128, effect_id: u128, b64: String)
        requires
            old(self).wf(),
        ensures
            final(self).wf(),
            final(self)@ == old(self)@.with_effect(
                SlotKey { channel, effect: effect_id },
                EffectView { state_b64: Some(b64@), ..old(self)@.effects[SlotKey { channel, effect: effect_id }] },
            ),
    {
        let key = SlotKey { channel, effect: effect_id };
        let ghost bv = b64@;
        let updated = match self.effects.get(&key) {
            Some(e) => {
                let mut e2 = e.duplicate();
                e2.state_b64 = Some(b64);
                Some(e2)
            },
            None => None,
        };
        match updated {
            Some(e2) => {
                self.effects.insert(key, e2);
            },
            None => {},
        }
        assert(self@.effects =~= old(self)@.with_effect(
            key,
            EffectView { state_b64: Some(bv), ..old(self)@.effects[key] },
        ).effects);
    }

    /// A copy of a stored effect.
    pub fn effect(&self, channel: u128, effect_id: u128) -> (r: Option<Effect>)
        requires
            self.wf(),
        ensures
            match r {
                Some(e) => self@.effects.contains_key(SlotKey { channel, effect: effect_id })
                    && e@ == self@.effects[SlotKey { channel, effect: effect_id }],
                None => !self@.effects.contains_key(SlotKey { channel, effect: effect_id }),
            },
    {
        match self.effects.get(&SlotKey { channel, effect: effect_id }) {
            Some(e) => Some(e.duplicate()),
            None => None,
        }
    }

    pub fn get_chain_bypass(&self, channel: u128) -> (r: bool)
        requires
            self.wf(),
        ensures
            r == self@.bypass_of(channel),
    {
        match self.chain_bypass.get(&channel) {
            Some(b) => *b,
            None => false,
        }
    }

    pub fn set_chain_bypass(&mut self, channel: u128, bypassed: bool)
        requires
            old(self).wf(),
        ensures
            final(self).wf(),
            final(self)@ == (ChainStateView { chain_bypass: old(self)@.chain_bypass.insert(channel, bypassed), ..old(self)@ }),
    {
        self.chain_bypass.insert(channel, bypassed);
    }

    pub fn get_lowcut(&self, channel: u128) -> (r: bool)
        requires
            self.wf(),
        ensures
            r == self@.lowcut_of(channel),
    {
        match self.lowcut.get(&channel) {
            Some(b) => *b,
            None => false,
        }
    }

    pub fn set_lowcut(&mut self, channel: u128, enabled: bool)
        requires
            old(self).wf(),
        ensures
            final(self).wf(),
            final(self)@ == (ChainStateView { lowcut: old(self)@.lowcut.insert(channel, enabled), ..old(self)@ }),
    {
        self.lowcut.insert(channel, enabled);
    }

    pub fn get_clipguard(&self, channel: u128) -> (r: bool)
        requires
            self.wf(),
        ensures
            r == self@.clipguard_of(channel),
    {
        match self.clipguard.get(&channel) {
            Some(b) => *b,
            None => false,
        }
    }

    pub fn set_clipguard(&mut self, channel: u128, enabled: bool)
        requires
            old(self).wf(),
        ensures
            final(self).wf(),
            final(self)@ == (ChainStateView { clipguard: old(self)@.clipguard.insert(channel, enabled), ..old(self)@ }),
    {
        self.clipguard.insert(channel, enabled);
    }

    /// The input gain of a channel as the bit pattern of a linear amplitude.
    pub fn get_input_gain(&self, channel: u128) -> (r: u32)
        requires
            self.wf(),
        ensures
            r == self@.gain_of(channel),
    {
        match self.input_gain.get(&channel) {
            Some(g) => *g,
            None => UNITY_GAIN_BITS,
        }
    }

    /// Stores a channel's input gain (the bit pattern of an amplitude that
    /// the caller has already limited to the accepted range).
    pub fn set_input_gain(&mut self, channel: u128, gain_bits: u32)
        requires
            old(self).wf(),
        ensures
            final(self).wf(),
            final(self)@ == (ChainStateView { input_gain: old(self)@.input_gain.insert(channel, gain_bits), ..old(self)@ }),
    {
        self.input_gain.insert(channel, gain_bits);
    }

    /// Forgets every chain, stored effect and per-channel switch except the
    /// chain bypass flags.
    pub fn clear_chain_state(&mut self)
        requires
            old(self).wf(),
        ensures
            final(self).wf(),
            final(self)@ == (ChainStateView {
                chains: Map::empty(),
                effects: Map::empty(),
                lowcut: Map::empty(),
                clipguard: Map::empty(),
                input_gain: Map::empty(),
                ..old(self)@
            }),
    {
        self.chains.clear();
        self.effects.clear();
        self.lowcut.clear();
        self.clipguard.clear();
        self.input_gain.clear();
        assert(self@.chains =~= Map::<u128, Seq<u128>>::empty());
        assert(self@.effects =~= Map::<SlotKey, EffectView>::empty());
    }

    /// Drops a removed channel's order and bypass flag.
    pub fn forget_channel(&mut self, channel: u128)
        requires
            old(self).wf(),
        ensures
            final(self).wf(),
            final(self)@ == (ChainStateView {
                chains: old(self)@.chains.remove(channel),
                chain_bypass: old(self)@.chain_bypass.remove(channel),
                ..old(self)@
            }),
    {
        self.chains.remove(&channel);
        self.chain_bypass.remove(&channel);
        assert(self@.chains =~= old(self)@.chains.remove(channel));
    }

    /// The stored effects of a channel in chain order.
    fn persisted_effects_of(&self, channel: u128) -> (r: Vec<Effect>)
        requires
            self.wf(),
        ensures
            r@.map_values(|e: Effect| e@) == self@.persisted_effects(channel, self@.chain_of(channel)),
    {
        let order = self.chain_order(channel);
        let mut out: Vec<Effect> = Vec::new();
        let mut i: usize = 0;
        while i < order.len()
            invariant
                self.wf(),
                i <= order@.len(),
                out@.map_values(|e: Effect| e@) == self@.persisted_effects(channel, order@.take(i as int)),
            decreases order@.len() - i,
        {
            let ghost before = out@;
            assert(order@.take(i as int + 1).drop_last() =~= order@.take(i as int));
            match self.effect(channel, order[i]) {
                Some(e) => {
                    out.push(e);
                    assert(out@.map_values(|e: Effect| e@) =~= before.map_values(|e: Effect| e@).push(e@));
                },
                None => {},
            }
            i = i + 1;
        }
        assert(order@.take(order@.len() as int) =~= order@);
        out
    }

    /// The record a snapshot holds for one channel.
    pub fn persisted_channel(&self, channel: u128) -> (r: PersistedChannel)
        requires
            self.wf(),
        ensures
            r@ == self@.persisted_channel(channel),
    {
        PersistedChannel {
            bypassed: self.get_chain_bypass(channel),
            lowcut: self.get_lowcut(channel),
            clipguard: self.get_clipguard(channel),
            input_gain: self.get_input_gain(channel),
            effects: self.persisted_effects_of(channel),
        }
    }

    /// Adds a record for every key of `keys` that `out` lacks.
    fn include_keys<V>(&self, out: &mut IdMap<u128, PersistedChannel>, keys: &IdMap<u128, V>)
        requires
            self.wf(),
            old(out).wf(),
            keys.wf(),
            snapshot_sound(self@, old(out)@),
            forall|c: u128| #[trigger] keys@.contains_key(c) ==> self@.known_channel(c),
        ensures
            final(out).wf(),
            snapshot_sound(self@, final(out)@),
            forall|c: u128| #[trigger] final(out)@.contains_key(c) <==> old(out)@.contains_key(c) || keys@.contains_key(c),
    {
        proof {
            keys.lemma_keys();
        }
        let ghost ks = keys.keys_in_order();
        let n = keys.len();
        let mut i: usize = 0;
        while i < n
            invariant
                self.wf(),
                keys.wf(),
                out.wf(),
                ks == keys.keys_in_order(),
                n == ks.len(),
                i <= n,
                forall|k: u128| keys@.contains_key(k) <==> ks.contains(k),
                forall|c: u128| #[trigger] keys@.contains_key(c) ==> self@.known_channel(c),
                snapshot_sound(self@, out@),
                forall|c: u128| #[trigger] out@.contains_key(c) <==> old(out)@.contains_key(c) || ks.take(i as int).contains(c),
            decreases n - i,
        {
            let c = keys.key_at(i);
            assert(ks.take(i as int + 1) =~= ks.take(i as int).push(c));
            assert(ks[i as int] == c && ks.contains(c));
            if !out.contains_key(&c) {
                let rec = self.persisted_channel(c);
                out.insert(c, rec);
            }
            proof {
                let t0 = ks.take(i as int);
                assert forall|a: u128| #[trigger] out@.contains_key(a) <==> old(out)@.contains_key(a) || t0.push(c).contains(a) by {
                    if t0.push(c).contains(a) && a != c {
                        let j = choose|j: int| 0 <= j < t0.push(c).len() && t0.push(c)[j] == a;
                        assert(t0[j] == a);
                    }
                    if t0.contains(a) {
                        let j = choose|j: int| 0 <= j < t0.len() && t0[j] == a;
                        assert(t0.push(c)[j] == a);
                    }
                    assert(t0.push(c)[t0.len() as int] == c);
                }
            }
            i = i + 1;
        }
        proof {
            assert(ks.take(n as int) =~= ks);
        }
    }

    /// Everything worth writing to disk: a record for every channel named
    /// by a chain or by any per-channel switch.
    pub fn snapshot_persisted(&self) -> (r: PersistedChains)
        requires
            self.wf(),
        ensures
            r.version == PERSIST_VERSION,
            r.channels.wf(),
            forall|c: u128| #[trigger] r.channels@.contains_key(c) <==> self@.known_channel(c),
            forall|c: u128| #[trigger] r.channels@.contains_key(c) ==> r.channels@[c]@ == self@.persisted_channel(c),
    {
        let mut out: IdMap<u128, PersistedChannel> = IdMap::new();
        proof {
            assert forall|c: u128| #[trigger] self.chains@.contains_key(c) implies self@.known_channel(c) by {
                assert(self@.chains.contains_key(c));
            }
        }
        self.include_keys(&mut out, &self.chains);
        self.include_keys(&mut out, &self.chain_bypass);
        self.include_keys(&mut out, &self.lowcut);
        self.include_keys(&mut out, &self.clipguard);
        self.include_keys(&mut out, &self.input_gain);
        proof {
            assert forall|c: u128| #[trigger] out@.contains_key(c) <==> self@.known_channel(c) by {
                assert(self@.chains.contains_key(c) == self.chains@.contains_key(c));
            }
        }
        PersistedChains { version: PERSIST_VERSION, channels: out }
    }
}

/// A channel's effects as stored in the host's channel data.
#[derive(Debug, Clone, Default)]
pub struct ChannelEffectsData {
    pub effects: Vec<Effect>,
    pub chain_bypassed: bool,
}

impl ChainState {
    /// The channel's stored effects in chain order and its bypass flag.
    pub fn snapshot_channel(&self, channel: u128) -> (r: ChannelEffectsData)
        requires
            self.wf(),
        ensures
            r.effects@.map_values(|e: Effect| e@) == self@.persisted_channel(channel).effects,
            r.chain_bypassed == self@.bypass_of(channel),
    {
        let rec = self.persisted_channel(channel);
        ChannelEffectsData { effects: rec.effects, chain_bypassed: rec.bypassed }
    }
}

/// A copy of a list of effects, effect for effect.
fn copy_effects(v: &Vec<Effect>) -> (r: Vec<Effect>)
    ensures
        r@.map_values(|e: Effect| e@) == v@.map_values(|e: Effect| e@),
{
    let mut r: Vec<Effect> = Vec::new();
    let mut i: usize = 0;
    while i < v.len()
        invariant
            i <= v@.len(),
            r@.map_values(|e: Effect| e@) == v@.take(i as int).map_values(|e: Effect| e@),
        decreases v@.len() - i,
    {
        let ghost r0 = r@;
        let e = v[i].duplicate();
        r.push(e);
        assert(r@ == r0.push(e));
        assert(v@.take(i + 1) =~= v@.take(i as int).push(v@[i as int]));
        assert(r@.map_values(|e: Effect| e@) =~= r0.map_values(|e: Effect| e@).push(e@));
        assert(r@.map_values(|e: Effect| e@) =~= v@.take(i + 1).map_values(|e: Effect| e@));
        i = i + 1;
    }
    assert(v@.take(v@.len() as int) =~= v@);
    r
}

/// The record saved for a channel from the effects data attached to it: its
/// chain bypass flag and its effects, the other switches at their defaults.
pub open spec fn record_from_attached(d: ChannelEffectsData) -> PersistedChannelView {
    PersistedChannelView {
        bypassed: d.chain_bypassed,
        lowcut: false,
        clipguard: false,
        input_gain: UNITY_GAIN_BITS,
        effects: d.effects@.map_values(|e: Effect| e@),
    }
}

/// The records kept from the channels' attached data: one for every channel
/// whose data names at least one effect, a later entry for a channel
/// replacing an earlier one.
pub open spec fn attached_records(entries: Seq<(u128, ChannelEffectsData)>) -> Map<u128, PersistedChannelView>
    decreases entries.len(),
{
    if entries.len() == 0 {
        Map::empty()
    } else {
        let m = attached_records(entries.drop_last());
        let (c, d) = entries.last();
        if d.effects@.len() > 0 {
            m.insert(c, record_from_attached(d))
        } else {
            m
        }
    }
}

/// The saved chains that the host's channel data describes, for putting
/// the engine back in step with it: every channel with effects attached,
/// at the current file version.
pub fn persisted_from_attached(entries: &Vec<(u128, ChannelEffectsData)>) -> (r: PersistedChains)
    ensures
        r.version == PERSIST_VERSION,
        r.channels.wf(),
        r.channels@.dom() == attached_records(entries@).dom(),
        forall|c: u128| #[trigger] r.channels@.contains_key(c) ==> r.channels@[c]@ == attached_records(entries@)[c],
{
    let mut out: IdMap<u128, PersistedChannel> = IdMap::new();
    let mut i: usize = 0;
    while i < entries.len()
        invariant
            i <= entries@.len(),
            out.wf(),
            out@.dom() == attached_records(entries@.take(i as int)).dom(),
            forall|c: u128| #[trigger] out@.contains_key(c) ==> out@[c]@ == attached_records(entries@.take(i as int))[c],
        decreases entries@.len() - i,
    {
        let (c, d) = (entries[i].0, &entries[i].1);
        assert(entries@.take(i + 1).drop_last() =~= entries@.take(i as int));
        assert(entries@.take(i + 1).last() == entries@[i as int]);
        if d.effects.len() > 0 {
            let rec = PersistedChannel {
                bypassed: d.chain_bypassed,
                lowcut: false,
                clipguard: false,
                input_gain: UNITY_GAIN_BITS,
                effects: copy_effects(&d.effects),
            };
            assert(rec@ == record_from_attached(*d));
            out.insert(c, rec);
        }
        assert(out@.dom() =~= attached_records(entries@.take(i + 1)).dom());
        i = i + 1;
    }
    assert(entries@.take(entries@.len() as int) =~= entries@);
    PersistedChains { version: PERSIST_VERSION, channels: out }
}

/// Every record of a snapshot belongs to a known channel and is that
/// channel's record.
pub open spec fn snapshot_sound(v: ChainStateView, m: Map<u128, PersistedChannel>) -> bool {
    forall|c: u128| #[trigger] m.contains_key(c) ==> v.known_channel(c) && m[c]@ == v.persisted_channel(c)
}

/// The ids of an order whose chains are not empty, in the same order.
pub open spec fn nonempty_of(m: Map<u128, Vec<u128>>, s: Seq<u128>) -> Seq<u128>
    decreases s.len(),
{
    if s.len() == 0 {
        Seq::empty()
    } else {
        let r = nonempty_of(m, s.drop_last());
        if nonempty_chain(m, s.last()) {
            r.push(s.last())
        } else {
            r
        }
    }
}

proof fn lemma_nonempty_of(m: Map<u128, Vec<u128>>, s: Seq<u128>)
    requires
        s.no_duplicates(),
    ensures
        nonempty_of(m, s).no_duplicates(),
        forall|c: u128| nonempty_of(m, s).contains(c) <==> s.contains(c) && nonempty_chain(m, c),
    decreases s.len(),
{
    if s.len() > 0 {
        let t = s.drop_last();
        let x = s.last();
        assert(t.no_duplicates()) by {
            assert forall|a: int, b: int| 0 <= a < t.len() && 0 <= b < t.len() && a != b implies t[a] != t[b] by {
                assert(t[a] == s[a] && t[b] == s[b]);
            }
        }
        lemma_nonempty_of(m, t);
        let r = nonempty_of(m, t);
        assert(!t.contains(x)) by {
            if t.contains(x) {
                let j = choose|j: int| 0 <= j < t.len() && t[j] == x;
                assert(s[j] == s[s.len() - 1]);
            }
        }
        assert forall|c: u128| s.contains(c) <==> t.contains(c) || c == x by {
            if s.contains(c) && c != x {
                let j = choose|j: int| 0 <= j < s.len() && s[j] == c;
                assert(t[j] == c);
            }
            if t.contains(c) {
                let j = choose|j: int| 0 <= j < t.len() && t[j] == c;
                assert(s[j] == c);
            }
            if c == x {
                assert(s[s.len() - 1] == c);
            }
        }
        if nonempty_chain(m, x) {
            let u = r.push(x);
            assert forall|c: u128| u.contains(c) <==> r.contains(c) || c == x by {
                if u.contains(c) && c != x {
                    let j = choose|j: int| 0 <= j < u.len() && u[j] == c;
                    assert(r[j] == c);
                }
                if r.contains(c) {
                    let j = choose|j: int| 0 <= j < r.len() && r[j] == c;
                    assert(u[j] == c);
                }
                if c == x {
                    assert(u[r.len() as int] == c);
                }
            }
            assert forall|a: int, b: int| 0 <= a < u.len() && 0 <= b < u.len() && a != b implies u[a] != u[b] by {
                if a == r.len() {
                    assert(r.contains(u[b]));
                } else if b == r.len() {
                    assert(r.contains(u[a]));
                }
            }
        }
    }
}

/// An order with every occurrence of an id taken out.
pub open spec fn without(s: Seq<u128>, id: u128) -> Seq<u128> {
    s.filter(|x: u128| x != id)
}

/// A channel whose stored effect order has at least one id.
pub open spec fn nonempty_chain(m: Map<u128, Vec<u128>>, c: u128) -> bool {
    m.contains_key(c) && m[c]@.len() > 0
}

/// Some effect of the sequence has this id.
pub open spec fn id_seen(s: Seq<EffectView>, id: u128) -> bool {
    exists|j: int| 0 <= j < s.len() && (#[trigger] s[j]).id == id
}

/// The effects with every repeat of an id after its first occurrence left out.
pub open spec fn dedupe_spec(s: Seq<EffectView>) -> Seq<EffectView>
    decreases s.len(),
{
    if s.len() == 0 {
        Seq::empty()
    } else {
        let r = dedupe_spec(s.drop_last());
        if id_seen(s.drop_last(), s.last().id) {
            r
        } else {
            r.push(s.last())
        }
    }
}

/// No two effects of the sequence share an id.
pub open spec fn ids_unique(s: Seq<EffectView>) -> bool {
    forall|a: int, b: int| 0 <= a < b < s.len() ==> (#[trigger] s[a]).id != (#[trigger] s[b]).id
}

proof fn lemma_dedupe(s: Seq<EffectView>)
    ensures
        ids_unique(dedupe_spec(s)),
        forall|id: u128| id_seen(dedupe_spec(s), id) <==> id_seen(s, id),
    decreases s.len(),
{
    if s.len() > 0 {
        let t = s.drop_last();
        let x = s.last();
        lemma_dedupe(t);
        let r = dedupe_spec(t);
        assert forall|id: u128| id_seen(s, id) <==> id_seen(t, id) || x.id == id by {
            if id_seen(s, id) {
                let j = choose|j: int| 0 <= j < s.len() && (#[trigger] s[j]).id == id;
                if j < t.len() {
                    assert(t[j] == s[j]);
                }
            }
            if id_seen(t, id) {
                let j = choose|j: int| 0 <= j < t.len() && (#[trigger] t[j]).id == id;
                assert(s[j] == t[j]);
            }
            if x.id == id {
                assert(s[s.len() - 1] == x);
            }
        }
        if !id_seen(t, x.id) {
            let u = r.push(x);
            assert forall|id: u128| id_seen(u, id) <==> id_seen(r, id) || x.id == id by {
                if id_seen(u, id) {
                    let j = choose|j: int| 0 <= j < u.len() && (#[trigger] u[j]).id == id;
                    if j < r.len() {
                        assert(r[j] == u[j]);
                    }
                }
                if id_seen(r, id) {
                    let j = choose|j: int| 0 <= j < r.len() && (#[trigger] r[j]).id == id;
                    assert(u[j] == r[j]);
                }
                if x.id == id {
                    assert(u[r.len() as int] == x);
                }
            }
            assert forall|a: int, b: int| 0 <= a < b < u.len() implies (#[trigger] u[a]).id != (#[trigger] u[b]).id by {
                if b == r.len() {
                    assert(u[a] == r[a]);
                    if u[a].id == x.id {
                        assert(id_seen(r, x.id));
                    }
                } else {
                    assert(u[a] == r[a] && u[b] == r[b]);
                }
            }
        }
    }
}

fn seen_in(out: &Vec<Effect>, id: u128) -> (r: bool)
    ensures
        r == id_seen(out@.map_values(|e: Effect| e@), id),
{
    let ghost v = out@.map_values(|e: Effect| e@);
    let mut i: usize = 0;
    while i < out.len()
        invariant
            i <= out@.len(),
            v == out@.map_values(|e: Effect| e@),
            forall|j: int| 0 <= j < i ==> (#[trigger] v[j]).id != id,
        decreases out@.len() - i,
    {
        if out[i].id == id {
            assert(v[i as int].id == id);
            return true;
        }
        i = i + 1;
    }
    false
}

/// The effects in order, keeping only the first effect of each id.
pub fn dedupe_by_id(effects: &Vec<Effect>) -> (r: Vec<Effect>)
    ensures
        r@.map_values(|e: Effect| e@) == dedupe_spec(effects@.map_values(|e: Effect| e@)),
{
    let ghost s = effects@.map_values(|e: Effect| e@);
    let mut out: Vec<Effect> = Vec::new();
    let mut i: usize = 0;
    while i < effects.len()
        invariant
            i <= effects@.len(),
            s == effects@.map_values(|e: Effect| e@),
            out@.map_values(|e: Effect| e@) == dedupe_spec(s.take(i as int)),
        decreases effects@.len() - i,
    {
        let ghost before = out@;
        let ghost t = s.take(i as int + 1);
        assert(t.drop_last() =~= s.take(i as int));
        assert(t.last() == effects@[i as int]@);
        proof {
            lemma_dedupe(s.take(i as int));
        }
        if !seen_in(&out, effects[i].id) {
            out.push(effects[i].duplicate());
            assert(out@.map_values(|e: Effect| e@) =~= before.map_values(|e: Effect| e@).push(effects@[i as int]@));
        }
        i = i + 1;
    }
    assert(s.take(effects@.len() as int) =~= s);
    out
}

/// Taking an id out of an order that lacks it changes nothing.
proof fn lemma_without_absent(s: Seq<u128>, x: u128)
    requires
        !s.contains(x),
    ensures
        without(s, x) == s,
    decreases s.len(),
{
    reveal(Seq::filter);
    if s.len() > 0 {
        assert(!s.drop_last().contains(x)) by {
            if s.drop_last().contains(x) {
                let j = choose|j: int| 0 <= j < s.drop_last().len() && s.drop_last()[j] == x;
                assert(s[j] == x);
            }
        }
        lemma_without_absent(s.drop_last(), x);
        assert(s[s.len() - 1] != x);
        assert(s.drop_last().push(s.last()) =~= s);
    }
}

/// Attaching an effect that a channel did not have and then detaching it
/// leaves the channel's order and the stored effects as they were.
pub proof fn law_attach_then_detach(v: ChainStateView, c: u128, e: EffectView)
    requires
        !v.chain_of(c).contains(e.id),
        !v.effects.contains_key(SlotKey { channel: c, effect: e.id }),
    ensures
        v.attached(c, e).detached(c, e.id).chain_of(c) == v.chain_of(c),
        v.attached(c, e).detached(c, e.id).effects == v.effects,
{
    let s = v.chain_of(c);
    reveal(Seq::filter);
    assert(s.push(e.id).drop_last() =~= s);
    lemma_without_absent(s, e.id);
    assert(without(s.push(e.id), e.id) == without(s, e.id));
    assert(v.attached(c, e).detached(c, e.id).effects =~= v.effects);
}

/// Attaching never repeats an id in a channel's order.
pub proof fn law_attach_keeps_order_distinct(v: ChainStateView, c: u128, e: EffectView)
    requires
        v.chain_of(c).no_duplicates(),
    ensures
        v.attached(c, e).chain_of(c).no_duplicates(),
        v.attached(c, e).chain_of(c).contains(e.id),
{
    let s = v.chain_of(c);
    if !s.contains(e.id) {
        let u = s.push(e.id);
        assert forall|a: int, b: int| 0 <= a < u.len() && 0 <= b < u.len() && a != b implies u[a] != u[b] by {
            if a == s.len() {
                assert(u[b] == s[b]);
            } else if b == s.len() {
                assert(u[a] == s[a]);
            } else {
                assert(u[a] == s[a] && u[b] == s[b]);
            }
        }
        assert(u[s.len() as int] == e.id);
    }
}

/// Attaching or detaching in one channel leaves every other channel's order alone.
pub proof fn law_chain_ops_are_local(v: ChainStateView, c: u128, d: u128, e: EffectView, id: u128)
    requires
        c != d,
    ensures
        v.attached(c, e).chain_of(d) == v.chain_of(d),
        v.detached(c, id).chain_of(d) == v.chain_of(d),
{
}

/// Keeping the first effect of each id leaves no id twice and loses no id.
pub proof fn law_dedupe(s: Seq<EffectView>)
    ensures
        ids_unique(dedupe_spec(s)),
        forall|id: u128| id_seen(dedupe_spec(s), id) <==> id_seen(s, id),
{
    lemma_dedupe(s);
}

/// What the plugin attaches to a channel (its effects in chain order and
/// its chain bypass flag) is what it restores for that channel from the
/// host's channel data: the same effects and flag, the other switches at
/// their defaults. A channel whose chain is empty is not restored.
pub proof fn law_attached_data_restores_chain(v: ChainStateView, c: u128, d: ChannelEffectsData)
    requires
        d.effects@.map_values(|e: Effect| e@) == v.persisted_channel(c).effects,
        d.chain_bypassed == v.bypass_of(c),
    ensures
        v.persisted_channel(c).effects.len() > 0 ==> {
            let m = attached_records(seq![(c, d)]);
            &&& m.contains_key(c)
            &&& m[c].effects == v.persisted_channel(c).effects
            &&& m[c].bypassed == v.bypass_of(c)
            &&& !m[c].lowcut && !m[c].clipguard && m[c].input_gain == UNITY_GAIN_BITS
        },
        v.persisted_channel(c).effects.len() == 0 ==> !attached_records(seq![(c, d)]).contains_key(c),
{
    let one = seq![(c, d)];
    assert(one.drop_last() =~= Seq::<(u128, ChannelEffectsData)>::empty());
    assert(attached_records(Seq::<(u128, ChannelEffectsData)>::empty()) == Map::<u128, PersistedChannelView>::empty());
    assert(one.last() == (c, d));
    assert(d.effects@.len() == v.persisted_channel(c).effects.len());
}

} // verus!
