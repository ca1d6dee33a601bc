//! The plugin catalog: what a discovered plugin is, how plugins are grouped
//! and which ones the rack recommends.
use vstd::prelude::*;
use vstd::string::*;
use crate::chains::{Effect, EffectView, Format};
use crate::text::{contains_seq, contains_str, str_is};

verus! {

/// A plugin that a scan found.
#[derive(Debug, Clone, PartialEq, Eq)]
pub struct PluginInfo {
    pub format: Format,
    pub uri: String,
    pub name: String,
    pub vendor: String,
    pub category: String,
    pub audio_inputs: u32,
    pub audio_outputs: u32,
    pub has_custom_ui: bool,
}

/// The coarse groups the catalog is shown in.
#[derive(Debug, Clone, Copy, PartialEq, Eq, Structural)]
pub enum Category {
    Eq,
    Dynamics,
    Reverb,
    Modulation,
    Utility,
    Other,
}

/// The code of a char with ASCII capitals made small.
pub open spec fn lower_code(c: char) -> u32 {
    if 'A' <= c && c <= 'Z' {
        ((c as u32) + 32) as u32
    } else {
        c as u32
    }
}

/// The codes of a text with its ASCII capitals made small.
pub open spec fn lowered(s: Seq<char>) -> Seq<u32> {
    Seq::new(s.len(), |i: int| lower_code(s[i]))
}

/// The codes of a text.
pub open spec fn codes(s: Seq<char>) -> Seq<u32> {
    Seq::new(s.len(), |i: int| s[i] as u32)
}

/// Whether `h` holds `n` as a contiguous run.
pub open spec fn holds(h: Seq<u32>, n: Seq<u32>) -> bool {
    exists|i: int| 0 <= i && i + n.len() <= h.len() && #[trigger] h.subrange(i, i + n.len()) == n
}

fn lower_code_of(c: char) -> (r: u32)
    ensures
        r == lower_code(c),
{
    if 'A' <= c && c <= 'Z' {
        (c as u32) + 32
    } else {
        c as u32
    }
}

/// Whether `hay`, with its ASCII capitals made small, holds `needle`.
pub fn contains_lowered(hay: &str, needle: &str) -> (r: bool)
    ensures
        r == holds(lowered(hay@), codes(needle@)),
{
    let n = hay.unicode_len();
    let m = needle.unicode_len();
    let ghost h = lowered(hay@);
    let ghost nd = codes(needle@);
    if m > n {
        proof {
            assert forall|i: int| 0 <= i && i + m <= n implies #[trigger] h.subrange(i, i + m) != nd by {}
        }
        return false;
    }
    if m == 0 {
        proof {
            let z: int = 0;
            assert(h.subrange(z, z + nd.len()) =~= nd);
        }
        return true;
    }
    let mut i: usize = 0;
    while i <= n - m
        invariant
            n == hay@.len(),
            m == needle@.len(),
            h == lowered(hay@),
            nd == codes(needle@),
            0 < m <= n,
            i <= n - m + 1,
            forall|j: int| 0 <= j < i ==> #[trigger] h.subrange(j, j + m) != nd,
        decreases n - m + 1 - i,
    {
        let mut k: usize = 0;
        let mut same = true;
        while k < m
            invariant
                n == hay@.len(),
                m == needle@.len(),
                h == lowered(hay@),
                nd == codes(needle@),
                i + m <= n,
                k <= m,
                same == forall|q: int| 0 <= q < k ==> h[i + q] == nd[q],
            decreases m - k,
        {
            let a = lower_code_of(hay.get_char(i + k));
            let b = needle.get_char(k) as u32;
            assert(h[i + k] == a);
            assert(nd[k as int] == b);
            let ghost was = same;
            if a != b {
                same = false;
            }
            proof {
                if !was {
                    let q = choose|q: int| 0 <= q < k && h[i + q] != nd[q];
                    assert(0 <= q < k + 1 && h[i + q] != nd[q]);
                }
            }
            k = k + 1;
        }
        if same {
            proof {
                let z: int = i as int;
                assert(h.subrange(z, z + nd.len()) =~= nd);
            }
            return true;
        }
        proof {
            assert(h.subrange(i as int, i as int + m) != nd) by {
                let q = choose|q: int| 0 <= q < m && h[i + q] != nd[q];
                assert(h.subrange(i as int, i as int + m)[q] == h[i + q]);
            }
        }
        i = i + 1;
    }
    proof {
        assert forall|j: int| 0 <= j && j + m <= n implies #[trigger] h.subrange(j, j + m) != nd by {
            assert(j < i);
        }
    }
    false
}

/// Whether the two texts are equal once ASCII capitals are made small.
pub fn eq_ignore_ascii_case(a: &str, b: &str) -> (r: bool)
    ensures
        r == (lowered(a@) == lowered(b@)),
{
    let n = a.unicode_len();
    if n != b.unicode_len() {
        proof {
            assert(lowered(a@).len() != lowered(b@).len());
        }
        return false;
    }
    let mut i: usize = 0;
    while i < n
        invariant
            n == a@.len(),
            n == b@.len(),
            i <= n,
            forall|q: int| 0 <= q < i ==> lower_code(a@[q]) == lower_code(b@[q]),
        decreases n - i,
    {
        if lower_code_of(a.get_char(i)) != lower_code_of(b.get_char(i)) {
            proof {
                assert(lowered(a@)[i as int] != lowered(b@)[i as int]);
            }
            return false;
        }
        i = i + 1;
    }
    proof {
        assert(lowered(a@) =~= lowered(b@));
    }
    true
}

/// The group of a plugin class text, by words it holds in any ASCII case.
pub open spec fn categorize_spec(class: Seq<char>) -> Category {
    let c = lowered(class);
    if holds(c, codes("eq"@)) || holds(c, codes("equal"@)) {
        Category::Eq
    } else if holds(c, codes("compress"@)) || holds(c, codes("dynamic"@)) || holds(c, codes("gate"@))
        || holds(c, codes("limit"@)) || holds(c, codes("expander"@)) {
        Category::Dynamics
    } else if holds(c, codes("reverb"@)) {
        Category::Reverb
    } else if holds(c, codes("delay"@)) || holds(c, codes("chorus"@)) || holds(c, codes("flange"@))
        || holds(c, codes("phaser"@)) || holds(c, codes("modulator"@)) {
        Category::Modulation
    } else if holds(c, codes("util"@)) || holds(c, codes("amplif"@)) || holds(c, codes("filter"@))
        || holds(c, codes("spectrum"@)) || holds(c, codes("analys"@)) {
        Category::Utility
    } else {
        Category::Other
    }
}

/// Maps a plugin class text to the group it is listed under.
pub fn categorize(class: &str) -> (r: Category)
    ensures
        r == categorize_spec(class@),
{
    if contains_lowered(class, "eq") || contains_lowered(class, "equal") {
        Category::Eq
    } else if contains_lowered(class, "compress") || contains_lowered(class, "dynamic")
        || contains_lowered(class, "gate") || contains_lowered(class, "limit")
        || contains_lowered(class, "expander") {
        Category::Dynamics
    } else if contains_lowered(class, "reverb") {
        Category::Reverb
    } else if contains_lowered(class, "delay") || contains_lowered(class, "chorus")
        || contains_lowered(class, "flange") || contains_lowered(class, "phaser")
        || contains_lowered(class, "modulator") {
        Category::Modulation
    } else if contains_lowered(class, "util") || contains_lowered(class, "amplif")
        || contains_lowered(class, "filter") || contains_lowered(class, "spectrum")
        || contains_lowered(class, "analys") {
        Category::Utility
    } else {
        Category::Other
    }
}

/// The group of a category word as the plugin scanner reports it.
pub open spec fn parse_category_spec(raw: Seq<char>) -> Category {
    if raw == "eq"@ || raw == "filter"@ {
        Category::Eq
    } else if raw == "dynamics"@ || raw == "compressor"@ || raw == "expander"@ || raw == "gate"@
        || raw == "limiter"@ {
        Category::Dynamics
    } else if raw == "reverb"@ || raw == "delay"@ {
        Category::Reverb
    } else if raw == "modulator"@ || raw == "chorus"@ || raw == "flanger"@ || raw == "phaser"@ {
        Category::Modulation
    } else if raw == "utility"@ {
        Category::Utility
    } else {
        Category::Other
    }
}

pub fn parse_category(raw: &str) -> (r: Category)
    ensures
        r == parse_category_spec(raw@),
{
    if str_is(raw, "eq") || str_is(raw, "filter") {
        Category::Eq
    } else if str_is(raw, "dynamics") || str_is(raw, "compressor") || str_is(raw, "expander")
        || str_is(raw, "gate") || str_is(raw, "limiter") {
        Category::Dynamics
    } else if str_is(raw, "reverb") || str_is(raw, "delay") {
        Category::Reverb
    } else if str_is(raw, "modulator") || str_is(raw, "chorus") || str_is(raw, "flanger")
        || str_is(raw, "phaser") {
        Category::Modulation
    } else if str_is(raw, "utility") {
        Category::Utility
    } else {
        Category::Other
    }
}

pub open spec fn category_label_spec(c: Category) -> Seq<char> {
    match c {
        Category::Eq => "EQ"@,
        Category::Dynamics => "Dynamics"@,
        Category::Reverb => "Reverb"@,
        Category::Modulation => "Modulation"@,
        Category::Utility => "Utility"@,
        Category::Other => "Other"@,
    }
}

/// The heading a group is shown under.
pub fn category_label(c: Category) -> (r: &'static str)
    ensures
        r@ == category_label_spec(c),
{
    match c {
        Category::Eq => "EQ",
        Category::Dynamics => "Dynamics",
        Category::Reverb => "Reverb",
        Category::Modulation => "Modulation",
        Category::Utility => "Utility",
        Category::Other => "Other",
    }
}

pub open spec fn category_key_spec(c: Category) -> Seq<char> {
    match c {
        Category::Eq => "eq"@,
        Category::Dynamics => "dynamics"@,
        Category::Reverb => "reverb"@,
        Category::Modulation => "modulation"@,
        Category::Utility => "utility"@,
        Category::Other => "other"@,
    }
}

/// The lowercase key a group is sent under.
pub fn category_key(c: Category) -> (r: &'static str)
    ensures
        r@ == category_key_spec(c),
{
    match c {
        Category::Eq => "eq",
        Category::Dynamics => "dynamics",
        Category::Reverb => "reverb",
        Category::Modulation => "modulation",
        Category::Utility => "utility",
        Category::Other => "other",
    }
}

pub open spec fn format_label_spec(f: Format) -> Seq<char> {
    match f {
        Format::Lv2 => "LV2"@,
        Format::Vst3 => "VST3"@,
        Format::Vst2 => "VST2"@,
    }
}

/// The name a plugin format is shown under.
pub fn format_label(f: Format) -> (r: &'static str)
    ensures
        r@ == format_label_spec(f),
{
    match f {
        Format::Lv2 => "LV2",
        Format::Vst3 => "VST3",
        Format::Vst2 => "VST2",
    }
}

/// The version of the meaning of a cached scan; older caches are stale.
pub const CACHE_SCHEMA_VERSION: u32 = 2u32;

/// A scan of the installed plugins, with what the plugin folders looked
/// like when it was taken.
#[derive(Debug, Clone, Default, PartialEq, Eq)]
pub struct PluginScanCache {
    pub schema_version: u32,
    pub scanned_at: u64,
    pub source_mtime_max: u64,
    pub source_entry_count: u64,
    /// The change time of each plugin folder, in search order (`None` where
    /// the folder could not be read).
    pub source_mtimes: Vec<Option<u64>>,
    pub plugins: Vec<PluginInfo>,
}

/// Whether some folder's change time could be read.
pub open spec fn some_known(ts: Seq<Option<u64>>) -> bool {
    exists|i: int| 0 <= i < ts.len() && (#[trigger] ts[i]) is Some
}

/// A cached scan is fresh when it is of the current schema, some plugin
/// folder exists now, every folder's change time is the one stored with the
/// scan, and the folders hold as many entries as then.
pub open spec fn cache_fresh_spec(
    schema_version: u32,
    stored_mtimes: Seq<Option<u64>>,
    stored_count: u64,
    current_mtimes: Seq<Option<u64>>,
    current_count: u64,
) -> bool {
    &&& schema_version == CACHE_SCHEMA_VERSION
    &&& some_known(current_mtimes)
    &&& stored_mtimes == current_mtimes
    &&& stored_count == current_count
}

/// A cached scan goes stale when any plugin folder's change time differs
/// from the one stored with it, or when the number of entries changed.
pub proof fn law_cache_stale_on_any_change(
    schema_version: u32,
    stored_mtimes: Seq<Option<u64>>,
    stored_count: u64,
    current_mtimes: Seq<Option<u64>>,
    current_count: u64,
    folder: int,
)
    requires
        0 <= folder < current_mtimes.len(),
        folder >= stored_mtimes.len() || stored_mtimes[folder] != current_mtimes[folder] || stored_count
            != current_count,
    ensures
        !cache_fresh_spec(schema_version, stored_mtimes, stored_count, current_mtimes, current_count),
{
}

/// Whether two lists of change times are equal, folder by folder.
fn same_mtimes(a: &Vec<Option<u64>>, b: &Vec<Option<u64>>) -> (r: bool)
    ensures
        r == (a@ == b@),
{
    if a.len() != b.len() {
        return false;
    }
    let mut i: usize = 0;
    while i < a.len()
        invariant
            a@.len() == b@.len(),
            i <= a@.len(),
            forall|k: int| 0 <= k < i ==> a@[k] == b@[k],
        decreases a.len() - i,
    {
        let same = match (a[i], b[i]) {
            (Some(x), Some(y)) => x == y,
            (None, None) => true,
            _ => false,
        };
        if !same {
            return false;
        }
        i = i + 1;
    }
    assert(a@ =~= b@);
    true
}

/// Whether some folder's change time could be read.
fn any_known(ts: &Vec<Option<u64>>) -> (r: bool)
    ensures
        r == some_known(ts@),
{
    let mut i: usize = 0;
    while i < ts.len()
        invariant
            i <= ts@.len(),
            forall|k: int| 0 <= k < i ==> ts@[k] is None,
        decreases ts.len() - i,
    {
        if ts[i].is_some() {
            return true;
        }
        i = i + 1;
    }
    false
}

/// Whether a cached scan can be used: it is of the current schema, some
/// plugin folder exists, no folder's change time differs from the one
/// stored with the scan, and the number of entries in the folders is
/// unchanged.
pub fn cache_is_fresh(cache: &PluginScanCache, current_mtimes: &Vec<Option<u64>>, current_count: u64) -> (r: bool)
    ensures
        r == cache_fresh_spec(
            cache.schema_version,
            cache.source_mtimes@,
            cache.source_entry_count,
            current_mtimes@,
            current_count,
        ),
{
    cache.schema_version == CACHE_SCHEMA_VERSION && any_known(current_mtimes) && same_mtimes(
        &cache.source_mtimes,
        current_mtimes,
    ) && cache.source_entry_count == current_count
}

/// The largest of the known change times, or zero where none is known.
pub open spec fn max_known(ts: Seq<Option<u64>>) -> u64
    decreases ts.len(),
{
    if ts.len() == 0 {
        0
    } else {
        let m = max_known(ts.drop_last());
        match ts.last() {
            Some(t) => if t > m { t } else { m },
            None => m,
        }
    }
}

/// The newest change time among the plugin folders that could be read.
pub fn max_source_mtime(mtimes: &[Option<u64>]) -> (r: u64)
    ensures
        r == max_known(mtimes@),
{
    let mut m: u64 = 0;
    let mut i: usize = 0;
    while i < mtimes.len()
        invariant
            i <= mtimes@.len(),
            m == max_known(mtimes@.take(i as int)),
        decreases mtimes@.len() - i,
    {
        assert(mtimes@.take(i as int + 1).drop_last() =~= mtimes@.take(i as int));
        match mtimes[i] {
            Some(t) => {
                if t > m {
                    m = t;
                }
            },
            None => {},
        }
        i = i + 1;
    }
    assert(mtimes@.take(mtimes@.len() as int) =~= mtimes@);
    m
}

/// The audio drivers tried first, in order of preference.
pub open spec fn preferred_drivers() -> Seq<Seq<char>> {
    seq!["Dummy"@, "JACK"@, "PulseAudio"@]
}

/// The first driver of `available` that matches `p` ignoring ASCII case.
pub open spec fn first_match(available: Seq<String>, p: Seq<char>, k: nat) -> Option<nat>
    decreases available.len() - k,
{
    if k >= available.len() {
        None
    } else if lowered(available[k as int]@) == lowered(p) {
        Some(k)
    } else {
        first_match(available, p, k + 1)
    }
}

/// The driver to start the engine with: the first available match of the
/// first preferred driver that has one, else the first available driver.
pub open spec fn select_driver_spec(available: Seq<String>) -> Option<nat> {
    let prefs = preferred_drivers();
    if first_match(available, prefs[0], 0) is Some {
        first_match(available, prefs[0], 0)
    } else if first_match(available, prefs[1], 0) is Some {
        first_match(available, prefs[1], 0)
    } else if first_match(available, prefs[2], 0) is Some {
        first_match(available, prefs[2], 0)
    } else if available.len() > 0 {
        Some(0)
    } else {
        None
    }
}

fn find_driver(available: &[String], p: &str) -> (r: Option<usize>)
    ensures
        match r {
            Some(i) => first_match(available@, p@, 0) == Some(i as nat) && i < available@.len(),
            None => first_match(available@, p@, 0).is_none(),
        },
{
    let mut i: usize = 0;
    while i < available.len()
        invariant
            i <= available@.len(),
            first_match(available@, p@, 0) == first_match(available@, p@, i as nat),
        decreases available@.len() - i,
    {
        if eq_ignore_ascii_case(available[i].as_str(), p) {
            return Some(i);
        }
        i = i + 1;
    }
    None
}

/// Picks the audio driver, as a copy of the available driver's name.
pub fn select_driver(available: &[String]) -> (r: Option<String>)
    ensures
        match select_driver_spec(available@) {
            Some(i) => r is Some && r.unwrap() == available@[i as int],
            None => r is None,
        },
{
    let ghost prefs = preferred_drivers();
    let pick = match find_driver(available, "Dummy") {
        Some(i) => Some(i),
        None => match find_driver(available, "JACK") {
            Some(i) => Some(i),
            None => match find_driver(available, "PulseAudio") {
                Some(i) => Some(i),
                None => if available.len() > 0 { Some(0) } else { None },
            },
        },
    };
    match pick {
        Some(i) => Some(available[i].clone()),
        None => None,
    }
}

/// An effect for a catalog plugin: the plugin's format and URI, named
/// after the plugin, active and without saved state.
pub fn effect_from_info(id: u128, info: &PluginInfo) -> (e: Effect)
    ensures
        e@ == (EffectView {
            id,
            format: info.format,
            uri: info.uri@,
            display_name: info.name@,
            bypassed: false,
            state_b64: None,
        }),
{
    Effect {
        id,
        format: info.format,
        uri: info.uri.clone(),
        display_name: info.name.clone(),
        bypassed: false,
        state_b64: None,
    }
}

/// The position of the first catalog plugin with this URI.
pub open spec fn find_uri_spec(plugins: Seq<PluginInfo>, uri: Seq<char>, k: nat) -> Option<nat>
    decreases plugins.len() - k,
{
    if k >= plugins.len() {
        None
    } else if plugins[k as int].uri@ == uri {
        Some(k)
    } else {
        find_uri_spec(plugins, uri, k + 1)
    }
}

pub fn find_plugin_by_uri(plugins: &[PluginInfo], uri: &str) -> (r: Option<usize>)
    ensures
        match r {
            Some(i) => find_uri_spec(plugins@, uri@, 0) == Some(i as nat) && i < plugins@.len(),
            None => find_uri_spec(plugins@, uri@, 0).is_none(),
        },
{
    let mut i: usize = 0;
    while i < plugins.len()
        invariant
            i <= plugins@.len(),
            find_uri_spec(plugins@, uri@, 0) == find_uri_spec(plugins@, uri@, i as nat),
        decreases plugins@.len() - i,
    {
        if str_is(plugins[i].uri.as_str(), uri) {
            return Some(i);
        }
        i = i + 1;
    }
    None
}

/// The URI or name fragments of the plugins the rack recommends, for mono
/// channels (microphones) or for stereo ones.
pub open spec fn needles_spec(mono: bool) -> Seq<Seq<char>> {
    if mono {
        seq![
            "werman/noise-suppression-for-voice#mono"@,
            "para_equalizer_x16_mono"@,
            "Fil4Mono"@,
            "sc_compressor_mono"@,
            "compressor_mono"@,
            "expander_mono"@,
            "gate_mono"@,
            "limiter_mono"@,
            "calf.sourceforge.net/plugins/Compressor"@,
            "calf.sourceforge.net/plugins/Gate"@,
            "calf.sourceforge.net/plugins/Deesser"@,
            "calf.sourceforge.net/plugins/Limiter"@,
        ]
    } else {
        seq![
            "werman/noise-suppression-for-voice#stereo"@,
            "para_equalizer_x16_stereo"@,
            "Equalizer8Band"@,
            "Fil4Stereo"@,
            "sc_compressor_stereo"@,
            "compressor_stereo"@,
            "darc"@,
            "calf.sourceforge.net/plugins/Compressor"@,
            "calf.sourceforge.net/plugins/Gate"@,
            "calf.sourceforge.net/plugins/Limiter"@,
            "calf.sourceforge.net/plugins/Deesser"@,
            "calf.sourceforge.net/plugins/ReverbIR"@,
            "calf.sourceforge.net/plugins/Reverb"@,
            "room_builder_stereo"@,
            "calf.sourceforge.net/plugins/Phaser"@,
            "calf.sourceforge.net/plugins/Chorus"@,
            "calf.sourceforge.net/plugins/MultiChorus"@,
            "balance"@,
        ]
    }
}

/// The recommended plugins' URI or name fragments, in order of preference.
pub fn recommended_uri_needles(channel_mono: bool) -> (r: Vec<&'static str>)
    ensures
        r@.map_values(|s: &'static str| s@) == needles_spec(channel_mono),
{
    let r: Vec<&'static str> = if channel_mono {
        vec![
            "werman/noise-suppression-for-voice#mono",
            "para_equalizer_x16_mono",
            "Fil4Mono",
            "sc_compressor_mono",
            "compressor_mono",
            "expander_mono",
            "gate_mono",
            "limiter_mono",
            "calf.sourceforge.net/plugins/Compressor",
            "calf.sourceforge.net/plugins/Gate",
            "calf.sourceforge.net/plugins/Deesser",
            "calf.sourceforge.net/plugins/Limiter",
        ]
    } else {
        vec![
            "werman/noise-suppression-for-voice#stereo",
            "para_equalizer_x16_stereo",
            "Equalizer8Band",
            "Fil4Stereo",
            "sc_compressor_stereo",
            "compressor_stereo",
            "darc",
            "calf.sourceforge.net/plugins/Compressor",
            "calf.sourceforge.net/plugins/Gate",
            "calf.sourceforge.net/plugins/Limiter",
            "calf.sourceforge.net/plugins/Deesser",
            "calf.sourceforge.net/plugins/ReverbIR",
            "calf.sourceforge.net/plugins/Reverb",
            "room_builder_stereo",
            "calf.sourceforge.net/plugins/Phaser",
            "calf.sourceforge.net/plugins/Chorus",
            "calf.sourceforge.net/plugins/MultiChorus",
            "balance",
        ]
    };
    assert(r@.map_values(|s: &'static str| s@) =~= needles_spec(channel_mono));
    r
}

/// The channel-count suffix of the LSP variants that a channel should not
/// be offered.
pub open spec fn opposite_suffix(mono: bool) -> Seq<char> {
    if mono {
        "_stereo"@
    } else {
        "_mono"@
    }
}

/// A plugin fits a fragment when its URI or name holds it and its URI is
/// not of the other channel count.
pub open spec fn fits(p: PluginInfo, needle: Seq<char>, opp: Seq<char>) -> bool {
    (contains_seq(p.uri@, needle) || contains_seq(p.name@, needle)) && !contains_seq(p.uri@, opp)
}

/// Whether some already chosen plugin has this URI.
pub open spec fn uri_chosen(plugins: Seq<PluginInfo>, chosen: Seq<nat>, uri: Seq<char>) -> bool {
    exists|q: int| 0 <= q < chosen.len() && plugins[chosen[q] as int].uri@ == uri
}

/// The first plugin at or after `k` that fits and whose URI is not chosen yet.
pub open spec fn first_fit(plugins: Seq<PluginInfo>, needle: Seq<char>, opp: Seq<char>, chosen: Seq<nat>, k: nat) -> Option<nat>
    decreases plugins.len() - k,
{
    if k >= plugins.len() {
        None
    } else if fits(plugins[k as int], needle, opp) && !uri_chosen(plugins, chosen, plugins[k as int].uri@) {
        Some(k)
    } else {
        first_fit(plugins, needle, opp, chosen, k + 1)
    }
}

pub proof fn lemma_first_fit_bound(plugins: Seq<PluginInfo>, needle: Seq<char>, opp: Seq<char>, chosen: Seq<nat>, k: nat)
    ensures
        match first_fit(plugins, needle, opp, chosen, k) {
            Some(j) => k <= j < plugins.len(),
            None => true,
        },
    decreases plugins.len() - k,
{
    if k < plugins.len() && !(fits(plugins[k as int], needle, opp) && !uri_chosen(plugins, chosen, plugins[k as int].uri@)) {
        lemma_first_fit_bound(plugins, needle, opp, chosen, k + 1);
    }
}

/// The positions of the recommended plugins: for each fragment in turn,
/// the first plugin that fits it and is not recommended already.
pub open spec fn recommend_spec(plugins: Seq<PluginInfo>, needles: Seq<Seq<char>>, opp: Seq<char>) -> Seq<nat>
    decreases needles.len(),
{
    if needles.len() == 0 {
        Seq::empty()
    } else {
        let r = recommend_spec(plugins, needles.drop_last(), opp);
        match first_fit(plugins, needles.last(), opp, r, 0) {
            Some(j) => r.push(j),
            None => r,
        }
    }
}

proof fn lemma_recommend_bounds(plugins: Seq<PluginInfo>, needles: Seq<Seq<char>>, opp: Seq<char>)
    ensures
        forall|q: int| 0 <= q < recommend_spec(plugins, needles, opp).len() ==> #[trigger] recommend_spec(plugins, needles, opp)[q] < plugins.len(),
    decreases needles.len(),
{
    if needles.len() > 0 {
        lemma_recommend_bounds(plugins, needles.drop_last(), opp);
        let r = recommend_spec(plugins, needles.drop_last(), opp);
        lemma_first_fit_bound(plugins, needles.last(), opp, r, 0);
    }
}

fn uri_taken(plugins: &[PluginInfo], out: &Vec<usize>, uri: &str) -> (r: bool)
    requires
        forall|q: int| 0 <= q < out@.len() ==> #[trigger] out@[q] < plugins@.len(),
    ensures
        r == uri_chosen(plugins@, out@.map_values(|x: usize| x as nat), uri@),
{
    let ghost chosen = out@.map_values(|x: usize| x as nat);
    let mut q: usize = 0;
    while q < out.len()
        invariant
            q <= out@.len(),
            chosen == out@.map_values(|x: usize| x as nat),
            forall|t: int| 0 <= t < out@.len() ==> #[trigger] out@[t] < plugins@.len(),
            forall|t: int| 0 <= t < q ==> plugins@[chosen[t] as int].uri@ != uri@,
        decreases out@.len() - q,
    {
        if str_is(plugins[out[q]].uri.as_str(), uri) {
            assert(plugins@[chosen[q as int] as int].uri@ == uri@);
            return true;
        }
        q = q + 1;
    }
    false
}

fn first_fit_of(plugins: &[PluginInfo], needle: &str, opp: &str, out: &Vec<usize>) -> (r: Option<usize>)
    requires
        forall|q: int| 0 <= q < out@.len() ==> #[trigger] out@[q] < plugins@.len(),
    ensures
        match r {
            Some(j) => first_fit(plugins@, needle@, opp@, out@.map_values(|x: usize| x as nat), 0) == Some(j as nat),
            None => first_fit(plugins@, needle@, opp@, out@.map_values(|x: usize| x as nat), 0).is_none(),
        },
{
    let ghost chosen = out@.map_values(|x: usize| x as nat);
    let mut j: usize = 0;
    while j < plugins.len()
        invariant
            j <= plugins@.len(),
            chosen == out@.map_values(|x: usize| x as nat),
            forall|q: int| 0 <= q < out@.len() ==> #[trigger] out@[q] < plugins@.len(),
            first_fit(plugins@, needle@, opp@, chosen, 0) == first_fit(plugins@, needle@, opp@, chosen, j as nat),
        decreases plugins@.len() - j,
    {
        let p = &plugins[j];
        let fit = (contains_str(p.uri.as_str(), needle) || contains_str(p.name.as_str(), needle))
            && !contains_str(p.uri.as_str(), opp);
        if fit && !uri_taken(plugins, out, p.uri.as_str()) {
            return Some(j);
        }
        j = j + 1;
    }
    None
}

/// The positions in `plugins` of the plugins the rack recommends to a mono
/// or stereo channel, in order of preference, each URI once.
pub fn collect_recommended(plugins: &[PluginInfo], channel_mono: bool) -> (r: Vec<usize>)
    ensures
        r@.map_values(|x: usize| x as nat) == recommend_spec(plugins@, needles_spec(channel_mono), opposite_suffix(channel_mono)),
        forall|q: int| 0 <= q < r@.len() ==> #[trigger] r@[q] < plugins@.len(),
{
    let needles = recommended_uri_needles(channel_mono);
    let opp: &str = if channel_mono { "_stereo" } else { "_mono" };
    let ghost ns = needles_spec(channel_mono);
    let mut out: Vec<usize> = Vec::new();
    let mut i: usize = 0;
    while i < needles.len()
        invariant
            ns == needles_spec(channel_mono),
            needles@.map_values(|s: &'static str| s@) == ns,
            opp@ == opposite_suffix(channel_mono),
            i <= needles@.len(),
            out@.map_values(|x: usize| x as nat) == recommend_spec(plugins@, ns.take(i as int), opp@),
            forall|q: int| 0 <= q < out@.len() ==> #[trigger] out@[q] < plugins@.len(),
        decreases needles@.len() - i,
    {
        let ghost before = out@;
        assert(ns.take(i as int + 1).drop_last() =~= ns.take(i as int));
        assert(ns.take(i as int + 1).last() == needles@[i as int]@);
        match first_fit_of(plugins, needles[i], opp, &out) {
            Some(j) => {
                proof {
                    lemma_first_fit_bound(plugins@, needles@[i as int]@, opp@, before.map_values(|x: usize| x as nat), 0);
                }
                out.push(j);
                assert(out@.map_values(|x: usize| x as nat) =~= before.map_values(|x: usize| x as nat).push(j as nat));
            },
            None => {},
        }
        i = i + 1;
    }
    assert(ns.take(needles@.len() as int) =~= ns);
    out
}

/// What `str::to_lowercase` makes of a text (full Unicode lowercasing).
pub uninterp spec fn unicode_lower(s: Seq<char>) -> Seq<char>;

/// Lowercases a text with `str::to_lowercase`.
#[verifier::external_body]
fn to_lowercase(s: &str) -> (r: String)
    ensures
        r@ == unicode_lower(s@),
{
    s.to_lowercase()
}

/// Whether a plugin's URI, name or vendor holds a fragment, both lowercased.
pub open spec fn mentions(p: PluginInfo, needle: Seq<char>) -> bool {
    let n = unicode_lower(needle);
    contains_seq(unicode_lower(p.uri@), n) || contains_seq(unicode_lower(p.name@), n)
        || contains_seq(unicode_lower(p.vendor@), n)
}

pub open spec fn installed_spec(plugins: Seq<PluginInfo>, needles: Seq<&str>) -> bool {
    exists|i: int, k: int| 0 <= i < plugins.len() && 0 <= k < needles.len() && #[trigger] mentions(plugins[i], needles[k]@)
}

/// Whether any installed plugin mentions any of the fragments, ignoring case.
pub fn collection_installed(plugins: &[PluginInfo], needles: &[&str]) -> (r: bool)
    ensures
        r == installed_spec(plugins@, needles@),
{
    let mut i: usize = 0;
    while i < plugins.len()
        invariant
            i <= plugins@.len(),
            forall|a: int, k: int| 0 <= a < i && 0 <= k < needles@.len() ==> !#[trigger] mentions(plugins@[a], needles@[k]@),
        decreases plugins@.len() - i,
    {
        let uri = to_lowercase(plugins[i].uri.as_str());
        let name = to_lowercase(plugins[i].name.as_str());
        let vendor = to_lowercase(plugins[i].vendor.as_str());
        let mut k: usize = 0;
        while k < needles.len()
            invariant
                i < plugins@.len(),
                k <= needles@.len(),
                uri@ == unicode_lower(plugins@[i as int].uri@),
                name@ == unicode_lower(plugins@[i as int].name@),
                vendor@ == unicode_lower(plugins@[i as int].vendor@),
                forall|a: int, q: int| 0 <= a < i && 0 <= q < needles@.len() ==> !#[trigger] mentions(plugins@[a], needles@[q]@),
                forall|q: int| 0 <= q < k ==> !#[trigger] mentions(plugins@[i as int], needles@[q]@),
            decreases needles@.len() - k,
        {
            let nl = to_lowercase(needles[k]);
            if contains_str(uri.as_str(), nl.as_str()) || contains_str(name.as_str(), nl.as_str())
                || contains_str(vendor.as_str(), nl.as_str()) {
                assert(mentions(plugins@[i as int], needles@[k as int]@));
                return true;
            }
            k = k + 1;
        }
        i = i + 1;
    }
    false
}

/// A plugin as the carla discovery tool reports it.
#[derive(Debug, Clone, PartialEq, Eq)]
pub struct DiscoveredPlugin {
    pub format: Format,
    pub uri: String,
    pub name: String,
    pub vendor: String,
    pub category: Category,
}

pub struct DiscoveredView {
    pub format: Format,
    pub uri: Seq<char>,
    pub name: Seq<char>,
    pub vendor: Seq<char>,
    pub category: Category,
}

impl View for DiscoveredPlugin {
    type V = DiscoveredView;

    open spec fn view(&self) -> DiscoveredView {
        DiscoveredView {
            format: self.format,
            uri: self.uri@,
            name: self.name@,
            vendor: self.vendor@,
            category: self.category,
        }
    }
}

/// The fields read so far for the plugin being reported, and the plugins
/// completed before it.
pub struct ScanState {
    pub uri: Seq<char>,
    pub name: Seq<char>,
    pub vendor: Seq<char>,
    pub category: Category,
    pub out: Seq<DiscoveredView>,
}

pub open spec fn fresh_scan(out: Seq<DiscoveredView>) -> ScanState {
    ScanState { uri: Seq::empty(), name: Seq::empty(), vendor: Seq::empty(), category: Category::Other, out }
}

/// One line of the tool's output: a `key::value` line sets a field; the end
/// marker completes a plugin that has a URI and a name and starts afresh.
pub open spec fn scan_line(st: ScanState, raw: Seq<char>, format: Format) -> ScanState {
    let l = crate::framing::trim(raw);
    match crate::text::strip_prefix(l, "carla-discovery::uri::"@) {
        Some(v) => ScanState { uri: v, ..st },
        None => match crate::text::strip_prefix(l, "carla-discovery::name::"@) {
            Some(v) => ScanState { name: v, ..st },
            None => match crate::text::strip_prefix(l, "carla-discovery::maker::"@) {
                Some(v) => ScanState { vendor: v, ..st },
                None => match crate::text::strip_prefix(l, "carla-discovery::category::"@) {
                    Some(v) => ScanState { category: parse_category_spec(v), ..st },
                    None => if l == "carla-discovery::end::------------"@ {
                        if st.uri.len() > 0 && st.name.len() > 0 {
                            fresh_scan(st.out.push(DiscoveredView {
                                format,
                                uri: st.uri,
                                name: st.name,
                                vendor: st.vendor,
                                category: st.category,
                            }))
                        } else {
                            fresh_scan(st.out)
                        }
                    } else {
                        st
                    },
                },
            },
        },
    }
}

pub open spec fn scan_lines(lines: Seq<Seq<char>>, format: Format) -> ScanState
    decreases lines.len(),
{
    if lines.len() == 0 {
        fresh_scan(Seq::empty())
    } else {
        scan_line(scan_lines(lines.drop_last(), format), lines.last(), format)
    }
}

/// The plugins a discovery run reported, in order.
pub open spec fn discovery_spec(format: Format, stdout: Seq<char>) -> Seq<DiscoveredView> {
    scan_lines(crate::install::lines_spec(stdout), format).out
}

/// Reads the output of `carla-discovery-*`: `key::value` lines per plugin,
/// each plugin closed by an end marker.
pub fn parse_carla_discovery(format: Format, stdout: &str) -> (r: Vec<DiscoveredPlugin>)
    ensures
        r@.map_values(|p: DiscoveredPlugin| p@) == discovery_spec(format, stdout@),
{
    let lines = crate::install::lines_of(stdout);
    let ghost ls = crate::install::lines_spec(stdout@);
    let mut out: Vec<DiscoveredPlugin> = Vec::new();
    let mut uri = String::new();
    let mut name = String::new();
    let mut vendor = String::new();
    let mut category = Category::Other;
    let mut i: usize = 0;
    proof {
        assert(ls.take(0) =~= Seq::<Seq<char>>::empty());
        assert(out@.map_values(|p: DiscoveredPlugin| p@) =~= Seq::<DiscoveredView>::empty());
    }
    while i < lines.len()
        invariant
            i <= lines@.len(),
            lines@.map_values(|l: String| l@) == ls,
            ({
                let st = scan_lines(ls.take(i as int), format);
                &&& st.uri == uri@
                &&& st.name == name@
                &&& st.vendor == vendor@
                &&& st.category == category
                &&& st.out == out@.map_values(|p: DiscoveredPlugin| p@)
            }),
        decreases lines@.len() - i,
    {
        let line = crate::framing::trim_text(lines[i].as_str());
        let l = line.as_str();
        proof {
            assert(ls.take(i as int + 1).drop_last() =~= ls.take(i as int));
            assert(ls.take(i as int + 1).last() == lines@[i as int]@);
        }
        match crate::text::strip_prefix_of(l, "carla-discovery::uri::") {
            Some(v) => {
                uri = v;
            },
            None => match crate::text::strip_prefix_of(l, "carla-discovery::name::") {
                Some(v) => {
                    name = v;
                },
                None => match crate::text::strip_prefix_of(l, "carla-discovery::maker::") {
                    Some(v) => {
                        vendor = v;
                    },
                    None => match crate::text::strip_prefix_of(l, "carla-discovery::category::") {
                        Some(v) => {
                            category = parse_category(v.as_str());
                        },
                        None => {
                            if str_is(l, "carla-discovery::end::------------") {
                                if uri.as_str().unicode_len() > 0 && name.as_str().unicode_len() > 0 {
                                    let ghost before = out@;
                                    out.push(DiscoveredPlugin {
                                        format,
                                        uri: uri.clone(),
                                        name: name.clone(),
                                        vendor: vendor.clone(),
                                        category,
                                    });
                                    proof {
                                        assert(out@.map_values(|p: DiscoveredPlugin| p@) =~= before.map_values(
                                            |p: DiscoveredPlugin| p@,
                                        ).push(DiscoveredView { format, uri: uri@, name: name@, vendor: vendor@, category }));
                                    }
                                }
                                uri = String::new();
                                name = String::new();
                                vendor = String::new();
                                category = Category::Other;
                            }
                        },
                    },
                },
            },
        }
        i = i + 1;
    }
    proof {
        assert(ls.take(lines@.len() as int) =~= ls);
    }
    out
}

/// The order the catalog's groups are listed in.
pub open spec fn category_order() -> Seq<Category> {
    seq![Category::Eq, Category::Dynamics, Category::Reverb, Category::Modulation, Category::Utility, Category::Other]
}

/// The positions of the plugins whose class falls in group `c`, in order.
pub open spec fn members(plugins: Seq<PluginInfo>, c: Category) -> Seq<nat>
    decreases plugins.len(),
{
    if plugins.len() == 0 {
        Seq::empty()
    } else {
        let r = members(plugins.drop_last(), c);
        if categorize_spec(plugins.last().category@) == c {
            r.push((plugins.len() - 1) as nat)
        } else {
            r
        }
    }
}

/// The catalog's groups: each category in the fixed order with the
/// positions of its plugins, leaving out categories without plugins.
pub open spec fn groups_spec(plugins: Seq<PluginInfo>) -> Seq<(Category, Seq<nat>)> {
    category_order().map_values(|c: Category| (c, members(plugins, c))).filter(
        |g: (Category, Seq<nat>)| g.1.len() > 0,
    )
}

fn members_of(plugins: &[PluginInfo], c: Category) -> (r: Vec<usize>)
    ensures
        r@.map_values(|x: usize| x as nat) == members(plugins@, c),
{
    let mut r: Vec<usize> = Vec::new();
    let mut i: usize = 0;
    while i < plugins.len()
        invariant
            i <= plugins@.len(),
            r@.map_values(|x: usize| x as nat) == members(plugins@.take(i as int), c),
        decreases plugins@.len() - i,
    {
        let ghost before = r@;
        assert(plugins@.take(i as int + 1).drop_last() =~= plugins@.take(i as int));
        assert(plugins@.take(i as int + 1).last() == plugins@[i as int]);
        if categorize(plugins[i].category.as_str()) == c {
            r.push(i);
            assert(r@.map_values(|x: usize| x as nat) =~= before.map_values(|x: usize| x as nat).push(i as nat));
        }
        i = i + 1;
    }
    assert(plugins@.take(plugins@.len() as int) =~= plugins@);
    r
}

/// Groups the catalog by category for the plugin picker.
pub fn group_catalog(plugins: &[PluginInfo]) -> (r: Vec<(Category, Vec<usize>)>)
    ensures
        r@.map_values(|g: (Category, Vec<usize>)| (g.0, g.1@.map_values(|x: usize| x as nat))) == groups_spec(plugins@),
{
    let order = [Category::Eq, Category::Dynamics, Category::Reverb, Category::Modulation, Category::Utility, Category::Other];
    let ghost all = category_order().map_values(|c: Category| (c, members(plugins@, c)));
    assert(order@ =~= category_order());
    let mut r: Vec<(Category, Vec<usize>)> = Vec::new();
    let mut k: usize = 0;
    while k < 6
        invariant
            k <= 6,
            order@ == category_order(),
            all == category_order().map_values(|c: Category| (c, members(plugins@, c))),
            r@.map_values(|g: (Category, Vec<usize>)| (g.0, g.1@.map_values(|x: usize| x as nat))) == all.take(k as int).filter(
                |g: (Category, Seq<nat>)| g.1.len() > 0,
            ),
        decreases 6 - k,
    {
        let c = order[k];
        let ms = members_of(plugins, c);
        let ghost before = r@;
        proof {
            reveal(Seq::filter);
            assert(all.take(k as int + 1).drop_last() =~= all.take(k as int));
            assert(all.take(k as int + 1).last() == (c, members(plugins@, c)));
        }
        if ms.len() > 0 {
            r.push((c, ms));
            assert(r@.map_values(|g: (Category, Vec<usize>)| (g.0, g.1@.map_values(|x: usize| x as nat))) =~= before.map_values(
                |g: (Category, Vec<usize>)| (g.0, g.1@.map_values(|x: usize| x as nat)),
            ).push((c, members(plugins@, c))));
        }
        k = k + 1;
    }
    assert(all.take(6) =~= all);
    r
}

/// Whether `word` stands in `text` from `i` on, each of its small ASCII
/// letters written there small or capital.
pub open spec fn spelled_at(text: Seq<char>, word: Seq<char>, i: int) -> bool {
    forall|j: int| 0 <= j < word.len() ==> (text[i + j] == #[trigger] word[j]
        || text[i + j] as int + 32 == word[j] as int)
}

/// Whether `text` holds `word`, a word of small ASCII letters, somewhere, in
/// any ASCII case.
pub open spec fn names_word(text: Seq<char>, word: Seq<char>) -> bool {
    exists|i: int| 0 <= i && i + word.len() <= text.len() && #[trigger] spelled_at(text, word, i)
}

/// Whether every char of `w` is a small ASCII letter.
pub open spec fn small_letters(w: Seq<char>) -> bool {
    forall|j: int| 0 <= j < w.len() ==> 'a' <= #[trigger] w[j] && w[j] <= 'z'
}

/// A char's code as a `u32` is its code point.
proof fn lemma_char_code(x: char)
    ensures
        x as u32 == x as int,
{
}

/// For a word of small letters, being mentioned in any ASCII case is being
/// held by the text with its capitals made small.
proof fn lemma_mentions_holds(text: Seq<char>, word: Seq<char>)
    requires
        small_letters(word),
    ensures
        names_word(text, word) == holds(lowered(text), codes(word)),
{
    let h = lowered(text);
    let n = codes(word);
    if names_word(text, word) {
        let i = choose|i: int| 0 <= i && i + word.len() <= text.len() && #[trigger] spelled_at(text, word, i);
        assert forall|j: int| 0 <= j < n.len() implies #[trigger] h.subrange(i, i + n.len())[j] == n[j] by {
            let x = text[i + j];
            let w = word[j];
            assert(x == w || x as int + 32 == w as int);
            assert('a' <= w && w <= 'z');
            lemma_char_code(x);
            lemma_char_code(w);
            assert(h.subrange(i, i + n.len())[j] == lower_code(x));
        }
        assert(h.subrange(i, i + n.len()) =~= n);
    }
    if holds(h, n) {
        let i = choose|i: int| 0 <= i && i + n.len() <= h.len() && #[trigger] h.subrange(i, i + n.len()) == n;
        assert forall|j: int| 0 <= j < word.len() implies (text[i + j] == #[trigger] word[j]
            || text[i + j] as int + 32 == word[j] as int) by {
            assert(h.subrange(i, i + n.len())[j] == n[j]);
            let x = text[i + j];
            let w = word[j];
            assert(lower_code(x) == w as u32);
            lemma_char_code(x);
            lemma_char_code(w);
            if 'A' <= x && x <= 'Z' {
                assert(x as int + 32 == w as int);
            } else {
                assert(x as int == w as int);
            }
        }
        assert(spelled_at(text, word, i));
    }
}

/// The words a plugin class text is grouped by are all small letters.
proof fn lemma_class_words_small()
    ensures
        small_letters("eq"@),
        small_letters("equal"@),
        small_letters("compress"@),
        small_letters("dynamic"@),
        small_letters("gate"@),
        small_letters("limit"@),
        small_letters("expander"@),
        small_letters("reverb"@),
        small_letters("delay"@),
        small_letters("chorus"@),
        small_letters("flange"@),
        small_letters("phaser"@),
        small_letters("modulator"@),
        small_letters("util"@),
        small_letters("amplif"@),
        small_letters("filter"@),
        small_letters("spectrum"@),
        small_letters("analys"@),
{
    reveal_strlit("eq");
    reveal_strlit("equal");
    reveal_strlit("compress");
    reveal_strlit("dynamic");
    reveal_strlit("gate");
    reveal_strlit("limit");
    reveal_strlit("expander");
    reveal_strlit("reverb");
    reveal_strlit("delay");
    reveal_strlit("chorus");
    reveal_strlit("flange");
    reveal_strlit("phaser");
    reveal_strlit("modulator");
    reveal_strlit("util");
    reveal_strlit("amplif");
    reveal_strlit("filter");
    reveal_strlit("spectrum");
    reveal_strlit("analys");
}

/// Each word a class text is grouped by is named in any ASCII case exactly
/// when the lowered text holds it.
proof fn lemma_class_words_agree(class: Seq<char>)
    ensures
        names_word(class, "eq"@) == holds(lowered(class), codes("eq"@)),
        names_word(class, "equal"@) == holds(lowered(class), codes("equal"@)),
        names_word(class, "compress"@) == holds(lowered(class), codes("compress"@)),
        names_word(class, "dynamic"@) == holds(lowered(class), codes("dynamic"@)),
        names_word(class, "gate"@) == holds(lowered(class), codes("gate"@)),
        names_word(class, "limit"@) == holds(lowered(class), codes("limit"@)),
        names_word(class, "expander"@) == holds(lowered(class), codes("expander"@)),
        names_word(class, "reverb"@) == holds(lowered(class), codes("reverb"@)),
        names_word(class, "delay"@) == holds(lowered(class), codes("delay"@)),
        names_word(class, "chorus"@) == holds(lowered(class), codes("chorus"@)),
        names_word(class, "flange"@) == holds(lowered(class), codes("flange"@)),
        names_word(class, "phaser"@) == holds(lowered(class), codes("phaser"@)),
        names_word(class, "modulator"@) == holds(lowered(class), codes("modulator"@)),
        names_word(class, "util"@) == holds(lowered(class), codes("util"@)),
        names_word(class, "amplif"@) == holds(lowered(class), codes("amplif"@)),
        names_word(class, "filter"@) == holds(lowered(class), codes("filter"@)),
        names_word(class, "spectrum"@) == holds(lowered(class), codes("spectrum"@)),
        names_word(class, "analys"@) == holds(lowered(class), codes("analys"@)),
{
    lemma_class_words_small();
    lemma_mentions_holds(class, "eq"@);
    lemma_mentions_holds(class, "equal"@);
    lemma_mentions_holds(class, "compress"@);
    lemma_mentions_holds(class, "dynamic"@);
    lemma_mentions_holds(class, "gate"@);
    lemma_mentions_holds(class, "limit"@);
    lemma_mentions_holds(class, "expander"@);
    lemma_mentions_holds(class, "reverb"@);
    lemma_mentions_holds(class, "delay"@);
    lemma_mentions_holds(class, "chorus"@);
    lemma_mentions_holds(class, "flange"@);
    lemma_mentions_holds(class, "phaser"@);
    lemma_mentions_holds(class, "modulator"@);
    lemma_mentions_holds(class, "util"@);
    lemma_mentions_holds(class, "amplif"@);
    lemma_mentions_holds(class, "filter"@);
    lemma_mentions_holds(class, "spectrum"@);
    lemma_mentions_holds(class, "analys"@);
}

/// A class text that names an equalizer word (eq, equal) in any ASCII case
/// is listed under Eq.
pub proof fn law_eq_words(class: Seq<char>, word: Seq<char>)
    requires
        word == "eq"@ || word == "equal"@,
        names_word(class, word),
    ensures
        categorize_spec(class) == Category::Eq,
{
    lemma_class_words_agree(class);
}

/// A class text that names a dynamics word (compress, dynamic, gate, limit,
/// expander) in any ASCII case, and no equalizer word, is listed under
/// Dynamics.
pub proof fn law_dynamics_words(class: Seq<char>, word: Seq<char>)
    requires
        word == "compress"@ || word == "dynamic"@ || word == "gate"@ || word == "limit"@
            || word == "expander"@,
        names_word(class, word),
        !names_word(class, "eq"@),
        !names_word(class, "equal"@),
    ensures
        categorize_spec(class) == Category::Dynamics,
{
    lemma_class_words_agree(class);
}

/// A class text that names `reverb` in any ASCII case, and no equalizer or
/// dynamics word, is listed under Reverb.
pub proof fn law_reverb_word(class: Seq<char>)
    requires
        names_word(class, "reverb"@),
        !names_word(class, "eq"@),
        !names_word(class, "equal"@),
        !names_word(class, "compress"@),
        !names_word(class, "dynamic"@),
        !names_word(class, "gate"@),
        !names_word(class, "limit"@),
        !names_word(class, "expander"@),
    ensures
        categorize_spec(class) == Category::Reverb,
{
    lemma_class_words_agree(class);
}

/// A class text that names a modulation word (delay, chorus, flange, phaser,
/// modulator) in any ASCII case, and no equalizer or dynamics word nor
/// `reverb`, is listed under Modulation.
pub proof fn law_modulation_words(class: Seq<char>, word: Seq<char>)
    requires
        word == "delay"@ || word == "chorus"@ || word == "flange"@ || word == "phaser"@
            || word == "modulator"@,
        names_word(class, word),
        !names_word(class, "eq"@),
        !names_word(class, "equal"@),
        !names_word(class, "compress"@),
        !names_word(class, "dynamic"@),
        !names_word(class, "gate"@),
        !names_word(class, "limit"@),
        !names_word(class, "expander"@),
        !names_word(class, "reverb"@),
    ensures
        categorize_spec(class) == Category::Modulation,
{
    lemma_class_words_agree(class);
}

/// A class text that names a utility word (util, amplif, filter, spectrum,
/// analys) in any ASCII case, and no word of an earlier group, is listed
/// under Utility.
pub proof fn law_utility_words(class: Seq<char>, word: Seq<char>)
    requires
        word == "util"@ || word == "amplif"@ || word == "filter"@ || word == "spectrum"@
            || word == "analys"@,
        names_word(class, word),
        !names_word(class, "eq"@),
        !names_word(class, "equal"@),
        !names_word(class, "compress"@),
        !names_word(class, "dynamic"@),
        !names_word(class, "gate"@),
        !names_word(class, "limit"@),
        !names_word(class, "expander"@),
        !names_word(class, "reverb"@),
        !names_word(class, "delay"@),
        !names_word(class, "chorus"@),
        !names_word(class, "flange"@),
        !names_word(class, "phaser"@),
        !names_word(class, "modulator"@),
    ensures
        categorize_spec(class) == Category::Utility,
{
    lemma_class_words_agree(class);
}

/// A class text that names no group word in any ASCII case is listed under
/// Other.
pub proof fn law_no_group_word(class: Seq<char>)
    requires
        !names_word(class, "eq"@),
        !names_word(class, "equal"@),
        !names_word(class, "compress"@),
        !names_word(class, "dynamic"@),
        !names_word(class, "gate"@),
        !names_word(class, "limit"@),
        !names_word(class, "expander"@),
        !names_word(class, "reverb"@),
        !names_word(class, "delay"@),
        !names_word(class, "chorus"@),
        !names_word(class, "flange"@),
        !names_word(class, "phaser"@),
        !names_word(class, "modulator"@),
        !names_word(class, "util"@),
        !names_word(class, "amplif"@),
        !names_word(class, "filter"@),
        !names_word(class, "spectrum"@),
        !names_word(class, "analys"@),
    ensures
        categorize_spec(class) == Category::Other,
{
    lemma_class_words_agree(class);
}

/// Whether two chars are the same letter ignoring ASCII case.
pub open spec fn same_letter(x: char, y: char) -> bool {
    ||| x == y
    ||| ('A' <= x && x <= 'Z' && y as int == x as int + 32)
    ||| ('A' <= y && y <= 'Z' && x as int == y as int + 32)
}

/// Whether two names are equal ignoring ASCII case.
pub open spec fn same_name(a: Seq<char>, b: Seq<char>) -> bool {
    a.len() == b.len() && forall|j: int| 0 <= j < a.len() ==> #[trigger] same_letter(a[j], b[j])
}

proof fn lemma_same_letter(x: char, y: char)
    ensures
        (lower_code(x) == lower_code(y)) == same_letter(x, y),
{
    lemma_char_code(x);
    lemma_char_code(y);
}

/// Names are equal ignoring ASCII case exactly when their lowered codes are.
proof fn lemma_same_name(a: Seq<char>, b: Seq<char>)
    ensures
        same_name(a, b) == (lowered(a) == lowered(b)),
{
    if same_name(a, b) {
        assert forall|j: int| 0 <= j < a.len() implies lowered(a)[j] == lowered(b)[j] by {
            assert(same_letter(a[j], b[j]));
            lemma_same_letter(a[j], b[j]);
        }
        assert(lowered(a) =~= lowered(b));
    }
    if lowered(a) == lowered(b) {
        assert(a.len() == lowered(a).len());
        assert forall|j: int| 0 <= j < a.len() implies #[trigger] same_letter(a[j], b[j]) by {
            assert(lowered(a)[j] == lowered(b)[j]);
            lemma_same_letter(a[j], b[j]);
        }
    }
}

/// The first driver from `k0` on that is `p` ignoring ASCII case is the one
/// `first_match` finds.
proof fn lemma_first_match_at(available: Seq<String>, p: Seq<char>, k0: int, k: int)
    requires
        0 <= k0 <= k < available.len(),
        same_name(available[k]@, p),
        forall|i: int| k0 <= i < k ==> !same_name(#[trigger] available[i]@, p),
    ensures
        first_match(available, p, k0 as nat) == Some(k as nat),
    decreases k - k0,
{
    lemma_same_name(available[k0]@, p);
    if k0 < k {
        lemma_first_match_at(available, p, k0 + 1, k);
    }
}

/// With no driver from `k0` on that is `p` ignoring ASCII case,
/// `first_match` finds none.
proof fn lemma_first_match_none(available: Seq<String>, p: Seq<char>, k0: int)
    requires
        0 <= k0 <= available.len(),
        forall|i: int| k0 <= i < available.len() ==> !same_name(#[trigger] available[i]@, p),
    ensures
        first_match(available, p, k0 as nat) is None,
    decreases available.len() - k0,
{
    if k0 < available.len() {
        lemma_same_name(available[k0]@, p);
        lemma_first_match_none(available, p, k0 + 1);
    }
}

/// Whether no driver of `available` is `p` ignoring ASCII case.
pub open spec fn none_named(available: Seq<String>, p: Seq<char>) -> bool {
    forall|i: int| 0 <= i < available.len() ==> !same_name(#[trigger] available[i]@, p)
}

/// Whether `available[k]` is the first driver that is `p` ignoring ASCII case.
pub open spec fn first_named(available: Seq<String>, p: Seq<char>, k: int) -> bool {
    &&& 0 <= k < available.len()
    &&& same_name(available[k]@, p)
    &&& forall|i: int| 0 <= i < k ==> !same_name(#[trigger] available[i]@, p)
}

/// A Dummy driver, in any ASCII case, is picked first: the first one listed.
pub proof fn law_select_dummy(available: Seq<String>, k: int)
    requires
        first_named(available, "Dummy"@, k),
    ensures
        select_driver_spec(available) == Some(k as nat),
{
    lemma_first_match_at(available, "Dummy"@, 0, k);
}

/// With no Dummy driver, the first JACK driver, in any ASCII case, is picked.
pub proof fn law_select_jack(available: Seq<String>, k: int)
    requires
        none_named(available, "Dummy"@),
        first_named(available, "JACK"@, k),
    ensures
        select_driver_spec(available) == Some(k as nat),
{
    lemma_first_match_none(available, "Dummy"@, 0);
    lemma_first_match_at(available, "JACK"@, 0, k);
}

/// When no available driver is Dummy or JACK ignoring ASCII case but one is
/// PulseAudio, the first PulseAudio driver is picked, wherever it stands in
/// the list.
pub proof fn law_select_pulseaudio(available: Seq<String>, k: int)
    requires
        none_named(available, "Dummy"@),
        none_named(available, "JACK"@),
        first_named(available, "PulseAudio"@, k),
    ensures
        select_driver_spec(available) == Some(k as nat),
{
    lemma_first_match_none(available, "Dummy"@, 0);
    lemma_first_match_none(available, "JACK"@, 0);
    lemma_first_match_at(available, "PulseAudio"@, 0, k);
}

/// With none of Dummy, JACK and PulseAudio available, the first driver listed
/// is picked, and none from an empty list.
pub proof fn law_select_fallback(available: Seq<String>)
    requires
        none_named(available, "Dummy"@),
        none_named(available, "JACK"@),
        none_named(available, "PulseAudio"@),
    ensures
        select_driver_spec(available) == (if available.len() > 0 { Some(0nat) } else { None }),
{
    lemma_first_match_none(available, "Dummy"@, 0);
    lemma_first_match_none(available, "JACK"@, 0);
    lemma_first_match_none(available, "PulseAudio"@, 0);
}

} // verus!
