//! What the effects rack shows for a channel: its rows, its empty states
//! and the install hints, decided here and drawn by the caller.
use vstd::prelude::*;
use crate::catalog::{collection_installed, installed_spec, PluginInfo};
use crate::chains::{ChainState, Format};

verus! {

/// One effect row of the rack.
#[derive(Debug, Clone)]
pub struct RackRow {
    pub effect: crate::chains::Effect,
    /// The row's power toggle is on when the effect is not bypassed.
    pub toggle_on: bool,
    /// The row is drawn muted when the effect or the whole chain is bypassed.
    pub muted: bool,
    /// The row offers an editor button when the catalog says the plugin has its own UI.
    pub has_ui: bool,
}

/// Whether the catalog lists the plugin with its own editor.
pub open spec fn has_ui_spec(catalog: Seq<PluginInfo>, format: Format, uri: Seq<char>) -> bool {
    exists|i: int| 0 <= i < catalog.len() && #[trigger] catalog[i].format == format && catalog[i].uri@ == uri
        && catalog[i].has_custom_ui
}

fn has_ui_for(catalog: &[PluginInfo], format: Format, uri: &str) -> (r: bool)
    ensures
        r == has_ui_spec(catalog@, format, uri@),
{
    let mut i: usize = 0;
    while i < catalog.len()
        invariant
            i <= catalog@.len(),
            forall|j: int| 0 <= j < i ==> !(#[trigger] catalog@[j].format == format && catalog@[j].uri@ == uri@
                && catalog@[j].has_custom_ui),
        decreases catalog@.len() - i,
    {
        let p = &catalog[i];
        if p.format == format && p.has_custom_ui && crate::text::str_is(p.uri.as_str(), uri) {
            return true;
        }
        i = i + 1;
    }
    false
}

/// The rows of a channel: its stored effects in chain order.
pub fn rack_rows(state: &ChainState, channel: u128, catalog: &[PluginInfo]) -> (r: Vec<RackRow>)
    requires
        state.wf(),
    ensures
        r@.len() == state@.persisted_channel(channel).effects.len(),
        forall|i: int| 0 <= i < r@.len() ==> {
            let e = state@.persisted_channel(channel).effects[i];
            &&& (#[trigger] r@[i]).effect@ == e
            &&& r@[i].toggle_on == !e.bypassed
            &&& r@[i].muted == (e.bypassed || state@.bypass_of(channel))
            &&& r@[i].has_ui == has_ui_spec(catalog@, e.format, e.uri)
        },
{
    let rec = state.persisted_channel(channel);
    let chain_bypassed = state.get_chain_bypass(channel);
    let ghost es = rec.effects@.map_values(|e: crate::chains::Effect| e@);
    let mut out: Vec<RackRow> = Vec::new();
    let mut i: usize = 0;
    while i < rec.effects.len()
        invariant
            i <= rec.effects@.len(),
            es == rec.effects@.map_values(|e: crate::chains::Effect| e@),
            es == state@.persisted_channel(channel).effects,
            chain_bypassed == state@.bypass_of(channel),
            out@.len() == i,
            forall|k: int| 0 <= k < i ==> {
                let e = es[k];
                &&& (#[trigger] out@[k]).effect@ == e
                &&& out@[k].toggle_on == !e.bypassed
                &&& out@[k].muted == (e.bypassed || chain_bypassed)
                &&& out@[k].has_ui == has_ui_spec(catalog@, e.format, e.uri)
            },
        decreases rec.effects@.len() - i,
    {
        let e = &rec.effects[i];
        let has_ui = has_ui_for(catalog, e.format, e.uri.as_str());
        let row = RackRow {
            effect: e.duplicate(),
            toggle_on: !e.bypassed,
            muted: e.bypassed || chain_bypassed,
            has_ui,
        };
        let ghost before = out@;
        out.push(row);
        proof {
            assert forall|k: int| 0 <= k < i + 1 implies {
                let e = es[k];
                &&& (#[trigger] out@[k]).effect@ == e
                &&& out@[k].toggle_on == !e.bypassed
                &&& out@[k].muted == (e.bypassed || chain_bypassed)
                &&& out@[k].has_ui == has_ui_spec(catalog@, e.format, e.uri)
            } by {
                if k < i {
                    assert(out@[k] == before[k]);
                }
            }
        }
        i = i + 1;
    }
    out
}

/// What the rack's body shows.
#[derive(Debug, Clone, Copy, PartialEq, Eq, Structural)]
pub enum RackBody {
    /// No plugins are installed: where to put them and what to install.
    NoPlugins,
    /// Plugins exist but the chain is empty.
    Empty,
    /// The chain's rows.
    List,
}

pub fn rack_body(has_plugins: bool, rows: usize) -> (r: RackBody)
    ensures
        r == (if !has_plugins { RackBody::NoPlugins } else if rows == 0 { RackBody::Empty } else { RackBody::List }),
{
    if !has_plugins {
        RackBody::NoPlugins
    } else if rows == 0 {
        RackBody::Empty
    } else {
        RackBody::List
    }
}

/// The chain's power toggle is on while the chain is not bypassed.
pub fn chain_power_on(chain_bypassed: bool) -> (r: bool)
    ensures
        r == !chain_bypassed,
{
    !chain_bypassed
}

/// The word under the chain's power toggle.
pub fn chain_state_label(chain_bypassed: bool) -> (r: &'static str)
    ensures
        r@ == (if chain_bypassed { "Bypassed"@ } else { "Active"@ }),
{
    if chain_bypassed {
        "Bypassed"
    } else {
        "Active"
    }
}

/// Which plugin collections the install hints still suggest, and the
/// packages to name for the missing ones.
#[derive(Debug, Clone)]
pub struct InstallHints {
    pub show_reaplugs: bool,
    pub show_reapack: bool,
    pub missing_lsp: bool,
    pub missing_calf: bool,
    pub missing_x42: bool,
    pub missing_swh: bool,
    pub arch_packages: Vec<&'static str>,
    pub deb_packages: Vec<&'static str>,
}

pub open spec fn reaplugs_needles() -> Seq<Seq<char>> {
    seq!["reacomp"@, "reaeq"@, "reagate"@, "reaxcomp"@, "reaverbate"@, "reapitch"@, "reafir"@, "readelay"@,
        "reatune"@, "reaplugs"@, "cockos"@]
}

/// The packages that install the missing collections, in the hint's order.
pub open spec fn packages_spec(lsp: bool, calf: bool, x42: bool, swh: bool, debian: bool) -> Seq<Seq<char>> {
    let a = if lsp { seq!["lsp-plugins"@] } else { Seq::empty() };
    let b = if calf { if debian { seq!["calf-plugins"@] } else { seq!["calf"@] } } else { Seq::empty() };
    let c = if x42 { seq!["x42-plugins"@] } else { Seq::empty() };
    let d = if swh { seq!["swh-plugins"@] } else { Seq::empty() };
    a + b + c + d
}

fn packages(lsp: bool, calf: bool, x42: bool, swh: bool, debian: bool) -> (r: Vec<&'static str>)
    ensures
        r@.map_values(|s: &'static str| s@) == packages_spec(lsp, calf, x42, swh, debian),
{
    let mut r: Vec<&'static str> = Vec::new();
    if lsp {
        r.push("lsp-plugins");
    }
    if calf {
        if debian {
            r.push("calf-plugins");
        } else {
            r.push("calf");
        }
    }
    if x42 {
        r.push("x42-plugins");
    }
    if swh {
        r.push("swh-plugins");
    }
    assert(r@.map_values(|s: &'static str| s@) =~= packages_spec(lsp, calf, x42, swh, debian));
    r
}

/// Which hints to show for the installed plugins: a collection is
/// suggested only when no installed plugin mentions one of its words.
pub fn install_hints(plugins: &[PluginInfo]) -> (r: InstallHints)
    ensures
        r.show_reaplugs == !installed_spec(plugins@, seq![
            "reacomp", "reaeq", "reagate", "reaxcomp", "reaverbate", "reapitch", "reafir", "readelay", "reatune",
            "reaplugs", "cockos",
        ]),
        r.show_reapack == !installed_spec(plugins@, seq!["reajs", "jsfx"]),
        r.missing_lsp == !installed_spec(plugins@, seq!["lsp-plug.in", "lsp_plug", "lsp plug"]),
        r.missing_calf == !installed_spec(plugins@, seq!["calf.sourceforge", "calf studio", "calfbox"]),
        r.missing_x42 == !installed_spec(plugins@, seq!["gareus.org", "x42"]),
        r.missing_swh == !installed_spec(plugins@, seq!["swh-plugins", "ladspa.org", "swh "]),
        r.arch_packages@.map_values(|s: &'static str| s@) == packages_spec(
            r.missing_lsp,
            r.missing_calf,
            r.missing_x42,
            r.missing_swh,
            false,
        ),
        r.deb_packages@.map_values(|s: &'static str| s@) == packages_spec(
            r.missing_lsp,
            r.missing_calf,
            r.missing_x42,
            r.missing_swh,
            true,
        ),
{
    let rea = [
        "reacomp", "reaeq", "reagate", "reaxcomp", "reaverbate", "reapitch", "reafir", "readelay", "reatune",
        "reaplugs", "cockos",
    ];
    let js = ["reajs", "jsfx"];
    let lsp = ["lsp-plug.in", "lsp_plug", "lsp plug"];
    let calf = ["calf.sourceforge", "calf studio", "calfbox"];
    let x42 = ["gareus.org", "x42"];
    let swh = ["swh-plugins", "ladspa.org", "swh "];
    let show_reaplugs = !collection_installed(plugins, &rea);
    let show_reapack = !collection_installed(plugins, &js);
    let missing_lsp = !collection_installed(plugins, &lsp);
    let missing_calf = !collection_installed(plugins, &calf);
    let missing_x42 = !collection_installed(plugins, &x42);
    let missing_swh = !collection_installed(plugins, &swh);
    proof {
        assert(rea@ =~= seq![
            "reacomp", "reaeq", "reagate", "reaxcomp", "reaverbate", "reapitch", "reafir", "readelay", "reatune",
            "reaplugs", "cockos",
        ]);
        assert(js@ =~= seq!["reajs", "jsfx"]);
        assert(lsp@ =~= seq!["lsp-plug.in", "lsp_plug", "lsp plug"]);
        assert(calf@ =~= seq!["calf.sourceforge", "calf studio", "calfbox"]);
        assert(x42@ =~= seq!["gareus.org", "x42"]);
        assert(swh@ =~= seq!["swh-plugins", "ladspa.org", "swh "]);
    }
    InstallHints {
        show_reaplugs,
        show_reapack,
        missing_lsp,
        missing_calf,
        missing_x42,
        missing_swh,
        arch_packages: packages(missing_lsp, missing_calf, missing_x42, missing_swh, false),
        deb_packages: packages(missing_lsp, missing_calf, missing_x42, missing_swh, true),
    }
}

/// The look of the channel card's effects button: emphasised when the
/// channel has an effect chain.
pub fn channel_card_variant(has_fx: bool) -> (r: &'static str)
    ensures
        r@ == (if has_fx { "primary"@ } else { "ghost"@ }),
{
    if has_fx {
        "primary"
    } else {
        "ghost"
    }
}

/// Whether an overlay request names the channel card; otherwise the error
/// message it is refused with.
pub fn check_overlay_surface(surface_id: &str) -> (r: Result<(), String>)
    ensures
        match r {
            Ok(()) => surface_id@ == "channel_card"@,
            Err(m) => surface_id@ != "channel_card"@ && m@ == "channel_overlay.render: unknown surface_id "@
                + surface_id@,
        },
{
    proof {
        reveal_strlit("");
    }
    if crate::text::str_is(surface_id, "channel_card") {
        Ok(())
    } else {
        Err(crate::text::concat3("channel_overlay.render: unknown surface_id ", surface_id, ""))
    }
}

} // verus!
