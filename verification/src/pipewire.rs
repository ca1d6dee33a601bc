//! The audio routes that thread a channel through its effects engine client
//! when the channel has an active effects chain.
use vstd::prelude::*;
use crate::chains::{ChannelEffectsData, Effect, EffectView};
use crate::ids::{channel_jack_client, fx_prefix, hyphenated_text, hyphenated_uuid, simple_text};
use crate::text::concat3;

verus! {

/// The three kinds of channel.
#[derive(Debug, Clone, Copy, PartialEq, Eq, Structural)]
pub enum ChannelKind {
    Output,
    Input,
    PhysicalInput,
}

/// The role a channel's modules are tagged with, so they can be replaced.
pub open spec fn role_spec(k: ChannelKind) -> Seq<char> {
    match k {
        ChannelKind::Output => "output_loopback"@,
        ChannelKind::Input => "input_loopback"@,
        ChannelKind::PhysicalInput => "physical_input_loopback"@,
    }
}

pub fn role_for_kind(k: ChannelKind) -> (r: &'static str)
    ensures
        r@ == role_spec(k),
{
    match k {
        ChannelKind::Output => "output_loopback",
        ChannelKind::Input => "input_loopback",
        ChannelKind::PhysicalInput => "physical_input_loopback",
    }
}

/// A mix's sinks, with the names of the capture and playback nodes that
/// feed each sink from this channel.
#[derive(Debug, Clone)]
pub struct MixRoute {
    pub sinks: Vec<String>,
    pub capture_nodes: Vec<String>,
    pub playback_nodes: Vec<String>,
}

/// What the routes of a channel are built from.
#[derive(Debug, Clone)]
pub struct ChannelRoute {
    pub uuid: u128,
    pub kind: ChannelKind,
    /// The channel name's slug, used in node names.
    pub slug: String,
    /// The sources an input channel mixes.
    pub sources: Vec<String>,
    /// The device a physical input records from.
    pub physical_source: String,
    /// The sink node of the channel.
    pub sink_node: String,
    /// The virtual source that a physical input's processed audio feeds.
    pub fx_source_node: String,
    pub mixes: Vec<MixRoute>,
}

/// Where a route's capture side reads.
#[derive(Debug, Clone, Copy, PartialEq, Eq, Structural)]
pub enum CaptureSide {
    /// The monitor of a sink.
    SinkMonitor,
    /// A source.
    Source,
    /// The effects engine's output.
    Engine,
}

/// Where a route's playback side writes.
#[derive(Debug, Clone, Copy, PartialEq, Eq, Structural)]
pub enum PlaybackSide {
    /// Into the effects engine.
    Engine,
    /// Into a sink, connected as the session manager sees fit.
    Target,
    /// Into a physical input's virtual source, without automatic connection.
    VirtualSource,
}

/// One loopback: a capture node reading from `capture_target` and a
/// playback node writing to `playback_target`.
#[derive(Debug, Clone)]
pub struct Route {
    pub capture: CaptureSide,
    pub capture_name: String,
    pub capture_target: String,
    pub playback: PlaybackSide,
    pub playback_name: String,
    pub playback_target: String,
}

pub struct RouteView {
    pub capture: CaptureSide,
    pub capture_name: Seq<char>,
    pub capture_target: Seq<char>,
    pub playback: PlaybackSide,
    pub playback_name: Seq<char>,
    pub playback_target: Seq<char>,
}

impl View for Route {
    type V = RouteView;

    open spec fn view(&self) -> RouteView {
        RouteView {
            capture: self.capture,
            capture_name: self.capture_name@,
            capture_target: self.capture_target@,
            playback: self.playback,
            playback_name: self.playback_name@,
            playback_target: self.playback_target@,
        }
    }
}

pub open spec fn rv(c: CaptureSide, cn: Seq<char>, ct: Seq<char>, p: PlaybackSide, pn: Seq<char>, pt: Seq<char>) -> RouteView {
    RouteView { capture: c, capture_name: cn, capture_target: ct, playback: p, playback_name: pn, playback_target: pt }
}

pub open spec fn strs(v: Seq<String>) -> Seq<Seq<char>> {
    v.map_values(|s: String| s@)
}

/// The client the channel's chain runs in.
pub open spec fn engine_node(ch: ChannelRoute) -> Seq<char> {
    fx_prefix() + simple_text(ch.uuid)
}

pub open spec fn node_name(dir: Seq<char>, slug: Seq<char>, suffix: Seq<char>) -> Seq<char> {
    dir + "."@ + slug + suffix
}

/// Whether a mix route names a node pair for each of its sinks.
pub open spec fn mix_ok(m: MixRoute) -> bool {
    m.capture_nodes@.len() == m.sinks@.len() && m.playback_nodes@.len() == m.sinks@.len()
}

/// The routes from the engine into every sink of the mixes, mix by mix.
pub open spec fn mix_routes(fx: Seq<char>, mixes: Seq<MixRoute>) -> Seq<RouteView>
    decreases mixes.len(),
{
    if mixes.len() == 0 {
        Seq::empty()
    } else {
        let m = mixes.last();
        mix_routes(fx, mixes.drop_last()) + Seq::new(m.sinks@.len(), |i: int| rv(
            CaptureSide::Engine,
            m.capture_nodes@[i]@,
            fx,
            PlaybackSide::Target,
            m.playback_nodes@[i]@,
            m.sinks@[i]@,
        ))
    }
}

/// The routes from each of an input channel's sources into the engine.
pub open spec fn source_routes(slug: Seq<char>, fx: Seq<char>, sources: Seq<String>) -> Seq<RouteView> {
    Seq::new(sources.len(), |i: int| rv(
        CaptureSide::Source,
        node_name("capture"@, slug, "-fx-src-"@ + crate::text::decimal_text(i as nat)),
        sources[i]@,
        PlaybackSide::Engine,
        node_name("playback"@, slug, "-fx-src-"@ + crate::text::decimal_text(i as nat)),
        fx,
    ))
}

/// The loopbacks that put a channel's audio through its engine client.
pub open spec fn routes_spec(ch: ChannelRoute) -> Seq<RouteView> {
    let s = ch.slug@;
    let fx = engine_node(ch);
    match ch.kind {
        ChannelKind::Output => seq![rv(
            CaptureSide::SinkMonitor,
            node_name("capture"@, s, "-fx-pre"@),
            ch.sink_node@,
            PlaybackSide::Engine,
            node_name("playback"@, s, "-fx-pre"@),
            fx,
        )] + mix_routes(fx, ch.mixes@),
        ChannelKind::Input => source_routes(s, fx, ch.sources@) + seq![rv(
            CaptureSide::Engine,
            node_name("capture"@, s, "-fx-post"@),
            fx,
            PlaybackSide::Target,
            node_name("playback"@, s, "-fx-post"@),
            ch.sink_node@,
        )],
        ChannelKind::PhysicalInput => seq![
            rv(
                CaptureSide::Source,
                node_name("capture"@, s, "-fx-pre"@),
                ch.physical_source@,
                PlaybackSide::Engine,
                node_name("playback"@, s, "-fx-pre"@),
                fx,
            ),
            rv(
                CaptureSide::Engine,
                node_name("capture"@, s, "-fx-virtual"@),
                fx,
                PlaybackSide::VirtualSource,
                node_name("playback"@, s, "-fx-virtual"@),
                ch.fx_source_node@,
            ),
        ] + mix_routes(fx, ch.mixes@),
    }
}

/// Whether some effect of the chain is not bypassed.
pub open spec fn any_active(effects: Seq<EffectView>) -> bool {
    exists|i: int| 0 <= i < effects.len() && !(#[trigger] effects[i]).bypassed
}

/// What the contributor emits for a channel: nothing for a physical input
/// without a device; only the removal of the old modules when no effect is
/// active; otherwise the removal followed by the channel's routes.
pub enum Plan {
    Nothing,
    DestroyOnly,
    Routes(Seq<RouteView>),
}

pub open spec fn plan_spec(ch: ChannelRoute, effects: Seq<EffectView>) -> Plan {
    if ch.kind == ChannelKind::PhysicalInput && ch.physical_source@.len() == 0 {
        Plan::Nothing
    } else if !any_active(effects) {
        Plan::DestroyOnly
    } else {
        Plan::Routes(routes_spec(ch))
    }
}

fn name_of(dir: &str, slug: &str, suffix: &str) -> (r: String)
    ensures
        r@ == node_name(dir@, slug@, suffix@),
{
    let mut r = concat3(dir, ".", slug);
    r.append(suffix);
    r
}

fn route(c: CaptureSide, cn: String, ct: String, p: PlaybackSide, pn: String, pt: String) -> (r: Route)
    ensures
        r@ == rv(c, cn@, ct@, p, pn@, pt@),
{
    Route { capture: c, capture_name: cn, capture_target: ct, playback: p, playback_name: pn, playback_target: pt }
}

fn push_mix_routes(out: &mut Vec<Route>, fx: &String, mixes: &Vec<MixRoute>)
    requires
        forall|k: int| 0 <= k < mixes@.len() ==> mix_ok(#[trigger] mixes@[k]),
    ensures
        final(out)@.map_values(|r: Route| r@) == old(out)@.map_values(|r: Route| r@) + mix_routes(fx@, mixes@),
{
    let ghost start = old(out)@.map_values(|r: Route| r@);
    let mut k: usize = 0;
    assert(mixes@.take(0) =~= Seq::<MixRoute>::empty());
    assert(start + mix_routes(fx@, Seq::<MixRoute>::empty()) =~= start);
    while k < mixes.len()
        invariant
            k <= mixes@.len(),
            forall|q: int| 0 <= q < mixes@.len() ==> mix_ok(#[trigger] mixes@[q]),
            out@.map_values(|r: Route| r@) == start + mix_routes(fx@, mixes@.take(k as int)),
        decreases mixes@.len() - k,
    {
        let m = &mixes[k];
        assert(mix_ok(mixes@[k as int]));
        let ghost before = out@.map_values(|r: Route| r@);
        let ghost block = Seq::new(m.sinks@.len(), |i: int| rv(
            CaptureSide::Engine,
            m.capture_nodes@[i]@,
            fx@,
            PlaybackSide::Target,
            m.playback_nodes@[i]@,
            m.sinks@[i]@,
        ));
        let mut i: usize = 0;
        while i < m.sinks.len()
            invariant
                i <= m.sinks@.len(),
                mix_ok(*m),
                block == Seq::new(m.sinks@.len(), |j: int| rv(
                    CaptureSide::Engine,
                    m.capture_nodes@[j]@,
                    fx@,
                    PlaybackSide::Target,
                    m.playback_nodes@[j]@,
                    m.sinks@[j]@,
                )),
                out@.map_values(|r: Route| r@) == before + block.take(i as int),
            decreases m.sinks@.len() - i,
        {
            let ghost o0 = out@;
            let rt = route(
                CaptureSide::Engine,
                m.capture_nodes[i].clone(),
                fx.clone(),
                PlaybackSide::Target,
                m.playback_nodes[i].clone(),
                m.sinks[i].clone(),
            );
            assert(rt@ == block[i as int]);
            out.push(rt);
            assert(out@.map_values(|r: Route| r@) =~= o0.map_values(|r: Route| r@).push(block[i as int]));
            assert(block.take(i as int + 1) =~= block.take(i as int).push(block[i as int]));
            assert(out@.map_values(|r: Route| r@) =~= before + block.take(i as int + 1));
            i = i + 1;
        }
        assert(block.take(m.sinks@.len() as int) =~= block);
        assert(mixes@.take(k as int + 1).drop_last() =~= mixes@.take(k as int));
        assert(start + mix_routes(fx@, mixes@.take(k as int + 1)) =~= start + mix_routes(fx@, mixes@.take(k as int)) + block);
        k = k + 1;
    }
    assert(mixes@.take(mixes@.len() as int) =~= mixes@);
}

fn index_text(i: usize) -> (r: String)
    ensures
        r@ == crate::text::decimal_text(i as nat),
{
    crate::text::decimal_string(i)
}

/// The loopbacks of a channel with an active chain.
pub fn channel_routes(ch: &ChannelRoute) -> (r: Vec<Route>)
    requires
        forall|k: int| 0 <= k < ch.mixes@.len() ==> mix_ok(#[trigger] ch.mixes@[k]),
    ensures
        r@.map_values(|x: Route| x@) == routes_spec(*ch),
{
    proof {
        reveal_strlit("tideline-fx-");
    }
    let fx = channel_jack_client(ch.uuid);
    let s = ch.slug.as_str();
    let mut out: Vec<Route> = Vec::new();
    match ch.kind {
        ChannelKind::Output => {
            out.push(route(
                CaptureSide::SinkMonitor,
                name_of("capture", s, "-fx-pre"),
                ch.sink_node.clone(),
                PlaybackSide::Engine,
                name_of("playback", s, "-fx-pre"),
                fx.clone(),
            ));
            push_mix_routes(&mut out, &fx, &ch.mixes);
        },
        ChannelKind::Input => {
            let ghost block = source_routes(s@, fx@, ch.sources@);
            let mut i: usize = 0;
            while i < ch.sources.len()
                invariant
                    i <= ch.sources@.len(),
                    block == source_routes(s@, fx@, ch.sources@),
                    out@.map_values(|x: Route| x@) == block.take(i as int),
                decreases ch.sources@.len() - i,
            {
                let idx = index_text(i);
                let mut cap_suffix = "-fx-src-".to_owned();
                cap_suffix.append(idx.as_str());
                let ghost o0 = out@;
                let rt = route(
                    CaptureSide::Source,
                    name_of("capture", s, cap_suffix.as_str()),
                    ch.sources[i].clone(),
                    PlaybackSide::Engine,
                    name_of("playback", s, cap_suffix.as_str()),
                    fx.clone(),
                );
                assert(rt@ == block[i as int]);
                out.push(rt);
                assert(out@.map_values(|x: Route| x@) =~= o0.map_values(|x: Route| x@).push(block[i as int]));
                assert(block.take(i as int + 1) =~= block.take(i as int).push(block[i as int]));
                assert(out@.map_values(|x: Route| x@) =~= block.take(i as int + 1));
                i = i + 1;
            }
            assert(block.take(ch.sources@.len() as int) =~= block);
            out.push(route(
                CaptureSide::Engine,
                name_of("capture", s, "-fx-post"),
                fx.clone(),
                PlaybackSide::Target,
                name_of("playback", s, "-fx-post"),
                ch.sink_node.clone(),
            ));
        },
        ChannelKind::PhysicalInput => {
            out.push(route(
                CaptureSide::Source,
                name_of("capture", s, "-fx-pre"),
                ch.physical_source.clone(),
                PlaybackSide::Engine,
                name_of("playback", s, "-fx-pre"),
                fx.clone(),
            ));
            out.push(route(
                CaptureSide::Engine,
                name_of("capture", s, "-fx-virtual"),
                fx.clone(),
                PlaybackSide::VirtualSource,
                name_of("playback", s, "-fx-virtual"),
                ch.fx_source_node.clone(),
            ));
            push_mix_routes(&mut out, &fx, &ch.mixes);
        },
    }
    out
}

/// A module argument value: quoted text or a bare literal.
#[derive(Debug, Clone, PartialEq, Eq)]
pub enum PropValue {
    Quoted(String),
    Literal(String),
}

pub enum PropView {
    Quoted(Seq<char>),
    Literal(Seq<char>),
}

pub open spec fn prop_view(p: (String, PropValue)) -> (Seq<char>, PropView) {
    (p.0@, match p.1 {
        PropValue::Quoted(s) => PropView::Quoted(s@),
        PropValue::Literal(s) => PropView::Literal(s@),
    })
}

/// The tag that lets a channel's modules be found and replaced.
#[derive(Debug, Clone, PartialEq, Eq)]
pub struct RewireableTag {
    pub channel_uuid: String,
    pub role: String,
}

/// One instruction to the host's audio configuration.
#[derive(Debug, Clone, PartialEq, Eq)]
pub enum Directive {
    /// Remove every module carrying the tag.
    DestroyModule { target_tag: RewireableTag },
    /// Load a loopback module with these capture and playback properties.
    LoadModule {
        module: String,
        capture_props: Vec<(String, PropValue)>,
        playback_props: Vec<(String, PropValue)>,
        rewireable_tag: Option<RewireableTag>,
    },
}

pub open spec fn q(s: Seq<char>) -> PropView {
    PropView::Quoted(s)
}

pub open spec fn lit(s: Seq<char>) -> PropView {
    PropView::Literal(s)
}

/// The properties of a route's capture node.
pub open spec fn capture_props_spec(r: RouteView) -> Seq<(Seq<char>, PropView)> {
    match r.capture {
        CaptureSide::SinkMonitor => seq![
            ("node.name"@, q(r.capture_name)),
            ("target.object"@, q(r.capture_target)),
            ("audio.position"@, q("FL,FR"@)),
            ("stream.dont-remix"@, lit("true"@)),
            ("stream.capture.sink"@, lit("true"@)),
        ],
        CaptureSide::Source => seq![
            ("node.name"@, q(r.capture_name)),
            ("target.object"@, q(r.capture_target)),
            ("audio.position"@, q("FL,FR"@)),
            ("stream.dont-remix"@, lit("true"@)),
        ],
        CaptureSide::Engine => seq![
            ("node.name"@, q(r.capture_name)),
            ("target.object"@, q(r.capture_target)),
            ("node.autoconnect"@, lit("false"@)),
            ("audio.position"@, q("FL,FR"@)),
            ("stream.dont-remix"@, lit("true"@)),
        ],
    }
}

/// The properties of a route's playback node.
pub open spec fn playback_props_spec(r: RouteView) -> Seq<(Seq<char>, PropView)> {
    match r.playback {
        PlaybackSide::Engine | PlaybackSide::VirtualSource => seq![
            ("node.name"@, q(r.playback_name)),
            ("target.object"@, q(r.playback_target)),
            ("node.autoconnect"@, lit("false"@)),
            ("audio.position"@, q("FL,FR"@)),
        ],
        PlaybackSide::Target => seq![
            ("node.name"@, q(r.playback_name)),
            ("target.object"@, q(r.playback_target)),
            ("audio.position"@, q("FL,FR"@)),
        ],
    }
}

fn quoted(k: &str, v: String) -> (r: (String, PropValue))
    ensures
        prop_view(r) == (k@, q(v@)),
{
    (k.to_owned(), PropValue::Quoted(v))
}

fn literal(k: &str, v: &str) -> (r: (String, PropValue))
    ensures
        prop_view(r) == (k@, lit(v@)),
{
    (k.to_owned(), PropValue::Literal(v.to_owned()))
}

fn capture_props(r: &Route) -> (p: Vec<(String, PropValue)>)
    ensures
        p@.map_values(|x: (String, PropValue)| prop_view(x)) == capture_props_spec(r@),
{
    let mut p: Vec<(String, PropValue)> = Vec::new();
    p.push(quoted("node.name", r.capture_name.clone()));
    p.push(quoted("target.object", r.capture_target.clone()));
    match r.capture {
        CaptureSide::SinkMonitor => {
            p.push(quoted("audio.position", "FL,FR".to_owned()));
            p.push(literal("stream.dont-remix", "true"));
            p.push(literal("stream.capture.sink", "true"));
        },
        CaptureSide::Source => {
            p.push(quoted("audio.position", "FL,FR".to_owned()));
            p.push(literal("stream.dont-remix", "true"));
        },
        CaptureSide::Engine => {
            p.push(literal("node.autoconnect", "false"));
            p.push(quoted("audio.position", "FL,FR".to_owned()));
            p.push(literal("stream.dont-remix", "true"));
        },
    }
    assert(p@.map_values(|x: (String, PropValue)| prop_view(x)) =~= capture_props_spec(r@));
    p
}

fn playback_props(r: &Route) -> (p: Vec<(String, PropValue)>)
    ensures
        p@.map_values(|x: (String, PropValue)| prop_view(x)) == playback_props_spec(r@),
{
    let mut p: Vec<(String, PropValue)> = Vec::new();
    p.push(quoted("node.name", r.playback_name.clone()));
    p.push(quoted("target.object", r.playback_target.clone()));
    match r.playback {
        PlaybackSide::Engine | PlaybackSide::VirtualSource => {
            p.push(literal("node.autoconnect", "false"));
            p.push(quoted("audio.position", "FL,FR".to_owned()));
        },
        PlaybackSide::Target => {
            p.push(quoted("audio.position", "FL,FR".to_owned()));
        },
    }
    assert(p@.map_values(|x: (String, PropValue)| prop_view(x)) =~= playback_props_spec(r@));
    p
}

/// Whether a directive is the loopback of a route, tagged with `tag`.
pub open spec fn is_loopback(d: Directive, r: RouteView, tag: RewireableTag) -> bool {
    match d {
        Directive::LoadModule { module, capture_props, playback_props, rewireable_tag } => {
            &&& module@ == "libpipewire-module-loopback"@
            &&& capture_props@.map_values(|x: (String, PropValue)| prop_view(x)) == capture_props_spec(r)
            &&& playback_props@.map_values(|x: (String, PropValue)| prop_view(x)) == playback_props_spec(r)
            &&& rewireable_tag == Some(tag)
        },
        _ => false,
    }
}

fn loopback(r: &Route, tag: &RewireableTag) -> (d: Directive)
    ensures
        is_loopback(d, r@, *tag),
{
    Directive::LoadModule {
        module: "libpipewire-module-loopback".to_owned(),
        capture_props: capture_props(r),
        playback_props: playback_props(r),
        rewireable_tag: Some(copy_tag(tag)),
    }
}

/// The tag of a channel's modules: its identifier and its kind's role.
pub open spec fn tag_ok(t: RewireableTag, ch: ChannelRoute) -> bool {
    t.channel_uuid@ == hyphenated_text(ch.uuid) && t.role@ == role_spec(ch.kind)
}

/// Whether a directive removes the modules of the channel.
pub open spec fn destroys(d: Directive, ch: ChannelRoute) -> bool {
    match d {
        Directive::DestroyModule { target_tag } => tag_ok(target_tag, ch),
        _ => false,
    }
}

fn copy_tag(t: &RewireableTag) -> (r: RewireableTag)
    ensures
        r == *t,
{
    RewireableTag { channel_uuid: t.channel_uuid.clone(), role: t.role.clone() }
}

fn channel_tag(ch: &ChannelRoute) -> (t: RewireableTag)
    ensures
        tag_ok(t, *ch),
{
    RewireableTag { channel_uuid: hyphenated_uuid(ch.uuid), role: role_for_kind(ch.kind).to_owned() }
}

fn any_active_of(effects: &Vec<Effect>) -> (r: bool)
    ensures
        r == any_active(effects@.map_values(|e: Effect| e@)),
{
    let ghost es = effects@.map_values(|e: Effect| e@);
    let mut i: usize = 0;
    while i < effects.len()
        invariant
            i <= effects@.len(),
            es == effects@.map_values(|e: Effect| e@),
            forall|j: int| 0 <= j < i ==> (#[trigger] es[j]).bypassed,
        decreases effects@.len() - i,
    {
        if !effects[i].bypassed {
            assert(!es[i as int].bypassed);
            return true;
        }
        i = i + 1;
    }
    false
}

/// Whether every mix of a channel names a node pair for each of its sinks.
pub open spec fn routes_ok(ch: ChannelRoute) -> bool {
    forall|k: int| 0 <= k < ch.mixes@.len() ==> mix_ok(#[trigger] ch.mixes@[k])
}

/// Whether `r` carries out the plan for a channel with these effects: the
/// removal of its old modules where there is any, then its loopbacks in
/// route order, all tagged alike.
pub open spec fn directives_ok(ch: ChannelRoute, effects: Seq<EffectView>, r: Seq<Directive>) -> bool {
    match plan_spec(ch, effects) {
        Plan::Nothing => r.len() == 0,
        Plan::DestroyOnly => r.len() == 1 && destroys(r[0], ch),
        Plan::Routes(rs) => {
            &&& r.len() == rs.len() + 1
            &&& destroys(r[0], ch)
            &&& exists|t: RewireableTag| tag_ok(t, ch) && forall|i: int| 0 <= i < rs.len() ==> is_loopback(#[trigger] r[i + 1], rs[i], t)
        },
    }
}

/// The directives for one channel: none for a physical input without a
/// device; the removal of its old modules alone when no effect is active;
/// otherwise that removal, then one loopback per route, all tagged.
pub fn build_directives_for_channel(ch: &ChannelRoute, effects: &Vec<Effect>) -> (r: Vec<Directive>)
    requires
        routes_ok(*ch),
    ensures
        directives_ok(*ch, effects@.map_values(|e: Effect| e@), r@),
{
    if ch.kind == ChannelKind::PhysicalInput && ch.physical_source.as_str().unicode_len() == 0 {
        return Vec::new();
    }
    let tag = channel_tag(ch);
    let mut out: Vec<Directive> = Vec::new();
    out.push(Directive::DestroyModule { target_tag: copy_tag(&tag) });
    if !any_active_of(effects) {
        return out;
    }
    let routes = channel_routes(ch);
    let ghost rs = routes_spec(*ch);
    let mut i: usize = 0;
    while i < routes.len()
        invariant
            i <= routes@.len(),
            routes@.map_values(|x: Route| x@) == rs,
            out@.len() == i + 1,
            destroys(out@[0], *ch),
            tag_ok(tag, *ch),
            forall|j: int| 0 <= j < i ==> is_loopback(#[trigger] out@[j + 1], rs[j], tag),
        decreases routes@.len() - i,
    {
        let d = loopback(&routes[i], &tag);
        assert(routes@[i as int]@ == rs[i as int]);
        let ghost o0 = out@;
        out.push(d);
        assert forall|j: int| 0 <= j < i + 1 implies is_loopback(#[trigger] out@[j + 1], rs[j], tag) by {
            if j < i {
                assert(out@[j + 1] == o0[j + 1]);
            }
        }
        i = i + 1;
    }
    out
}

/// Whether a channel's saved chain calls for directives at all: it has
/// effects and is not bypassed as a whole.
pub fn chain_should_apply(effects: &Vec<Effect>, chain_bypassed: bool) -> (r: bool)
    ensures
        r == (effects@.len() > 0 && !chain_bypassed),
{
    effects.len() > 0 && !chain_bypassed
}

/// A channel as the contributor reads it from the host's configuration: its
/// routes, and the effects data attached to it (empty where none is
/// attached or it cannot be read).
pub struct ContributedChannel {
    pub route: ChannelRoute,
    pub data: ChannelEffectsData,
}

/// Whether a channel's attached chain calls for directives.
pub open spec fn applies(c: ContributedChannel) -> bool {
    c.data.effects@.len() > 0 && !c.data.chain_bypassed
}

/// The blocks of directives one after another.
pub open spec fn flatten_blocks(blocks: Seq<Seq<Directive>>) -> Seq<Directive>
    decreases blocks.len(),
{
    if blocks.len() == 0 {
        Seq::empty()
    } else {
        flatten_blocks(blocks.drop_last()) + blocks.last()
    }
}

/// Whether `blocks` holds, for each channel, its directives where its chain
/// applies and nothing where it does not.
pub open spec fn blocks_ok(channels: Seq<ContributedChannel>, blocks: Seq<Seq<Directive>>) -> bool {
    &&& blocks.len() == channels.len()
    &&& forall|i: int|
        0 <= i < channels.len() ==> if applies(#[trigger] channels[i]) {
            directives_ok(channels[i].route, channels[i].data.effects@.map_values(|e: Effect| e@), blocks[i])
        } else {
            blocks[i].len() == 0
        }
}

/// The directives for the whole configuration: those of every channel whose
/// attached chain applies, channel after channel.
pub fn build_all_directives(channels: &Vec<ContributedChannel>) -> (r: Vec<Directive>)
    requires
        forall|k: int| 0 <= k < channels@.len() ==> routes_ok(#[trigger] channels@[k].route),
    ensures
        exists|blocks: Seq<Seq<Directive>>| #[trigger] blocks_ok(channels@, blocks) && r@ == flatten_blocks(blocks),
{
    let mut out: Vec<Directive> = Vec::new();
    let ghost mut blocks: Seq<Seq<Directive>> = Seq::empty();
    let mut i: usize = 0;
    while i < channels.len()
        invariant
            i <= channels@.len(),
            forall|k: int| 0 <= k < channels@.len() ==> routes_ok(#[trigger] channels@[k].route),
            blocks_ok(channels@.take(i as int), blocks),
            out@ == flatten_blocks(blocks),
        decreases channels@.len() - i,
    {
        let c = &channels[i];
        let ghost b0 = blocks;
        if chain_should_apply(&c.data.effects, c.data.chain_bypassed) {
            let mut d = build_directives_for_channel(&c.route, &c.data.effects);
            let ghost dv = d@;
            out.append(&mut d);
            proof {
                blocks = b0.push(dv);
            }
        } else {
            proof {
                blocks = b0.push(Seq::<Directive>::empty());
            }
        }
        proof {
            assert(blocks.drop_last() =~= b0);
            assert(out@ =~= flatten_blocks(blocks));
            let cs = channels@.take(i + 1);
            assert(cs.drop_last() =~= channels@.take(i as int));
            assert forall|k: int| 0 <= k < cs.len() implies (if applies(#[trigger] cs[k]) {
                directives_ok(cs[k].route, cs[k].data.effects@.map_values(|e: Effect| e@), blocks[k])
            } else {
                blocks[k].len() == 0
            }) by {
                if k < i {
                    assert(cs[k] == channels@.take(i as int)[k]);
                    assert(blocks[k] == b0[k]);
                }
            }
        }
        i = i + 1;
    }
    assert(channels@.take(channels@.len() as int) =~= channels@);
    out
}

} // verus!
