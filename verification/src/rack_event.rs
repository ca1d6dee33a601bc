//! What a click or drop in the effects rack asks for.
use vstd::prelude::*;
use crate::ids::{parse_uuid, uuid_parse};
use crate::text::{concat3, find_char, first_from, lemma_first_from_bounds, split_once, str_is,
    strip_prefix, strip_prefix_of, substring};

verus! {

/// The parts of an event's value that the rack reads.
#[derive(Debug, Clone)]
pub struct RackEventValue {
    /// The value, where it is a string.
    pub text: Option<String>,
    /// The value, where it is a boolean.
    pub flag: Option<bool>,
    /// The value's `type` field, where it is a string.
    pub drop_type: Option<String>,
    /// The value's `from_id` field, where it is a string.
    pub from_id: Option<String>,
}

pub struct RackEventValueView {
    pub text: Option<Seq<char>>,
    pub flag: Option<bool>,
    pub drop_type: Option<Seq<char>>,
    pub from_id: Option<Seq<char>>,
}

pub open spec fn opt_view(o: Option<String>) -> Option<Seq<char>> {
    match o {
        Some(s) => Some(s@),
        None => None,
    }
}

impl View for RackEventValue {
    type V = RackEventValueView;

    open spec fn view(&self) -> RackEventValueView {
        RackEventValueView {
            text: opt_view(self.text),
            flag: self.flag,
            drop_type: opt_view(self.drop_type),
            from_id: opt_view(self.from_id),
        }
    }
}

/// The change a rack event asks for.
#[derive(Debug, Clone, PartialEq, Eq)]
pub enum RackAction {
    /// Add the catalog plugin with this URI to the channel.
    Add { uri: String },
    /// Remove an effect from the channel.
    Remove { effect: u128 },
    /// Move `source` to just before `target` in the channel's order.
    Reorder { source: u128, target: u128 },
    /// A drop of a row onto itself: nothing to do.
    Unchanged,
    /// Set whether one effect is bypassed.
    Bypass { effect: u128, bypassed: bool },
    /// Set whether the whole chain is bypassed.
    ChainBypass { bypassed: bool },
    /// Open an effect's own editor window.
    Open { effect: u128 },
    /// Forget the plugin cache and scan again.
    Rescan,
}

pub enum RackActionView {
    Add { uri: Seq<char> },
    Remove { effect: u128 },
    Reorder { source: u128, target: u128 },
    Unchanged,
    Bypass { effect: u128, bypassed: bool },
    ChainBypass { bypassed: bool },
    Open { effect: u128 },
    Rescan,
}

impl View for RackAction {
    type V = RackActionView;

    open spec fn view(&self) -> RackActionView {
        match self {
            RackAction::Add { uri } => RackActionView::Add { uri: uri@ },
            RackAction::Remove { effect } => RackActionView::Remove { effect: *effect },
            RackAction::Reorder { source, target } => RackActionView::Reorder { source: *source, target: *target },
            RackAction::Unchanged => RackActionView::Unchanged,
            RackAction::Bypass { effect, bypassed } => RackActionView::Bypass { effect: *effect, bypassed: *bypassed },
            RackAction::ChainBypass { bypassed } => RackActionView::ChainBypass { bypassed: *bypassed },
            RackAction::Open { effect } => RackActionView::Open { effect: *effect },
            RackAction::Rescan => RackActionView::Rescan,
        }
    }
}

/// A menu button reports its own id and the chosen item as a string value;
/// the chosen item is then the node that was meant.
pub open spec fn effective_node(node: Seq<char>, v: RackEventValueView) -> Seq<char> {
    if node == "add_effect"@ && v.text is Some {
        v.text.unwrap()
    } else {
        node
    }
}

/// The event kind before the first `:` and the argument after it.
pub open spec fn kind_and_rest(e: Seq<char>) -> (Seq<char>, Seq<char>) {
    match split_once(e, ':') {
        Some(p) => p,
        None => (e, Seq::empty()),
    }
}

/// A toggle reports whether it is now on; a missing flag counts as on.
pub open spec fn toggled_on(v: RackEventValueView) -> bool {
    match v.flag {
        Some(b) => b,
        None => true,
    }
}

pub open spec fn decode_drop(rest: Seq<char>, v: RackEventValueView) -> Result<RackActionView, Seq<char>> {
    let dt = match v.drop_type {
        Some(t) => t,
        None => Seq::empty(),
    };
    if dt != "drop"@ {
        Err("unsupported rack-row event type "@ + dt)
    } else {
        match uuid_parse(rest) {
            None => Err("bad target effect id "@ + rest),
            Some(target) => match v.from_id {
                None => Err("drop event missing from_id"@),
                Some(f) => match strip_prefix(f, "rack-row:"@) {
                    None => Err("from_id has unexpected shape "@ + f),
                    Some(fr) => match uuid_parse(fr) {
                        None => Err("bad source effect id "@ + fr),
                        Some(source) => if source == target {
                            Ok(RackActionView::Unchanged)
                        } else {
                            Ok(RackActionView::Reorder { source, target })
                        },
                    },
                },
            },
        }
    }
}

/// The action a rack event asks for, or the message of the
/// invalid-parameters error it is answered with.
pub open spec fn decode_spec(node: Seq<char>, v: RackEventValueView) -> Result<RackActionView, Seq<char>> {
    let (kind, rest) = kind_and_rest(effective_node(node, v));
    if kind == "add"@ {
        Ok(RackActionView::Add { uri: rest })
    } else if kind == "remove"@ {
        match uuid_parse(rest) {
            Some(id) => Ok(RackActionView::Remove { effect: id }),
            None => Err("bad effect id "@ + rest),
        }
    } else if kind == "rack-row"@ {
        decode_drop(rest, v)
    } else if kind == "bypass"@ {
        match uuid_parse(rest) {
            Some(id) => Ok(RackActionView::Bypass { effect: id, bypassed: !toggled_on(v) }),
            None => Err("bad effect id "@ + rest),
        }
    } else if kind == "chain_bypass"@ {
        Ok(RackActionView::ChainBypass { bypassed: !toggled_on(v) })
    } else if kind == "open"@ {
        match uuid_parse(rest) {
            Some(id) => Ok(RackActionView::Open { effect: id }),
            None => Err("bad effect id "@ + rest),
        }
    } else if kind == "rescan"@ {
        Ok(RackActionView::Rescan)
    } else {
        Err("unknown rack event "@ + node)
    }
}

fn opt_text(o: &Option<String>) -> (r: String)
    ensures
        r@ == (match opt_view(*o) {
            Some(t) => t,
            None => Seq::<char>::empty(),
        }),
{
    match o {
        Some(t) => t.clone(),
        None => String::new(),
    }
}

fn kind_and_rest_of(e: &str) -> (r: (String, String))
    ensures
        (r.0@, r.1@) == kind_and_rest(e@),
{
    let n = e.unicode_len();
    match find_char(e, ':') {
        Some(i) => {
            proof {
                lemma_first_from_bounds(e@, ':', 0);
            }
            (substring(e, 0, i), substring(e, i + 1, n))
        },
        None => {
            let whole = substring(e, 0, n);
            proof {
                assert(e@.subrange(0, n as int) =~= e@);
            }
            (whole, String::new())
        },
    }
}

fn decode_drop_of(rest: &str, value: &RackEventValue) -> (r: Result<RackAction, String>)
    ensures
        match r {
            Ok(a) => decode_drop(rest@, value@) == Ok::<RackActionView, Seq<char>>(a@),
            Err(m) => decode_drop(rest@, value@) == Err::<RackActionView, Seq<char>>(m@),
        },
{
    proof {
        reveal_strlit("");
    }
    let dt = opt_text(&value.drop_type);
    if !str_is(dt.as_str(), "drop") {
        return Err(concat3("unsupported rack-row event type ", dt.as_str(), ""));
    }
    let target = match parse_uuid(rest) {
        Some(t) => t,
        None => {
            return Err(concat3("bad target effect id ", rest, ""));
        },
    };
    let from = match &value.from_id {
        Some(f) => f,
        None => {
            return Err("drop event missing from_id".to_owned());
        },
    };
    let from_rest = match strip_prefix_of(from.as_str(), "rack-row:") {
        Some(fr) => fr,
        None => {
            return Err(concat3("from_id has unexpected shape ", from.as_str(), ""));
        },
    };
    let source = match parse_uuid(from_rest.as_str()) {
        Some(s) => s,
        None => {
            return Err(concat3("bad source effect id ", from_rest.as_str(), ""));
        },
    };
    if source == target {
        Ok(RackAction::Unchanged)
    } else {
        Ok(RackAction::Reorder { source, target })
    }
}

/// Decodes a rack event from its node id and value.
pub fn decode_rack_event(node_id: &str, value: &RackEventValue) -> (r: Result<RackAction, String>)
    ensures
        match r {
            Ok(a) => decode_spec(node_id@, value@) == Ok::<RackActionView, Seq<char>>(a@),
            Err(m) => decode_spec(node_id@, value@) == Err::<RackActionView, Seq<char>>(m@),
        },
{
    proof {
        reveal_strlit("");
    }
    let effective: String = if str_is(node_id, "add_effect") && value.text.is_some() {
        opt_text(&value.text)
    } else {
        node_id.to_owned()
    };
    let (kind, rest) = kind_and_rest_of(effective.as_str());
    let k = kind.as_str();
    let toggle = match value.flag {
        Some(b) => b,
        None => true,
    };
    if str_is(k, "add") {
        Ok(RackAction::Add { uri: rest })
    } else if str_is(k, "remove") {
        match parse_uuid(rest.as_str()) {
            Some(id) => Ok(RackAction::Remove { effect: id }),
            None => Err(concat3("bad effect id ", rest.as_str(), "")),
        }
    } else if str_is(k, "rack-row") {
        decode_drop_of(rest.as_str(), value)
    } else if str_is(k, "bypass") {
        match parse_uuid(rest.as_str()) {
            Some(id) => Ok(RackAction::Bypass { effect: id, bypassed: !toggle }),
            None => Err(concat3("bad effect id ", rest.as_str(), "")),
        }
    } else if str_is(k, "chain_bypass") {
        Ok(RackAction::ChainBypass { bypassed: !toggle })
    } else if str_is(k, "open") {
        match parse_uuid(rest.as_str()) {
            Some(id) => Ok(RackAction::Open { effect: id }),
            None => Err(concat3("bad effect id ", rest.as_str(), "")),
        }
    } else if str_is(k, "rescan") {
        Ok(RackAction::Rescan)
    } else {
        Err(concat3("unknown rack event ", node_id, ""))
    }
}

/// Whether an action changes the channel's chain, so that the channel's
/// data must be written back to the host afterwards.
pub open spec fn mutates_spec(a: RackActionView) -> bool {
    match a {
        RackActionView::Add { .. } => true,
        RackActionView::Remove { .. } => true,
        RackActionView::Reorder { .. } => true,
        RackActionView::Bypass { .. } => true,
        RackActionView::ChainBypass { .. } => true,
        _ => false,
    }
}

impl RackAction {
    pub fn mutates(&self) -> (r: bool)
        ensures
            r == mutates_spec(self@),
    {
        match self {
            RackAction::Add { .. } => true,
            RackAction::Remove { .. } => true,
            RackAction::Reorder { .. } => true,
            RackAction::Bypass { .. } => true,
            RackAction::ChainBypass { .. } => true,
            _ => false,
        }
    }
}

/// The first position at or after `k` where `s` holds `x`.
pub open spec fn first_pos(s: Seq<u128>, x: u128, k: nat) -> Option<nat>
    decreases s.len() - k,
{
    if k >= s.len() {
        None
    } else if s[k as int] == x {
        Some(k)
    } else {
        first_pos(s, x, k + 1)
    }
}

pub proof fn lemma_first_pos(s: Seq<u128>, x: u128, k: nat)
    ensures
        match first_pos(s, x, k) {
            Some(i) => k <= i < s.len() && s[i as int] == x && forall|j: int| k <= j < i ==> s[j] != x,
            None => forall|j: int| k <= j < s.len() ==> s[j] != x,
        },
    decreases s.len() - k,
{
    if k < s.len() && s[k as int] != x {
        lemma_first_pos(s, x, k + 1);
    }
}

fn position_of(v: &Vec<u128>, x: u128) -> (r: Option<usize>)
    ensures
        match r {
            Some(i) => first_pos(v@, x, 0) == Some(i as nat),
            None => first_pos(v@, x, 0).is_none(),
        },
{
    let mut i: usize = 0;
    while i < v.len()
        invariant
            i <= v@.len(),
            first_pos(v@, x, 0) == first_pos(v@, x, i as nat),
        decreases v@.len() - i,
    {
        if v[i] == x {
            return Some(i);
        }
        i = i + 1;
    }
    None
}

/// The order after a drop of `source` onto `target`: `source` leaves its
/// place and goes in just before `target` (at the end where `target` is
/// missing). Nothing, where `source` is not in the order.
pub open spec fn reorder_spec(order: Seq<u128>, source: u128, target: u128) -> Option<Seq<u128>> {
    match first_pos(order, source, 0) {
        None => None,
        Some(i) => {
            let rest = order.remove(i as int);
            let t = match first_pos(rest, target, 0) {
                Some(j) => j,
                None => rest.len(),
            };
            Some(rest.insert(t as int, source))
        },
    }
}

/// Moves `source` to just before `target`, as a drop in the rack does.
pub fn reorder_drop(order: &Vec<u128>, source: u128, target: u128) -> (r: Option<Vec<u128>>)
    ensures
        match r {
            Some(v) => reorder_spec(order@, source, target) == Some(v@),
            None => reorder_spec(order@, source, target).is_none(),
        },
{
    match position_of(order, source) {
        None => None,
        Some(i) => {
            proof {
                lemma_first_pos(order@, source, 0);
            }
            let mut rest = crate::chains::copy_ids(order);
            rest.remove(i);
            let t = match position_of(&rest, target) {
                Some(j) => {
                    proof {
                        lemma_first_pos(rest@, target, 0);
                    }
                    j
                },
                None => rest.len(),
            };
            rest.insert(t, source);
            Some(rest)
        },
    }
}

/// A drop keeps the same ids, each as often as before, and puts the
/// dragged id right in front of the one it was dropped on.
pub proof fn law_reorder_is_move(order: Seq<u128>, source: u128, target: u128)
    requires
        order.contains(source),
        source != target,
    ensures
        reorder_spec(order, source, target) is Some,
        reorder_spec(order, source, target).unwrap().len() == order.len(),
        reorder_spec(order, source, target).unwrap().to_multiset() == order.to_multiset(),
        order.contains(target) ==> exists|t: int|
            0 <= t < order.len() - 1
            && #[trigger] reorder_spec(order, source, target).unwrap()[t] == source
            && reorder_spec(order, source, target).unwrap()[t + 1] == target,
{
    lemma_first_pos(order, source, 0);
    let i = first_pos(order, source, 0).unwrap() as int;
    let rest = order.remove(i);
    lemma_first_pos(rest, target, 0);
    let t: int = match first_pos(rest, target, 0) {
        Some(j) => j as int,
        None => rest.len() as int,
    };
    let out = rest.insert(t, source);
    vstd::seq_lib::to_multiset_insert(rest, t, source);
    vstd::seq_lib::to_multiset_remove(order, i);
    vstd::seq_lib::to_multiset_len(order);
    assert(order.to_multiset().count(source) > 0) by {
        broadcast use vstd::seq_lib::group_to_multiset_ensures;
    }
    assert(out.to_multiset() =~= order.to_multiset()) by {
        broadcast use vstd::multiset::group_multiset_axioms;
    }
    if order.contains(target) {
        let k = choose|k: int| 0 <= k < order.len() && order[k] == target;
        let k2 = if k < i { k } else { k - 1 };
        assert(rest[k2] == target);
        assert(out[t] == source);
        assert(out[t + 1] == rest[t]);
    }
}

/// The title of an effect's editor window.
pub fn window_title(display_name: &str) -> (r: String)
    ensures
        r@ == display_name@ + " — Tideline"@,
{
    let mut r = display_name.to_owned();
    r.append(" — Tideline");
    r
}

} // verus!
