//! The audition's looping player: how it names its playback node, which of
//! that node's output ports it links into the channel's engine client, and
//! when it restarts or gives up. Spawning the player and running `pw-link`
//! are left to the caller.
use vstd::prelude::*;
use crate::framing::{trim, trim_text};
use crate::ids::{target_suffix, uuid_from_target};
use crate::install::{lines_of, lines_spec};
use crate::text::{concat3, contains_seq, contains_str, range_is};

verus! {

/// `a` sorts before `b` with the first difference at `k`: the texts agree
/// below `k`, and at `k` either `a` has the smaller char or `a` has ended
/// while `b` goes on.
pub open spec fn text_lt_at(a: Seq<char>, b: Seq<char>, k: int) -> bool {
    &&& 0 <= k <= a.len()
    &&& k <= b.len()
    &&& forall|j: int| 0 <= j < k ==> a[j] == b[j]
    &&& ((k < a.len() && k < b.len() && (a[k] as u32) < (b[k] as u32)) || (k == a.len() && k < b.len()))
}

/// `a` sorts before `b` as `str` orders text (UTF-8 byte order, which is the
/// order of the chars' code points, a proper prefix first).
pub open spec fn text_lt(a: Seq<char>, b: Seq<char>) -> bool {
    exists|k: int| #[trigger] text_lt_at(a, b, k)
}

/// Sorting before is transitive.
pub proof fn lemma_text_lt_transitive(a: Seq<char>, b: Seq<char>, c: Seq<char>)
    requires
        text_lt(a, b),
        text_lt(b, c),
    ensures
        text_lt(a, c),
{
    let k1 = choose|k: int| #[trigger] text_lt_at(a, b, k);
    let k2 = choose|k: int| #[trigger] text_lt_at(b, c, k);
    let k = if k1 < k2 { k1 } else { k2 };
    assert forall|j: int| 0 <= j < k implies a[j] == c[j] by {
        assert(a[j] == b[j]);
        assert(b[j] == c[j]);
    }
    if k1 < k2 {
        if k1 < a.len() {
            assert(b[k1] == c[k1]);
        }
    } else if k2 < k1 {
        assert(a[k2] == b[k2]);
    }
    assert(text_lt_at(a, c, k));
}

/// Nothing sorts before itself.
pub proof fn lemma_text_lt_irreflexive(a: Seq<char>)
    ensures
        !text_lt(a, a),
{
    assert forall|k: int| !text_lt_at(a, a, k) by {}
}

/// Whether `a` sorts before `b`.
pub fn text_less(a: &str, b: &str) -> (r: bool)
    ensures
        r == text_lt(a@, b@),
{
    let n = a.unicode_len();
    let m = b.unicode_len();
    let mut i: usize = 0;
    while i < n && i < m && a.get_char(i) == b.get_char(i)
        invariant
            n == a@.len(),
            m == b@.len(),
            i <= n,
            i <= m,
            forall|j: int| 0 <= j < i ==> a@[j] == b@[j],
        decreases n - i,
    {
        i = i + 1;
    }
    if i < n && i < m {
        let ca = a.get_char(i);
        let cb = b.get_char(i);
        let r = (ca as u32) < (cb as u32);
        proof {
            if r {
                assert(text_lt_at(a@, b@, i as int));
            } else {
                assert forall|k: int| !text_lt_at(a@, b@, k) by {
                    if text_lt_at(a@, b@, k) && k > i {
                        assert(a@[i as int] == b@[i as int]);
                    }
                }
            }
        }
        r
    } else if i == n && i < m {
        proof {
            assert(text_lt_at(a@, b@, i as int));
        }
        true
    } else {
        proof {
            assert forall|k: int| !text_lt_at(a@, b@, k) by {}
        }
        false
    }
}

/// Whether `s` begins with `p`.
pub open spec fn starts_with(s: Seq<char>, p: Seq<char>) -> bool {
    p.len() <= s.len() && s.subrange(0, p.len() as int) == p
}

/// The text every port of `node` begins with: the node's name and a colon.
pub open spec fn port_prefix(node: Seq<char>) -> Seq<char> {
    node.push(':')
}

/// The ports of `node` among `lines`, each trimmed, in the order listed.
pub open spec fn ports_among(lines: Seq<Seq<char>>, node: Seq<char>) -> Seq<Seq<char>>
    decreases lines.len(),
{
    if lines.len() == 0 {
        Seq::<Seq<char>>::empty()
    } else {
        let rest = ports_among(lines.drop_last(), node);
        let t = trim(lines.last());
        if starts_with(t, port_prefix(node)) {
            rest.push(t)
        } else {
            rest
        }
    }
}

/// The output ports of `node` that a `pw-link -o` listing names.
pub open spec fn listed_ports(listing: Seq<char>, node: Seq<char>) -> Seq<Seq<char>> {
    ports_among(lines_spec(listing), node)
}

/// The output ports of `node` that a `pw-link -o` listing names, in the
/// order listed.
pub fn node_ports(listing: &str, node: &str) -> (r: Vec<String>)
    ensures
        r@.map_values(|p: String| p@) == listed_ports(listing@, node@),
{
    let lines = lines_of(listing);
    let prefix = concat3(node, ":", "");
    proof {
        reveal_strlit(":");
        reveal_strlit("");
        assert(prefix@ =~= port_prefix(node@));
    }
    let ghost ls = lines_spec(listing@);
    let plen = prefix.unicode_len();
    let mut out: Vec<String> = Vec::new();
    let mut i: usize = 0;
    while i < lines.len()
        invariant
            lines@.map_values(|l: String| l@) == ls,
            prefix@ == port_prefix(node@),
            plen == prefix@.len(),
            i <= lines@.len(),
            out@.map_values(|p: String| p@) == ports_among(ls.take(i as int), node@),
        decreases lines.len() - i,
    {
        let t = trim_text(lines[i].as_str());
        let n = t.unicode_len();
        let hit = plen <= n && range_is(t.as_str(), 0, plen, prefix.as_str());
        proof {
            assert(ls.take(i + 1).drop_last() =~= ls.take(i as int));
            assert(ls.take(i + 1).last() == lines@[i as int]@);
        }
        if hit {
            out.push(t);
        }
        proof {
            assert(out@.map_values(|p: String| p@) =~= ports_among(ls.take(i + 1), node@));
        }
        i = i + 1;
    }
    proof {
        assert(ls.take(lines@.len() as int) =~= ls);
    }
    out
}

/// The port at `i` is a least one: nothing among `ports` sorts before it.
pub open spec fn least_at(ports: Seq<Seq<char>>, i: int) -> bool {
    &&& 0 <= i < ports.len()
    &&& forall|k: int| 0 <= k < ports.len() ==> !text_lt(#[trigger] ports[k], ports[i])
}

/// The port at `j` is a least one once the port at `i` is set aside.
pub open spec fn next_least_at(ports: Seq<Seq<char>>, i: int, j: int) -> bool {
    &&& 0 <= j < ports.len()
    &&& j != i
    &&& forall|k: int| 0 <= k < ports.len() && k != i ==> !text_lt(#[trigger] ports[k], ports[j])
}

/// `left` and `right` are the first two of `ports` in sorted order; a lone
/// port is both.
pub open spec fn feeds(ports: Seq<Seq<char>>, left: Seq<char>, right: Seq<char>) -> bool {
    exists|i: int|
        #[trigger] least_at(ports, i) && left == ports[i] && (if ports.len() == 1 {
            right == left
        } else {
            exists|j: int| #[trigger] next_least_at(ports, i, j) && right == ports[j]
        })
}

/// The positions of the first two of `ports` in sorted order (the same
/// position twice for a lone port).
fn first_two_sorted(ports: &Vec<String>) -> (r: (usize, usize))
    requires
        ports.len() > 0,
    ensures
        least_at(ports@.map_values(|p: String| p@), r.0 as int),
        ports.len() == 1 ==> r.1 == r.0,
        ports.len() > 1 ==> next_least_at(ports@.map_values(|p: String| p@), r.0 as int, r.1 as int),
{
    let ghost ps = ports@.map_values(|p: String| p@);
    let mut i0: usize = 0;
    let mut i1: usize = 0;
    let mut k: usize = 1;
    proof {
        lemma_text_lt_irreflexive(ps[0]);
    }
    while k < ports.len()
        invariant
            ps == ports@.map_values(|p: String| p@),
            1 <= k <= ports.len(),
            i0 < k,
            forall|x: int| 0 <= x < k ==> !text_lt(#[trigger] ps[x], ps[i0 as int]),
            k == 1 ==> i1 == i0,
            k >= 2 ==> i1 < k && i1 != i0,
            k >= 2 ==> forall|x: int| 0 <= x < k && x != i0 ==> !text_lt(#[trigger] ps[x], ps[i1 as int]),
        decreases ports.len() - k,
    {
        let q = ports[k].as_str();
        proof {
            lemma_text_lt_irreflexive(ps[k as int]);
        }
        if text_less(q, ports[i0].as_str()) {
            proof {
                assert forall|x: int| 0 <= x < k + 1 implies !text_lt(#[trigger] ps[x], ps[k as int]) by {
                    if x < k && text_lt(ps[x], ps[k as int]) {
                        lemma_text_lt_transitive(ps[x], ps[k as int], ps[i0 as int]);
                    }
                }
            }
            i1 = i0;
            i0 = k;
        } else if k == 1 || text_less(q, ports[i1].as_str()) {
            proof {
                if k >= 2 {
                    assert forall|x: int| 0 <= x < k + 1 && x != i0 implies !text_lt(
                        #[trigger] ps[x],
                        ps[k as int],
                    ) by {
                        if x < k && text_lt(ps[x], ps[k as int]) {
                            lemma_text_lt_transitive(ps[x], ps[k as int], ps[i1 as int]);
                        }
                    }
                }
            }
            i1 = k;
        }
        k = k + 1;
    }
    (i0, i1)
}

/// The links that feed an audition player's output into a channel's
/// engine client: the first two of the player's ports in sorted order go to
/// the client's left and right inputs, and a lone port feeds both. `None`
/// while the listing names no port of the player yet.
pub fn audition_link_pairs(listing: &str, cat_node: &str, fx_node: &str) -> (r: Option<Vec<(String, String)>>)
    ensures
        match r {
            None => listed_ports(listing@, cat_node@).len() == 0,
            Some(pairs) => {
                let ports = listed_ports(listing@, cat_node@);
                &&& ports.len() > 0
                &&& pairs@.len() == 2
                &&& feeds(ports, pairs@[0].0@, pairs@[1].0@)
                &&& pairs@[0].1@ == fx_node@ + ":in_FL"@
                &&& pairs@[1].1@ == fx_node@ + ":in_FR"@
            },
        },
{
    let ports = node_ports(listing, cat_node);
    if ports.len() == 0 {
        return None;
    }
    let ghost ps = ports@.map_values(|p: String| p@);
    let (a, b) = first_two_sorted(&ports);
    let left = ports[a].clone();
    let right = ports[b].clone();
    proof {
        assert(left@ == ps[a as int]);
        assert(right@ == ps[b as int]);
        assert(least_at(ps, a as int));
        if ps.len() > 1 {
            assert(next_least_at(ps, a as int, b as int));
        }
        assert(feeds(ps, left@, right@));
    }
    let fl = concat3(fx_node, ":in_FL", "");
    let fr = concat3(fx_node, ":in_FR", "");
    proof {
        reveal_strlit("");
        assert(fl@ =~= fx_node@ + ":in_FL"@);
        assert(fr@ =~= fx_node@ + ":in_FR"@);
    }
    let mut pairs: Vec<(String, String)> = Vec::new();
    pairs.push((left, fl));
    pairs.push((right, fr));
    Some(pairs)
}

/// Whether one `pw-link` call left its link in place: it succeeded, or it
/// failed only because the link was already there.
pub fn link_succeeded(exited_ok: bool, stderr: &str) -> (r: bool)
    ensures
        r == (exited_ok || contains_seq(stderr@, "File exists"@)),
{
    exited_ok || contains_str(stderr, "File exists")
}

/// How often the player's ports are looked up and linked before the caller
/// gives up, and the pause between two tries.
pub const LINK_ATTEMPTS: u32 = 30u32;
pub const LINK_RETRY_MS: u64 = 200u64;

/// The name of the playback node that auditions into the engine client
/// `target`.
pub open spec fn player_node_spec(target: Seq<char>) -> Seq<char> {
    "tideline-audition-"@ + target_suffix(target)
}

pub fn player_node_name(target: &str) -> (r: String)
    ensures
        r@ == player_node_spec(target@),
{
    let suffix = uuid_from_target(target);
    let r = concat3("tideline-audition-", suffix.as_str(), "");
    proof {
        reveal_strlit("");
        assert(r@ =~= player_node_spec(target@));
    }
    r
}

/// The stream properties the player is started with: its node name, and no
/// automatic connection to the default output.
pub fn player_node_props(node: &str) -> (r: String)
    ensures
        r@ == "node.name="@ + node@ + ",node.autoconnect=false"@,
{
    concat3("node.name=", node, ",node.autoconnect=false")
}

/// How one run of the player process ended.
#[derive(Debug, Clone, Copy, PartialEq, Eq, Structural)]
pub enum PlayerExit {
    /// The process could not be started.
    SpawnFailed,
    /// It played the sample through and exited cleanly.
    Finished,
    /// It exited with a failure status.
    ExitedWithError,
    /// Waiting for it failed.
    WaitFailed,
}

/// What the player loop does after a run.
#[derive(Debug, Clone, Copy, PartialEq, Eq, Structural)]
pub enum PlayerStep {
    /// Start the player again after this many milliseconds.
    Restart { delay_ms: u64 },
    /// Stop looping.
    GiveUp,
}

/// The number of failures in a row the loop tolerates.
pub const PLAYER_FAILURE_LIMIT: u32 = 5u32;
pub const SPAWN_RETRY_MS: u64 = 500u64;
pub const EXIT_RETRY_MS: u64 = 200u64;

/// The failure count after a run, and the next step: a clean run clears the
/// count and restarts at once; a failed start or a failed exit adds one and
/// gives up past the limit; a failed wait retries without counting.
pub open spec fn player_next_spec(failures: nat, exit: PlayerExit) -> (nat, PlayerStep) {
    match exit {
        PlayerExit::Finished => (0, PlayerStep::Restart { delay_ms: 0 }),
        PlayerExit::WaitFailed => (failures, PlayerStep::Restart { delay_ms: EXIT_RETRY_MS }),
        PlayerExit::SpawnFailed => if failures + 1 > PLAYER_FAILURE_LIMIT {
            (failures + 1, PlayerStep::GiveUp)
        } else {
            (failures + 1, PlayerStep::Restart { delay_ms: SPAWN_RETRY_MS })
        },
        PlayerExit::ExitedWithError => if failures + 1 > PLAYER_FAILURE_LIMIT {
            (failures + 1, PlayerStep::GiveUp)
        } else {
            (failures + 1, PlayerStep::Restart { delay_ms: EXIT_RETRY_MS })
        },
    }
}

/// The loop's next step after a run, from the failures counted so far.
pub fn next_player_step(failures: u32, exit: PlayerExit) -> (r: (u32, PlayerStep))
    requires
        failures <= PLAYER_FAILURE_LIMIT,
    ensures
        (r.0 as nat, r.1) == player_next_spec(failures as nat, exit),
{
    match exit {
        PlayerExit::Finished => (0, PlayerStep::Restart { delay_ms: 0 }),
        PlayerExit::WaitFailed => (failures, PlayerStep::Restart { delay_ms: EXIT_RETRY_MS }),
        PlayerExit::SpawnFailed => {
            let f = failures + 1;
            if f > PLAYER_FAILURE_LIMIT {
                (f, PlayerStep::GiveUp)
            } else {
                (f, PlayerStep::Restart { delay_ms: SPAWN_RETRY_MS })
            }
        },
        PlayerExit::ExitedWithError => {
            let f = failures + 1;
            if f > PLAYER_FAILURE_LIMIT {
                (f, PlayerStep::GiveUp)
            } else {
                (f, PlayerStep::Restart { delay_ms: EXIT_RETRY_MS })
            }
        },
    }
}

/// Whenever the loop goes on, its failure count stays within the limit, so
/// the next step can always be taken; and it gives up exactly on the failure
/// that takes the count past the limit.
pub proof fn law_player_count_bounded(failures: nat, exit: PlayerExit)
    requires
        failures <= PLAYER_FAILURE_LIMIT,
    ensures
        player_next_spec(failures, exit).1 is Restart ==> player_next_spec(failures, exit).0 <= PLAYER_FAILURE_LIMIT,
        player_next_spec(failures, exit).1 is GiveUp <==> (failures == PLAYER_FAILURE_LIMIT && (exit
            == PlayerExit::SpawnFailed || exit == PlayerExit::ExitedWithError)),
{
}

/// Six failed runs in a row, from a clean start, end the loop, and no fewer
/// do.
pub proof fn law_player_gives_up_after_six_failures(exit: PlayerExit)
    requires
        exit == PlayerExit::SpawnFailed || exit == PlayerExit::ExitedWithError,
    ensures
        forall|n: nat| n < 6 ==> player_next_spec(n, exit).1 is Restart || n == PLAYER_FAILURE_LIMIT,
        player_next_spec(PLAYER_FAILURE_LIMIT as nat, exit).1 is GiveUp,
{
}

} // verus!
