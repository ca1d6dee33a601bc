//! The folders plugins are looked for in: the usual system and home
//! folders of each format, then those the `LV2_PATH`, `VST3_PATH` and
//! `VST_PATH` variables add. Reading the variables and the home folder is
//! left to the caller.
use vstd::prelude::*;
use crate::chains::Format;
use crate::framing::{trim, trim_text};
use crate::text::{concat3, range_is, split_on, split_ranges, ranges_denote, lemma_split_on_nonempty, str_is, substring};

verus! {

/// The segments of a path that name something: not empty and not `.`.
pub open spec fn named_segments(segs: Seq<Seq<char>>) -> Seq<Seq<char>>
    decreases segs.len(),
{
    if segs.len() == 0 {
        Seq::empty()
    } else {
        let r = named_segments(segs.drop_last());
        let x = segs.last();
        if x.len() > 0 && x != "."@ {
            r.push(x)
        } else {
            r
        }
    }
}

/// The components of a Unix path as `Path::components` yields them, each
/// as text: the root as `/` and a leading `.` as `.` where the path starts
/// so, then its segments between separators, without empty ones (repeated
/// or trailing separators) and without `.` ones.
pub open spec fn path_components(p: Seq<char>) -> Seq<Seq<char>> {
    let segs = split_on(p, '/');
    let rest = named_segments(segs);
    if p.len() > 0 && p[0] == '/' {
        seq!["/"@] + rest
    } else if segs.len() > 0 && segs[0] == "."@ {
        seq!["."@] + rest
    } else {
        rest
    }
}

/// Two paths are equal as `Path` compares them: component by component.
pub open spec fn same_path(a: Seq<char>, b: Seq<char>) -> bool {
    path_components(a) == path_components(b)
}

/// The components of a path.
fn components_of(p: &str) -> (r: Vec<String>)
    ensures
        r@.map_values(|s: String| s@) == path_components(p@),
{
    proof {
        reveal_strlit(".");
        reveal_strlit("/");
    }
    let ranges = split_ranges(p, '/');
    let ghost segs = split_on(p@, '/');
    proof {
        lemma_split_on_nonempty(p@, '/');
    }
    let mut rest: Vec<String> = Vec::new();
    let mut i: usize = 0;
    while i < ranges.len()
        invariant
            ranges_denote(p@, ranges@, segs),
            segs == split_on(p@, '/'),
            i <= ranges@.len(),
            rest@.map_values(|s: String| s@) == named_segments(segs.take(i as int)),
        decreases ranges.len() - i,
    {
        let (a, b) = ranges[i];
        proof {
            assert(p@.subrange(a as int, b as int) == segs[i as int]);
            assert(segs.take(i + 1).drop_last() =~= segs.take(i as int));
            assert(segs.take(i + 1).last() == segs[i as int]);
        }
        if b > a && !range_is(p, a, b, ".") {
            let ghost r0 = rest@;
            let seg = substring(p, a, b);
            rest.push(seg);
            proof {
                assert(rest@.map_values(|s: String| s@) =~= r0.map_values(|s: String| s@).push(seg@));
            }
        }
        i = i + 1;
    }
    proof {
        assert(segs.take(ranges@.len() as int) =~= segs);
    }
    let n = p.unicode_len();
    let (a0, b0) = ranges[0];
    proof {
        assert(p@.subrange(a0 as int, b0 as int) == segs[0]);
    }
    if n > 0 && p.get_char(0) == '/' {
        let mut r: Vec<String> = Vec::new();
        r.push("/".to_owned());
        let mut k: usize = 0;
        while k < rest.len()
            invariant
                k <= rest@.len(),
                r@.map_values(|s: String| s@) == seq!["/"@] + rest@.take(k as int).map_values(|s: String| s@),
            decreases rest.len() - k,
        {
            let ghost r0 = r@;
            let x = rest[k].clone();
            r.push(x);
            proof {
                assert(rest@.take(k + 1) =~= rest@.take(k as int).push(rest@[k as int]));
                assert(r@.map_values(|s: String| s@) =~= r0.map_values(|s: String| s@).push(x@));
                assert(seq!["/"@] + rest@.take(k + 1).map_values(|s: String| s@) =~= (seq!["/"@]
                    + rest@.take(k as int).map_values(|s: String| s@)).push(x@));
            }
            k = k + 1;
        }
        proof {
            assert(rest@.take(rest@.len() as int) =~= rest@);
        }
        r
    } else if range_is(p, a0, b0, ".") {
        let mut r: Vec<String> = Vec::new();
        r.push(".".to_owned());
        let mut k: usize = 0;
        while k < rest.len()
            invariant
                k <= rest@.len(),
                r@.map_values(|s: String| s@) == seq!["."@] + rest@.take(k as int).map_values(|s: String| s@),
            decreases rest.len() - k,
        {
            let ghost r0 = r@;
            let x = rest[k].clone();
            r.push(x);
            proof {
                assert(rest@.take(k + 1) =~= rest@.take(k as int).push(rest@[k as int]));
                assert(r@.map_values(|s: String| s@) =~= r0.map_values(|s: String| s@).push(x@));
                assert(seq!["."@] + rest@.take(k + 1).map_values(|s: String| s@) =~= (seq!["."@]
                    + rest@.take(k as int).map_values(|s: String| s@)).push(x@));
            }
            k = k + 1;
        }
        proof {
            assert(rest@.take(rest@.len() as int) =~= rest@);
        }
        r
    } else {
        rest
    }
}

/// Whether two lists of texts are equal, text by text.
fn same_texts(a: &Vec<String>, b: &Vec<String>) -> (r: bool)
    ensures
        r == (a@.map_values(|s: String| s@) == b@.map_values(|s: String| s@)),
{
    let ghost av = a@.map_values(|s: String| s@);
    let ghost bv = b@.map_values(|s: String| s@);
    if a.len() != b.len() {
        proof {
            assert(av.len() != bv.len());
        }
        return false;
    }
    let mut i: usize = 0;
    while i < a.len()
        invariant
            a@.len() == b@.len(),
            i <= a@.len(),
            av == a@.map_values(|s: String| s@),
            bv == b@.map_values(|s: String| s@),
            forall|k: int| 0 <= k < i ==> av[k] == bv[k],
        decreases a.len() - i,
    {
        if !str_is(a[i].as_str(), b[i].as_str()) {
            proof {
                assert(av[i as int] != bv[i as int]);
            }
            return false;
        }
        i = i + 1;
    }
    proof {
        assert(av =~= bv);
    }
    true
}

/// Whether two paths are equal as `Path` compares them.
pub fn paths_equal(a: &str, b: &str) -> (r: bool)
    ensures
        r == same_path(a@, b@),
{
    let ca = components_of(a);
    let cb = components_of(b);
    same_texts(&ca, &cb)
}

/// `dir` with `name` after it, as `PathBuf::join` does on Unix for a
/// relative name: a separator goes between them unless `dir` is empty or
/// already ends with one.
pub open spec fn join_spec(dir: Seq<char>, name: Seq<char>) -> Seq<char> {
    if dir.len() == 0 || dir.last() == '/' {
        dir + name
    } else {
        dir + "/"@ + name
    }
}

fn join(dir: &str, name: &str) -> (r: String)
    ensures
        r@ == join_spec(dir@, name@),
{
    proof {
        reveal_strlit("/");
        reveal_strlit("");
    }
    let n = dir.unicode_len();
    if n == 0 || dir.get_char(n - 1) == '/' {
        let r = concat3(dir, name, "");
        proof {
            assert(r@ =~= join_spec(dir@, name@));
        }
        r
    } else {
        concat3(dir, "/", name)
    }
}

/// The usual folders of each format: two system folders and one in the
/// home folder, LV2 first, then VST3, then VST.
pub open spec fn default_paths(home: Seq<char>) -> Seq<(Format, Seq<char>)> {
    seq![
        (Format::Lv2, "/usr/lib/lv2"@),
        (Format::Lv2, "/usr/local/lib/lv2"@),
        (Format::Lv2, join_spec(home, ".lv2"@)),
        (Format::Vst3, "/usr/lib/vst3"@),
        (Format::Vst3, "/usr/local/lib/vst3"@),
        (Format::Vst3, join_spec(home, ".vst3"@)),
        (Format::Vst2, "/usr/lib/vst"@),
        (Format::Vst2, "/usr/local/lib/vst"@),
        (Format::Vst2, join_spec(home, ".vst"@)),
    ]
}

/// Whether `out` already holds the folder `p` for the format `fmt`.
pub open spec fn listed(out: Seq<(Format, Seq<char>)>, fmt: Format, p: Seq<char>) -> bool {
    exists|i: int| 0 <= i < out.len() && (#[trigger] out[i]).0 == fmt && same_path(out[i].1, p)
}

/// `out` with the folders of a colon-separated list added for `fmt`, in
/// order: each piece trimmed, empty pieces and folders already there for
/// the format skipped.
pub open spec fn add_pieces(out: Seq<(Format, Seq<char>)>, fmt: Format, pieces: Seq<Seq<char>>) -> Seq<(Format, Seq<char>)>
    decreases pieces.len(),
{
    if pieces.len() == 0 {
        out
    } else {
        let o = add_pieces(out, fmt, pieces.drop_last());
        let p = trim(pieces.last());
        if p.len() == 0 || listed(o, fmt, p) {
            o
        } else {
            o.push((fmt, p))
        }
    }
}

/// `out` with the folders a variable lists added, where it is set.
pub open spec fn add_var(out: Seq<(Format, Seq<char>)>, fmt: Format, value: Option<Seq<char>>) -> Seq<(Format, Seq<char>)> {
    match value {
        Some(v) => add_pieces(out, fmt, split_on(v, ':')),
        None => out,
    }
}

/// The folders to scan: the usual ones, then those of `LV2_PATH`,
/// `VST3_PATH` and `VST_PATH`.
pub open spec fn search_paths_spec(
    home: Seq<char>,
    lv2_path: Option<Seq<char>>,
    vst3_path: Option<Seq<char>>,
    vst_path: Option<Seq<char>>,
) -> Seq<(Format, Seq<char>)> {
    add_var(add_var(add_var(default_paths(home), Format::Lv2, lv2_path), Format::Vst3, vst3_path), Format::Vst2, vst_path)
}

pub open spec fn folders(v: Seq<(Format, String)>) -> Seq<(Format, Seq<char>)> {
    v.map_values(|x: (Format, String)| (x.0, x.1@))
}

fn is_listed(out: &Vec<(Format, String)>, fmt: Format, p: &str) -> (r: bool)
    ensures
        r == listed(folders(out@), fmt, p@),
{
    let ghost fs = folders(out@);
    let mut i: usize = 0;
    while i < out.len()
        invariant
            i <= out@.len(),
            fs == folders(out@),
            forall|k: int| 0 <= k < i ==> !((#[trigger] fs[k]).0 == fmt && same_path(fs[k].1, p@)),
        decreases out.len() - i,
    {
        if out[i].0 == fmt && paths_equal(out[i].1.as_str(), p) {
            proof {
                assert(fs[i as int].0 == fmt && same_path(fs[i as int].1, p@));
            }
            return true;
        }
        i = i + 1;
    }
    false
}

fn add_env_paths(out: &mut Vec<(Format, String)>, fmt: Format, value: &str)
    ensures
        folders(final(out)@) == add_pieces(folders(old(out)@), fmt, split_on(value@, ':')),
{
    let ghost start = folders(out@);
    let ranges = split_ranges(value, ':');
    let ghost pieces = split_on(value@, ':');
    let mut i: usize = 0;
    proof {
        assert(pieces.take(0) =~= Seq::<Seq<char>>::empty());
    }
    while i < ranges.len()
        invariant
            ranges_denote(value@, ranges@, pieces),
            pieces == split_on(value@, ':'),
            i <= ranges@.len(),
            folders(out@) == add_pieces(start, fmt, pieces.take(i as int)),
        decreases ranges.len() - i,
    {
        let (a, b) = ranges[i];
        let piece = substring(value, a, b);
        let p = trim_text(piece.as_str());
        proof {
            assert(value@.subrange(a as int, b as int) == pieces[i as int]);
            assert(pieces.take(i + 1).drop_last() =~= pieces.take(i as int));
            assert(pieces.take(i + 1).last() == pieces[i as int]);
        }
        if p.unicode_len() > 0 && !is_listed(out, fmt, p.as_str()) {
            let ghost o0 = out@;
            let ghost pv = p@;
            out.push((fmt, p));
            proof {
                assert(folders(out@) =~= folders(o0).push((fmt, pv)));
            }
        }
        i = i + 1;
    }
    proof {
        assert(pieces.take(ranges@.len() as int) =~= pieces);
    }
}

/// The folders to scan for plugins, each with its format: the usual system
/// and home folders, then the folders that `LV2_PATH`, `VST3_PATH` and
/// `VST_PATH` list (where they are set), without repeats.
pub fn plugin_search_paths(
    home: &str,
    lv2_path: Option<&str>,
    vst3_path: Option<&str>,
    vst_path: Option<&str>,
) -> (r: Vec<(Format, String)>)
    ensures
        folders(r@) == search_paths_spec(
            home@,
            match lv2_path { Some(v) => Some(v@), None => None },
            match vst3_path { Some(v) => Some(v@), None => None },
            match vst_path { Some(v) => Some(v@), None => None },
        ),
{
    let mut out: Vec<(Format, String)> = Vec::new();
    out.push((Format::Lv2, "/usr/lib/lv2".to_owned()));
    out.push((Format::Lv2, "/usr/local/lib/lv2".to_owned()));
    out.push((Format::Lv2, join(home, ".lv2")));
    out.push((Format::Vst3, "/usr/lib/vst3".to_owned()));
    out.push((Format::Vst3, "/usr/local/lib/vst3".to_owned()));
    out.push((Format::Vst3, join(home, ".vst3")));
    out.push((Format::Vst2, "/usr/lib/vst".to_owned()));
    out.push((Format::Vst2, "/usr/local/lib/vst".to_owned()));
    out.push((Format::Vst2, join(home, ".vst")));
    proof {
        assert(folders(out@) =~= default_paths(home@));
    }
    match lv2_path {
        Some(v) => add_env_paths(&mut out, Format::Lv2, v),
        None => {},
    }
    match vst3_path {
        Some(v) => add_env_paths(&mut out, Format::Vst3, v),
        None => {},
    }
    match vst_path {
        Some(v) => add_env_paths(&mut out, Format::Vst2, v),
        None => {},
    }
    out
}

/// How many of a folder's entries count toward the cache check: those whose
/// name does not start with a dot.
pub open spec fn visible_count(names: Seq<Seq<char>>) -> nat
    decreases names.len(),
{
    if names.len() == 0 {
        0
    } else {
        let x = names.last();
        visible_count(names.drop_last()) + if x.len() > 0 && x[0] == '.' {
            0nat
        } else {
            1nat
        }
    }
}

/// The number of entries among `names` that are not hidden.
pub fn visible_entry_count(names: &Vec<String>) -> (r: u64)
    ensures
        r == visible_count(names@.map_values(|s: String| s@)),
{
    let ghost ns = names@.map_values(|s: String| s@);
    let mut r: u64 = 0;
    let mut i: usize = 0;
    while i < names.len()
        invariant
            i <= names@.len(),
            ns == names@.map_values(|s: String| s@),
            r == visible_count(ns.take(i as int)),
            r <= i,
        decreases names.len() - i,
    {
        proof {
            assert(ns.take(i + 1).drop_last() =~= ns.take(i as int));
            assert(ns.take(i + 1).last() == names@[i as int]@);
        }
        let name = names[i].as_str();
        let hidden = name.unicode_len() > 0 && name.get_char(0) == '.';
        if !hidden {
            r = r + 1;
        }
        i = i + 1;
    }
    proof {
        assert(ns.take(names@.len() as int) =~= ns);
    }
    r
}

/// No folder is listed twice for the same format.
pub open spec fn no_repeats(out: Seq<(Format, Seq<char>)>) -> bool {
    forall|i: int, j: int|
        0 <= i < j < out.len() && (#[trigger] out[i]).0 == (#[trigger] out[j]).0 ==> !same_path(out[i].1, out[j].1)
}

proof fn lemma_add_pieces_no_repeats(out: Seq<(Format, Seq<char>)>, fmt: Format, pieces: Seq<Seq<char>>)
    requires
        no_repeats(out),
    ensures
        no_repeats(add_pieces(out, fmt, pieces)),
    decreases pieces.len(),
{
    if pieces.len() > 0 {
        lemma_add_pieces_no_repeats(out, fmt, pieces.drop_last());
        let o = add_pieces(out, fmt, pieces.drop_last());
        let p = trim(pieces.last());
        if !(p.len() == 0 || listed(o, fmt, p)) {
            let n = o.push((fmt, p));
            assert forall|i: int, j: int|
                0 <= i < j < n.len() && (#[trigger] n[i]).0 == (#[trigger] n[j]).0 implies !same_path(n[i].1, n[j].1) by {
                if j == o.len() {
                    assert(n[i] == o[i]);
                    if same_path(o[i].1, p) {
                        assert(listed(o, fmt, p));
                    }
                } else {
                    assert(n[i] == o[i] && n[j] == o[j]);
                }
            }
        }
    }
}

proof fn lemma_split_no_sep(t: Seq<char>, c: char)
    requires
        !t.contains(c),
    ensures
        split_on(t, c) == seq![t],
    decreases t.len(),
{
    if t.len() > 0 {
        assert(!t.drop_last().contains(c)) by {
            if t.drop_last().contains(c) {
                let k = choose|k: int| 0 <= k < t.drop_last().len() && t.drop_last()[k] == c;
                assert(t[k] == c);
            }
        }
        lemma_split_no_sep(t.drop_last(), c);
        assert(t.last() != c) by {
            assert(t[t.len() - 1] == t.last());
        }
        assert(t.drop_last().push(t.last()) =~= t);
        let r = split_on(t.drop_last(), c);
        assert(split_on(t, c) == r.update(r.len() - 1, r.last().push(t.last())));
        assert(split_on(t, c) =~= seq![t]);
    } else {
        assert(t =~= Seq::<char>::empty());
    }
}

proof fn lemma_split_concat(a: Seq<char>, c: char, b: Seq<char>)
    ensures
        split_on(a + seq![c] + b, c) == split_on(a, c) + split_on(b, c),
    decreases b.len(),
{
    lemma_split_on_nonempty(b, c);
    if b.len() == 0 {
        assert(a + seq![c] + b =~= a.push(c));
        assert((a.push(c)).drop_last() =~= a);
        assert(split_on(a, c) + split_on(b, c) =~= split_on(a, c).push(Seq::<char>::empty()));
    } else {
        let b0 = b.drop_last();
        let x = b.last();
        lemma_split_concat(a, c, b0);
        lemma_split_on_nonempty(b0, c);
        let s = a + seq![c] + b;
        assert(s.drop_last() =~= a + seq![c] + b0);
        assert(s.last() == x);
        let l = split_on(a, c);
        let r0 = split_on(b0, c);
        if x == c {
            assert(split_on(b, c) == r0.push(Seq::<char>::empty()));
            assert((l + r0).push(Seq::<char>::empty()) =~= l + r0.push(Seq::<char>::empty()));
        } else {
            assert(split_on(b, c) == r0.update(r0.len() - 1, r0.last().push(x)));
            let lr = l + r0;
            assert(lr.last() == r0.last());
            assert(lr.update(lr.len() - 1, lr.last().push(x)) =~= l + r0.update(r0.len() - 1, r0.last().push(x)));
        }
    }
}

proof fn lemma_named_concat(a: Seq<Seq<char>>, b: Seq<Seq<char>>)
    ensures
        named_segments(a + b) == named_segments(a) + named_segments(b),
    decreases b.len(),
{
    if b.len() == 0 {
        assert(a + b =~= a);
        assert(named_segments(a) + named_segments(b) =~= named_segments(a));
    } else {
        lemma_named_concat(a, b.drop_last());
        assert((a + b).drop_last() =~= a + b.drop_last());
        assert((a + b).last() == b.last());
        let na = named_segments(a);
        let nb0 = named_segments(b.drop_last());
        if b.last().len() > 0 && b.last() != "."@ {
            assert((na + nb0).push(b.last()) =~= na + nb0.push(b.last()));
        }
    }
}

proof fn lemma_named_single(name: Seq<char>)
    requires
        name.len() > 0,
        name != "."@,
    ensures
        named_segments(seq![name]) == seq![name],
{
    let one = seq![name];
    assert(one.drop_last() =~= Seq::<Seq<char>>::empty());
    assert(one.last() == name);
    assert(named_segments(one.drop_last()) == Seq::<Seq<char>>::empty());
    assert(Seq::<Seq<char>>::empty().push(name) =~= one);
}

/// The components of `dir` joined with a name that has no separator and is
/// not `.` end with that name.
proof fn lemma_join_last(dir: Seq<char>, name: Seq<char>)
    requires
        name.len() > 0,
        name != "."@,
        !name.contains('/'),
    ensures
        path_components(join_spec(dir, name)).len() > 0,
        path_components(join_spec(dir, name)).last() == name,
{
    reveal_strlit("/");
    let j = join_spec(dir, name);
    lemma_split_no_sep(name, '/');
    if dir.len() == 0 {
        assert(j =~= name);
        lemma_named_single(name);
        assert(name[0] != '/') by {
            if name[0] == '/' {
                assert(name.contains('/'));
            }
        }
    } else {
        let h = if dir.last() == '/' { dir.drop_last() } else { dir };
        assert(j =~= h + seq!['/'] + name);
        lemma_split_concat(h, '/', name);
        lemma_named_concat(split_on(h, '/'), seq![name]);
        lemma_named_single(name);
        let rest = named_segments(split_on(j, '/'));
        assert(rest == named_segments(split_on(h, '/')).push(name));
    }
}

/// A rooted path made of the segments: a separator before each.
pub open spec fn rooted(segs: Seq<Seq<char>>) -> Seq<char>
    decreases segs.len(),
{
    if segs.len() == 0 {
        Seq::empty()
    } else {
        rooted(segs.drop_last()) + seq!['/'] + segs.last()
    }
}

/// Segments that name something and hold no separator.
pub open spec fn plain_segments(segs: Seq<Seq<char>>) -> bool {
    forall|i: int| 0 <= i < segs.len() ==> (#[trigger] segs[i]).len() > 0 && segs[i] != "."@ && !segs[i].contains('/')
}

proof fn lemma_rooted_split(segs: Seq<Seq<char>>)
    requires
        plain_segments(segs),
    ensures
        split_on(rooted(segs), '/') == seq![Seq::<char>::empty()] + segs,
        named_segments(segs) == segs,
        segs.len() > 0 ==> rooted(segs).len() > 0 && rooted(segs)[0] == '/',
    decreases segs.len(),
{
    if segs.len() == 0 {
        assert(seq![Seq::<char>::empty()] + segs =~= seq![Seq::<char>::empty()]);
    } else {
        let init = segs.drop_last();
        let x = segs.last();
        assert(plain_segments(init)) by {
            assert forall|i: int| 0 <= i < init.len() implies (#[trigger] init[i]).len() > 0 && init[i] != "."@
                && !init[i].contains('/') by {
                assert(init[i] == segs[i]);
            }
        }
        assert(x == segs[segs.len() - 1]);
        lemma_rooted_split(init);
        lemma_split_concat(rooted(init), '/', x);
        lemma_split_no_sep(x, '/');
        assert(seq![Seq::<char>::empty()] + init + seq![x] =~= seq![Seq::<char>::empty()] + segs);
        assert(init.push(x) =~= segs);
        if init.len() == 0 {
            assert(rooted(segs) =~= seq!['/'] + x);
        } else {
            assert(rooted(segs)[0] == rooted(init)[0]);
        }
    }
}

proof fn lemma_rooted_components(segs: Seq<Seq<char>>)
    requires
        plain_segments(segs),
        segs.len() > 0,
    ensures
        path_components(rooted(segs)) == seq!["/"@] + segs,
{
    lemma_rooted_split(segs);
    lemma_named_concat(seq![Seq::<char>::empty()], segs);
    let one = seq![Seq::<char>::empty()];
    assert(named_segments(one) =~= Seq::<Seq<char>>::empty()) by {
        assert(one.drop_last() =~= Seq::<Seq<char>>::empty());
        assert(named_segments(Seq::<Seq<char>>::empty()) =~= Seq::<Seq<char>>::empty());
        assert(one.last() == Seq::<char>::empty());
        assert(one.last().len() == 0);
    }
    assert(Seq::<Seq<char>>::empty() + segs =~= segs);
}

proof fn lemma_system_folder(a: Seq<char>, b: Seq<char>, c: Seq<char>, p: Seq<char>)
    requires
        plain_segments(seq![a, b, c]),
        p == rooted(seq![a, b, c]),
    ensures
        path_components(p) == seq!["/"@, a, b, c],
{
    lemma_rooted_components(seq![a, b, c]);
    assert(seq!["/"@] + seq![a, b, c] =~= seq!["/"@, a, b, c]);
}

proof fn lemma_system_folder4(a: Seq<char>, b: Seq<char>, c: Seq<char>, d: Seq<char>, p: Seq<char>)
    requires
        plain_segments(seq![a, b, c, d]),
        p == rooted(seq![a, b, c, d]),
    ensures
        path_components(p) == seq!["/"@, a, b, c, d],
{
    lemma_rooted_components(seq![a, b, c, d]);
    assert(seq!["/"@] + seq![a, b, c, d] =~= seq!["/"@, a, b, c, d]);
}

proof fn lemma_default_components()
    ensures
        path_components("/usr/lib/lv2"@) == seq!["/"@, "usr"@, "lib"@, "lv2"@],
        path_components("/usr/local/lib/lv2"@) == seq!["/"@, "usr"@, "local"@, "lib"@, "lv2"@],
        path_components("/usr/lib/vst3"@) == seq!["/"@, "usr"@, "lib"@, "vst3"@],
        path_components("/usr/local/lib/vst3"@) == seq!["/"@, "usr"@, "local"@, "lib"@, "vst3"@],
        path_components("/usr/lib/vst"@) == seq!["/"@, "usr"@, "lib"@, "vst"@],
        path_components("/usr/local/lib/vst"@) == seq!["/"@, "usr"@, "local"@, "lib"@, "vst"@],
{
    reveal_strlit("/usr/lib/lv2");
    reveal_strlit("/usr/local/lib/lv2");
    reveal_strlit("/usr/lib/vst3");
    reveal_strlit("/usr/local/lib/vst3");
    reveal_strlit("/usr/lib/vst");
    reveal_strlit("/usr/local/lib/vst");
    reveal_strlit("usr");
    reveal_strlit("local");
    reveal_strlit("lib");
    reveal_strlit("lv2");
    reveal_strlit("vst3");
    reveal_strlit("vst");
    reveal_strlit(".");
    reveal_with_fuel(rooted, 5);
    let (u, l, b) = ("usr"@, "local"@, "lib"@);
    assert forall|x: Seq<char>| #![trigger x.contains('/')]
        x == u || x == l || x == b || x == "lv2"@ || x == "vst3"@ || x == "vst"@ implies !x.contains('/') by {
        if x.contains('/') {
            let k = choose|k: int| 0 <= k < x.len() && x[k] == '/';
        }
    }
    assert(plain_segments(seq![u, b, "lv2"@]));
    assert("/usr/lib/lv2"@ =~= rooted(seq![u, b, "lv2"@]));
    lemma_system_folder(u, b, "lv2"@, "/usr/lib/lv2"@);
    assert(plain_segments(seq![u, l, b, "lv2"@]));
    assert("/usr/local/lib/lv2"@ =~= rooted(seq![u, l, b, "lv2"@]));
    lemma_system_folder4(u, l, b, "lv2"@, "/usr/local/lib/lv2"@);
    assert(plain_segments(seq![u, b, "vst3"@]));
    assert("/usr/lib/vst3"@ =~= rooted(seq![u, b, "vst3"@]));
    lemma_system_folder(u, b, "vst3"@, "/usr/lib/vst3"@);
    assert(plain_segments(seq![u, l, b, "vst3"@]));
    assert("/usr/local/lib/vst3"@ =~= rooted(seq![u, l, b, "vst3"@]));
    lemma_system_folder4(u, l, b, "vst3"@, "/usr/local/lib/vst3"@);
    assert(plain_segments(seq![u, b, "vst"@]));
    assert("/usr/lib/vst"@ =~= rooted(seq![u, b, "vst"@]));
    lemma_system_folder(u, b, "vst"@, "/usr/lib/vst"@);
    assert(plain_segments(seq![u, l, b, "vst"@]));
    assert("/usr/local/lib/vst"@ =~= rooted(seq![u, l, b, "vst"@]));
    lemma_system_folder4(u, l, b, "vst"@, "/usr/local/lib/vst"@);
}

proof fn lemma_defaults_no_repeats(home: Seq<char>)
    ensures
        no_repeats(default_paths(home)),
{
    reveal_strlit(".lv2");
    reveal_strlit(".vst3");
    reveal_strlit(".vst");
    reveal_strlit("lv2");
    reveal_strlit("vst3");
    reveal_strlit("vst");
    reveal_strlit(".");
    lemma_default_components();
    assert forall|x: Seq<char>| #![trigger x.contains('/')]
        x == ".lv2"@ || x == ".vst3"@ || x == ".vst"@ implies !x.contains('/') by {
        if x.contains('/') {
            let k = choose|k: int| 0 <= k < x.len() && x[k] == '/';
        }
    }
    lemma_join_last(home, ".lv2"@);
    lemma_join_last(home, ".vst3"@);
    lemma_join_last(home, ".vst"@);
    let d = default_paths(home);
    assert forall|i: int, j: int|
        0 <= i < j < d.len() && (#[trigger] d[i]).0 == (#[trigger] d[j]).0 implies !same_path(d[i].1, d[j].1) by {
        let ci = path_components(d[i].1);
        let cj = path_components(d[j].1);
        if ci == cj {
            assert(ci.len() == cj.len());
            assert(ci.last() == cj.last());
        }
    }
}

/// The list of folders to scan never names a folder twice for the same
/// format: the usual folders differ from each other, and a folder from a
/// variable is added only where it is not listed yet.
pub proof fn law_search_paths_no_repeats(
    home: Seq<char>,
    lv2_path: Option<Seq<char>>,
    vst3_path: Option<Seq<char>>,
    vst_path: Option<Seq<char>>,
)
    ensures
        no_repeats(search_paths_spec(home, lv2_path, vst3_path, vst_path)),
{
    lemma_defaults_no_repeats(home);
    let a = default_paths(home);
    let b = add_var(a, Format::Lv2, lv2_path);
    let c = add_var(b, Format::Vst3, vst3_path);
    if let Some(v) = lv2_path {
        lemma_add_pieces_no_repeats(a, Format::Lv2, split_on(v, ':'));
    }
    if let Some(v) = vst3_path {
        lemma_add_pieces_no_repeats(b, Format::Vst3, split_on(v, ':'));
    }
    if let Some(v) = vst_path {
        lemma_add_pieces_no_repeats(c, Format::Vst2, split_on(v, ':'));
    }
}

proof fn lemma_add_pieces_extends(out: Seq<(Format, Seq<char>)>, fmt: Format, pieces: Seq<Seq<char>>)
    ensures
        add_pieces(out, fmt, pieces).len() >= out.len(),
        add_pieces(out, fmt, pieces).subrange(0, out.len() as int) == out,
    decreases pieces.len(),
{
    if pieces.len() > 0 {
        lemma_add_pieces_extends(out, fmt, pieces.drop_last());
        let o = add_pieces(out, fmt, pieces.drop_last());
        let p = trim(pieces.last());
        if !(p.len() == 0 || listed(o, fmt, p)) {
            assert(o.push((fmt, p)).subrange(0, out.len() as int) =~= o.subrange(0, out.len() as int));
        }
    }
}

proof fn lemma_add_var_extends(out: Seq<(Format, Seq<char>)>, fmt: Format, value: Option<Seq<char>>)
    ensures
        add_var(out, fmt, value).len() >= out.len(),
        add_var(out, fmt, value).subrange(0, out.len() as int) == out,
{
    match value {
        Some(v) => lemma_add_pieces_extends(out, fmt, split_on(v, ':')),
        None => {
            assert(out.subrange(0, out.len() as int) =~= out);
        },
    }
}

/// The usual folders always come first, in their order, whatever the
/// variables add after them.
pub proof fn law_search_paths_start_with_defaults(
    home: Seq<char>,
    lv2_path: Option<Seq<char>>,
    vst3_path: Option<Seq<char>>,
    vst_path: Option<Seq<char>>,
)
    ensures
        search_paths_spec(home, lv2_path, vst3_path, vst_path).len() >= 9,
        search_paths_spec(home, lv2_path, vst3_path, vst_path).subrange(0, 9) == default_paths(home),
{
    let a = default_paths(home);
    let b = add_var(a, Format::Lv2, lv2_path);
    let c = add_var(b, Format::Vst3, vst3_path);
    let d = add_var(c, Format::Vst2, vst_path);
    lemma_add_var_extends(a, Format::Lv2, lv2_path);
    lemma_add_var_extends(b, Format::Vst3, vst3_path);
    lemma_add_var_extends(c, Format::Vst2, vst_path);
    assert(d.subrange(0, 9) =~= c.subrange(0, 9));
    assert(c.subrange(0, 9) =~= b.subrange(0, 9));
}

} // verus!
