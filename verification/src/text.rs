//! Character-level helpers over `&str`, with their meaning as sequences of chars.
use vstd::prelude::*;
use vstd::string::*;

verus! {

/// The pieces of `s` between occurrences of `c`, as `str::split` yields them
/// (always at least one piece; separators at the ends give empty pieces).
pub open spec fn split_on(s: Seq<char>, c: char) -> Seq<Seq<char>>
    decreases s.len(),
{
    if s.len() == 0 {
        seq![Seq::<char>::empty()]
    } else {
        let rest = split_on(s.drop_last(), c);
        if s.last() == c {
            rest.push(Seq::<char>::empty())
        } else {
            rest.update(rest.len() - 1, rest.last().push(s.last()))
        }
    }
}

pub proof fn lemma_split_on_nonempty(s: Seq<char>, c: char)
    ensures
        split_on(s, c).len() >= 1,
    decreases s.len(),
{
    if s.len() > 0 {
        lemma_split_on_nonempty(s.drop_last(), c);
    }
}

/// The pieces of `parts` joined with `sep` between neighbours.
pub open spec fn join(parts: Seq<Seq<char>>, sep: Seq<char>) -> Seq<char>
    decreases parts.len(),
{
    if parts.len() == 0 {
        Seq::<char>::empty()
    } else if parts.len() == 1 {
        parts[0]
    } else {
        join(parts.drop_last(), sep) + sep + parts.last()
    }
}

/// Ranges `[a, b)` of `s` that denote the pieces of `split_on(s, c)`.
pub open spec fn ranges_denote(s: Seq<char>, r: Seq<(usize, usize)>, pieces: Seq<Seq<char>>) -> bool {
    &&& r.len() == pieces.len()
    &&& forall|i: int| 0 <= i < r.len() ==> (#[trigger] r[i]).0 <= r[i].1 && r[i].1 <= s.len()
    &&& forall|i: int|
        0 <= i < r.len() ==> #[trigger] s.subrange(r[i].0 as int, r[i].1 as int) == pieces[i]
}

/// Split `s` at every `c`, returning the char ranges of the pieces.
pub fn split_ranges(s: &str, c: char) -> (r: Vec<(usize, usize)>)
    ensures
        ranges_denote(s@, r@, split_on(s@, c)),
{
    let n = s.unicode_len();
    let mut done: Vec<(usize, usize)> = Vec::new();
    let mut start: usize = 0;
    let mut i: usize = 0;
    proof {
        assert(s@.take(0) =~= Seq::<char>::empty());
    }
    while i < n
        invariant
            n == s@.len(),
            start <= i <= n,
            ranges_denote(s@, done@.push((start, i)), split_on(s@.take(i as int), c)),
        decreases n - i,
    {
        let ch = s.get_char(i);
        let ghost prev = split_on(s@.take(i as int), c);
        let ghost old_r = done@.push((start, i));
        proof {
            assert(s@.take(i + 1).drop_last() =~= s@.take(i as int));
            assert(s@.take(i + 1).last() == ch);
            assert(ranges_denote(s@, old_r, prev));
            assert(old_r.len() == prev.len());
            let lst = old_r.len() - 1;
            assert(old_r[lst] == (start, i));
            assert(s@.subrange(old_r[lst].0 as int, old_r[lst].1 as int) == prev[lst]);
        }
        if ch == c {
            done.push((start, i));
            start = i + 1;
            proof {
                let pieces = split_on(s@.take(i + 1), c);
                let new_r = done@.push((start, (i + 1) as usize));
                assert(pieces == prev.push(Seq::<char>::empty()));
                assert(s@.subrange(start as int, start as int) =~= Seq::<char>::empty());
                assert forall|k: int| 0 <= k < new_r.len() implies #[trigger] s@.subrange(
                    new_r[k].0 as int,
                    new_r[k].1 as int,
                ) == pieces[k] by {
                    if k < old_r.len() {
                        assert(new_r[k] == old_r[k]);
                        assert(s@.subrange(old_r[k].0 as int, old_r[k].1 as int) == prev[k]);
                    }
                }
                assert forall|k: int| 0 <= k < new_r.len() implies (#[trigger] new_r[k]).0
                    <= new_r[k].1 && new_r[k].1 <= s@.len() by {
                    if k < old_r.len() {
                        assert(new_r[k] == old_r[k]);
                    }
                }
                assert(ranges_denote(s@, new_r, pieces));
            }
        } else {
            proof {
                let pieces = split_on(s@.take(i + 1), c);
                let new_r = done@.push((start, (i + 1) as usize));
                assert(pieces == prev.update(prev.len() - 1, prev.last().push(ch)));
                assert(s@.subrange(start as int, i + 1) =~= s@.subrange(start as int, i as int).push(ch));
                assert forall|k: int| 0 <= k < new_r.len() implies #[trigger] s@.subrange(
                    new_r[k].0 as int,
                    new_r[k].1 as int,
                ) == pieces[k] by {
                    if k < done@.len() {
                        assert(new_r[k] == old_r[k]);
                        assert(s@.subrange(old_r[k].0 as int, old_r[k].1 as int) == prev[k]);
                    }
                }
                assert forall|k: int| 0 <= k < new_r.len() implies (#[trigger] new_r[k]).0
                    <= new_r[k].1 && new_r[k].1 <= s@.len() by {
                    if k < done@.len() {
                        assert(new_r[k] == old_r[k]);
                    }
                }
                assert(ranges_denote(s@, new_r, pieces));
            }
        }
        i = i + 1;
    }
    done.push((start, n));
    proof {
        assert(s@.take(n as int) =~= s@);
    }
    done
}

/// Whether the chars of `s` in `[from, to)` spell `lit`.
pub fn range_is(s: &str, from: usize, to: usize, lit: &str) -> (r: bool)
    requires
        from <= to <= s@.len(),
    ensures
        r == (s@.subrange(from as int, to as int) == lit@),
{
    let n = lit.unicode_len();
    if to - from != n {
        proof {
            assert(s@.subrange(from as int, to as int).len() != lit@.len());
        }
        return false;
    }
    let mut i: usize = 0;
    while i < n
        invariant
            n == lit@.len(),
            to - from == n,
            from <= to <= s@.len(),
            i <= n,
            forall|k: int| 0 <= k < i ==> s@[from + k] == lit@[k],
        decreases n - i,
    {
        if s.get_char(from + i) != lit.get_char(i) {
            proof {
                assert(s@.subrange(from as int, to as int)[i as int] != lit@[i as int]);
            }
            return false;
        }
        i = i + 1;
    }
    proof {
        assert(s@.subrange(from as int, to as int) =~= lit@);
    }
    true
}

/// Whether the whole of `s` spells `lit`.
pub fn str_is(s: &str, lit: &str) -> (r: bool)
    ensures
        r == (s@ == lit@),
{
    let n = s.unicode_len();
    let r = range_is(s, 0, n, lit);
    proof {
        assert(s@.subrange(0, n as int) =~= s@);
    }
    r
}

/// An owned copy of the chars of `s` in `[from, to)`.
pub fn substring(s: &str, from: usize, to: usize) -> (r: String)
    requires
        from <= to <= s@.len(),
    ensures
        r@ == s@.subrange(from as int, to as int),
{
    s.substring_char(from, to).to_owned()
}

/// `a` followed by `b` followed by `c`, as a new string.
pub fn concat3(a: &str, b: &str, c: &str) -> (r: String)
    ensures
        r@ == a@ + b@ + c@,
{
    let mut r = a.to_owned();
    r.append(b);
    r.append(c);
    r
}

/// The first position at or after `k` where `s` holds `c`.
pub open spec fn first_from(s: Seq<char>, c: char, k: nat) -> Option<nat>
    decreases s.len() - k,
{
    if k >= s.len() {
        None
    } else if s[k as int] == c {
        Some(k)
    } else {
        first_from(s, c, k + 1)
    }
}

pub proof fn lemma_first_from_bounds(s: Seq<char>, c: char, k: nat)
    ensures
        match first_from(s, c, k) {
            Some(i) => k <= i < s.len() && s[i as int] == c && forall|j: int| k <= j < i ==> s[j] != c,
            None => forall|j: int| k <= j < s.len() ==> s[j] != c,
        },
    decreases s.len() - k,
{
    if k < s.len() && s[k as int] != c {
        lemma_first_from_bounds(s, c, k + 1);
    }
}

/// The position of the first `c` in `s`.
pub fn find_char(s: &str, c: char) -> (r: Option<usize>)
    ensures
        match r {
            Some(i) => first_from(s@, c, 0) == Some(i as nat),
            None => first_from(s@, c, 0).is_none(),
        },
{
    let n = s.unicode_len();
    let mut i: usize = 0;
    while i < n
        invariant
            n == s@.len(),
            i <= n,
            first_from(s@, c, 0) == first_from(s@, c, i as nat),
        decreases n - i,
    {
        if s.get_char(i) == c {
            return Some(i);
        }
        i = i + 1;
    }
    None
}

/// The two sides of the first `c` in `s`, or none where `s` has no `c`.
pub open spec fn split_once(s: Seq<char>, c: char) -> Option<(Seq<char>, Seq<char>)> {
    match first_from(s, c, 0) {
        Some(i) => Some((s.subrange(0, i as int), s.subrange((i + 1) as int, s.len() as int))),
        None => None,
    }
}

/// What is left of `s` after `prefix`, where `s` starts with it.
pub open spec fn strip_prefix(s: Seq<char>, prefix: Seq<char>) -> Option<Seq<char>> {
    if prefix.len() <= s.len() && s.subrange(0, prefix.len() as int) == prefix {
        Some(s.subrange(prefix.len() as int, s.len() as int))
    } else {
        None
    }
}

pub fn strip_prefix_of(s: &str, prefix: &str) -> (r: Option<String>)
    ensures
        match r {
            Some(t) => strip_prefix(s@, prefix@) == Some(t@),
            None => strip_prefix(s@, prefix@).is_none(),
        },
{
    let n = s.unicode_len();
    let p = prefix.unicode_len();
    if p <= n && range_is(s, 0, p, prefix) {
        Some(substring(s, p, n))
    } else {
        None
    }
}

/// Whether `s` holds `needle` somewhere.
pub open spec fn contains_seq(s: Seq<char>, needle: Seq<char>) -> bool {
    exists|i: int| 0 <= i && i + needle.len() <= s.len() && #[trigger] s.subrange(i, i + needle.len()) == needle
}

pub fn contains_str(s: &str, needle: &str) -> (r: bool)
    ensures
        r == contains_seq(s@, needle@),
{
    let n = s.unicode_len();
    let m = needle.unicode_len();
    if m > n {
        proof {
            assert forall|i: int| 0 <= i && i + m <= n implies #[trigger] s@.subrange(i, i + m) != needle@ by {}
        }
        return false;
    }
    if m == 0 {
        proof {
            let z: int = 0;
            assert(s@.subrange(z, z + needle@.len()) =~= needle@);
        }
        return true;
    }
    let mut i: usize = 0;
    while i <= n - m
        invariant
            n == s@.len(),
            m == needle@.len(),
            0 < m <= n,
            i <= n - m + 1,
            forall|j: int| 0 <= j < i ==> #[trigger] s@.subrange(j, j + m) != needle@,
        decreases n - m + 1 - i,
    {
        if range_is(s, i, i + m, needle) {
            proof {
                let z: int = i as int;
                assert(s@.subrange(z, z + needle@.len()) == needle@);
            }
            return true;
        }
        i = i + 1;
    }
    proof {
        assert forall|j: int| 0 <= j && j + m <= n implies #[trigger] s@.subrange(j, j + m) != needle@ by {
            assert(j < i);
        }
    }
    false
}

/// The decimal digit of a value below ten.
pub open spec fn digit_char(d: nat) -> char {
    if d == 0 { '0' } else if d == 1 { '1' } else if d == 2 { '2' } else if d == 3 { '3' } else if d == 4 {
        '4'
    } else if d == 5 { '5' } else if d == 6 { '6' } else if d == 7 { '7' } else if d == 8 { '8' } else { '9' }
}

/// The decimal text of `n`, most significant digit first.
pub open spec fn decimal_text(n: nat) -> Seq<char>
    decreases n,
{
    if n < 10 {
        seq![digit_char(n)]
    } else {
        decimal_text(n / 10).push(digit_char(n % 10))
    }
}

fn digit_str(d: usize) -> (r: &'static str)
    requires
        d < 10,
    ensures
        r@ == seq![digit_char(d as nat)],
{
    proof {
        reveal_strlit("0");
        reveal_strlit("1");
        reveal_strlit("2");
        reveal_strlit("3");
        reveal_strlit("4");
        reveal_strlit("5");
        reveal_strlit("6");
        reveal_strlit("7");
        reveal_strlit("8");
        reveal_strlit("9");
    }
    if d == 0 { "0" } else if d == 1 { "1" } else if d == 2 { "2" } else if d == 3 { "3" } else if d == 4 {
        "4"
    } else if d == 5 { "5" } else if d == 6 { "6" } else if d == 7 { "7" } else if d == 8 { "8" } else { "9" }
}

fn push_decimal_text(out: &mut String, n: usize)
    ensures
        final(out)@ == old(out)@ + decimal_text(n as nat),
    decreases n,
{
    if n >= 10 {
        push_decimal_text(out, n / 10);
    }
    out.append(digit_str(n % 10));
    proof {
        if n < 10 {
            assert(n % 10 == n);
        }
    }
}

/// The decimal text of a number.
pub fn decimal_string(n: usize) -> (r: String)
    ensures
        r@ == decimal_text(n as nat),
{
    let mut r = String::new();
    push_decimal_text(&mut r, n);
    r
}

} // verus!

verus! {

/// A piece that does not hold the separator splits into itself.
pub proof fn lemma_split_no_sep(p: Seq<char>, c: char)
    requires
        !p.contains(c),
    ensures
        split_on(p, c) == seq![p],
    decreases p.len(),
{
    if p.len() > 0 {
        let q = p.drop_last();
        assert(!q.contains(c)) by {
            if q.contains(c) {
                let k = choose|k: int| 0 <= k < q.len() && q[k] == c;
                assert(p[k] == c);
            }
        }
        lemma_split_no_sep(q, c);
        assert(p.last() != c) by {
            assert(p[p.len() - 1] == p.last());
        }
        assert(q.push(p.last()) =~= p);
        assert(split_on(p, c) =~= seq![p]);
    } else {
        assert(p =~= Seq::<char>::empty());
        assert(split_on(p, c) =~= seq![p]);
    }
}

/// Splitting `a`, a separator, then a separator-free `y` adds `y` as the last piece.
pub proof fn lemma_split_append(a: Seq<char>, y: Seq<char>, c: char)
    requires
        !y.contains(c),
    ensures
        split_on(a + seq![c] + y, c) == split_on(a, c).push(y),
    decreases y.len(),
{
    if y.len() == 0 {
        assert(a + seq![c] + y =~= a.push(c));
        assert((a + seq![c] + y).drop_last() =~= a);
        assert(y =~= Seq::<char>::empty());
        assert(split_on(a + seq![c] + y, c) =~= split_on(a, c).push(y));
    } else {
        let y0 = y.drop_last();
        assert(!y0.contains(c)) by {
            if y0.contains(c) {
                let k = choose|k: int| 0 <= k < y0.len() && y0[k] == c;
                assert(y[k] == c);
            }
        }
        lemma_split_append(a, y0, c);
        let whole = a + seq![c] + y;
        assert(whole.drop_last() =~= a + seq![c] + y0);
        assert(whole.last() == y.last());
        assert(y.last() != c) by {
            assert(y[y.len() - 1] == y.last());
        }
        assert(y0.push(y.last()) =~= y);
        lemma_split_on_nonempty(a, c);
        assert(split_on(whole, c) =~= split_on(a, c).push(y));
    }
}

/// Joining separator-free pieces and splitting again gives the pieces back.
pub proof fn lemma_split_join(parts: Seq<Seq<char>>, c: char)
    requires
        parts.len() >= 1,
        forall|i: int| 0 <= i < parts.len() ==> !(#[trigger] parts[i]).contains(c),
    ensures
        split_on(join(parts, seq![c]), c) == parts,
    decreases parts.len(),
{
    if parts.len() == 1 {
        assert(!parts[0].contains(c));
        lemma_split_no_sep(parts[0], c);
        assert(parts =~= seq![parts[0]]);
    } else {
        let init = parts.drop_last();
        assert forall|i: int| 0 <= i < init.len() implies !(#[trigger] init[i]).contains(c) by {
            assert(init[i] == parts[i]);
        }
        lemma_split_join(init, c);
        assert(!parts[parts.len() - 1].contains(c));
        lemma_split_append(join(init, seq![c]), parts.last(), c);
        assert(init.push(parts.last()) =~= parts);
    }
}

/// No piece of a split holds the separator.
pub proof fn lemma_split_pieces_free(s: Seq<char>, c: char)
    ensures
        forall|i: int| 0 <= i < split_on(s, c).len() ==> !(#[trigger] split_on(s, c)[i]).contains(c),
    decreases s.len(),
{
    if s.len() > 0 {
        lemma_split_pieces_free(s.drop_last(), c);
        lemma_split_on_nonempty(s.drop_last(), c);
        let rest = split_on(s.drop_last(), c);
        if s.last() != c {
            let lst = rest.last().push(s.last());
            assert(!rest[rest.len() - 1].contains(c));
            assert(!lst.contains(c)) by {
                if lst.contains(c) {
                    let k = choose|k: int| 0 <= k < lst.len() && lst[k] == c;
                    if k < lst.len() - 1 {
                        assert(rest.last()[k] == c);
                    }
                }
            }
            assert forall|i: int| 0 <= i < split_on(s, c).len() implies !(#[trigger] split_on(
                s,
                c,
            )[i]).contains(c) by {
                if i < rest.len() - 1 {
                    assert(split_on(s, c)[i] == rest[i]);
                }
            }
        } else {
            assert forall|i: int| 0 <= i < split_on(s, c).len() implies !(#[trigger] split_on(
                s,
                c,
            )[i]).contains(c) by {
                if i < rest.len() {
                    assert(split_on(s, c)[i] == rest[i]);
                } else {
                    assert(split_on(s, c)[i] =~= Seq::<char>::empty());
                }
            }
        }
    }
}

} // verus!
