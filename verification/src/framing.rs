//! Length-prefixed framing of JSON-RPC messages on the plugin's stdio pipe:
//! `Content-Length: N\r\n\r\n` followed by N payload bytes.
use vstd::prelude::*;
use vstd::string::*;
use vstd::utf8::{decode_utf8, valid_utf8};

verus! {

/// Largest payload a frame may carry.
pub const MAX_FRAME_BYTES: usize = 16777216;

/// A header longer than this many bytes without its blank line is refused.
pub const MAX_HEADER_BYTES: usize = 4096;

/// Why a frame could not be read.
#[derive(Debug, Clone, Copy, PartialEq, Eq, Structural)]
pub enum FrameError {
    /// The stream ended after part of a header.
    EofMidHeader,
    /// No blank line within the header size limit.
    HeaderTooLarge,
    /// The header is not UTF-8.
    NonUtf8Header,
    /// A header line without `: `.
    BadHeaderLine,
    /// A `Content-Length` value that is not a number.
    BadLength,
    /// No `Content-Length` line.
    NoContentLength,
    /// A length above the frame size limit.
    FrameTooLarge,
    /// The stream ended before the payload was complete.
    EofMidBody,
}

impl FrameError {
    /// True for the errors that mean the stream ended early.
    pub fn is_unexpected_eof(&self) -> (r: bool)
        ensures
            r == (*self == FrameError::EofMidHeader || *self == FrameError::EofMidBody),
    {
        match self {
            FrameError::EofMidHeader | FrameError::EofMidBody => true,
            _ => false,
        }
    }

    /// A short description of the error.
    pub fn message(&self) -> (r: &'static str)
        ensures
            r@ == (match self {
                FrameError::EofMidHeader => "eof mid-header"@,
                FrameError::HeaderTooLarge => "header too large"@,
                FrameError::NonUtf8Header => "non-utf8 header"@,
                FrameError::BadHeaderLine => "bad header line"@,
                FrameError::BadLength => "bad length"@,
                FrameError::NoContentLength => "no content-length"@,
                FrameError::FrameTooLarge => "frame too large"@,
                FrameError::EofMidBody => "early eof"@,
            }),
    {
        match self {
            FrameError::EofMidHeader => "eof mid-header",
            FrameError::HeaderTooLarge => "header too large",
            FrameError::NonUtf8Header => "non-utf8 header",
            FrameError::BadHeaderLine => "bad header line",
            FrameError::BadLength => "bad length",
            FrameError::NoContentLength => "no content-length",
            FrameError::FrameTooLarge => "frame too large",
            FrameError::EofMidBody => "early eof",
        }
    }
}

// ---------------------------------------------------------------- encoding

/// The bytes of `Content-Length`.
pub open spec fn key_bytes() -> Seq<u8> {
    seq![67u8, 111, 110, 116, 101, 110, 116, 45, 76, 101, 110, 103, 116, 104]
}

/// Decimal digits of `n`, most significant first, without leading zeros.
pub open spec fn decimal(n: nat) -> Seq<u8>
    decreases n,
{
    if n < 10 {
        seq![(48 + n) as u8]
    } else {
        decimal(n / 10).push((48 + n % 10) as u8)
    }
}

pub open spec fn crlf2() -> Seq<u8> {
    seq![13u8, 10, 13, 10]
}

/// The header line of a frame with an `n`-byte payload, without its line ends.
pub open spec fn header_line(n: nat) -> Seq<u8> {
    key_bytes() + seq![58u8, 32] + decimal(n)
}

/// The full header of a frame with an `n`-byte payload.
pub open spec fn header_for(n: nat) -> Seq<u8> {
    header_line(n) + crlf2()
}

fn push_decimal(out: &mut Vec<u8>, n: usize)
    ensures
        final(out)@ == old(out)@ + decimal(n as nat),
    decreases n,
{
    if n >= 10 {
        push_decimal(out, n / 10);
    }
    out.push((48 + n % 10) as u8);
    proof {
        if n < 10 {
            assert(n % 10 == n);
        }
    }
}

/// The header that precedes an `len`-byte payload.
pub fn frame_header(len: usize) -> (r: Vec<u8>)
    ensures
        r@ == header_for(len as nat),
{
    let mut out: Vec<u8> = Vec::new();
    out.push(67u8);
    out.push(111u8);
    out.push(110u8);
    out.push(116u8);
    out.push(101u8);
    out.push(110u8);
    out.push(116u8);
    out.push(45u8);
    out.push(76u8);
    out.push(101u8);
    out.push(110u8);
    out.push(103u8);
    out.push(116u8);
    out.push(104u8);
    out.push(58u8);
    out.push(32u8);
    assert(out@ =~= key_bytes() + seq![58u8, 32]);
    push_decimal(&mut out, len);
    out.push(13u8);
    out.push(10u8);
    out.push(13u8);
    out.push(10u8);
    assert(out@ =~= header_for(len as nat));
    out
}

/// A whole frame: the header, then the payload.
pub fn encode_frame(payload: &[u8]) -> (r: Vec<u8>)
    ensures
        r@ == header_for(payload@.len()) + payload@,
{
    let mut out = frame_header(payload.len());
    let mut i: usize = 0;
    let ghost h = out@;
    while i < payload.len()
        invariant
            i <= payload@.len(),
            out@ == h + payload@.take(i as int),
        decreases payload.len() - i,
    {
        out.push(payload[i]);
        i = i + 1;
        assert(out@ =~= h + payload@.take(i as int));
    }
    assert(payload@.take(i as int) =~= payload@);
    out
}

// ---------------------------------------------------------------- header end

/// The bytes end with the blank line that closes a header.
pub open spec fn ends_header(b: Seq<u8>) -> bool {
    b.len() >= 4 && b[b.len() - 4] == 13 && b[b.len() - 3] == 10 && b[b.len() - 2] == 13
        && b[b.len() - 1] == 10
}

/// What reading a header byte by byte finds in `stream` once `k` bytes are read.
pub enum HeaderEnd {
    /// The stream was empty: a clean end of input.
    Empty,
    /// The header is the first `k` bytes.
    Complete(nat),
    /// Reading failed.
    Failed(FrameError),
}

pub open spec fn header_end_from(stream: Seq<u8>, k: nat) -> HeaderEnd
    decreases stream.len() - k,
{
    if k >= stream.len() {
        if k == 0 {
            HeaderEnd::Empty
        } else {
            HeaderEnd::Failed(FrameError::EofMidHeader)
        }
    } else if ends_header(stream.take((k + 1) as int)) {
        HeaderEnd::Complete(k + 1)
    } else if k + 1 > MAX_HEADER_BYTES {
        HeaderEnd::Failed(FrameError::HeaderTooLarge)
    } else {
        header_end_from(stream, k + 1)
    }
}

pub open spec fn header_end(stream: Seq<u8>) -> HeaderEnd {
    header_end_from(stream, 0)
}

/// What to do after a byte was appended to a header being read.
#[derive(Debug, Clone, Copy, PartialEq, Eq, Structural)]
pub enum HeaderStep {
    /// The header is complete.
    Done,
    /// The header passed the size limit.
    TooLarge,
    /// Read another byte.
    More,
}

/// Decide, after a byte was appended to `header`, whether the header is done.
pub fn header_step(header: &[u8]) -> (r: HeaderStep)
    ensures
        r == (if ends_header(header@) {
            HeaderStep::Done
        } else if header@.len() > MAX_HEADER_BYTES {
            HeaderStep::TooLarge
        } else {
            HeaderStep::More
        }),
{
    let n = header.len();
    if n >= 4 && header[n - 4] == 13 && header[n - 3] == 10 && header[n - 2] == 13 && header[n - 1]
        == 10 {
        HeaderStep::Done
    } else if n > MAX_HEADER_BYTES {
        HeaderStep::TooLarge
    } else {
        HeaderStep::More
    }
}

// ---------------------------------------------------------------- header parse

/// The pieces of `b` between `\r\n` separators, as `str::split("\r\n")` gives them.
pub open spec fn split_crlf(b: Seq<u8>) -> Seq<Seq<u8>>
    decreases b.len(),
{
    if b.len() < 2 {
        seq![b]
    } else if b[0] == 13 && b[1] == 10 {
        seq![Seq::<u8>::empty()] + split_crlf(b.skip(2))
    } else {
        let rest = split_crlf(b.skip(1));
        rest.update(0, seq![b[0]] + rest[0])
    }
}

/// Prefix `cur` onto the first piece.
pub open spec fn glue(cur: Seq<u8>, ss: Seq<Seq<u8>>) -> Seq<Seq<u8>> {
    ss.update(0, cur + ss[0])
}

pub proof fn lemma_split_crlf_nonempty(b: Seq<u8>)
    ensures
        split_crlf(b).len() >= 1,
    decreases b.len(),
{
    if b.len() >= 2 {
        if b[0] == 13 && b[1] == 10 {
            lemma_split_crlf_nonempty(b.skip(2));
        } else {
            lemma_split_crlf_nonempty(b.skip(1));
        }
    }
}

/// Byte ranges of `b` that spell the pieces `pieces`.
pub open spec fn byte_ranges_denote(b: Seq<u8>, r: Seq<(usize, usize)>, pieces: Seq<Seq<u8>>) -> bool {
    &&& r.len() == pieces.len()
    &&& forall|i: int| 0 <= i < r.len() ==> (#[trigger] r[i]).0 <= r[i].1 && r[i].1 <= b.len()
    &&& forall|i: int|
        0 <= i < r.len() ==> #[trigger] b.subrange(r[i].0 as int, r[i].1 as int) == pieces[i]
}

/// The ranges of the `\r\n`-separated lines of `b`.
fn crlf_line_ranges(b: &[u8]) -> (r: Vec<(usize, usize)>)
    ensures
        byte_ranges_denote(b@, r@, split_crlf(b@)),
{
    let n = b.len();
    let mut done: Vec<(usize, usize)> = Vec::new();
    let mut start: usize = 0;
    let mut i: usize = 0;
    proof {
        lemma_split_crlf_nonempty(b@);
        assert(b@.skip(0) =~= b@);
        assert(b@.subrange(0, 0) =~= Seq::<u8>::empty());
        assert(glue(Seq::<u8>::empty(), split_crlf(b@)) =~= split_crlf(b@));
        assert(Seq::<Seq<u8>>::empty() + split_crlf(b@) =~= split_crlf(b@));
    }
    while n - i >= 2
        invariant
            n == b@.len(),
            start <= i <= n,
            forall|k: int| 0 <= k < done@.len() ==> (#[trigger] done@[k]).0 <= done@[k].1 && done@[k].1
                <= start,
            split_crlf(b@) == {
                let pieces: Seq<Seq<u8>> = Seq::new(
                    done@.len(),
                    |k: int| b@.subrange(done@[k].0 as int, done@[k].1 as int),
                );
                pieces + glue(b@.subrange(start as int, i as int), split_crlf(b@.skip(i as int)))
            },
        decreases n - i,
    {
        let ghost pieces: Seq<Seq<u8>> = Seq::new(
            done@.len(),
            |k: int| b@.subrange(done@[k].0 as int, done@[k].1 as int),
        );
        let ghost tail = b@.skip(i as int);
        let ghost cur = b@.subrange(start as int, i as int);
        proof {
            assert(tail.len() >= 2);
            assert(tail[0] == b@[i as int] && tail[1] == b@[i + 1]);
        }
        if b[i] == 13 && b[i + 1] == 10 {
            proof {
                assert(tail.skip(2) =~= b@.skip(i + 2));
                lemma_split_crlf_nonempty(b@.skip(i + 2));
                let x = split_crlf(b@.skip(i + 2));
                assert(split_crlf(tail) == seq![Seq::<u8>::empty()] + x);
                assert(glue(cur, seq![Seq::<u8>::empty()] + x) =~= seq![cur] + x);
                assert(glue(Seq::<u8>::empty(), x) =~= x);
                assert(b@.subrange((i + 2) as int, (i + 2) as int) =~= Seq::<u8>::empty());
            }
            done.push((start, i));
            start = i + 2;
            i = i + 2;
            proof {
                let np: Seq<Seq<u8>> = Seq::new(
                    done@.len(),
                    |k: int| b@.subrange(done@[k].0 as int, done@[k].1 as int),
                );
                assert(np =~= pieces.push(cur));
                assert(np + glue(b@.subrange(start as int, i as int), split_crlf(b@.skip(i as int)))
                    =~= pieces + (seq![cur] + split_crlf(b@.skip(i as int))));
            }
        } else {
            proof {
                assert(tail.skip(1) =~= b@.skip(i + 1));
                lemma_split_crlf_nonempty(b@.skip(i + 1));
                let y = split_crlf(b@.skip(i + 1));
                assert(split_crlf(tail) == y.update(0, seq![b@[i as int]] + y[0]));
                assert(b@.subrange(start as int, i + 1) =~= cur + seq![b@[i as int]]);
                assert((cur + seq![b@[i as int]]) + y[0] =~= cur + (seq![b@[i as int]] + y[0]));
                assert(glue(cur, split_crlf(tail)) =~= glue(b@.subrange(start as int, i + 1), y));
            }
            i = i + 1;
        }
    }
    let ghost pieces: Seq<Seq<u8>> = Seq::new(
        done@.len(),
        |k: int| b@.subrange(done@[k].0 as int, done@[k].1 as int),
    );
    proof {
        let tail = b@.skip(i as int);
        assert(tail.len() < 2);
        assert(split_crlf(tail) == seq![tail]);
        assert(b@.subrange(start as int, i as int) + tail =~= b@.subrange(start as int, n as int));
        assert(glue(b@.subrange(start as int, i as int), seq![tail]) =~= seq![b@.subrange(start as int, n as int)]);
    }
    done.push((start, n));
    proof {
        let np: Seq<Seq<u8>> = Seq::new(
            done@.len(),
            |k: int| b@.subrange(done@[k].0 as int, done@[k].1 as int),
        );
        assert(np =~= pieces.push(b@.subrange(start as int, n as int)));
        assert(split_crlf(b@) =~= np);
    }
    done
}

/// First position of `: ` in `line` at or after `i`.
pub open spec fn colon_from(line: Seq<u8>, i: nat) -> Option<nat>
    decreases line.len() - i,
{
    if i + 1 >= line.len() {
        None
    } else if line[i as int] == 58 && line[(i + 1) as int] == 32 {
        Some(i)
    } else {
        colon_from(line, i + 1)
    }
}

pub open spec fn ascii_lower(b: u8) -> u8 {
    if 65 <= b && b <= 90 {
        (b + 32) as u8
    } else {
        b
    }
}

/// ASCII case-insensitive equality of byte strings.
pub open spec fn ci_eq(a: Seq<u8>, b: Seq<u8>) -> bool {
    a.len() == b.len() && forall|i: int| 0 <= i < a.len() ==> ascii_lower(#[trigger] a[i]) == ascii_lower(b[i])
}

/// The characters Unicode gives the White_Space property (what `char::is_whitespace` tests).
pub open spec fn is_ws(c: char) -> bool {
    let u = c as u32;
    ||| (9 <= u && u <= 13)
    ||| u == 32
    ||| u == 0x85
    ||| u == 0xA0
    ||| u == 0x1680
    ||| (0x2000 <= u && u <= 0x200A)
    ||| u == 0x2028
    ||| u == 0x2029
    ||| u == 0x202F
    ||| u == 0x205F
    ||| u == 0x3000
}

pub open spec fn trim_front(t: Seq<char>) -> Seq<char>
    decreases t.len(),
{
    if t.len() > 0 && is_ws(t[0]) {
        trim_front(t.skip(1))
    } else {
        t
    }
}

pub open spec fn trim_back(t: Seq<char>) -> Seq<char>
    decreases t.len(),
{
    if t.len() > 0 && is_ws(t.last()) {
        trim_back(t.drop_last())
    } else {
        t
    }
}

/// `t` without leading and trailing whitespace (`str::trim`).
pub open spec fn trim(t: Seq<char>) -> Seq<char> {
    trim_back(trim_front(t))
}

pub open spec fn is_digit(c: char) -> bool {
    48 <= c as u32 && c as u32 <= 57
}

pub open spec fn all_digits(d: Seq<char>) -> bool {
    forall|i: int| 0 <= i < d.len() ==> is_digit(#[trigger] d[i])
}

pub open spec fn digits_value(d: Seq<char>) -> nat
    decreases d.len(),
{
    if d.len() == 0 {
        0
    } else {
        digits_value(d.drop_last()) * 10 + ((d.last() as u32 - 48) as nat)
    }
}

/// What `str::parse::<usize>` gives: an optional `+`, then decimal digits
/// whose value fits in `usize`.
pub open spec fn parse_usize(t: Seq<char>) -> Option<nat> {
    let d = if t.len() > 0 && t[0] == '+' {
        t.skip(1)
    } else {
        t
    };
    if d.len() == 0 || !all_digits(d) {
        None
    } else if digits_value(d) <= usize::MAX {
        Some(digits_value(d))
    } else {
        None
    }
}

/// The number a `Content-Length` value spells, after trimming whitespace.
pub open spec fn len_value(v: Seq<u8>) -> Option<nat> {
    if !valid_utf8(v) {
        None
    } else {
        parse_usize(trim(decode_utf8(v)))
    }
}

/// Effect of one header line on the length found so far.
pub open spec fn line_step(line: Seq<u8>, cur: Option<nat>) -> Result<Option<nat>, FrameError> {
    if line.len() == 0 {
        Ok(cur)
    } else {
        match colon_from(line, 0) {
            None => Err(FrameError::BadHeaderLine),
            Some(i) => if ci_eq(line.take(i as int), key_bytes()) {
                match len_value(line.skip((i + 2) as int)) {
                    Some(n) => Ok(Some(n)),
                    None => Err(FrameError::BadLength),
                }
            } else {
                Ok(cur)
            },
        }
    }
}

/// The header lines read in order; the last `Content-Length` wins.
pub open spec fn scan_lines(lines: Seq<Seq<u8>>) -> Result<Option<nat>, FrameError>
    decreases lines.len(),
{
    if lines.len() == 0 {
        Ok(None)
    } else {
        match scan_lines(lines.drop_last()) {
            Err(e) => Err(e),
            Ok(c) => line_step(lines.last(), c),
        }
    }
}

/// The payload length a complete header announces, or why it announces none.
pub open spec fn header_len_spec(h: Seq<u8>) -> Result<nat, FrameError> {
    if !valid_utf8(h) {
        Err(FrameError::NonUtf8Header)
    } else {
        match scan_lines(split_crlf(h)) {
            Err(e) => Err(e),
            Ok(None) => Err(FrameError::NoContentLength),
            Ok(Some(n)) => if n > MAX_FRAME_BYTES {
                Err(FrameError::FrameTooLarge)
            } else {
                Ok(n)
            },
        }
    }
}

/// Checks that `bytes` are UTF-8 and views them as text.
/// Calls `std::str::from_utf8`; its documentation promises `Ok` exactly for
/// valid UTF-8, and then a string slice of the same bytes.
#[verifier::external_body]
fn utf8_text(bytes: &[u8]) -> (r: Option<&str>)
    ensures
        r is Some <==> valid_utf8(bytes@),
        r matches Some(s) ==> s.spec_bytes() == bytes@,
{
    std::str::from_utf8(bytes).ok()
}

fn char_is_ws(c: char) -> (r: bool)
    ensures
        r == is_ws(c),
{
    let u = c as u32;
    (9 <= u && u <= 13) || u == 32 || u == 0x85 || u == 0xA0 || u == 0x1680 || (0x2000 <= u && u
        <= 0x200A) || u == 0x2028 || u == 0x2029 || u == 0x202F || u == 0x205F || u == 0x3000
}

proof fn lemma_trim_front_skip(t: Seq<char>, a: int)
    requires
        0 <= a <= t.len(),
        forall|k: int| 0 <= k < a ==> is_ws(#[trigger] t[k]),
    ensures
        trim_front(t) == trim_front(t.skip(a)),
    decreases a,
{
    if a > 0 {
        assert(t.skip(1).skip(a - 1) =~= t.skip(a));
        assert forall|k: int| 0 <= k < a - 1 implies is_ws(#[trigger] t.skip(1)[k]) by {
            assert(t.skip(1)[k] == t[k + 1]);
        }
        lemma_trim_front_skip(t.skip(1), a - 1);
    } else {
        assert(t.skip(0) =~= t);
    }
}

proof fn lemma_trim_back_take(t: Seq<char>, b: int)
    requires
        0 <= b <= t.len(),
        forall|k: int| b <= k < t.len() ==> is_ws(#[trigger] t[k]),
    ensures
        trim_back(t) == trim_back(t.take(b)),
    decreases t.len() - b,
{
    if b < t.len() {
        assert(is_ws(t[t.len() - 1]));
        assert(t.drop_last().take(b) =~= t.take(b));
        lemma_trim_back_take(t.drop_last(), b);
    } else {
        assert(t.take(b) =~= t);
    }
}

proof fn lemma_digits_prefix_grows(d: Seq<char>, i: int)
    requires
        0 <= i <= d.len(),
    ensures
        digits_value(d.take(i)) <= digits_value(d),
    decreases d.len() - i,
{
    if i < d.len() {
        assert(d.drop_last().take(i) =~= d.take(i));
        lemma_digits_prefix_grows(d.drop_last(), i);
    } else {
        assert(d.take(i) =~= d);
    }
}

/// `s` without leading and trailing whitespace.
pub fn trim_text(s: &str) -> (r: String)
    ensures
        r@ == trim(s@),
{
    let n = s.unicode_len();
    let mut a: usize = 0;
    while a < n && char_is_ws(s.get_char(a))
        invariant
            n == s@.len(),
            a <= n,
            forall|k: int| 0 <= k < a ==> is_ws(#[trigger] s@[k]),
        decreases n - a,
    {
        a = a + 1;
    }
    proof {
        lemma_trim_front_skip(s@, a as int);
        assert(trim_front(s@.skip(a as int)) == s@.skip(a as int));
    }
    let mut b: usize = n;
    while b > a && char_is_ws(s.get_char(b - 1))
        invariant
            n == s@.len(),
            a <= b <= n,
            forall|k: int| b <= k < n ==> is_ws(#[trigger] s@[k]),
        decreases b,
    {
        b = b - 1;
    }
    let ghost tf = s@.skip(a as int);
    proof {
        assert forall|k: int| (b - a) <= k < tf.len() implies is_ws(#[trigger] tf[k]) by {
            assert(tf[k] == s@[a + k]);
        }
        lemma_trim_back_take(tf, (b - a) as int);
        if b > a {
            assert(tf.take((b - a) as int).last() == s@[b - 1]);
        }
        assert(tf.take((b - a) as int) =~= s@.subrange(a as int, b as int));
    }
    crate::text::substring(s, a, b)
}

/// Parse the text of a `Content-Length` value.
fn parse_len_text(s: &str) -> (r: Option<usize>)
    ensures
        r matches Some(n) ==> parse_usize(trim(s@)) == Some(n as nat),
        r is None ==> parse_usize(trim(s@)) is None,
{
    let n = s.unicode_len();
    let mut a: usize = 0;
    while a < n && char_is_ws(s.get_char(a))
        invariant
            n == s@.len(),
            a <= n,
            forall|k: int| 0 <= k < a ==> is_ws(#[trigger] s@[k]),
        decreases n - a,
    {
        a = a + 1;
    }
    proof {
        lemma_trim_front_skip(s@, a as int);
        assert(trim_front(s@.skip(a as int)) == s@.skip(a as int));
    }
    let mut b: usize = n;
    while b > a && char_is_ws(s.get_char(b - 1))
        invariant
            n == s@.len(),
            a <= b <= n,
            forall|k: int| b <= k < n ==> is_ws(#[trigger] s@[k]),
        decreases b,
    {
        b = b - 1;
    }
    let ghost tf = s@.skip(a as int);
    proof {
        assert forall|k: int| (b - a) <= k < tf.len() implies is_ws(#[trigger] tf[k]) by {
            assert(tf[k] == s@[a + k]);
        }
        lemma_trim_back_take(tf, (b - a) as int);
        if b > a {
            assert(tf.take((b - a) as int).last() == s@[b - 1]);
        }
        assert(tf.take((b - a) as int) =~= s@.subrange(a as int, b as int));
    }
    let ghost t = s@.subrange(a as int, b as int);
    assert(trim(s@) == t);
    let mut i = a;
    if i < b && s.get_char(i) == '+' {
        i = i + 1;
    }
    let ghost d = s@.subrange(i as int, b as int);
    proof {
        if t.len() > 0 && t[0] == '+' {
            assert(t.skip(1) =~= d);
        } else {
            assert(t =~= d);
        }
    }
    if i == b {
        return None;
    }
    assert(parse_usize(trim(s@)) == (if !all_digits(d) {
        None
    } else if digits_value(d) <= usize::MAX {
        Some(digits_value(d))
    } else {
        None
    }));
    let mut acc: usize = 0;
    let mut j = i;
    proof {
        assert(d.take(0) =~= Seq::<char>::empty());
    }
    while j < b
        invariant
            n == s@.len(),
            i <= j <= b <= n,
            d == s@.subrange(i as int, b as int),
            parse_usize(trim(s@)) == (if !all_digits(d) {
                None
            } else if digits_value(d) <= usize::MAX {
                Some(digits_value(d))
            } else {
                None
            }),
            all_digits(s@.subrange(i as int, j as int)),
            acc as nat == digits_value(d.take(j - i)),
        decreases b - j,
    {
        let c = s.get_char(j);
        let ghost pre = d.take(j - i);
        proof {
            assert(d.take(j - i + 1).drop_last() =~= pre);
            assert(d.take(j - i + 1).last() == c);
        }
        if !(48 <= c as u32 && c as u32 <= 57) {
            proof {
                assert(d[j - i] == c);
                assert(!all_digits(d));
            }
            return None;
        }
        let dig = (c as u32 - 48) as usize;
        match acc.checked_mul(10) {
            None => {
                proof {
                    assert(digits_value(d.take(j - i + 1)) == acc * 10 + dig);
                    lemma_digits_prefix_grows(d, j - i + 1);
                }
                return None;
            },
            Some(m) => match m.checked_add(dig) {
                None => {
                    proof {
                        assert(digits_value(d.take(j - i + 1)) == acc * 10 + dig);
                        lemma_digits_prefix_grows(d, j - i + 1);
                    }
                    return None;
                },
                Some(v) => {
                    acc = v;
                },
            },
        }
        j = j + 1;
        proof {
            assert forall|k: int| 0 <= k < s@.subrange(i as int, j as int).len() implies is_digit(
                #[trigger] s@.subrange(i as int, j as int)[k],
            ) by {
                if k < j - 1 - i {
                    assert(s@.subrange(i as int, j as int)[k] == s@.subrange(i as int, j - 1)[k]);
                }
            }
        }
    }
    proof {
        assert(d.take(b - i) =~= d);
    }
    Some(acc)
}

fn colon_in(b: &[u8], from: usize, to: usize) -> (r: Option<usize>)
    requires
        from <= to <= b@.len(),
    ensures
        r matches Some(k) ==> from <= k && k + 2 <= to && colon_from(b@.subrange(from as int, to as int), 0)
            == Some((k - from) as nat),
        r is None ==> colon_from(b@.subrange(from as int, to as int), 0) is None,
{
    let ghost line = b@.subrange(from as int, to as int);
    let mut i = from;
    while to - i >= 2
        invariant
            from <= i <= to,
            to <= b@.len(),
            line == b@.subrange(from as int, to as int),
            colon_from(line, 0) == colon_from(line, (i - from) as nat),
        decreases to - i,
    {
        if b[i] == 58 && b[i + 1] == 32 {
            return Some(i);
        }
        i = i + 1;
    }
    None
}

fn is_content_length_key(b: &[u8], from: usize, to: usize) -> (r: bool)
    requires
        from <= to <= b@.len(),
    ensures
        r == ci_eq(b@.subrange(from as int, to as int), key_bytes()),
{
    let ghost k = b@.subrange(from as int, to as int);
    if to - from != 14 {
        return false;
    }
    let lower: [u8; 14] = [99, 111, 110, 116, 101, 110, 116, 45, 108, 101, 110, 103, 116, 104];
    let ghost key = key_bytes();
    assert(forall|q: int| 0 <= q < 14 ==> ascii_lower(#[trigger] key[q]) == lower@[q]);
    let mut i: usize = 0;
    while i < 14
        invariant
            to - from == 14,
            from <= to <= b@.len(),
            k == b@.subrange(from as int, to as int),
            key == key_bytes(),
            forall|q: int| 0 <= q < 14 ==> ascii_lower(#[trigger] key[q]) == lower@[q],
            i <= 14,
            forall|q: int| 0 <= q < i ==> ascii_lower(#[trigger] k[q]) == ascii_lower(key[q]),
        decreases 14 - i,
    {
        let c = b[from + i];
        let lc = if 65 <= c && c <= 90 {
            c + 32
        } else {
            c
        };
        assert(k[i as int] == c);
        if lc != lower[i] {
            return false;
        }
        i = i + 1;
    }
    true
}

proof fn lemma_scan_lines_prefix_err(lines: Seq<Seq<u8>>, j: int)
    requires
        0 < j <= lines.len(),
        scan_lines(lines.take(j)) is Err,
    ensures
        scan_lines(lines) == scan_lines(lines.take(j)),
    decreases lines.len() - j,
{
    if j < lines.len() {
        assert(lines.take(j + 1).drop_last() =~= lines.take(j));
        lemma_scan_lines_prefix_err(lines, j + 1);
    } else {
        assert(lines.take(j) =~= lines);
    }
}

/// The payload length that a complete header announces.
pub fn parse_header(h: &[u8]) -> (r: Result<usize, FrameError>)
    ensures
        r matches Ok(n) ==> header_len_spec(h@) == Ok::<nat, FrameError>(n as nat),
        r matches Err(e) ==> header_len_spec(h@) == Err::<nat, FrameError>(e),
{
    if utf8_text(h).is_none() {
        return Err(FrameError::NonUtf8Header);
    }
    let lines = crlf_line_ranges(h);
    let ghost pieces = split_crlf(h@);
    let mut cur: Option<usize> = None;
    let mut i: usize = 0;
    proof {
        assert(pieces.take(0) =~= Seq::<Seq<u8>>::empty());
    }
    while i < lines.len()
        invariant
            valid_utf8(h@),
            pieces == split_crlf(h@),
            byte_ranges_denote(h@, lines@, pieces),
            i <= lines@.len(),
            scan_lines(pieces.take(i as int)) == Ok::<Option<nat>, FrameError>(
                match cur {
                    Some(n) => Some(n as nat),
                    None => None,
                },
            ),
        decreases lines.len() - i,
    {
        let (a, b) = lines[i];
        let ghost line = pieces[i as int];
        proof {
            assert(h@.subrange(lines@[i as int].0 as int, lines@[i as int].1 as int) == line);
            assert(pieces.take(i + 1).drop_last() =~= pieces.take(i as int));
            assert(pieces.take(i + 1).last() == line);
        }
        if a < b {
            match colon_in(h, a, b) {
                None => {
                    proof {
                        lemma_scan_lines_prefix_err(pieces, i + 1);
                    }
                    return Err(FrameError::BadHeaderLine);
                },
                Some(k) => {
                    proof {
                        assert(line.take((k - a) as int) =~= h@.subrange(a as int, k as int));
                        assert(line.skip((k - a) + 2) =~= h@.subrange(k + 2, b as int));
                    }
                    if is_content_length_key(h, a, k) {
                        let v = &h[k + 2..b];
                        assert(v@ =~= h@.subrange(k + 2, b as int));
                        let parsed = match utf8_text(v) {
                            None => None,
                            Some(s) => {
                                proof {
                                    vstd::utf8::decode_utf8_encode_utf8(v@);
                                    vstd::utf8::encode_utf8_decode_utf8(s@);
                                }
                                parse_len_text(s)
                            },
                        };
                        match parsed {
                            None => {
                                proof {
                                    lemma_scan_lines_prefix_err(pieces, i + 1);
                                }
                                return Err(FrameError::BadLength);
                            },
                            Some(n) => {
                                cur = Some(n);
                            },
                        }
                    }
                },
            }
        }
        i = i + 1;
    }
    proof {
        assert(pieces.take(lines@.len() as int) =~= pieces);
    }
    match cur {
        None => Err(FrameError::NoContentLength),
        Some(n) => if n > MAX_FRAME_BYTES {
            Err(FrameError::FrameTooLarge)
        } else {
            Ok(n)
        },
    }
}

// ---------------------------------------------------------------- whole frames

/// What reading one frame from `stream` gives: nothing at a clean end of
/// input, or the payload and how many bytes the frame took, or an error.
pub open spec fn decode_spec(stream: Seq<u8>) -> Result<Option<(Seq<u8>, nat)>, FrameError> {
    match header_end(stream) {
        HeaderEnd::Empty => Ok(None),
        HeaderEnd::Failed(e) => Err(e),
        HeaderEnd::Complete(k) => match header_len_spec(stream.take(k as int)) {
            Err(e) => Err(e),
            Ok(n) => if stream.len() - k < n {
                Err(FrameError::EofMidBody)
            } else {
                Ok(Some((stream.subrange(k as int, (k + n) as int), k + n)))
            },
        },
    }
}

enum Scan {
    Empty,
    Complete(usize),
    Failed(FrameError),
}

fn scan_header(stream: &[u8]) -> (r: Scan)
    ensures
        match r {
            Scan::Empty => header_end(stream@) == HeaderEnd::Empty,
            Scan::Complete(k) => header_end(stream@) == HeaderEnd::Complete(k as nat) && k <= stream@.len(),
            Scan::Failed(e) => header_end(stream@) == HeaderEnd::Failed(e),
        },
{
    let n = stream.len();
    let mut k: usize = 0;
    while k < n
        invariant
            n == stream@.len(),
            k <= n,
            k <= MAX_HEADER_BYTES,
            header_end(stream@) == header_end_from(stream@, k as nat),
        decreases n - k,
    {
        let e = k + 1;
        assert(stream@.take(e as int).len() == e);
        let done = e >= 4 && stream[e - 4] == 13 && stream[e - 3] == 10 && stream[e - 2] == 13
            && stream[e - 1] == 10;
        assert(done == ends_header(stream@.take(e as int)));
        if done {
            return Scan::Complete(e);
        }
        if e > MAX_HEADER_BYTES {
            return Scan::Failed(FrameError::HeaderTooLarge);
        }
        k = e;
    }
    if k == 0 {
        Scan::Empty
    } else {
        Scan::Failed(FrameError::EofMidHeader)
    }
}

fn copy_range(b: &[u8], from: usize, to: usize) -> (r: Vec<u8>)
    requires
        from <= to <= b@.len(),
    ensures
        r@ == b@.subrange(from as int, to as int),
{
    let mut out: Vec<u8> = Vec::new();
    let mut i = from;
    while i < to
        invariant
            from <= i <= to <= b@.len(),
            out@ == b@.subrange(from as int, i as int),
        decreases to - i,
    {
        out.push(b[i]);
        i = i + 1;
        assert(out@ =~= b@.subrange(from as int, i as int));
    }
    out
}

/// Read one frame from the front of `stream`.
pub fn decode_frame(stream: &[u8]) -> (r: Result<Option<(Vec<u8>, usize)>, FrameError>)
    ensures
        r matches Ok(None) ==> decode_spec(stream@) == Ok::<Option<(Seq<u8>, nat)>, FrameError>(None),
        r matches Ok(Some((p, used))) ==> decode_spec(stream@) == Ok::<Option<(Seq<u8>, nat)>, FrameError>(
            Some((p@, used as nat)),
        ),
        r matches Err(e) ==> decode_spec(stream@) == Err::<Option<(Seq<u8>, nat)>, FrameError>(e),
{
    match scan_header(stream) {
        Scan::Empty => Ok(None),
        Scan::Failed(e) => Err(e),
        Scan::Complete(k) => {
            let h = copy_range(stream, 0, k);
            assert(h@ =~= stream@.take(k as int));
            match parse_header(h.as_slice()) {
                Err(e) => Err(e),
                Ok(n) => {
                    if stream.len() - k < n {
                        Err(FrameError::EofMidBody)
                    } else {
                        let p = copy_range(stream, k, k + n);
                        assert(p@ =~= stream@.subrange(k as int, k + n));
                        Ok(Some((p, k + n)))
                    }
                },
            }
        },
    }
}

// ---------------------------------------------------------------- laws

pub open spec fn to_chars(b: Seq<u8>) -> Seq<char> {
    Seq::new(b.len(), |i: int| b[i] as char)
}

proof fn lemma_ascii_decodes(v: Seq<u8>)
    requires
        forall|i: int| 0 <= i < v.len() ==> #[trigger] v[i] < 128,
    ensures
        valid_utf8(v),
        decode_utf8(v) == to_chars(v),
{
    let cs = to_chars(v);
    assert(vstd::utf8::is_ascii_chars(cs)) by {
        assert forall|i: int| 0 <= i < cs.len() implies '\0' <= #[trigger] cs[i] <= '\u{7f}' by {
            assert(v[i] < 128);
        }
    }
    vstd::utf8::is_ascii_chars_encode_utf8(cs);
    assert(vstd::utf8::encode_utf8(cs) =~= v);
    vstd::utf8::encode_utf8_valid_utf8(cs);
    vstd::utf8::encode_utf8_decode_utf8(cs);
}

proof fn lemma_decimal(n: nat)
    ensures
        decimal(n).len() >= 1,
        forall|i: int| 0 <= i < decimal(n).len() ==> 48 <= #[trigger] decimal(n)[i] <= 57,
        n < 100000000 ==> decimal(n).len() <= 8,
        n < 10000000 ==> decimal(n).len() <= 7,
        n < 1000000 ==> decimal(n).len() <= 6,
        n < 100000 ==> decimal(n).len() <= 5,
        n < 10000 ==> decimal(n).len() <= 4,
        n < 1000 ==> decimal(n).len() <= 3,
        n < 100 ==> decimal(n).len() <= 2,
        digits_value(to_chars(decimal(n))) == n,
        all_digits(to_chars(decimal(n))),
    decreases n,
{
    if n < 10 {
        let c = (48 + n) as u8;
        assert(decimal(n) == seq![c]);
        assert(digits_value(Seq::<char>::empty()) == 0);
        assert(to_chars(decimal(n)).drop_last() =~= Seq::<char>::empty());
        assert(to_chars(decimal(n)).last() == c as char);
        assert((c as char) as u32 == c as u32);
        assert(digits_value(to_chars(decimal(n))) == 0 * 10 + ((c as char) as u32 - 48) as nat);
    } else {
        lemma_decimal(n / 10);
        let d = decimal(n / 10);
        let c = (48 + n % 10) as u8;
        assert(decimal(n) == d.push(c));
        assert forall|i: int| 0 <= i < decimal(n).len() implies 48 <= #[trigger] decimal(n)[i] <= 57 by {
            if i < d.len() {
                assert(decimal(n)[i] == d[i]);
            }
        }
        assert(to_chars(decimal(n)).drop_last() =~= to_chars(d));
        assert(to_chars(decimal(n)).last() == c as char);
        assert((c as char) as u32 == c as u32);
        assert(n == (n / 10) * 10 + n % 10);
        assert(digits_value(to_chars(decimal(n))) == digits_value(to_chars(d)) * 10 + ((c as char) as u32 - 48) as nat);
        assert(all_digits(to_chars(decimal(n)))) by {
            assert forall|i: int| 0 <= i < to_chars(decimal(n)).len() implies is_digit(
                #[trigger] to_chars(decimal(n))[i],
            ) by {
                assert(48 <= decimal(n)[i] <= 57);
                assert((decimal(n)[i] as char) as u32 == decimal(n)[i] as u32);
            }
        }
    }
}

proof fn lemma_line_facts(n: nat)
    requires
        n <= MAX_FRAME_BYTES,
    ensures
        header_line(n).len() <= 24,
        header_line(n).len() >= 17,
        forall|i: int| 0 <= i < header_line(n).len() ==> #[trigger] header_line(n)[i] != 13 && header_line(n)[i] < 128,
        header_line(n).take(14) == key_bytes(),
        header_line(n)[14] == 58 && header_line(n)[15] == 32,
        forall|i: int| 0 <= i < 14 ==> #[trigger] header_line(n)[i] != 58,
        header_line(n).skip(16) == decimal(n),
{
    lemma_decimal(n);
    let l = header_line(n);
    let pre = key_bytes() + seq![58u8, 32];
    assert(l == pre + decimal(n));
    assert forall|i: int| 0 <= i < l.len() implies #[trigger] l[i] != 13 && l[i] < 128 by {
        if i >= 16 {
            assert(l[i] == decimal(n)[i - 16]);
        }
    }
    assert(l.take(14) =~= key_bytes());
    assert(l.skip(16) =~= decimal(n));
}

proof fn lemma_colon_at_14(l: Seq<u8>, i: nat)
    requires
        i <= 14,
        l.len() >= 17,
        l[14] == 58 && l[15] == 32,
        forall|k: int| 0 <= k < 14 ==> #[trigger] l[k] != 58,
    ensures
        colon_from(l, i) == Some(14nat),
    decreases 14 - i,
{
    if i < 14 {
        assert(l[i as int] != 58);
        lemma_colon_at_14(l, i + 1);
    }
}

proof fn lemma_split_crlf_glue(l: Seq<u8>, y: Seq<u8>)
    requires
        forall|i: int| 0 <= i < l.len() ==> #[trigger] l[i] != 13,
        y.len() >= 2,
    ensures
        split_crlf(l + y) == glue(l, split_crlf(y)),
    decreases l.len(),
{
    lemma_split_crlf_nonempty(y);
    if l.len() == 0 {
        assert(l + y =~= y);
        assert(glue(l, split_crlf(y)) =~= split_crlf(y));
    } else {
        let t = l.skip(1);
        assert forall|i: int| 0 <= i < t.len() implies #[trigger] t[i] != 13 by {
            assert(t[i] == l[i + 1]);
        }
        lemma_split_crlf_glue(t, y);
        assert((l + y).skip(1) =~= t + y);
        assert((l + y)[0] == l[0]);
        assert(l[0] != 13);
        let r = split_crlf(t + y);
        assert(split_crlf(l + y) == r.update(0, seq![l[0]] + r[0]));
        assert(seq![l[0]] + (t + split_crlf(y)[0]) =~= l + split_crlf(y)[0]);
        assert(split_crlf(l + y) =~= glue(l, split_crlf(y)));
    }
}

proof fn lemma_header_lines(n: nat)
    requires
        n <= MAX_FRAME_BYTES,
    ensures
        split_crlf(header_for(n)) == seq![header_line(n), Seq::<u8>::empty(), Seq::<u8>::empty()],
{
    lemma_line_facts(n);
    let y = crlf2();
    lemma_split_crlf_glue(header_line(n), y);
    assert(y.skip(2) =~= seq![13u8, 10]);
    assert(seq![13u8, 10].skip(2) =~= Seq::<u8>::empty());
    assert(split_crlf(seq![13u8, 10]) == seq![Seq::<u8>::empty()] + split_crlf(Seq::<u8>::empty()));
    assert(split_crlf(y) =~= seq![Seq::<u8>::empty(), Seq::<u8>::empty(), Seq::<u8>::empty()]);
    assert(glue(header_line(n), split_crlf(y)) =~= seq![
        header_line(n),
        Seq::<u8>::empty(),
        Seq::<u8>::empty(),
    ]);
}

proof fn lemma_header_parses(n: nat)
    requires
        n <= MAX_FRAME_BYTES,
    ensures
        header_len_spec(header_for(n)) == Ok::<nat, FrameError>(n),
{
    lemma_line_facts(n);
    lemma_decimal(n);
    let h = header_for(n);
    let l = header_line(n);
    assert forall|i: int| 0 <= i < h.len() implies #[trigger] h[i] < 128 by {
        if i < l.len() {
            assert(h[i] == l[i]);
        }
    }
    lemma_ascii_decodes(h);
    lemma_header_lines(n);
    lemma_colon_at_14(l, 0);
    assert(ci_eq(l.take(14), key_bytes()));
    let v = l.skip(16);
    assert(v == decimal(n));
    lemma_ascii_decodes(v);
    let t = to_chars(v);
    assert(t.len() >= 1);
    assert(is_digit(t[0]) && is_digit(t.last()));
    assert(!is_ws(t[0]));
    assert(!is_ws(t.last()));
    assert(trim_front(t) == t);
    assert(trim_back(t) == t);
    assert(t[0] != '+');
    assert(parse_usize(t) == Some(n));
    assert(line_step(l, None) == Ok::<Option<nat>, FrameError>(Some(n)));
    let lines = seq![l, Seq::<u8>::empty(), Seq::<u8>::empty()];
    assert(lines.drop_last().drop_last().drop_last() =~= Seq::<Seq<u8>>::empty());
    assert(lines.drop_last().drop_last() =~= seq![l]);
    assert(seq![l].drop_last() =~= Seq::<Seq<u8>>::empty());
    assert(scan_lines(Seq::<Seq<u8>>::empty()) == Ok::<Option<nat>, FrameError>(None));
    assert(seq![l].last() == l);
    assert(scan_lines(seq![l]) == Ok::<Option<nat>, FrameError>(Some(n)));
    assert(line_step(Seq::<u8>::empty(), Some(n)) == Ok::<Option<nat>, FrameError>(Some(n)));
    assert(lines.drop_last() =~= seq![l, Seq::<u8>::empty()]);
    assert(seq![l, Seq::<u8>::empty()].drop_last() =~= seq![l]);
    assert(scan_lines(seq![l, Seq::<u8>::empty()]) == Ok::<Option<nat>, FrameError>(Some(n)));
    assert(lines.last() == Seq::<u8>::empty());
    assert(scan_lines(lines) == Ok::<Option<nat>, FrameError>(Some(n)));
}

proof fn lemma_header_end(stream: Seq<u8>, hl: nat, k: nat)
    requires
        hl <= stream.len(),
        hl >= 4,
        hl <= MAX_HEADER_BYTES,
        k < hl,
        ends_header(stream.take(hl as int)),
        forall|i: int| 0 <= i < hl - 4 ==> #[trigger] stream[i] != 13,
    ensures
        header_end_from(stream, k) == HeaderEnd::Complete(hl),
    decreases hl - k,
{
    if k + 1 < hl {
        let w = stream.take((k + 1) as int);
        if w.len() >= 4 {
            assert(w[w.len() - 4] == stream[k - 3]);
        }
        assert(!ends_header(w));
        lemma_header_end(stream, hl, k + 1);
    } else {
        assert(stream.take((k + 1) as int) == stream.take(hl as int));
    }
}

/// Reading a written frame gives back its payload and consumes exactly the
/// frame, whatever bytes follow it.
pub proof fn law_frame_roundtrip(payload: Seq<u8>, rest: Seq<u8>)
    requires
        payload.len() <= MAX_FRAME_BYTES,
    ensures
        decode_spec(header_for(payload.len()) + payload + rest) == Ok::<Option<(Seq<u8>, nat)>, FrameError>(
            Some((payload, header_for(payload.len()).len() + payload.len())),
        ),
{
    let n = payload.len();
    let h = header_for(n);
    let stream = h + payload + rest;
    lemma_line_facts(n);
    let hl = h.len();
    assert(stream.take(hl as int) =~= h);
    assert forall|i: int| 0 <= i < hl - 4 implies #[trigger] stream[i] != 13 by {
        assert(stream[i] == header_line(n)[i]);
    }
    lemma_header_end(stream, hl, 0);
    lemma_header_parses(n);
    assert(stream.subrange(hl as int, (hl + n) as int) =~= payload);
}

/// An empty stream is a clean end of input, not an error.
pub proof fn law_empty_stream_is_end()
    ensures
        decode_spec(Seq::<u8>::empty()) == Ok::<Option<(Seq<u8>, nat)>, FrameError>(None),
{
}

} // verus!
