//! Key and mouse bindings for push-to-talk: parsing `Ctrl+Shift+F12`-style
//! strings into a canonical form, and formatting that form back.
use vstd::prelude::*;
use vstd::string::*;
use crate::text::{concat3, join, lemma_split_join, lemma_split_on_nonempty, lemma_split_pieces_free, range_is, ranges_denote, split_on, split_ranges, substring};

verus! {

/// A keyboard modifier.
#[derive(Debug, Clone, Copy, PartialEq, Eq, Hash, Structural)]
pub enum Modifier {
    Ctrl,
    Shift,
    Alt,
    Super,
}

/// A key or mouse-button binding with its modifiers.
#[derive(Debug, Clone, PartialEq, Eq)]
pub enum Binding {
    Keyboard { mods: Vec<Modifier>, key: String },
    Mouse { mods: Vec<Modifier>, button: String },
}

/// A binding as a mathematical value.
pub enum BindingView {
    Keyboard { mods: Seq<Modifier>, key: Seq<char> },
    Mouse { mods: Seq<Modifier>, button: Seq<char> },
}

impl View for Binding {
    type V = BindingView;

    open spec fn view(&self) -> BindingView {
        match self {
            Binding::Keyboard { mods, key } => BindingView::Keyboard { mods: mods@, key: key@ },
            Binding::Mouse { mods, button } => BindingView::Mouse { mods: mods@, button: button@ },
        }
    }
}

/// The modifier a token names (`Meta` and `Win` name `Super`).
pub open spec fn parse_mod_spec(t: Seq<char>) -> Option<Modifier> {
    if t == "Ctrl"@ {
        Some(Modifier::Ctrl)
    } else if t == "Alt"@ {
        Some(Modifier::Alt)
    } else if t == "Shift"@ {
        Some(Modifier::Shift)
    } else if t == "Super"@ || t == "Meta"@ || t == "Win"@ {
        Some(Modifier::Super)
    } else {
        None
    }
}

/// The canonical name of a mouse button token (`MouseLeft` is `Mouse1`, ...).
pub open spec fn mouse_spec(t: Seq<char>) -> Option<Seq<char>> {
    if t == "Mouse1"@ || t == "MouseLeft"@ {
        Some("Mouse1"@)
    } else if t == "Mouse2"@ || t == "MouseRight"@ {
        Some("Mouse2"@)
    } else if t == "Mouse3"@ || t == "MouseMiddle"@ {
        Some("Mouse3"@)
    } else if t == "Mouse4"@ || t == "MouseSide"@ {
        Some("Mouse4"@)
    } else if t == "Mouse5"@ || t == "MouseExtra"@ {
        Some("Mouse5"@)
    } else if t == "Mouse6"@ || t == "MouseForward"@ {
        Some("Mouse6"@)
    } else if t == "Mouse7"@ || t == "MouseBack"@ {
        Some("Mouse7"@)
    } else if t == "Mouse8"@ || t == "MouseTask"@ {
        Some("Mouse8"@)
    } else {
        None
    }
}

pub open spec fn is_ascii_alnum(c: char) -> bool {
    ||| (48 <= c as u32 && c as u32 <= 57)
    ||| (65 <= c as u32 && c as u32 <= 90)
    ||| (97 <= c as u32 && c as u32 <= 122)
}

/// The named (multi-letter) keys a binding may use.
pub open spec fn named_key(t: Seq<char>) -> bool {
    ||| t == "F1"@
    ||| t == "F2"@
    ||| t == "F3"@
    ||| t == "F4"@
    ||| t == "F5"@
    ||| t == "F6"@
    ||| t == "F7"@
    ||| t == "F8"@
    ||| t == "F9"@
    ||| t == "F10"@
    ||| t == "F11"@
    ||| t == "F12"@
    ||| t == "F13"@
    ||| t == "F14"@
    ||| t == "F15"@
    ||| t == "F16"@
    ||| t == "F17"@
    ||| t == "F18"@
    ||| t == "F19"@
    ||| t == "F20"@
    ||| t == "F21"@
    ||| t == "F22"@
    ||| t == "F23"@
    ||| t == "F24"@
    ||| t == "Space"@
    ||| t == "Enter"@
    ||| t == "Tab"@
    ||| t == "Backspace"@
    ||| t == "Delete"@
    ||| t == "Insert"@
    ||| t == "Home"@
    ||| t == "End"@
    ||| t == "PageUp"@
    ||| t == "PageDown"@
    ||| t == "Up"@
    ||| t == "Down"@
    ||| t == "Left"@
    ||| t == "Right"@
    ||| t == "Escape"@
    ||| t == "CapsLock"@
    ||| t == "NumLock"@
    ||| t == "ScrollLock"@
    ||| t == "PrintScreen"@
    ||| t == "Pause"@
    ||| t == "Minus"@
    ||| t == "Equal"@
    ||| t == "BracketLeft"@
    ||| t == "BracketRight"@
    ||| t == "Semicolon"@
    ||| t == "Quote"@
    ||| t == "Comma"@
    ||| t == "Period"@
    ||| t == "Slash"@
    ||| t == "Backslash"@
    ||| t == "Backquote"@
}

/// A key is one ASCII letter or digit, or one of the named keys.
pub open spec fn valid_key(t: Seq<char>) -> bool {
    (t.len() == 1 && is_ascii_alnum(t[0])) || named_key(t)
}

/// Parse the modifier tokens in order; the first token that names no
/// modifier is the error.
pub open spec fn parse_mods(toks: Seq<Seq<char>>) -> Result<Seq<Modifier>, Seq<char>>
    decreases toks.len(),
{
    if toks.len() == 0 {
        Ok(Seq::<Modifier>::empty())
    } else {
        match parse_mods(toks.drop_last()) {
            Err(t) => Err(t),
            Ok(ms) => match parse_mod_spec(toks.last()) {
                Some(m) => Ok(ms.push(m)),
                None => Err(toks.last()),
            },
        }
    }
}

pub open spec fn opt_mod(ms: Seq<Modifier>, m: Modifier) -> Seq<Modifier> {
    if ms.contains(m) {
        seq![m]
    } else {
        Seq::<Modifier>::empty()
    }
}

/// The modifiers of `ms`, each once, in the order Ctrl, Shift, Alt, Super.
pub open spec fn canonical(ms: Seq<Modifier>) -> Seq<Modifier> {
    opt_mod(ms, Modifier::Ctrl) + opt_mod(ms, Modifier::Shift) + opt_mod(ms, Modifier::Alt)
        + opt_mod(ms, Modifier::Super)
}

/// What `Binding::parse` gives for `s`: the binding, or the error message.
pub open spec fn parse_spec(s: Seq<char>) -> Result<BindingView, Seq<char>> {
    if s.len() == 0 {
        Err("empty binding"@)
    } else {
        let parts = split_on(s, '+');
        if exists|i: int| 0 <= i < parts.len() && (#[trigger] parts[i]).len() == 0 {
            Err("invalid binding '"@ + s + "': empty token"@)
        } else {
            match parse_mods(parts.drop_last()) {
                Err(t) => Err("'"@ + t + "' is not a modifier"@),
                Ok(ms) => {
                    let mods = canonical(ms);
                    let last = parts.last();
                    match mouse_spec(last) {
                        Some(b) => Ok(BindingView::Mouse { mods, button: b }),
                        None => if valid_key(last) {
                            Ok(BindingView::Keyboard { mods, key: last })
                        } else {
                            Err("'"@ + last + "' is not a recognized key or mouse button"@)
                        },
                    }
                },
            }
        }
    }
}

pub open spec fn opt_name(ms: Seq<Modifier>, m: Modifier, name: Seq<char>) -> Seq<Seq<char>> {
    if ms.contains(m) {
        seq![name]
    } else {
        Seq::<Seq<char>>::empty()
    }
}

/// The names of the modifiers in `ms`, in canonical order.
pub open spec fn mod_names(ms: Seq<Modifier>) -> Seq<Seq<char>> {
    opt_name(ms, Modifier::Ctrl, "Ctrl"@) + opt_name(ms, Modifier::Shift, "Shift"@) + opt_name(
        ms,
        Modifier::Alt,
        "Alt"@,
    ) + opt_name(ms, Modifier::Super, "Super"@)
}

/// The modifiers of `ms` joined with `+`.
pub open spec fn fmt_mods_spec(ms: Seq<Modifier>) -> Seq<char> {
    join(mod_names(ms), "+"@)
}

pub open spec fn with_mods(ms: Seq<Modifier>, tok: Seq<char>) -> Seq<char> {
    let m = fmt_mods_spec(ms);
    if m.len() == 0 {
        tok
    } else {
        m + "+"@ + tok
    }
}

/// What `Binding::format` gives for a binding.
pub open spec fn format_spec(b: BindingView) -> Seq<char> {
    match b {
        BindingView::Keyboard { mods, key } => with_mods(mods, key),
        BindingView::Mouse { mods, button } => with_mods(mods, button),
    }
}

fn parse_mod(s: &str, a: usize, b: usize) -> (r: Option<Modifier>)
    requires
        a <= b <= s@.len(),
    ensures
        r == parse_mod_spec(s@.subrange(a as int, b as int)),
{
    if range_is(s, a, b, "Ctrl") {
        Some(Modifier::Ctrl)
    } else if range_is(s, a, b, "Alt") {
        Some(Modifier::Alt)
    } else if range_is(s, a, b, "Shift") {
        Some(Modifier::Shift)
    } else if range_is(s, a, b, "Super") || range_is(s, a, b, "Meta") || range_is(s, a, b, "Win") {
        Some(Modifier::Super)
    } else {
        None
    }
}

fn is_valid_key(s: &str, a: usize, b: usize) -> (r: bool)
    requires
        a <= b <= s@.len(),
    ensures
        r == valid_key(s@.subrange(a as int, b as int)),
{
    let ghost t = s@.subrange(a as int, b as int);
    if b - a == 1 {
        let c = s.get_char(a);
        assert(t[0] == c);
        let u = c as u32;
        if (48 <= u && u <= 57) || (65 <= u && u <= 90) || (97 <= u && u <= 122) {
            return true;
        }
    }
    range_is(s, a, b, "F1")
        || range_is(s, a, b, "F2")
        || range_is(s, a, b, "F3")
        || range_is(s, a, b, "F4")
        || range_is(s, a, b, "F5")
        || range_is(s, a, b, "F6")
        || range_is(s, a, b, "F7")
        || range_is(s, a, b, "F8")
        || range_is(s, a, b, "F9")
        || range_is(s, a, b, "F10")
        || range_is(s, a, b, "F11")
        || range_is(s, a, b, "F12")
        || range_is(s, a, b, "F13")
        || range_is(s, a, b, "F14")
        || range_is(s, a, b, "F15")
        || range_is(s, a, b, "F16")
        || range_is(s, a, b, "F17")
        || range_is(s, a, b, "F18")
        || range_is(s, a, b, "F19")
        || range_is(s, a, b, "F20")
        || range_is(s, a, b, "F21")
        || range_is(s, a, b, "F22")
        || range_is(s, a, b, "F23")
        || range_is(s, a, b, "F24")
        || range_is(s, a, b, "Space")
        || range_is(s, a, b, "Enter")
        || range_is(s, a, b, "Tab")
        || range_is(s, a, b, "Backspace")
        || range_is(s, a, b, "Delete")
        || range_is(s, a, b, "Insert")
        || range_is(s, a, b, "Home")
        || range_is(s, a, b, "End")
        || range_is(s, a, b, "PageUp")
        || range_is(s, a, b, "PageDown")
        || range_is(s, a, b, "Up")
        || range_is(s, a, b, "Down")
        || range_is(s, a, b, "Left")
        || range_is(s, a, b, "Right")
        || range_is(s, a, b, "Escape")
        || range_is(s, a, b, "CapsLock")
        || range_is(s, a, b, "NumLock")
        || range_is(s, a, b, "ScrollLock")
        || range_is(s, a, b, "PrintScreen")
        || range_is(s, a, b, "Pause")
        || range_is(s, a, b, "Minus")
        || range_is(s, a, b, "Equal")
        || range_is(s, a, b, "BracketLeft")
        || range_is(s, a, b, "BracketRight")
        || range_is(s, a, b, "Semicolon")
        || range_is(s, a, b, "Quote")
        || range_is(s, a, b, "Comma")
        || range_is(s, a, b, "Period")
        || range_is(s, a, b, "Slash")
        || range_is(s, a, b, "Backslash")
        || range_is(s, a, b, "Backquote")
}

fn parse_mouse_button(s: &str, a: usize, b: usize) -> (r: Option<String>)
    requires
        a <= b <= s@.len(),
    ensures
        r matches Some(x) ==> mouse_spec(s@.subrange(a as int, b as int)) == Some(x@),
        r is None ==> mouse_spec(s@.subrange(a as int, b as int)) is None,
{
    if range_is(s, a, b, "Mouse1") || range_is(s, a, b, "MouseLeft") {
        Some("Mouse1".to_owned())
    } else if range_is(s, a, b, "Mouse2") || range_is(s, a, b, "MouseRight") {
        Some("Mouse2".to_owned())
    } else if range_is(s, a, b, "Mouse3") || range_is(s, a, b, "MouseMiddle") {
        Some("Mouse3".to_owned())
    } else if range_is(s, a, b, "Mouse4") || range_is(s, a, b, "MouseSide") {
        Some("Mouse4".to_owned())
    } else if range_is(s, a, b, "Mouse5") || range_is(s, a, b, "MouseExtra") {
        Some("Mouse5".to_owned())
    } else if range_is(s, a, b, "Mouse6") || range_is(s, a, b, "MouseForward") {
        Some("Mouse6".to_owned())
    } else if range_is(s, a, b, "Mouse7") || range_is(s, a, b, "MouseBack") {
        Some("Mouse7".to_owned())
    } else if range_is(s, a, b, "Mouse8") || range_is(s, a, b, "MouseTask") {
        Some("Mouse8".to_owned())
    } else {
        None
    }
}

fn has_mod(mods: &Vec<Modifier>, m: Modifier) -> (r: bool)
    ensures
        r == mods@.contains(m),
{
    let mut i: usize = 0;
    while i < mods.len()
        invariant
            i <= mods@.len(),
            forall|k: int| 0 <= k < i ==> mods@[k] != m,
        decreases mods.len() - i,
    {
        if mods[i] == m {
            assert(mods@[i as int] == m);
            return true;
        }
        i = i + 1;
    }
    false
}

/// The modifiers, each once, in the order Ctrl, Shift, Alt, Super.
pub fn canonical_mods(mods: &Vec<Modifier>) -> (out: Vec<Modifier>)
    ensures
        out@ == canonical(mods@),
{
    let mut out: Vec<Modifier> = Vec::new();
    if has_mod(mods, Modifier::Ctrl) {
        out.push(Modifier::Ctrl);
    }
    assert(out@ =~= opt_mod(mods@, Modifier::Ctrl));
    if has_mod(mods, Modifier::Shift) {
        out.push(Modifier::Shift);
    }
    assert(out@ =~= opt_mod(mods@, Modifier::Ctrl) + opt_mod(mods@, Modifier::Shift));
    if has_mod(mods, Modifier::Alt) {
        out.push(Modifier::Alt);
    }
    assert(out@ =~= opt_mod(mods@, Modifier::Ctrl) + opt_mod(mods@, Modifier::Shift) + opt_mod(
        mods@,
        Modifier::Alt,
    ));
    if has_mod(mods, Modifier::Super) {
        out.push(Modifier::Super);
    }
    assert(out@ =~= canonical(mods@));
    out
}

proof fn lemma_join_push(parts: Seq<Seq<char>>, p: Seq<char>, sep: Seq<char>)
    ensures
        join(parts.push(p), sep) == if parts.len() == 0 {
            p
        } else {
            join(parts, sep) + sep + p
        },
{
    assert(parts.push(p).drop_last() =~= parts);
    if parts.len() == 0 {
        assert(parts.push(p) =~= seq![p]);
    }
}

/// Append `name` to `out` as the next `+`-joined piece.
fn push_piece(out: &mut String, first: bool, name: &str, Ghost(pieces): Ghost<Seq<Seq<char>>>)
    requires
        old(out)@ == join(pieces, "+"@),
        first == (pieces.len() == 0),
    ensures
        final(out)@ == join(pieces.push(name@), "+"@),
{
    proof {
        lemma_join_push(pieces, name@, "+"@);
    }
    if !first {
        out.append("+");
    }
    out.append(name);
}

/// The modifiers joined with `+` in canonical order.
fn fmt_mods(mods: &Vec<Modifier>) -> (r: String)
    ensures
        r@ == fmt_mods_spec(mods@),
{
    let mut out = String::new();
    let ghost mut pieces: Seq<Seq<char>> = Seq::empty();
    let mut first = true;
    if has_mod(mods, Modifier::Ctrl) {
        push_piece(&mut out, first, "Ctrl", Ghost(pieces));
        proof {
            pieces = pieces.push("Ctrl"@);
        }
        first = false;
    }
    assert(pieces =~= opt_name(mods@, Modifier::Ctrl, "Ctrl"@));
    let ghost p1 = pieces;
    if has_mod(mods, Modifier::Shift) {
        push_piece(&mut out, first, "Shift", Ghost(pieces));
        proof {
            pieces = pieces.push("Shift"@);
        }
        first = false;
    }
    assert(pieces =~= p1 + opt_name(mods@, Modifier::Shift, "Shift"@));
    let ghost p2 = pieces;
    if has_mod(mods, Modifier::Alt) {
        push_piece(&mut out, first, "Alt", Ghost(pieces));
        proof {
            pieces = pieces.push("Alt"@);
        }
        first = false;
    }
    assert(pieces =~= p2 + opt_name(mods@, Modifier::Alt, "Alt"@));
    let ghost p3 = pieces;
    if has_mod(mods, Modifier::Super) {
        push_piece(&mut out, first, "Super", Ghost(pieces));
        proof {
            pieces = pieces.push("Super"@);
        }
    }
    assert(pieces =~= p3 + opt_name(mods@, Modifier::Super, "Super"@));
    assert(pieces =~= mod_names(mods@));
    out
}

fn with_mods_string(mods: &Vec<Modifier>, tok: &String) -> (r: String)
    ensures
        r@ == with_mods(mods@, tok@),
{
    let m = fmt_mods(mods);
    if m.unicode_len() == 0 {
        tok.clone()
    } else {
        concat3(m.as_str(), "+", tok.as_str())
    }
}

fn copy_mods(m: &Vec<Modifier>) -> (r: Vec<Modifier>)
    ensures
        r@ == m@,
{
    let mut r: Vec<Modifier> = Vec::new();
    let mut i: usize = 0;
    while i < m.len()
        invariant
            i <= m@.len(),
            r@ == m@.take(i as int),
        decreases m@.len() - i,
    {
        r.push(m[i]);
        i = i + 1;
        assert(r@ =~= m@.take(i as int));
    }
    assert(m@.take(i as int) =~= m@);
    r
}

impl Binding {
    /// A copy of the binding.
    pub fn clone_binding(&self) -> (r: Binding)
        ensures
            r@ == self@,
    {
        match self {
            Binding::Keyboard { mods, key } => Binding::Keyboard { mods: copy_mods(mods), key: key.clone() },
            Binding::Mouse { mods, button } => Binding::Mouse { mods: copy_mods(mods), button: button.clone() },
        }
    }

    /// Parse a binding such as `Ctrl+Shift+F12` or `Mouse5`. Modifier tokens
    /// come first; the last token is a key or mouse button. Modifiers are
    /// put in canonical order and mouse-button aliases in canonical name.
    pub fn parse(s: &str) -> (r: Result<Binding, String>)
        ensures
            r matches Ok(b) ==> parse_spec(s@) == Ok::<BindingView, Seq<char>>(b@),
            r matches Err(e) ==> parse_spec(s@) == Err::<BindingView, Seq<char>>(e@),
    {
        if s.unicode_len() == 0 {
            return Err("empty binding".to_owned());
        }
        let parts = split_ranges(s, '+');
        let ghost pieces = split_on(s@, '+');
        proof {
            lemma_split_on_nonempty(s@, '+');
        }
        let np = parts.len();
        let mut i: usize = 0;
        while i < np
            invariant
                np == parts@.len(),
                s@.len() > 0,
                pieces == split_on(s@, '+'),
                ranges_denote(s@, parts@, pieces),
                i <= np,
                forall|k: int| 0 <= k < i ==> (#[trigger] pieces[k]).len() != 0,
            decreases np - i,
        {
            let (a, b) = parts[i];
            assert(s@.subrange(parts@[i as int].0 as int, parts@[i as int].1 as int) == pieces[i as int]);
            if a == b {
                assert(pieces[i as int].len() == 0);
                assert(exists|k: int| 0 <= k < pieces.len() && (#[trigger] pieces[k]).len() == 0);
                let e = concat3("invalid binding '", s, "': empty token");
                assert(e@ == "invalid binding '"@ + s@ + "': empty token"@);
                assert(s@.len() != 0);
                assert(split_on(s@, '+') == pieces);
                assert(exists|k: int| 0 <= k < split_on(s@, '+').len() && (#[trigger] split_on(s@, '+')[k]).len() == 0);
                assert(parse_spec(s@) is Err);
                assert(parse_spec(s@) == Err::<BindingView, Seq<char>>("invalid binding '"@ + s@ + "': empty token"@));
                return Err(e);
            }
            i = i + 1;
        }
        assert(forall|k: int| 0 <= k < pieces.len() ==> (#[trigger] pieces[k]).len() != 0);
        let mut mods: Vec<Modifier> = Vec::new();
        let mut j: usize = 0;
        proof {
            assert(pieces.drop_last().take(0) =~= Seq::<Seq<char>>::empty());
        }
        while j < np - 1
            invariant
                np == parts@.len(),
                np >= 1,
                s@.len() > 0,
                pieces == split_on(s@, '+'),
                ranges_denote(s@, parts@, pieces),
                j <= np - 1,
                parse_mods(pieces.drop_last().take(j as int)) == Ok::<Seq<Modifier>, Seq<char>>(mods@),
                forall|k: int| 0 <= k < pieces.len() ==> (#[trigger] pieces[k]).len() != 0,
            decreases np - 1 - j,
        {
            let (a, b) = parts[j];
            assert(s@.subrange(parts@[j as int].0 as int, parts@[j as int].1 as int) == pieces[j as int]);
            let ghost toks = pieces.drop_last().take(j + 1);
            proof {
                assert(toks.drop_last() =~= pieces.drop_last().take(j as int));
                assert(toks.last() == pieces[j as int]);
            }
            match parse_mod(s, a, b) {
                Some(m) => {
                    mods.push(m);
                },
                None => {
                    let tok = substring(s, a, b);
                    proof {
                        let all = pieces.drop_last();
                        assert(parse_mods(toks) == Err::<Seq<Modifier>, Seq<char>>(toks.last()));
                        assert(all.take(j + 1) == toks);
                        lemma_parse_mods_prefix_err(all, j as int + 1);
                        assert(!(exists|k: int| 0 <= k < pieces.len() && (#[trigger] pieces[k]).len() == 0));
                    }
                    return Err(concat3("'", tok.as_str(), "' is not a modifier"));
                },
            }
            j = j + 1;
        }
        proof {
            assert(pieces.drop_last().take((np - 1) as int) =~= pieces.drop_last());
        }
        let canon = canonical_mods(&mods);
        let (a, b) = parts[np - 1];
        assert(s@.subrange(parts@[np - 1].0 as int, parts@[np - 1].1 as int) == pieces[np - 1]);
        assert(pieces.last() == pieces[np - 1]);
        match parse_mouse_button(s, a, b) {
            Some(button) => {
                return Ok(Binding::Mouse { mods: canon, button });
            },
            None => {},
        }
        if is_valid_key(s, a, b) {
            return Ok(Binding::Keyboard { mods: canon, key: substring(s, a, b) });
        }
        let tok = substring(s, a, b);
        Err(concat3("'", tok.as_str(), "' is not a recognized key or mouse button"))
    }

    /// Format a binding back to text: its modifiers in canonical order, then
    /// the key or button, joined with `+`.
    pub fn format(&self) -> (r: String)
        ensures
            r@ == format_spec(self@),
    {
        match self {
            Binding::Keyboard { mods, key } => with_mods_string(mods, key),
            Binding::Mouse { mods, button } => with_mods_string(mods, button),
        }
    }
}

/// Once a token fails to parse, every longer prefix reports the same error.
proof fn lemma_parse_mods_prefix_err(toks: Seq<Seq<char>>, j: int)
    requires
        0 < j <= toks.len(),
        parse_mods(toks.take(j)) is Err,
    ensures
        parse_mods(toks) == parse_mods(toks.take(j)),
    decreases toks.len() - j,
{
    if j < toks.len() {
        assert(toks.take(j + 1).drop_last() =~= toks.take(j));
        lemma_parse_mods_prefix_err(toks, j + 1);
    } else {
        assert(toks.take(j) =~= toks);
    }
}


proof fn lemma_mod_literals()
    ensures
        "+"@ == seq!['+'],
        "Ctrl"@.len() > 0 && !"Ctrl"@.contains('+'),
        "Shift"@.len() > 0 && !"Shift"@.contains('+'),
        "Alt"@.len() > 0 && !"Alt"@.contains('+'),
        "Super"@.len() > 0 && !"Super"@.contains('+'),
        parse_mod_spec("Ctrl"@) == Some(Modifier::Ctrl),
        parse_mod_spec("Shift"@) == Some(Modifier::Shift),
        parse_mod_spec("Alt"@) == Some(Modifier::Alt),
        parse_mod_spec("Super"@) == Some(Modifier::Super),
{
    reveal_strlit("+");
    reveal_strlit("Ctrl");
    reveal_strlit("Shift");
    reveal_strlit("Alt");
    reveal_strlit("Super");
    assert("Shift"@ != "Ctrl"@) by {
        assert("Shift"@[0] != "Ctrl"@[0]);
    }
    assert("Alt"@ != "Ctrl"@) by {
        assert("Alt"@[0] != "Ctrl"@[0]);
    }
    assert("Super"@ != "Ctrl"@) by {
        assert("Super"@[0] != "Ctrl"@[0]);
    }
    assert("Super"@ != "Alt"@) by {
        assert("Super"@[0] != "Alt"@[0]);
    }
    assert("Super"@ != "Shift"@) by {
        assert("Super"@[1] != "Shift"@[1]);
    }
    assert("Shift"@ != "Alt"@) by {
        assert("Shift"@[0] != "Alt"@[0]);
    }
    assert(!"Ctrl"@.contains('+'));
    assert(!"Shift"@.contains('+'));
    assert(!"Alt"@.contains('+'));
    assert(!"Super"@.contains('+'));
}

proof fn lemma_mouse_literals(t: Seq<char>)
    requires
        mouse_spec(t) is Some,
    ensures
        mouse_spec(t)->Some_0.len() > 0,
        !mouse_spec(t)->Some_0.contains('+'),
        mouse_spec(mouse_spec(t)->Some_0) == mouse_spec(t),
{
    reveal_strlit("Mouse1");
    reveal_strlit("Mouse2");
    reveal_strlit("Mouse3");
    reveal_strlit("Mouse4");
    reveal_strlit("Mouse5");
    reveal_strlit("Mouse6");
    reveal_strlit("Mouse7");
    reveal_strlit("Mouse8");
    reveal_strlit("MouseLeft");
    reveal_strlit("MouseRight");
    reveal_strlit("MouseMiddle");
    reveal_strlit("MouseSide");
    reveal_strlit("MouseExtra");
    reveal_strlit("MouseForward");
    reveal_strlit("MouseBack");
    reveal_strlit("MouseTask");
    let b = mouse_spec(t)->Some_0;
    assert(b.len() == 6);
    assert(!b.contains('+')) by {
        if b.contains('+') {
            let k = choose|k: int| 0 <= k < b.len() && b[k] == '+';
        }
    }
    assert(b == "Mouse1"@ || b == "Mouse2"@ || b == "Mouse3"@ || b == "Mouse4"@ || b == "Mouse5"@
        || b == "Mouse6"@ || b == "Mouse7"@ || b == "Mouse8"@);
    assert(b[5] != "Mouse1"@[5] ==> b != "Mouse1"@);
    assert(b[5] != "Mouse2"@[5] ==> b != "Mouse2"@);
    assert(b[5] != "Mouse3"@[5] ==> b != "Mouse3"@);
    assert(b[5] != "Mouse4"@[5] ==> b != "Mouse4"@);
    assert(b[5] != "Mouse5"@[5] ==> b != "Mouse5"@);
    assert(b[5] != "Mouse6"@[5] ==> b != "Mouse6"@);
    assert(b[5] != "Mouse7"@[5] ==> b != "Mouse7"@);
    assert(b[5] != "Mouse8"@[5] ==> b != "Mouse8"@);
    assert(b.len() != "MouseLeft"@.len());
    assert(b.len() != "MouseRight"@.len());
    assert(b.len() != "MouseMiddle"@.len());
    assert(b.len() != "MouseSide"@.len());
    assert(b.len() != "MouseExtra"@.len());
    assert(b.len() != "MouseForward"@.len());
    assert(b.len() != "MouseBack"@.len());
    assert(b.len() != "MouseTask"@.len());
}

proof fn lemma_canonical_contains(ms: Seq<Modifier>)
    ensures
        forall|m: Modifier| canonical(ms).contains(m) <==> ms.contains(m),
{
    assert forall|m: Modifier| canonical(ms).contains(m) <==> ms.contains(m) by {
        let c = canonical(ms);
        if ms.contains(m) {
            let pre = match m {
                Modifier::Ctrl => Seq::<Modifier>::empty(),
                Modifier::Shift => opt_mod(ms, Modifier::Ctrl),
                Modifier::Alt => opt_mod(ms, Modifier::Ctrl) + opt_mod(ms, Modifier::Shift),
                Modifier::Super => opt_mod(ms, Modifier::Ctrl) + opt_mod(ms, Modifier::Shift)
                    + opt_mod(ms, Modifier::Alt),
            };
            assert(c[pre.len() as int] == m);
        }
        if c.contains(m) {
            let k = choose|k: int| 0 <= k < c.len() && c[k] == m;
            let m0 = if ms.contains(Modifier::Ctrl) { 1int } else { 0 };
            let m1 = m0 + if ms.contains(Modifier::Shift) { 1int } else { 0 };
            let m2 = m1 + if ms.contains(Modifier::Alt) { 1int } else { 0 };
            if k < m0 {
                assert(c[k] == Modifier::Ctrl);
            } else if k < m1 {
                assert(c[k] == Modifier::Shift);
            } else if k < m2 {
                assert(c[k] == Modifier::Alt);
            } else {
                assert(c[k] == Modifier::Super);
            }
        }
    }
}

pub proof fn lemma_canonical_idem(ms: Seq<Modifier>)
    ensures
        canonical(canonical(ms)) == canonical(ms),
        mod_names(canonical(ms)) == mod_names(ms),
{
    lemma_canonical_contains(ms);
    assert(canonical(canonical(ms)) =~= canonical(ms));
    assert(mod_names(canonical(ms)) =~= mod_names(ms));
}

proof fn lemma_parse_mods_opt(x: Seq<Seq<char>>, y: Seq<Modifier>, ms: Seq<Modifier>, m: Modifier, name: Seq<char>)
    requires
        parse_mod_spec(name) == Some(m),
        parse_mods(x) == Ok::<Seq<Modifier>, Seq<char>>(y),
    ensures
        parse_mods(x + opt_name(ms, m, name)) == Ok::<Seq<Modifier>, Seq<char>>(y + opt_mod(ms, m)),
{
    if ms.contains(m) {
        assert(x + opt_name(ms, m, name) =~= x.push(name));
        assert(x.push(name).drop_last() =~= x);
        assert(y + opt_mod(ms, m) =~= y.push(m));
    } else {
        assert(x + opt_name(ms, m, name) =~= x);
        assert(y + opt_mod(ms, m) =~= y);
    }
}

proof fn lemma_parse_mod_names(ms: Seq<Modifier>)
    ensures
        parse_mods(mod_names(ms)) == Ok::<Seq<Modifier>, Seq<char>>(canonical(ms)),
{
    lemma_mod_literals();
    let e = Seq::<Seq<char>>::empty();
    assert(parse_mods(e) == Ok::<Seq<Modifier>, Seq<char>>(Seq::<Modifier>::empty()));
    lemma_parse_mods_opt(e, Seq::empty(), ms, Modifier::Ctrl, "Ctrl"@);
    let n1 = e + opt_name(ms, Modifier::Ctrl, "Ctrl"@);
    let o1 = Seq::<Modifier>::empty() + opt_mod(ms, Modifier::Ctrl);
    lemma_parse_mods_opt(n1, o1, ms, Modifier::Shift, "Shift"@);
    let n2 = n1 + opt_name(ms, Modifier::Shift, "Shift"@);
    let o2 = o1 + opt_mod(ms, Modifier::Shift);
    lemma_parse_mods_opt(n2, o2, ms, Modifier::Alt, "Alt"@);
    let n3 = n2 + opt_name(ms, Modifier::Alt, "Alt"@);
    let o3 = o2 + opt_mod(ms, Modifier::Alt);
    lemma_parse_mods_opt(n3, o3, ms, Modifier::Super, "Super"@);
    assert(n3 + opt_name(ms, Modifier::Super, "Super"@) =~= mod_names(ms));
    assert(o3 + opt_mod(ms, Modifier::Super) =~= canonical(ms));
}

proof fn lemma_mod_names_shape(ms: Seq<Modifier>)
    ensures
        forall|i: int| 0 <= i < mod_names(ms).len() ==> (#[trigger] mod_names(ms)[i]).len() > 0
            && !mod_names(ms)[i].contains('+'),
{
    lemma_mod_literals();
    let n = mod_names(ms);
    assert forall|i: int| 0 <= i < n.len() implies (#[trigger] n[i]).len() > 0 && !n[i].contains('+') by {
        assert(n[i] == "Ctrl"@ || n[i] == "Shift"@ || n[i] == "Alt"@ || n[i] == "Super"@);
    }
}

proof fn lemma_join_nonempty(parts: Seq<Seq<char>>, sep: Seq<char>)
    requires
        forall|i: int| 0 <= i < parts.len() ==> (#[trigger] parts[i]).len() > 0,
    ensures
        (join(parts, sep).len() == 0) == (parts.len() == 0),
    decreases parts.len(),
{
    if parts.len() > 1 {
        assert(parts[parts.len() - 1].len() > 0);
    } else if parts.len() == 1 {
        assert(parts[0].len() > 0);
    }
}

/// Formatting a parsed binding and parsing the text again gives the same
/// binding: the formatted text is the canonical spelling of what was parsed.
pub proof fn law_parse_format_roundtrip(s: Seq<char>)
    requires
        parse_spec(s) is Ok,
    ensures
        parse_spec(format_spec(parse_spec(s)->Ok_0)) == parse_spec(s),
{
    let parts = split_on(s, '+');
    lemma_split_on_nonempty(s, '+');
    lemma_split_pieces_free(s, '+');
    let last = parts.last();
    assert(parts[parts.len() - 1] == last);
    assert(last.len() > 0);
    assert(!last.contains('+'));
    let ms = parse_mods(parts.drop_last())->Ok_0;
    let mods = canonical(ms);
    let b = parse_spec(s)->Ok_0;
    let tok = match b {
        BindingView::Keyboard { mods, key } => key,
        BindingView::Mouse { mods, button } => button,
    };
    if mouse_spec(last) is Some {
        lemma_mouse_literals(last);
    }
    assert(tok.len() > 0 && !tok.contains('+'));
    lemma_mod_literals();
    lemma_canonical_idem(ms);
    lemma_mod_names_shape(mods);
    let names = mod_names(mods);
    let full = names.push(tok);
    lemma_join_push(names, tok, "+"@);
    lemma_join_nonempty(names, "+"@);
    let f = format_spec(b);
    assert(f == join(full, "+"@));
    assert forall|i: int| 0 <= i < full.len() implies !(#[trigger] full[i]).contains('+') && full[i].len() > 0 by {
        if i < names.len() {
            assert(full[i] == names[i]);
        }
    }
    lemma_split_join(full, '+');
    assert(split_on(f, '+') == full);
    assert(f.len() > 0);
    assert(!(exists|i: int| 0 <= i < full.len() && (#[trigger] full[i]).len() == 0));
    assert(full.drop_last() =~= names);
    lemma_parse_mod_names(mods);
    assert(full.last() == tok);
}

/// A token that names a modifier is a nonempty word without `+`.
proof fn lemma_mod_token_shape(t: Seq<char>)
    requires
        parse_mod_spec(t) is Some,
    ensures
        t.len() > 0,
        !t.contains('+'),
{
    reveal_strlit("Ctrl");
    reveal_strlit("Shift");
    reveal_strlit("Alt");
    reveal_strlit("Super");
    reveal_strlit("Meta");
    reveal_strlit("Win");
    assert(!t.contains('+')) by {
        if t.contains('+') {
            let k = choose|k: int| 0 <= k < t.len() && t[k] == '+';
        }
    }
}

/// Every mouse-button token is at least six characters long.
proof fn lemma_mouse_token_len(t: Seq<char>)
    requires
        mouse_spec(t) is Some,
    ensures
        t.len() >= 6,
{
    reveal_strlit("Mouse1");
    reveal_strlit("Mouse2");
    reveal_strlit("Mouse3");
    reveal_strlit("Mouse4");
    reveal_strlit("Mouse5");
    reveal_strlit("Mouse6");
    reveal_strlit("Mouse7");
    reveal_strlit("Mouse8");
    reveal_strlit("MouseLeft");
    reveal_strlit("MouseRight");
    reveal_strlit("MouseMiddle");
    reveal_strlit("MouseSide");
    reveal_strlit("MouseExtra");
    reveal_strlit("MouseForward");
    reveal_strlit("MouseBack");
    reveal_strlit("MouseTask");
}

/// Tokens that each name a modifier parse, in order, to those modifiers.
proof fn lemma_parse_mods_each(toks: Seq<Seq<char>>, ms: Seq<Modifier>)
    requires
        toks.len() == ms.len(),
        forall|i: int| 0 <= i < toks.len() ==> parse_mod_spec(#[trigger] toks[i]) == Some(ms[i]),
    ensures
        parse_mods(toks) == Ok::<Seq<Modifier>, Seq<char>>(ms),
    decreases toks.len(),
{
    if toks.len() > 0 {
        lemma_parse_mods_each(toks.drop_last(), ms.drop_last());
        assert(parse_mod_spec(toks[toks.len() - 1]) == Some(ms[ms.len() - 1]));
        assert(ms.drop_last().push(ms.last()) =~= ms);
    } else {
        assert(ms =~= Seq::<Modifier>::empty());
    }
}

/// Every single ASCII digit or letter is a key: after any run of modifier
/// tokens `M` (none, too), `M+c` with `c` in `0-9`, `A-Z` or `a-z` parses to
/// the keyboard binding of `c` with the modifiers of `M` in canonical order.
pub proof fn law_single_alnum_key(toks: Seq<Seq<char>>, ms: Seq<Modifier>, c: char)
    requires
        toks.len() == ms.len(),
        forall|i: int| 0 <= i < toks.len() ==> parse_mod_spec(#[trigger] toks[i]) == Some(ms[i]),
        ('0' <= c && c <= '9') || ('A' <= c && c <= 'Z') || ('a' <= c && c <= 'z'),
    ensures
        parse_spec(join(toks.push(seq![c]), "+"@)) == Ok::<BindingView, Seq<char>>(
            BindingView::Keyboard { mods: canonical(ms), key: seq![c] },
        ),
{
    lemma_mod_literals();
    let key = seq![c];
    let full = toks.push(key);
    assert forall|i: int| 0 <= i < full.len() implies (#[trigger] full[i]).len() > 0
        && !full[i].contains('+') by {
        if i < toks.len() {
            assert(full[i] == toks[i]);
            lemma_mod_token_shape(toks[i]);
        } else {
            assert(full[i] == key);
            assert(!key.contains('+')) by {
                if key.contains('+') {
                    let k = choose|k: int| 0 <= k < key.len() && key[k] == '+';
                    assert(key[k] == c);
                }
            }
        }
    }
    let s = join(full, "+"@);
    lemma_split_join(full, '+');
    assert(split_on(s, '+') == full);
    lemma_join_nonempty(full, "+"@);
    assert(s.len() > 0);
    assert(!(exists|i: int| 0 <= i < full.len() && (#[trigger] full[i]).len() == 0));
    assert(full.drop_last() =~= toks);
    lemma_parse_mods_each(toks, ms);
    assert(full.last() == key);
    if mouse_spec(key) is Some {
        lemma_mouse_token_len(key);
    }
    assert(valid_key(key));
}

/// A key or mouse-button token written after the names of some modifiers
/// parses to that key or button with those modifiers in canonical order.
pub proof fn lemma_parse_with_mods(ms: Seq<Modifier>, tok: Seq<char>)
    requires
        tok.len() > 0,
        !tok.contains('+'),
    ensures
        mouse_spec(tok) is None && valid_key(tok) ==> parse_spec(with_mods(ms, tok))
            == Ok::<BindingView, Seq<char>>(BindingView::Keyboard { mods: canonical(ms), key: tok }),
        mouse_spec(tok) == Some(tok) ==> parse_spec(with_mods(ms, tok))
            == Ok::<BindingView, Seq<char>>(BindingView::Mouse { mods: canonical(ms), button: tok }),
{
    lemma_mod_literals();
    lemma_canonical_idem(ms);
    lemma_mod_names_shape(ms);
    let names = mod_names(ms);
    let full = names.push(tok);
    lemma_join_push(names, tok, "+"@);
    lemma_join_nonempty(names, "+"@);
    let f = with_mods(ms, tok);
    assert(f == join(full, "+"@));
    assert forall|i: int| 0 <= i < full.len() implies !(#[trigger] full[i]).contains('+') && full[i].len() > 0 by {
        if i < names.len() {
            assert(full[i] == names[i]);
        }
    }
    lemma_split_join(full, '+');
    assert(split_on(f, '+') == full);
    assert(f.len() > 0);
    assert(!(exists|i: int| 0 <= i < full.len() && (#[trigger] full[i]).len() == 0));
    assert(full.drop_last() =~= names);
    lemma_parse_mod_names(ms);
    assert(full.last() == tok);
}

} // verus!
