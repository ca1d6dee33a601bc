//! Turning a captured input event (its Linux input code and the modifiers
//! held) into a binding.
use vstd::prelude::*;
use vstd::string::*;
use crate::binding::{canonical, canonical_mods, format_spec, lemma_canonical_idem, lemma_parse_with_mods,
    mouse_spec, parse_spec, valid_key, Binding, BindingView, Modifier};

verus! {

/// The modifier a key code is, if it is one.
pub open spec fn modifier_spec(code: u16) -> Option<Modifier> {
    if code == 29 {
        Some(Modifier::Ctrl)
    } else if code == 97 {
        Some(Modifier::Ctrl)
    } else if code == 42 {
        Some(Modifier::Shift)
    } else if code == 54 {
        Some(Modifier::Shift)
    } else if code == 56 {
        Some(Modifier::Alt)
    } else if code == 100 {
        Some(Modifier::Alt)
    } else if code == 125 {
        Some(Modifier::Super)
    } else if code == 126 {
        Some(Modifier::Super)
    } else {
        None
    }
}

pub fn modifier_for_key(code: u16) -> (r: Option<Modifier>)
    ensures
        r == modifier_spec(code),
{
    if code == 29 {
        Some(Modifier::Ctrl)
    } else if code == 97 {
        Some(Modifier::Ctrl)
    } else if code == 42 {
        Some(Modifier::Shift)
    } else if code == 54 {
        Some(Modifier::Shift)
    } else if code == 56 {
        Some(Modifier::Alt)
    } else if code == 100 {
        Some(Modifier::Alt)
    } else if code == 125 {
        Some(Modifier::Super)
    } else if code == 126 {
        Some(Modifier::Super)
    } else {
        None
    }
}

/// The binding name of a keyboard key code.
pub open spec fn key_name_spec(code: u16) -> Option<Seq<char>> {
    if code == 59 {
        Some("F1"@)
    } else if code == 60 {
        Some("F2"@)
    } else if code == 61 {
        Some("F3"@)
    } else if code == 62 {
        Some("F4"@)
    } else if code == 63 {
        Some("F5"@)
    } else if code == 64 {
        Some("F6"@)
    } else if code == 65 {
        Some("F7"@)
    } else if code == 66 {
        Some("F8"@)
    } else if code == 67 {
        Some("F9"@)
    } else if code == 68 {
        Some("F10"@)
    } else if code == 87 {
        Some("F11"@)
    } else if code == 88 {
        Some("F12"@)
    } else if code == 183 {
        Some("F13"@)
    } else if code == 184 {
        Some("F14"@)
    } else if code == 185 {
        Some("F15"@)
    } else if code == 186 {
        Some("F16"@)
    } else if code == 187 {
        Some("F17"@)
    } else if code == 188 {
        Some("F18"@)
    } else if code == 189 {
        Some("F19"@)
    } else if code == 190 {
        Some("F20"@)
    } else if code == 191 {
        Some("F21"@)
    } else if code == 192 {
        Some("F22"@)
    } else if code == 193 {
        Some("F23"@)
    } else if code == 194 {
        Some("F24"@)
    } else if code == 30 {
        Some("A"@)
    } else if code == 48 {
        Some("B"@)
    } else if code == 46 {
        Some("C"@)
    } else if code == 32 {
        Some("D"@)
    } else if code == 18 {
        Some("E"@)
    } else if code == 33 {
        Some("F"@)
    } else if code == 34 {
        Some("G"@)
    } else if code == 35 {
        Some("H"@)
    } else if code == 23 {
        Some("I"@)
    } else if code == 36 {
        Some("J"@)
    } else if code == 37 {
        Some("K"@)
    } else if code == 38 {
        Some("L"@)
    } else if code == 50 {
        Some("M"@)
    } else if code == 49 {
        Some("N"@)
    } else if code == 24 {
        Some("O"@)
    } else if code == 25 {
        Some("P"@)
    } else if code == 16 {
        Some("Q"@)
    } else if code == 19 {
        Some("R"@)
    } else if code == 31 {
        Some("S"@)
    } else if code == 20 {
        Some("T"@)
    } else if code == 22 {
        Some("U"@)
    } else if code == 47 {
        Some("V"@)
    } else if code == 17 {
        Some("W"@)
    } else if code == 45 {
        Some("X"@)
    } else if code == 21 {
        Some("Y"@)
    } else if code == 44 {
        Some("Z"@)
    } else if code == 11 {
        Some("0"@)
    } else if code == 2 {
        Some("1"@)
    } else if code == 3 {
        Some("2"@)
    } else if code == 4 {
        Some("3"@)
    } else if code == 5 {
        Some("4"@)
    } else if code == 6 {
        Some("5"@)
    } else if code == 7 {
        Some("6"@)
    } else if code == 8 {
        Some("7"@)
    } else if code == 9 {
        Some("8"@)
    } else if code == 10 {
        Some("9"@)
    } else if code == 57 {
        Some("Space"@)
    } else if code == 28 {
        Some("Enter"@)
    } else if code == 15 {
        Some("Tab"@)
    } else if code == 14 {
        Some("Backspace"@)
    } else if code == 111 {
        Some("Delete"@)
    } else if code == 110 {
        Some("Insert"@)
    } else if code == 102 {
        Some("Home"@)
    } else if code == 107 {
        Some("End"@)
    } else if code == 104 {
        Some("PageUp"@)
    } else if code == 109 {
        Some("PageDown"@)
    } else if code == 103 {
        Some("Up"@)
    } else if code == 108 {
        Some("Down"@)
    } else if code == 105 {
        Some("Left"@)
    } else if code == 106 {
        Some("Right"@)
    } else if code == 1 {
        Some("Escape"@)
    } else if code == 58 {
        Some("CapsLock"@)
    } else if code == 69 {
        Some("NumLock"@)
    } else if code == 70 {
        Some("ScrollLock"@)
    } else if code == 99 {
        Some("PrintScreen"@)
    } else if code == 119 {
        Some("Pause"@)
    } else if code == 12 {
        Some("Minus"@)
    } else if code == 13 {
        Some("Equal"@)
    } else if code == 26 {
        Some("BracketLeft"@)
    } else if code == 27 {
        Some("BracketRight"@)
    } else if code == 39 {
        Some("Semicolon"@)
    } else if code == 40 {
        Some("Quote"@)
    } else if code == 51 {
        Some("Comma"@)
    } else if code == 52 {
        Some("Period"@)
    } else if code == 53 {
        Some("Slash"@)
    } else if code == 43 {
        Some("Backslash"@)
    } else if code == 41 {
        Some("Backquote"@)
    } else {
        None
    }
}

pub fn key_to_binding_key(code: u16) -> (r: Option<&'static str>)
    ensures
        match r {
            Some(s) => key_name_spec(code) == Some(s@),
            None => key_name_spec(code).is_none(),
        },
{
    if code == 59 {
        Some("F1")
    } else if code == 60 {
        Some("F2")
    } else if code == 61 {
        Some("F3")
    } else if code == 62 {
        Some("F4")
    } else if code == 63 {
        Some("F5")
    } else if code == 64 {
        Some("F6")
    } else if code == 65 {
        Some("F7")
    } else if code == 66 {
        Some("F8")
    } else if code == 67 {
        Some("F9")
    } else if code == 68 {
        Some("F10")
    } else if code == 87 {
        Some("F11")
    } else if code == 88 {
        Some("F12")
    } else if code == 183 {
        Some("F13")
    } else if code == 184 {
        Some("F14")
    } else if code == 185 {
        Some("F15")
    } else if code == 186 {
        Some("F16")
    } else if code == 187 {
        Some("F17")
    } else if code == 188 {
        Some("F18")
    } else if code == 189 {
        Some("F19")
    } else if code == 190 {
        Some("F20")
    } else if code == 191 {
        Some("F21")
    } else if code == 192 {
        Some("F22")
    } else if code == 193 {
        Some("F23")
    } else if code == 194 {
        Some("F24")
    } else if code == 30 {
        Some("A")
    } else if code == 48 {
        Some("B")
    } else if code == 46 {
        Some("C")
    } else if code == 32 {
        Some("D")
    } else if code == 18 {
        Some("E")
    } else if code == 33 {
        Some("F")
    } else if code == 34 {
        Some("G")
    } else if code == 35 {
        Some("H")
    } else if code == 23 {
        Some("I")
    } else if code == 36 {
        Some("J")
    } else if code == 37 {
        Some("K")
    } else if code == 38 {
        Some("L")
    } else if code == 50 {
        Some("M")
    } else if code == 49 {
        Some("N")
    } else if code == 24 {
        Some("O")
    } else if code == 25 {
        Some("P")
    } else if code == 16 {
        Some("Q")
    } else if code == 19 {
        Some("R")
    } else if code == 31 {
        Some("S")
    } else if code == 20 {
        Some("T")
    } else if code == 22 {
        Some("U")
    } else if code == 47 {
        Some("V")
    } else if code == 17 {
        Some("W")
    } else if code == 45 {
        Some("X")
    } else if code == 21 {
        Some("Y")
    } else if code == 44 {
        Some("Z")
    } else if code == 11 {
        Some("0")
    } else if code == 2 {
        Some("1")
    } else if code == 3 {
        Some("2")
    } else if code == 4 {
        Some("3")
    } else if code == 5 {
        Some("4")
    } else if code == 6 {
        Some("5")
    } else if code == 7 {
        Some("6")
    } else if code == 8 {
        Some("7")
    } else if code == 9 {
        Some("8")
    } else if code == 10 {
        Some("9")
    } else if code == 57 {
        Some("Space")
    } else if code == 28 {
        Some("Enter")
    } else if code == 15 {
        Some("Tab")
    } else if code == 14 {
        Some("Backspace")
    } else if code == 111 {
        Some("Delete")
    } else if code == 110 {
        Some("Insert")
    } else if code == 102 {
        Some("Home")
    } else if code == 107 {
        Some("End")
    } else if code == 104 {
        Some("PageUp")
    } else if code == 109 {
        Some("PageDown")
    } else if code == 103 {
        Some("Up")
    } else if code == 108 {
        Some("Down")
    } else if code == 105 {
        Some("Left")
    } else if code == 106 {
        Some("Right")
    } else if code == 1 {
        Some("Escape")
    } else if code == 58 {
        Some("CapsLock")
    } else if code == 69 {
        Some("NumLock")
    } else if code == 70 {
        Some("ScrollLock")
    } else if code == 99 {
        Some("PrintScreen")
    } else if code == 119 {
        Some("Pause")
    } else if code == 12 {
        Some("Minus")
    } else if code == 13 {
        Some("Equal")
    } else if code == 26 {
        Some("BracketLeft")
    } else if code == 27 {
        Some("BracketRight")
    } else if code == 39 {
        Some("Semicolon")
    } else if code == 40 {
        Some("Quote")
    } else if code == 51 {
        Some("Comma")
    } else if code == 52 {
        Some("Period")
    } else if code == 53 {
        Some("Slash")
    } else if code == 43 {
        Some("Backslash")
    } else if code == 41 {
        Some("Backquote")
    } else {
        None
    }
}

/// The binding token of a mouse button code.
pub open spec fn mouse_token_spec(code: u16) -> Option<Seq<char>> {
    if code == 272 {
        Some("Mouse1"@)
    } else if code == 273 {
        Some("Mouse2"@)
    } else if code == 274 {
        Some("Mouse3"@)
    } else if code == 275 {
        Some("Mouse4"@)
    } else if code == 276 {
        Some("Mouse5"@)
    } else if code == 277 {
        Some("Mouse6"@)
    } else if code == 278 {
        Some("Mouse7"@)
    } else if code == 279 {
        Some("Mouse8"@)
    } else {
        None
    }
}

pub fn key_to_mouse_token(code: u16) -> (r: Option<&'static str>)
    ensures
        match r {
            Some(s) => mouse_token_spec(code) == Some(s@),
            None => mouse_token_spec(code).is_none(),
        },
{
    if code == 272 {
        Some("Mouse1")
    } else if code == 273 {
        Some("Mouse2")
    } else if code == 274 {
        Some("Mouse3")
    } else if code == 275 {
        Some("Mouse4")
    } else if code == 276 {
        Some("Mouse5")
    } else if code == 277 {
        Some("Mouse6")
    } else if code == 278 {
        Some("Mouse7")
    } else if code == 279 {
        Some("Mouse8")
    } else {
        None
    }
}

/// The binding a press makes: none for a modifier key itself; a mouse
/// binding for a mouse button; a keyboard binding for a named key; none
/// otherwise. The held modifiers are put in canonical order.
pub open spec fn key_binding_spec(code: u16, mods: Seq<Modifier>) -> Option<BindingView> {
    if modifier_spec(code) is Some {
        None
    } else if mouse_token_spec(code) is Some {
        Some(BindingView::Mouse { mods: canonical(mods), button: mouse_token_spec(code).unwrap() })
    } else if key_name_spec(code) is Some {
        Some(BindingView::Keyboard { mods: canonical(mods), key: key_name_spec(code).unwrap() })
    } else {
        None
    }
}

pub fn key_to_binding(code: u16, mods: &Vec<Modifier>) -> (r: Option<Binding>)
    ensures
        match r {
            Some(b) => key_binding_spec(code, mods@) == Some(b@),
            None => key_binding_spec(code, mods@).is_none(),
        },
{
    if modifier_for_key(code).is_some() {
        return None;
    }
    let canon = canonical_mods(mods);
    match key_to_mouse_token(code) {
        Some(button) => {
            return Some(Binding::Mouse { mods: canon, button: button.to_owned() });
        },
        None => {},
    }
    match key_to_binding_key(code) {
        Some(key) => Some(Binding::Keyboard { mods: canon, key: key.to_owned() }),
        None => None,
    }
}

/// The key code a binding key name is given by.
spec fn key_code_of(name: Seq<char>) -> Option<u16> {
    if name == "F1"@ {
        Some(59)
    } else if name == "F2"@ {
        Some(60)
    } else if name == "F3"@ {
        Some(61)
    } else if name == "F4"@ {
        Some(62)
    } else if name == "F5"@ {
        Some(63)
    } else if name == "F6"@ {
        Some(64)
    } else if name == "F7"@ {
        Some(65)
    } else if name == "F8"@ {
        Some(66)
    } else if name == "F9"@ {
        Some(67)
    } else if name == "F10"@ {
        Some(68)
    } else if name == "F11"@ {
        Some(87)
    } else if name == "F12"@ {
        Some(88)
    } else if name == "F13"@ {
        Some(183)
    } else if name == "F14"@ {
        Some(184)
    } else if name == "F15"@ {
        Some(185)
    } else if name == "F16"@ {
        Some(186)
    } else if name == "F17"@ {
        Some(187)
    } else if name == "F18"@ {
        Some(188)
    } else if name == "F19"@ {
        Some(189)
    } else if name == "F20"@ {
        Some(190)
    } else if name == "F21"@ {
        Some(191)
    } else if name == "F22"@ {
        Some(192)
    } else if name == "F23"@ {
        Some(193)
    } else if name == "F24"@ {
        Some(194)
    } else if name == "A"@ {
        Some(30)
    } else if name == "B"@ {
        Some(48)
    } else if name == "C"@ {
        Some(46)
    } else if name == "D"@ {
        Some(32)
    } else if name == "E"@ {
        Some(18)
    } else if name == "F"@ {
        Some(33)
    } else if name == "G"@ {
        Some(34)
    } else if name == "H"@ {
        Some(35)
    } else if name == "I"@ {
        Some(23)
    } else if name == "J"@ {
        Some(36)
    } else if name == "K"@ {
        Some(37)
    } else if name == "L"@ {
        Some(38)
    } else if name == "M"@ {
        Some(50)
    } else if name == "N"@ {
        Some(49)
    } else if name == "O"@ {
        Some(24)
    } else if name == "P"@ {
        Some(25)
    } else if name == "Q"@ {
        Some(16)
    } else if name == "R"@ {
        Some(19)
    } else if name == "S"@ {
        Some(31)
    } else if name == "T"@ {
        Some(20)
    } else if name == "U"@ {
        Some(22)
    } else if name == "V"@ {
        Some(47)
    } else if name == "W"@ {
        Some(17)
    } else if name == "X"@ {
        Some(45)
    } else if name == "Y"@ {
        Some(21)
    } else if name == "Z"@ {
        Some(44)
    } else if name == "0"@ {
        Some(11)
    } else if name == "1"@ {
        Some(2)
    } else if name == "2"@ {
        Some(3)
    } else if name == "3"@ {
        Some(4)
    } else if name == "4"@ {
        Some(5)
    } else if name == "5"@ {
        Some(6)
    } else if name == "6"@ {
        Some(7)
    } else if name == "7"@ {
        Some(8)
    } else if name == "8"@ {
        Some(9)
    } else if name == "9"@ {
        Some(10)
    } else if name == "Space"@ {
        Some(57)
    } else if name == "Enter"@ {
        Some(28)
    } else if name == "Tab"@ {
        Some(15)
    } else if name == "Backspace"@ {
        Some(14)
    } else if name == "Delete"@ {
        Some(111)
    } else if name == "Insert"@ {
        Some(110)
    } else if name == "Home"@ {
        Some(102)
    } else if name == "End"@ {
        Some(107)
    } else if name == "PageUp"@ {
        Some(104)
    } else if name == "PageDown"@ {
        Some(109)
    } else if name == "Up"@ {
        Some(103)
    } else if name == "Down"@ {
        Some(108)
    } else if name == "Left"@ {
        Some(105)
    } else if name == "Right"@ {
        Some(106)
    } else if name == "Escape"@ {
        Some(1)
    } else if name == "CapsLock"@ {
        Some(58)
    } else if name == "NumLock"@ {
        Some(69)
    } else if name == "ScrollLock"@ {
        Some(70)
    } else if name == "PrintScreen"@ {
        Some(99)
    } else if name == "Pause"@ {
        Some(119)
    } else if name == "Minus"@ {
        Some(12)
    } else if name == "Equal"@ {
        Some(13)
    } else if name == "BracketLeft"@ {
        Some(26)
    } else if name == "BracketRight"@ {
        Some(27)
    } else if name == "Semicolon"@ {
        Some(39)
    } else if name == "Quote"@ {
        Some(40)
    } else if name == "Comma"@ {
        Some(51)
    } else if name == "Period"@ {
        Some(52)
    } else if name == "Slash"@ {
        Some(53)
    } else if name == "Backslash"@ {
        Some(43)
    } else if name == "Backquote"@ {
        Some(41)
    } else {
        None
    }
}

/// The letters of every key name.
proof fn lemma_key_name_chars()
    ensures
        "F1"@.len() == 2 && "F1"@[0] == 'F' && "F1"@[1] == '1',
        "F2"@.len() == 2 && "F2"@[0] == 'F' && "F2"@[1] == '2',
        "F3"@.len() == 2 && "F3"@[0] == 'F' && "F3"@[1] == '3',
        "F4"@.len() == 2 && "F4"@[0] == 'F' && "F4"@[1] == '4',
        "F5"@.len() == 2 && "F5"@[0] == 'F' && "F5"@[1] == '5',
        "F6"@.len() == 2 && "F6"@[0] == 'F' && "F6"@[1] == '6',
        "F7"@.len() == 2 && "F7"@[0] == 'F' && "F7"@[1] == '7',
        "F8"@.len() == 2 && "F8"@[0] == 'F' && "F8"@[1] == '8',
        "F9"@.len() == 2 && "F9"@[0] == 'F' && "F9"@[1] == '9',
        "F10"@.len() == 3 && "F10"@[0] == 'F' && "F10"@[1] == '1' && "F10"@[2] == '0',
        "F11"@.len() == 3 && "F11"@[0] == 'F' && "F11"@[1] == '1' && "F11"@[2] == '1',
        "F12"@.len() == 3 && "F12"@[0] == 'F' && "F12"@[1] == '1' && "F12"@[2] == '2',
        "F13"@.len() == 3 && "F13"@[0] == 'F' && "F13"@[1] == '1' && "F13"@[2] == '3',
        "F14"@.len() == 3 && "F14"@[0] == 'F' && "F14"@[1] == '1' && "F14"@[2] == '4',
        "F15"@.len() == 3 && "F15"@[0] == 'F' && "F15"@[1] == '1' && "F15"@[2] == '5',
        "F16"@.len() == 3 && "F16"@[0] == 'F' && "F16"@[1] == '1' && "F16"@[2] == '6',
        "F17"@.len() == 3 && "F17"@[0] == 'F' && "F17"@[1] == '1' && "F17"@[2] == '7',
        "F18"@.len() == 3 && "F18"@[0] == 'F' && "F18"@[1] == '1' && "F18"@[2] == '8',
        "F19"@.len() == 3 && "F19"@[0] == 'F' && "F19"@[1] == '1' && "F19"@[2] == '9',
        "F20"@.len() == 3 && "F20"@[0] == 'F' && "F20"@[1] == '2' && "F20"@[2] == '0',
        "F21"@.len() == 3 && "F21"@[0] == 'F' && "F21"@[1] == '2' && "F21"@[2] == '1',
        "F22"@.len() == 3 && "F22"@[0] == 'F' && "F22"@[1] == '2' && "F22"@[2] == '2',
        "F23"@.len() == 3 && "F23"@[0] == 'F' && "F23"@[1] == '2' && "F23"@[2] == '3',
        "F24"@.len() == 3 && "F24"@[0] == 'F' && "F24"@[1] == '2' && "F24"@[2] == '4',
        "A"@.len() == 1 && "A"@[0] == 'A',
        "B"@.len() == 1 && "B"@[0] == 'B',
        "C"@.len() == 1 && "C"@[0] == 'C',
        "D"@.len() == 1 && "D"@[0] == 'D',
        "E"@.len() == 1 && "E"@[0] == 'E',
        "F"@.len() == 1 && "F"@[0] == 'F',
        "G"@.len() == 1 && "G"@[0] == 'G',
        "H"@.len() == 1 && "H"@[0] == 'H',
        "I"@.len() == 1 && "I"@[0] == 'I',
        "J"@.len() == 1 && "J"@[0] == 'J',
        "K"@.len() == 1 && "K"@[0] == 'K',
        "L"@.len() == 1 && "L"@[0] == 'L',
        "M"@.len() == 1 && "M"@[0] == 'M',
        "N"@.len() == 1 && "N"@[0] == 'N',
        "O"@.len() == 1 && "O"@[0] == 'O',
        "P"@.len() == 1 && "P"@[0] == 'P',
        "Q"@.len() == 1 && "Q"@[0] == 'Q',
        "R"@.len() == 1 && "R"@[0] == 'R',
        "S"@.len() == 1 && "S"@[0] == 'S',
        "T"@.len() == 1 && "T"@[0] == 'T',
        "U"@.len() == 1 && "U"@[0] == 'U',
        "V"@.len() == 1 && "V"@[0] == 'V',
        "W"@.len() == 1 && "W"@[0] == 'W',
        "X"@.len() == 1 && "X"@[0] == 'X',
        "Y"@.len() == 1 && "Y"@[0] == 'Y',
        "Z"@.len() == 1 && "Z"@[0] == 'Z',
        "0"@.len() == 1 && "0"@[0] == '0',
        "1"@.len() == 1 && "1"@[0] == '1',
        "2"@.len() == 1 && "2"@[0] == '2',
        "3"@.len() == 1 && "3"@[0] == '3',
        "4"@.len() == 1 && "4"@[0] == '4',
        "5"@.len() == 1 && "5"@[0] == '5',
        "6"@.len() == 1 && "6"@[0] == '6',
        "7"@.len() == 1 && "7"@[0] == '7',
        "8"@.len() == 1 && "8"@[0] == '8',
        "9"@.len() == 1 && "9"@[0] == '9',
        "Space"@.len() == 5 && "Space"@[0] == 'S' && "Space"@[1] == 'p' && "Space"@[2] == 'a' &&
            "Space"@[3] == 'c' && "Space"@[4] == 'e',
        "Enter"@.len() == 5 && "Enter"@[0] == 'E' && "Enter"@[1] == 'n' && "Enter"@[2] == 't' &&
            "Enter"@[3] == 'e' && "Enter"@[4] == 'r',
        "Tab"@.len() == 3 && "Tab"@[0] == 'T' && "Tab"@[1] == 'a' && "Tab"@[2] == 'b',
        "Backspace"@.len() == 9 && "Backspace"@[0] == 'B' && "Backspace"@[1] == 'a' &&
            "Backspace"@[2] == 'c' && "Backspace"@[3] == 'k' && "Backspace"@[4] == 's' &&
            "Backspace"@[5] == 'p' && "Backspace"@[6] == 'a' && "Backspace"@[7] == 'c' &&
            "Backspace"@[8] == 'e',
        "Delete"@.len() == 6 && "Delete"@[0] == 'D' && "Delete"@[1] == 'e' && "Delete"@[2] == 'l' &&
            "Delete"@[3] == 'e' && "Delete"@[4] == 't' && "Delete"@[5] == 'e',
        "Insert"@.len() == 6 && "Insert"@[0] == 'I' && "Insert"@[1] == 'n' && "Insert"@[2] == 's' &&
            "Insert"@[3] == 'e' && "Insert"@[4] == 'r' && "Insert"@[5] == 't',
        "Home"@.len() == 4 && "Home"@[0] == 'H' && "Home"@[1] == 'o' && "Home"@[2] == 'm' &&
            "Home"@[3] == 'e',
        "End"@.len() == 3 && "End"@[0] == 'E' && "End"@[1] == 'n' && "End"@[2] == 'd',
        "PageUp"@.len() == 6 && "PageUp"@[0] == 'P' && "PageUp"@[1] == 'a' && "PageUp"@[2] == 'g' &&
            "PageUp"@[3] == 'e' && "PageUp"@[4] == 'U' && "PageUp"@[5] == 'p',
        "PageDown"@.len() == 8 && "PageDown"@[0] == 'P' && "PageDown"@[1] == 'a' &&
            "PageDown"@[2] == 'g' && "PageDown"@[3] == 'e' && "PageDown"@[4] == 'D' &&
            "PageDown"@[5] == 'o' && "PageDown"@[6] == 'w' && "PageDown"@[7] == 'n',
        "Up"@.len() == 2 && "Up"@[0] == 'U' && "Up"@[1] == 'p',
        "Down"@.len() == 4 && "Down"@[0] == 'D' && "Down"@[1] == 'o' && "Down"@[2] == 'w' &&
            "Down"@[3] == 'n',
        "Left"@.len() == 4 && "Left"@[0] == 'L' && "Left"@[1] == 'e' && "Left"@[2] == 'f' &&
            "Left"@[3] == 't',
        "Right"@.len() == 5 && "Right"@[0] == 'R' && "Right"@[1] == 'i' && "Right"@[2] == 'g' &&
            "Right"@[3] == 'h' && "Right"@[4] == 't',
        "Escape"@.len() == 6 && "Escape"@[0] == 'E' && "Escape"@[1] == 's' && "Escape"@[2] == 'c' &&
            "Escape"@[3] == 'a' && "Escape"@[4] == 'p' && "Escape"@[5] == 'e',
        "CapsLock"@.len() == 8 && "CapsLock"@[0] == 'C' && "CapsLock"@[1] == 'a' &&
            "CapsLock"@[2] == 'p' && "CapsLock"@[3] == 's' && "CapsLock"@[4] == 'L' &&
            "CapsLock"@[5] == 'o' && "CapsLock"@[6] == 'c' && "CapsLock"@[7] == 'k',
        "NumLock"@.len() == 7 && "NumLock"@[0] == 'N' && "NumLock"@[1] == 'u' &&
            "NumLock"@[2] == 'm' && "NumLock"@[3] == 'L' && "NumLock"@[4] == 'o' &&
            "NumLock"@[5] == 'c' && "NumLock"@[6] == 'k',
        "ScrollLock"@.len() == 10 && "ScrollLock"@[0] == 'S' && "ScrollLock"@[1] == 'c' &&
            "ScrollLock"@[2] == 'r' && "ScrollLock"@[3] == 'o' && "ScrollLock"@[4] == 'l' &&
            "ScrollLock"@[5] == 'l' && "ScrollLock"@[6] == 'L' && "ScrollLock"@[7] == 'o' &&
            "ScrollLock"@[8] == 'c' && "ScrollLock"@[9] == 'k',
        "PrintScreen"@.len() == 11 && "PrintScreen"@[0] == 'P' && "PrintScreen"@[1] == 'r' &&
            "PrintScreen"@[2] == 'i' && "PrintScreen"@[3] == 'n' && "PrintScreen"@[4] == 't' &&
            "PrintScreen"@[5] == 'S' && "PrintScreen"@[6] == 'c' && "PrintScreen"@[7] == 'r' &&
            "PrintScreen"@[8] == 'e' && "PrintScreen"@[9] == 'e' && "PrintScreen"@[10] == 'n',
        "Pause"@.len() == 5 && "Pause"@[0] == 'P' && "Pause"@[1] == 'a' && "Pause"@[2] == 'u' &&
            "Pause"@[3] == 's' && "Pause"@[4] == 'e',
        "Minus"@.len() == 5 && "Minus"@[0] == 'M' && "Minus"@[1] == 'i' && "Minus"@[2] == 'n' &&
            "Minus"@[3] == 'u' && "Minus"@[4] == 's',
        "Equal"@.len() == 5 && "Equal"@[0] == 'E' && "Equal"@[1] == 'q' && "Equal"@[2] == 'u' &&
            "Equal"@[3] == 'a' && "Equal"@[4] == 'l',
        "BracketLeft"@.len() == 11 && "BracketLeft"@[0] == 'B' && "BracketLeft"@[1] == 'r' &&
            "BracketLeft"@[2] == 'a' && "BracketLeft"@[3] == 'c' && "BracketLeft"@[4] == 'k' &&
            "BracketLeft"@[5] == 'e' && "BracketLeft"@[6] == 't' && "BracketLeft"@[7] == 'L' &&
            "BracketLeft"@[8] == 'e' && "BracketLeft"@[9] == 'f' && "BracketLeft"@[10] == 't',
        "BracketRight"@.len() == 12 && "BracketRight"@[0] == 'B' && "BracketRight"@[1] == 'r' &&
            "BracketRight"@[2] == 'a' && "BracketRight"@[3] == 'c' && "BracketRight"@[4] == 'k' &&
            "BracketRight"@[5] == 'e' && "BracketRight"@[6] == 't' && "BracketRight"@[7] == 'R' &&
            "BracketRight"@[8] == 'i' && "BracketRight"@[9] == 'g' && "BracketRight"@[10] == 'h' &&
            "BracketRight"@[11] == 't',
        "Semicolon"@.len() == 9 && "Semicolon"@[0] == 'S' && "Semicolon"@[1] == 'e' &&
            "Semicolon"@[2] == 'm' && "Semicolon"@[3] == 'i' && "Semicolon"@[4] == 'c' &&
            "Semicolon"@[5] == 'o' && "Semicolon"@[6] == 'l' && "Semicolon"@[7] == 'o' &&
            "Semicolon"@[8] == 'n',
        "Quote"@.len() == 5 && "Quote"@[0] == 'Q' && "Quote"@[1] == 'u' && "Quote"@[2] == 'o' &&
            "Quote"@[3] == 't' && "Quote"@[4] == 'e',
        "Comma"@.len() == 5 && "Comma"@[0] == 'C' && "Comma"@[1] == 'o' && "Comma"@[2] == 'm' &&
            "Comma"@[3] == 'm' && "Comma"@[4] == 'a',
        "Period"@.len() == 6 && "Period"@[0] == 'P' && "Period"@[1] == 'e' && "Period"@[2] == 'r' &&
            "Period"@[3] == 'i' && "Period"@[4] == 'o' && "Period"@[5] == 'd',
        "Slash"@.len() == 5 && "Slash"@[0] == 'S' && "Slash"@[1] == 'l' && "Slash"@[2] == 'a' &&
            "Slash"@[3] == 's' && "Slash"@[4] == 'h',
        "Backslash"@.len() == 9 && "Backslash"@[0] == 'B' && "Backslash"@[1] == 'a' &&
            "Backslash"@[2] == 'c' && "Backslash"@[3] == 'k' && "Backslash"@[4] == 's' &&
            "Backslash"@[5] == 'l' && "Backslash"@[6] == 'a' && "Backslash"@[7] == 's' &&
            "Backslash"@[8] == 'h',
        "Backquote"@.len() == 9 && "Backquote"@[0] == 'B' && "Backquote"@[1] == 'a' &&
            "Backquote"@[2] == 'c' && "Backquote"@[3] == 'k' && "Backquote"@[4] == 'q' &&
            "Backquote"@[5] == 'u' && "Backquote"@[6] == 'o' && "Backquote"@[7] == 't' &&
            "Backquote"@[8] == 'e',
{
    reveal_strlit("F1");
    reveal_strlit("F2");
    reveal_strlit("F3");
    reveal_strlit("F4");
    reveal_strlit("F5");
    reveal_strlit("F6");
    reveal_strlit("F7");
    reveal_strlit("F8");
    reveal_strlit("F9");
    reveal_strlit("F10");
    reveal_strlit("F11");
    reveal_strlit("F12");
    reveal_strlit("F13");
    reveal_strlit("F14");
    reveal_strlit("F15");
    reveal_strlit("F16");
    reveal_strlit("F17");
    reveal_strlit("F18");
    reveal_strlit("F19");
    reveal_strlit("F20");
    reveal_strlit("F21");
    reveal_strlit("F22");
    reveal_strlit("F23");
    reveal_strlit("F24");
    reveal_strlit("A");
    reveal_strlit("B");
    reveal_strlit("C");
    reveal_strlit("D");
    reveal_strlit("E");
    reveal_strlit("F");
    reveal_strlit("G");
    reveal_strlit("H");
    reveal_strlit("I");
    reveal_strlit("J");
    reveal_strlit("K");
    reveal_strlit("L");
    reveal_strlit("M");
    reveal_strlit("N");
    reveal_strlit("O");
    reveal_strlit("P");
    reveal_strlit("Q");
    reveal_strlit("R");
    reveal_strlit("S");
    reveal_strlit("T");
    reveal_strlit("U");
    reveal_strlit("V");
    reveal_strlit("W");
    reveal_strlit("X");
    reveal_strlit("Y");
    reveal_strlit("Z");
    reveal_strlit("0");
    reveal_strlit("1");
    reveal_strlit("2");
    reveal_strlit("3");
    reveal_strlit("4");
    reveal_strlit("5");
    reveal_strlit("6");
    reveal_strlit("7");
    reveal_strlit("8");
    reveal_strlit("9");
    reveal_strlit("Space");
    reveal_strlit("Enter");
    reveal_strlit("Tab");
    reveal_strlit("Backspace");
    reveal_strlit("Delete");
    reveal_strlit("Insert");
    reveal_strlit("Home");
    reveal_strlit("End");
    reveal_strlit("PageUp");
    reveal_strlit("PageDown");
    reveal_strlit("Up");
    reveal_strlit("Down");
    reveal_strlit("Left");
    reveal_strlit("Right");
    reveal_strlit("Escape");
    reveal_strlit("CapsLock");
    reveal_strlit("NumLock");
    reveal_strlit("ScrollLock");
    reveal_strlit("PrintScreen");
    reveal_strlit("Pause");
    reveal_strlit("Minus");
    reveal_strlit("Equal");
    reveal_strlit("BracketLeft");
    reveal_strlit("BracketRight");
    reveal_strlit("Semicolon");
    reveal_strlit("Quote");
    reveal_strlit("Comma");
    reveal_strlit("Period");
    reveal_strlit("Slash");
    reveal_strlit("Backslash");
    reveal_strlit("Backquote");
}

/// The letters of every mouse-button token.
proof fn lemma_mouse_name_chars()
    ensures
        "Mouse1"@.len() == 6 && "Mouse1"@[0] == 'M' && "Mouse1"@[1] == 'o' && "Mouse1"@[2] == 'u' &&
            "Mouse1"@[3] == 's' && "Mouse1"@[4] == 'e' && "Mouse1"@[5] == '1',
        "Mouse2"@.len() == 6 && "Mouse2"@[0] == 'M' && "Mouse2"@[1] == 'o' && "Mouse2"@[2] == 'u' &&
            "Mouse2"@[3] == 's' && "Mouse2"@[4] == 'e' && "Mouse2"@[5] == '2',
        "Mouse3"@.len() == 6 && "Mouse3"@[0] == 'M' && "Mouse3"@[1] == 'o' && "Mouse3"@[2] == 'u' &&
            "Mouse3"@[3] == 's' && "Mouse3"@[4] == 'e' && "Mouse3"@[5] == '3',
        "Mouse4"@.len() == 6 && "Mouse4"@[0] == 'M' && "Mouse4"@[1] == 'o' && "Mouse4"@[2] == 'u' &&
            "Mouse4"@[3] == 's' && "Mouse4"@[4] == 'e' && "Mouse4"@[5] == '4',
        "Mouse5"@.len() == 6 && "Mouse5"@[0] == 'M' && "Mouse5"@[1] == 'o' && "Mouse5"@[2] == 'u' &&
            "Mouse5"@[3] == 's' && "Mouse5"@[4] == 'e' && "Mouse5"@[5] == '5',
        "Mouse6"@.len() == 6 && "Mouse6"@[0] == 'M' && "Mouse6"@[1] == 'o' && "Mouse6"@[2] == 'u' &&
            "Mouse6"@[3] == 's' && "Mouse6"@[4] == 'e' && "Mouse6"@[5] == '6',
        "Mouse7"@.len() == 6 && "Mouse7"@[0] == 'M' && "Mouse7"@[1] == 'o' && "Mouse7"@[2] == 'u' &&
            "Mouse7"@[3] == 's' && "Mouse7"@[4] == 'e' && "Mouse7"@[5] == '7',
        "Mouse8"@.len() == 6 && "Mouse8"@[0] == 'M' && "Mouse8"@[1] == 'o' && "Mouse8"@[2] == 'u' &&
            "Mouse8"@[3] == 's' && "Mouse8"@[4] == 'e' && "Mouse8"@[5] == '8',
        "MouseLeft"@.len() == 9 && "MouseLeft"@[0] == 'M' && "MouseLeft"@[1] == 'o' &&
            "MouseLeft"@[2] == 'u' && "MouseLeft"@[3] == 's' && "MouseLeft"@[4] == 'e' &&
            "MouseLeft"@[5] == 'L' && "MouseLeft"@[6] == 'e' && "MouseLeft"@[7] == 'f' &&
            "MouseLeft"@[8] == 't',
        "MouseRight"@.len() == 10 && "MouseRight"@[0] == 'M' && "MouseRight"@[1] == 'o' &&
            "MouseRight"@[2] == 'u' && "MouseRight"@[3] == 's' && "MouseRight"@[4] == 'e' &&
            "MouseRight"@[5] == 'R' && "MouseRight"@[6] == 'i' && "MouseRight"@[7] == 'g' &&
            "MouseRight"@[8] == 'h' && "MouseRight"@[9] == 't',
        "MouseMiddle"@.len() == 11 && "MouseMiddle"@[0] == 'M' && "MouseMiddle"@[1] == 'o' &&
            "MouseMiddle"@[2] == 'u' && "MouseMiddle"@[3] == 's' && "MouseMiddle"@[4] == 'e' &&
            "MouseMiddle"@[5] == 'M' && "MouseMiddle"@[6] == 'i' && "MouseMiddle"@[7] == 'd' &&
            "MouseMiddle"@[8] == 'd' && "MouseMiddle"@[9] == 'l' && "MouseMiddle"@[10] == 'e',
        "MouseSide"@.len() == 9 && "MouseSide"@[0] == 'M' && "MouseSide"@[1] == 'o' &&
            "MouseSide"@[2] == 'u' && "MouseSide"@[3] == 's' && "MouseSide"@[4] == 'e' &&
            "MouseSide"@[5] == 'S' && "MouseSide"@[6] == 'i' && "MouseSide"@[7] == 'd' &&
            "MouseSide"@[8] == 'e',
        "MouseExtra"@.len() == 10 && "MouseExtra"@[0] == 'M' && "MouseExtra"@[1] == 'o' &&
            "MouseExtra"@[2] == 'u' && "MouseExtra"@[3] == 's' && "MouseExtra"@[4] == 'e' &&
            "MouseExtra"@[5] == 'E' && "MouseExtra"@[6] == 'x' && "MouseExtra"@[7] == 't' &&
            "MouseExtra"@[8] == 'r' && "MouseExtra"@[9] == 'a',
        "MouseForward"@.len() == 12 && "MouseForward"@[0] == 'M' && "MouseForward"@[1] == 'o' &&
            "MouseForward"@[2] == 'u' && "MouseForward"@[3] == 's' && "MouseForward"@[4] == 'e' &&
            "MouseForward"@[5] == 'F' && "MouseForward"@[6] == 'o' && "MouseForward"@[7] == 'r' &&
            "MouseForward"@[8] == 'w' && "MouseForward"@[9] == 'a' && "MouseForward"@[10] == 'r' &&
            "MouseForward"@[11] == 'd',
        "MouseBack"@.len() == 9 && "MouseBack"@[0] == 'M' && "MouseBack"@[1] == 'o' &&
            "MouseBack"@[2] == 'u' && "MouseBack"@[3] == 's' && "MouseBack"@[4] == 'e' &&
            "MouseBack"@[5] == 'B' && "MouseBack"@[6] == 'a' && "MouseBack"@[7] == 'c' &&
            "MouseBack"@[8] == 'k',
        "MouseTask"@.len() == 9 && "MouseTask"@[0] == 'M' && "MouseTask"@[1] == 'o' &&
            "MouseTask"@[2] == 'u' && "MouseTask"@[3] == 's' && "MouseTask"@[4] == 'e' &&
            "MouseTask"@[5] == 'T' && "MouseTask"@[6] == 'a' && "MouseTask"@[7] == 's' &&
            "MouseTask"@[8] == 'k',
{
    reveal_strlit("Mouse1");
    reveal_strlit("Mouse2");
    reveal_strlit("Mouse3");
    reveal_strlit("Mouse4");
    reveal_strlit("Mouse5");
    reveal_strlit("Mouse6");
    reveal_strlit("Mouse7");
    reveal_strlit("Mouse8");
    reveal_strlit("MouseLeft");
    reveal_strlit("MouseRight");
    reveal_strlit("MouseMiddle");
    reveal_strlit("MouseSide");
    reveal_strlit("MouseExtra");
    reveal_strlit("MouseForward");
    reveal_strlit("MouseBack");
    reveal_strlit("MouseTask");
}

/// Each key code's name leads back to that code: the names are told apart
/// by their lengths and letters.
#[verifier::rlimit(100)]
proof fn lemma_key_code_of(code: u16)
    requires
        key_name_spec(code) is Some,
    ensures
        key_code_of(key_name_spec(code)->Some_0) == Some(code),
{
    lemma_key_name_chars();
}

/// No two key codes give the same key name.
pub proof fn law_key_names_distinct(c1: u16, c2: u16)
    requires
        c1 != c2,
        key_name_spec(c1) is Some,
        key_name_spec(c2) is Some,
    ensures
        key_name_spec(c1) != key_name_spec(c2),
{
    lemma_key_code_of(c1);
    lemma_key_code_of(c2);
}

/// The letter and digit keys as the Linux input layer numbers them, row by
/// row: codes 2 to 11 are the digits 1 to 9 and 0, 16 to 25 are the letters
/// Q W E R T Y U I O P, 30 to 38 are A S D F G H J K L, and 44 to 50 are
/// Z X C V B N M. A press of one, with any modifiers held, binds that digit
/// or capital letter with the held modifiers in canonical order.
pub proof fn law_letter_and_digit_codes(i: int, mods: Seq<Modifier>)
    ensures
        0 <= i < 10 ==> key_binding_spec((2 + i) as u16, mods) == Some(
            BindingView::Keyboard { mods: canonical(mods), key: seq!["1234567890"@[i]] },
        ),
        0 <= i < 10 ==> key_binding_spec((16 + i) as u16, mods) == Some(
            BindingView::Keyboard { mods: canonical(mods), key: seq!["QWERTYUIOP"@[i]] },
        ),
        0 <= i < 9 ==> key_binding_spec((30 + i) as u16, mods) == Some(
            BindingView::Keyboard { mods: canonical(mods), key: seq!["ASDFGHJKL"@[i]] },
        ),
        0 <= i < 7 ==> key_binding_spec((44 + i) as u16, mods) == Some(
            BindingView::Keyboard { mods: canonical(mods), key: seq!["ZXCVBNM"@[i]] },
        ),
{
    reveal_strlit("1234567890");
    reveal_strlit("QWERTYUIOP");
    reveal_strlit("ASDFGHJKL");
    reveal_strlit("ZXCVBNM");
    reveal_strlit("A");
    reveal_strlit("B");
    reveal_strlit("C");
    reveal_strlit("D");
    reveal_strlit("E");
    reveal_strlit("F");
    reveal_strlit("G");
    reveal_strlit("H");
    reveal_strlit("I");
    reveal_strlit("J");
    reveal_strlit("K");
    reveal_strlit("L");
    reveal_strlit("M");
    reveal_strlit("N");
    reveal_strlit("O");
    reveal_strlit("P");
    reveal_strlit("Q");
    reveal_strlit("R");
    reveal_strlit("S");
    reveal_strlit("T");
    reveal_strlit("U");
    reveal_strlit("V");
    reveal_strlit("W");
    reveal_strlit("X");
    reveal_strlit("Y");
    reveal_strlit("Z");
    reveal_strlit("0");
    reveal_strlit("1");
    reveal_strlit("2");
    reveal_strlit("3");
    reveal_strlit("4");
    reveal_strlit("5");
    reveal_strlit("6");
    reveal_strlit("7");
    reveal_strlit("8");
    reveal_strlit("9");
    if 0 <= i < 10 {
        assert(key_name_spec((2 + i) as u16) == Some(seq!["1234567890"@[i]]));
        assert(key_name_spec((16 + i) as u16) == Some(seq!["QWERTYUIOP"@[i]]));
    }
    if 0 <= i < 9 {
        assert(key_name_spec((30 + i) as u16) == Some(seq!["ASDFGHJKL"@[i]]));
    }
    if 0 <= i < 7 {
        assert(key_name_spec((44 + i) as u16) == Some(seq!["ZXCVBNM"@[i]]));
    }
}

/// Every key name is a token, without `+`, that parses as a key and not as a
/// mouse button.
#[verifier::rlimit(100)]
proof fn lemma_key_name_token(code: u16)
    requires
        key_name_spec(code) is Some,
    ensures
        key_name_spec(code)->Some_0.len() > 0,
        !key_name_spec(code)->Some_0.contains('+'),
        mouse_spec(key_name_spec(code)->Some_0) is None,
        valid_key(key_name_spec(code)->Some_0),
{
    lemma_key_name_chars();
    lemma_mouse_name_chars();
    let n = key_name_spec(code)->Some_0;
    assert(!n.contains('+')) by {
        if n.contains('+') {
            let k = choose|k: int| 0 <= k < n.len() && n[k] == '+';
        }
    }
}

/// Every mouse-button token a press gives is a token, without `+`, that
/// parses as that mouse button.
proof fn lemma_mouse_token(code: u16)
    requires
        mouse_token_spec(code) is Some,
    ensures
        mouse_token_spec(code)->Some_0.len() > 0,
        !mouse_token_spec(code)->Some_0.contains('+'),
        mouse_spec(mouse_token_spec(code)->Some_0) == mouse_token_spec(code),
{
    lemma_mouse_name_chars();
    let t = mouse_token_spec(code)->Some_0;
    assert(!t.contains('+')) by {
        if t.contains('+') {
            let k = choose|k: int| 0 <= k < t.len() && t[k] == '+';
        }
    }
}

/// A binding captured from a key or mouse-button press formats to text that
/// parses back to the same binding.
pub proof fn law_captured_binding_parses(code: u16, mods: Seq<Modifier>)
    requires
        key_binding_spec(code, mods) is Some,
    ensures
        parse_spec(format_spec(key_binding_spec(code, mods)->Some_0)) == Ok::<BindingView, Seq<char>>(
            key_binding_spec(code, mods)->Some_0,
        ),
{
    lemma_canonical_idem(mods);
    if mouse_token_spec(code) is Some {
        lemma_mouse_token(code);
        lemma_parse_with_mods(canonical(mods), mouse_token_spec(code)->Some_0);
    } else {
        lemma_key_name_token(code);
        lemma_parse_with_mods(canonical(mods), key_name_spec(code)->Some_0);
    }
}

} // verus!
