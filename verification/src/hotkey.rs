//! Hotkey combo handling: the key-name table, hotkey-string parsing, the
//! migration of old hotkey spellings, and the decision whether a change of
//! held keys starts or stops a capture.
//!
//! The global key listener itself is an outside concern; it hands the set of
//! held keys to [`check_combo`] and acts on the returned change.

use vstd::prelude::*;
use crate::text::{find_char, find_char_spec, str_eq, trim, trim_spec};

verus! {

/// A key that can take part in a hotkey combo.
#[derive(Debug, Clone, Copy, PartialEq, Eq, Structural)]
pub enum KeyCode {
    ControlLeft,
    ShiftLeft,
    Alt,
    MetaLeft,
    ControlRight,
    ShiftRight,
    AltGr,
    MetaRight,
    Space,
    Return,
    Tab,
    Escape,
    Backspace,
    Delete,
    Insert,
    Home,
    End,
    PageUp,
    PageDown,
    CapsLock,
    UpArrow,
    DownArrow,
    LeftArrow,
    RightArrow,
    F1,
    F2,
    F3,
    F4,
    F5,
    F6,
    F7,
    F8,
    F9,
    F10,
    F11,
    F12,
    Num0,
    Num1,
    Num2,
    Num3,
    Num4,
    Num5,
    Num6,
    Num7,
    Num8,
    Num9,
    KeyA,
    KeyB,
    KeyC,
    KeyD,
    KeyE,
    KeyF,
    KeyG,
    KeyH,
    KeyI,
    KeyJ,
    KeyK,
    KeyL,
    KeyM,
    KeyN,
    KeyO,
    KeyP,
    KeyQ,
    KeyR,
    KeyS,
    KeyT,
    KeyU,
    KeyV,
    KeyW,
    KeyX,
    KeyY,
    KeyZ,
    Minus,
    Equal,
    LeftBracket,
    RightBracket,
    BackSlash,
    SemiColon,
    Quote,
    BackQuote,
    Comma,
    Dot,
    Slash,
    Kp0,
    Kp1,
    Kp2,
    Kp3,
    Kp4,
    Kp5,
    Kp6,
    Kp7,
    Kp8,
    Kp9,
    KpDelete,
    KpPlus,
    KpMinus,
    KpMultiply,
    KpDivide,
    KpReturn,
}

/// What a key name parses to, if anything.
pub open spec fn parse_key_name_spec(s: Seq<char>) -> Option<KeyCode> {
    if s == "ControlLeft"@ {
        Some(KeyCode::ControlLeft)
    } else if s == "ShiftLeft"@ {
        Some(KeyCode::ShiftLeft)
    } else if s == "AltLeft"@ || s == "Alt"@ {
        Some(KeyCode::Alt)
    } else if s == "MetaLeft"@ || s == "SuperLeft"@ {
        Some(KeyCode::MetaLeft)
    } else if s == "ControlRight"@ {
        Some(KeyCode::ControlRight)
    } else if s == "ShiftRight"@ {
        Some(KeyCode::ShiftRight)
    } else if s == "AltRight"@ || s == "AltGr"@ {
        Some(KeyCode::AltGr)
    } else if s == "MetaRight"@ || s == "SuperRight"@ {
        Some(KeyCode::MetaRight)
    } else if s == "Space"@ {
        Some(KeyCode::Space)
    } else if s == "Enter"@ || s == "Return"@ {
        Some(KeyCode::Return)
    } else if s == "Tab"@ {
        Some(KeyCode::Tab)
    } else if s == "Escape"@ || s == "Esc"@ {
        Some(KeyCode::Escape)
    } else if s == "Backspace"@ {
        Some(KeyCode::Backspace)
    } else if s == "Delete"@ {
        Some(KeyCode::Delete)
    } else if s == "Insert"@ {
        Some(KeyCode::Insert)
    } else if s == "Home"@ {
        Some(KeyCode::Home)
    } else if s == "End"@ {
        Some(KeyCode::End)
    } else if s == "PageUp"@ {
        Some(KeyCode::PageUp)
    } else if s == "PageDown"@ {
        Some(KeyCode::PageDown)
    } else if s == "CapsLock"@ {
        Some(KeyCode::CapsLock)
    } else if s == "ArrowUp"@ || s == "Up"@ {
        Some(KeyCode::UpArrow)
    } else if s == "ArrowDown"@ || s == "Down"@ {
        Some(KeyCode::DownArrow)
    } else if s == "ArrowLeft"@ || s == "Left"@ {
        Some(KeyCode::LeftArrow)
    } else if s == "ArrowRight"@ || s == "Right"@ {
        Some(KeyCode::RightArrow)
    } else if s == "F1"@ {
        Some(KeyCode::F1)
    } else if s == "F2"@ {
        Some(KeyCode::F2)
    } else if s == "F3"@ {
        Some(KeyCode::F3)
    } else if s == "F4"@ {
        Some(KeyCode::F4)
    } else if s == "F5"@ {
        Some(KeyCode::F5)
    } else if s == "F6"@ {
        Some(KeyCode::F6)
    } else if s == "F7"@ {
        Some(KeyCode::F7)
    } else if s == "F8"@ {
        Some(KeyCode::F8)
    } else if s == "F9"@ {
        Some(KeyCode::F9)
    } else if s == "F10"@ {
        Some(KeyCode::F10)
    } else if s == "F11"@ {
        Some(KeyCode::F11)
    } else if s == "F12"@ {
        Some(KeyCode::F12)
    } else if s == "Digit0"@ || s == "0"@ {
        Some(KeyCode::Num0)
    } else if s == "Digit1"@ || s == "1"@ {
        Some(KeyCode::Num1)
    } else if s == "Digit2"@ || s == "2"@ {
        Some(KeyCode::Num2)
    } else if s == "Digit3"@ || s == "3"@ {
        Some(KeyCode::Num3)
    } else if s == "Digit4"@ || s == "4"@ {
        Some(KeyCode::Num4)
    } else if s == "Digit5"@ || s == "5"@ {
        Some(KeyCode::Num5)
    } else if s == "Digit6"@ || s == "6"@ {
        Some(KeyCode::Num6)
    } else if s == "Digit7"@ || s == "7"@ {
        Some(KeyCode::Num7)
    } else if s == "Digit8"@ || s == "8"@ {
        Some(KeyCode::Num8)
    } else if s == "Digit9"@ || s == "9"@ {
        Some(KeyCode::Num9)
    } else if s == "KeyA"@ || s == "A"@ {
        Some(KeyCode::KeyA)
    } else if s == "KeyB"@ || s == "B"@ {
        Some(KeyCode::KeyB)
    } else if s == "KeyC"@ || s == "C"@ {
        Some(KeyCode::KeyC)
    } else if s == "KeyD"@ || s == "D"@ {
        Some(KeyCode::KeyD)
    } else if s == "KeyE"@ || s == "E"@ {
        Some(KeyCode::KeyE)
    } else if s == "KeyF"@ || s == "F"@ {
        Some(KeyCode::KeyF)
    } else if s == "KeyG"@ || s == "G"@ {
        Some(KeyCode::KeyG)
    } else if s == "KeyH"@ || s == "H"@ {
        Some(KeyCode::KeyH)
    } else if s == "KeyI"@ || s == "I"@ {
        Some(KeyCode::KeyI)
    } else if s == "KeyJ"@ || s == "J"@ {
        Some(KeyCode::KeyJ)
    } else if s == "KeyK"@ || s == "K"@ {
        Some(KeyCode::KeyK)
    } else if s == "KeyL"@ || s == "L"@ {
        Some(KeyCode::KeyL)
    } else if s == "KeyM"@ || s == "M"@ {
        Some(KeyCode::KeyM)
    } else if s == "KeyN"@ || s == "N"@ {
        Some(KeyCode::KeyN)
    } else if s == "KeyO"@ || s == "O"@ {
        Some(KeyCode::KeyO)
    } else if s == "KeyP"@ || s == "P"@ {
        Some(KeyCode::KeyP)
    } else if s == "KeyQ"@ || s == "Q"@ {
        Some(KeyCode::KeyQ)
    } else if s == "KeyR"@ || s == "R"@ {
        Some(KeyCode::KeyR)
    } else if s == "KeyS"@ || s == "S"@ {
        Some(KeyCode::KeyS)
    } else if s == "KeyT"@ || s == "T"@ {
        Some(KeyCode::KeyT)
    } else if s == "KeyU"@ || s == "U"@ {
        Some(KeyCode::KeyU)
    } else if s == "KeyV"@ || s == "V"@ {
        Some(KeyCode::KeyV)
    } else if s == "KeyW"@ || s == "W"@ {
        Some(KeyCode::KeyW)
    } else if s == "KeyX"@ || s == "X"@ {
        Some(KeyCode::KeyX)
    } else if s == "KeyY"@ || s == "Y"@ {
        Some(KeyCode::KeyY)
    } else if s == "KeyZ"@ || s == "Z"@ {
        Some(KeyCode::KeyZ)
    } else if s == "Minus"@ {
        Some(KeyCode::Minus)
    } else if s == "Equal"@ {
        Some(KeyCode::Equal)
    } else if s == "BracketLeft"@ {
        Some(KeyCode::LeftBracket)
    } else if s == "BracketRight"@ {
        Some(KeyCode::RightBracket)
    } else if s == "Backslash"@ {
        Some(KeyCode::BackSlash)
    } else if s == "Semicolon"@ {
        Some(KeyCode::SemiColon)
    } else if s == "Quote"@ {
        Some(KeyCode::Quote)
    } else if s == "Backquote"@ {
        Some(KeyCode::BackQuote)
    } else if s == "Comma"@ {
        Some(KeyCode::Comma)
    } else if s == "Period"@ {
        Some(KeyCode::Dot)
    } else if s == "Slash"@ {
        Some(KeyCode::Slash)
    } else if s == "Numpad0"@ {
        Some(KeyCode::Kp0)
    } else if s == "Numpad1"@ {
        Some(KeyCode::Kp1)
    } else if s == "Numpad2"@ {
        Some(KeyCode::Kp2)
    } else if s == "Numpad3"@ {
        Some(KeyCode::Kp3)
    } else if s == "Numpad4"@ {
        Some(KeyCode::Kp4)
    } else if s == "Numpad5"@ {
        Some(KeyCode::Kp5)
    } else if s == "Numpad6"@ {
        Some(KeyCode::Kp6)
    } else if s == "Numpad7"@ {
        Some(KeyCode::Kp7)
    } else if s == "Numpad8"@ {
        Some(KeyCode::Kp8)
    } else if s == "Numpad9"@ {
        Some(KeyCode::Kp9)
    } else if s == "NumpadDecimal"@ {
        Some(KeyCode::KpDelete)
    } else if s == "NumpadAdd"@ {
        Some(KeyCode::KpPlus)
    } else if s == "NumpadSubtract"@ {
        Some(KeyCode::KpMinus)
    } else if s == "NumpadMultiply"@ {
        Some(KeyCode::KpMultiply)
    } else if s == "NumpadDivide"@ {
        Some(KeyCode::KpDivide)
    } else if s == "NumpadEnter"@ {
        Some(KeyCode::KpReturn)
    } else {
        None
    }
}

/// Map a key name to a key code.
pub fn parse_key_name(name: &str) -> (r: Option<KeyCode>)
    ensures
        r == parse_key_name_spec(name@),
{
    if str_eq(name, "ControlLeft") {
        Some(KeyCode::ControlLeft)
    } else if str_eq(name, "ShiftLeft") {
        Some(KeyCode::ShiftLeft)
    } else if str_eq(name, "AltLeft") || str_eq(name, "Alt") {
        Some(KeyCode::Alt)
    } else if str_eq(name, "MetaLeft") || str_eq(name, "SuperLeft") {
        Some(KeyCode::MetaLeft)
    } else if str_eq(name, "ControlRight") {
        Some(KeyCode::ControlRight)
    } else if str_eq(name, "ShiftRight") {
        Some(KeyCode::ShiftRight)
    } else if str_eq(name, "AltRight") || str_eq(name, "AltGr") {
        Some(KeyCode::AltGr)
    } else if str_eq(name, "MetaRight") || str_eq(name, "SuperRight") {
        Some(KeyCode::MetaRight)
    } else if str_eq(name, "Space") {
        Some(KeyCode::Space)
    } else if str_eq(name, "Enter") || str_eq(name, "Return") {
        Some(KeyCode::Return)
    } else if str_eq(name, "Tab") {
        Some(KeyCode::Tab)
    } else if str_eq(name, "Escape") || str_eq(name, "Esc") {
        Some(KeyCode::Escape)
    } else if str_eq(name, "Backspace") {
        Some(KeyCode::Backspace)
    } else if str_eq(name, "Delete") {
        Some(KeyCode::Delete)
    } else if str_eq(name, "Insert") {
        Some(KeyCode::Insert)
    } else if str_eq(name, "Home") {
        Some(KeyCode::Home)
    } else if str_eq(name, "End") {
        Some(KeyCode::End)
    } else if str_eq(name, "PageUp") {
        Some(KeyCode::PageUp)
    } else if str_eq(name, "PageDown") {
        Some(KeyCode::PageDown)
    } else if str_eq(name, "CapsLock") {
        Some(KeyCode::CapsLock)
    } else if str_eq(name, "ArrowUp") || str_eq(name, "Up") {
        Some(KeyCode::UpArrow)
    } else if str_eq(name, "ArrowDown") || str_eq(name, "Down") {
        Some(KeyCode::DownArrow)
    } else if str_eq(name, "ArrowLeft") || str_eq(name, "Left") {
        Some(KeyCode::LeftArrow)
    } else if str_eq(name, "ArrowRight") || str_eq(name, "Right") {
        Some(KeyCode::RightArrow)
    } else if str_eq(name, "F1") {
        Some(KeyCode::F1)
    } else if str_eq(name, "F2") {
        Some(KeyCode::F2)
    } else if str_eq(name, "F3") {
        Some(KeyCode::F3)
    } else if str_eq(name, "F4") {
        Some(KeyCode::F4)
    } else if str_eq(name, "F5") {
        Some(KeyCode::F5)
    } else if str_eq(name, "F6") {
        Some(KeyCode::F6)
    } else if str_eq(name, "F7") {
        Some(KeyCode::F7)
    } else if str_eq(name, "F8") {
        Some(KeyCode::F8)
    } else if str_eq(name, "F9") {
        Some(KeyCode::F9)
    } else if str_eq(name, "F10") {
        Some(KeyCode::F10)
    } else if str_eq(name, "F11") {
        Some(KeyCode::F11)
    } else if str_eq(name, "F12") {
        Some(KeyCode::F12)
    } else if str_eq(name, "Digit0") || str_eq(name, "0") {
        Some(KeyCode::Num0)
    } else if str_eq(name, "Digit1") || str_eq(name, "1") {
        Some(KeyCode::Num1)
    } else if str_eq(name, "Digit2") || str_eq(name, "2") {
        Some(KeyCode::Num2)
    } else if str_eq(name, "Digit3") || str_eq(name, "3") {
        Some(KeyCode::Num3)
    } else if str_eq(name, "Digit4") || str_eq(name, "4") {
        Some(KeyCode::Num4)
    } else if str_eq(name, "Digit5") || str_eq(name, "5") {
        Some(KeyCode::Num5)
    } else if str_eq(name, "Digit6") || str_eq(name, "6") {
        Some(KeyCode::Num6)
    } else if str_eq(name, "Digit7") || str_eq(name, "7") {
        Some(KeyCode::Num7)
    } else if str_eq(name, "Digit8") || str_eq(name, "8") {
        Some(KeyCode::Num8)
    } else if str_eq(name, "Digit9") || str_eq(name, "9") {
        Some(KeyCode::Num9)
    } else if str_eq(name, "KeyA") || str_eq(name, "A") {
        Some(KeyCode::KeyA)
    } else if str_eq(name, "KeyB") || str_eq(name, "B") {
        Some(KeyCode::KeyB)
    } else if str_eq(name, "KeyC") || str_eq(name, "C") {
        Some(KeyCode::KeyC)
    } else if str_eq(name, "KeyD") || str_eq(name, "D") {
        Some(KeyCode::KeyD)
    } else if str_eq(name, "KeyE") || str_eq(name, "E") {
        Some(KeyCode::KeyE)
    } else if str_eq(name, "KeyF") || str_eq(name, "F") {
        Some(KeyCode::KeyF)
    } else if str_eq(name, "KeyG") || str_eq(name, "G") {
        Some(KeyCode::KeyG)
    } else if str_eq(name, "KeyH") || str_eq(name, "H") {
        Some(KeyCode::KeyH)
    } else if str_eq(name, "KeyI") || str_eq(name, "I") {
        Some(KeyCode::KeyI)
    } else if str_eq(name, "KeyJ") || str_eq(name, "J") {
        Some(KeyCode::KeyJ)
    } else if str_eq(name, "KeyK") || str_eq(name, "K") {
        Some(KeyCode::KeyK)
    } else if str_eq(name, "KeyL") || str_eq(name, "L") {
        Some(KeyCode::KeyL)
    } else if str_eq(name, "KeyM") || str_eq(name, "M") {
        Some(KeyCode::KeyM)
    } else if str_eq(name, "KeyN") || str_eq(name, "N") {
        Some(KeyCode::KeyN)
    } else if str_eq(name, "KeyO") || str_eq(name, "O") {
        Some(KeyCode::KeyO)
    } else if str_eq(name, "KeyP") || str_eq(name, "P") {
        Some(KeyCode::KeyP)
    } else if str_eq(name, "KeyQ") || str_eq(name, "Q") {
        Some(KeyCode::KeyQ)
    } else if str_eq(name, "KeyR") || str_eq(name, "R") {
        Some(KeyCode::KeyR)
    } else if str_eq(name, "KeyS") || str_eq(name, "S") {
        Some(KeyCode::KeyS)
    } else if str_eq(name, "KeyT") || str_eq(name, "T") {
        Some(KeyCode::KeyT)
    } else if str_eq(name, "KeyU") || str_eq(name, "U") {
        Some(KeyCode::KeyU)
    } else if str_eq(name, "KeyV") || str_eq(name, "V") {
        Some(KeyCode::KeyV)
    } else if str_eq(name, "KeyW") || str_eq(name, "W") {
        Some(KeyCode::KeyW)
    } else if str_eq(name, "KeyX") || str_eq(name, "X") {
        Some(KeyCode::KeyX)
    } else if str_eq(name, "KeyY") || str_eq(name, "Y") {
        Some(KeyCode::KeyY)
    } else if str_eq(name, "KeyZ") || str_eq(name, "Z") {
        Some(KeyCode::KeyZ)
    } else if str_eq(name, "Minus") {
        Some(KeyCode::Minus)
    } else if str_eq(name, "Equal") {
        Some(KeyCode::Equal)
    } else if str_eq(name, "BracketLeft") {
        Some(KeyCode::LeftBracket)
    } else if str_eq(name, "BracketRight") {
        Some(KeyCode::RightBracket)
    } else if str_eq(name, "Backslash") {
        Some(KeyCode::BackSlash)
    } else if str_eq(name, "Semicolon") {
        Some(KeyCode::SemiColon)
    } else if str_eq(name, "Quote") {
        Some(KeyCode::Quote)
    } else if str_eq(name, "Backquote") {
        Some(KeyCode::BackQuote)
    } else if str_eq(name, "Comma") {
        Some(KeyCode::Comma)
    } else if str_eq(name, "Period") {
        Some(KeyCode::Dot)
    } else if str_eq(name, "Slash") {
        Some(KeyCode::Slash)
    } else if str_eq(name, "Numpad0") {
        Some(KeyCode::Kp0)
    } else if str_eq(name, "Numpad1") {
        Some(KeyCode::Kp1)
    } else if str_eq(name, "Numpad2") {
        Some(KeyCode::Kp2)
    } else if str_eq(name, "Numpad3") {
        Some(KeyCode::Kp3)
    } else if str_eq(name, "Numpad4") {
        Some(KeyCode::Kp4)
    } else if str_eq(name, "Numpad5") {
        Some(KeyCode::Kp5)
    } else if str_eq(name, "Numpad6") {
        Some(KeyCode::Kp6)
    } else if str_eq(name, "Numpad7") {
        Some(KeyCode::Kp7)
    } else if str_eq(name, "Numpad8") {
        Some(KeyCode::Kp8)
    } else if str_eq(name, "Numpad9") {
        Some(KeyCode::Kp9)
    } else if str_eq(name, "NumpadDecimal") {
        Some(KeyCode::KpDelete)
    } else if str_eq(name, "NumpadAdd") {
        Some(KeyCode::KpPlus)
    } else if str_eq(name, "NumpadSubtract") {
        Some(KeyCode::KpMinus)
    } else if str_eq(name, "NumpadMultiply") {
        Some(KeyCode::KpMultiply)
    } else if str_eq(name, "NumpadDivide") {
        Some(KeyCode::KpDivide)
    } else if str_eq(name, "NumpadEnter") {
        Some(KeyCode::KpReturn)
    } else {
        None
    }
}

/// The keys named by one `+`-separated segment of a hotkey string: the
/// segment trimmed and parsed, or nothing when it is empty or unknown.
pub open spec fn parse_segment_spec(seg: Seq<char>) -> Seq<KeyCode> {
    if seg.len() == 0 {
        Seq::empty()
    } else {
        match parse_key_name_spec(trim_spec(seg)) {
            Some(k) => seq![k],
            None => Seq::empty(),
        }
    }
}

/// The keys named by the hotkey string from position `from` on.
pub open spec fn parse_hotkey_from(s: Seq<char>, from: int) -> Seq<KeyCode>
    decreases s.len() - from,
    via parse_hotkey_from_dec
{
    if from < 0 || from > s.len() {
        Seq::empty()
    } else {
        let e = find_char_spec(s, '+', from);
        if e == -1 {
            parse_segment_spec(s.subrange(from, s.len() as int))
        } else {
            parse_segment_spec(s.subrange(from, e)) + parse_hotkey_from(s, e + 1)
        }
    }
}

#[via_fn]
proof fn parse_hotkey_from_dec(s: Seq<char>, from: int) {
    if 0 <= from <= s.len() {
        crate::text::lemma_find_char(s, '+', from);
    }
}

/// The keys named by a whole hotkey string such as
/// `ControlLeft+ShiftLeft+Space`.
pub open spec fn parse_hotkey_spec(s: Seq<char>) -> Seq<KeyCode> {
    parse_hotkey_from(s, 0)
}

/// Parse a hotkey string: split on `+`, trim each segment, keep the
/// segments that name a key.
pub fn parse_hotkey_string(hotkey_str: &str) -> (r: Vec<KeyCode>)
    ensures
        r@ == parse_hotkey_spec(hotkey_str@),
{
    let n = hotkey_str.unicode_len();
    let mut out: Vec<KeyCode> = Vec::new();
    let mut pos: usize = 0;
    loop
        invariant_except_break
            parse_hotkey_spec(hotkey_str@) == out@ + parse_hotkey_from(hotkey_str@, pos as int),
        invariant
            n == hotkey_str@.len(),
            0 <= pos <= n,
        ensures
            out@ == parse_hotkey_spec(hotkey_str@),
        decreases n - pos,
    {
        let e_opt = find_char(hotkey_str, '+', pos);
        let end = match e_opt {
            Some(e) => e,
            None => n,
        };
        let ghost pre = out@;
        let ghost s = hotkey_str@;
        let ghost sub = s.subrange(pos as int, end as int);
        if end > pos {
            let seg = hotkey_str.substring_char(pos, end);
            let t = trim(seg);
            match parse_key_name(t) {
                Some(k) => {
                    out.push(k);
                    proof {
                        assert(out@ =~= pre + parse_segment_spec(sub));
                    }
                },
                None => {
                    proof {
                        assert(out@ =~= pre + parse_segment_spec(sub));
                    }
                },
            }
        } else {
            proof {
                assert(parse_segment_spec(sub) =~= Seq::<KeyCode>::empty());
                assert(out@ =~= pre + parse_segment_spec(sub));
            }
        }
        match e_opt {
            Some(e) => {
                proof {
                    assert(parse_hotkey_from(s, pos as int) == parse_segment_spec(sub)
                        + parse_hotkey_from(s, e as int + 1));
                    assert(pre + (parse_segment_spec(sub) + parse_hotkey_from(s, e as int + 1))
                        =~= (pre + parse_segment_spec(sub)) + parse_hotkey_from(s, e as int + 1));
                }
                pos = e + 1;
            },
            None => {
                proof {
                    assert(parse_hotkey_from(s, pos as int) == parse_segment_spec(sub));
                }
                break;
            },
        }
    }
    out
}

/// What one segment of an old-style hotkey string becomes.
pub open spec fn migrate_part_spec(s: Seq<char>) -> Seq<char> {
    if s == "CmdOrCtrl"@ || s == "CommandOrControl"@ || s == "Ctrl"@ || s == "Control"@ {
        "ControlLeft"@
    } else if s == "Cmd"@ || s == "Command"@ || s == "Meta"@ || s == "Super"@ {
        "MetaLeft"@
    } else if s == "Shift"@ {
        "ShiftLeft"@
    } else if s == "Alt"@ {
        "AltLeft"@
    } else if s == "AltGr"@ {
        "AltRight"@
    } else {
        s
    }
}

/// Map one old-style hotkey segment to its current spelling.
fn migrate_part<'a>(seg: &'a str) -> (r: &'a str)
    ensures
        r@ == migrate_part_spec(seg@),
{
    if str_eq(seg, "CmdOrCtrl") || str_eq(seg, "CommandOrControl") || str_eq(seg, "Ctrl") || str_eq(seg, "Control") {
        "ControlLeft"
    } else if str_eq(seg, "Cmd") || str_eq(seg, "Command") || str_eq(seg, "Meta") || str_eq(seg, "Super") {
        "MetaLeft"
    } else if str_eq(seg, "Shift") {
        "ShiftLeft"
    } else if str_eq(seg, "Alt") {
        "AltLeft"
    } else if str_eq(seg, "AltGr") {
        "AltRight"
    } else {
        seg
    }
}

/// The migrated form of the hotkey string from position `from` on.
pub open spec fn migrate_from(s: Seq<char>, from: int) -> Seq<char>
    decreases s.len() - from,
    via migrate_from_dec
{
    if from < 0 || from > s.len() {
        Seq::empty()
    } else {
        let e = find_char_spec(s, '+', from);
        if e == -1 {
            migrate_part_spec(s.subrange(from, s.len() as int))
        } else {
            migrate_part_spec(s.subrange(from, e)) + "+"@ + migrate_from(s, e + 1)
        }
    }
}

#[via_fn]
proof fn migrate_from_dec(s: Seq<char>, from: int) {
    if 0 <= from <= s.len() {
        crate::text::lemma_find_char(s, '+', from);
    }
}

/// The migrated form of a whole hotkey string: each `+`-separated segment
/// mapped from its old spelling.
pub open spec fn migrate_hotkey_spec(s: Seq<char>) -> Seq<char> {
    migrate_from(s, 0)
}

/// Convert an old-style hotkey string (such as `CmdOrCtrl+Shift+Space`) to
/// the current key-name spelling, segment by segment.
pub fn migrate_hotkey_format(hotkey: &str) -> (r: String)
    ensures
        r@ == migrate_hotkey_spec(hotkey@),
{
    let n = hotkey.unicode_len();
    let mut out = String::new();
    let mut pos: usize = 0;
    loop
        invariant_except_break
            migrate_hotkey_spec(hotkey@) == out@ + migrate_from(hotkey@, pos as int),
        invariant
            n == hotkey@.len(),
            0 <= pos <= n,
        ensures
            out@ == migrate_hotkey_spec(hotkey@),
        decreases n - pos,
    {
        let e_opt = find_char(hotkey, '+', pos);
        let end = match e_opt {
            Some(e) => e,
            None => n,
        };
        let ghost pre = out@;
        let ghost s = hotkey@;
        let ghost sub = s.subrange(pos as int, end as int);
        let seg = hotkey.substring_char(pos, end);
        out.append(migrate_part(seg));
        match e_opt {
            Some(e) => {
                out.append("+");
                proof {
                    assert(migrate_from(s, pos as int) == migrate_part_spec(sub) + "+"@
                        + migrate_from(s, e as int + 1));
                    assert(pre + (migrate_part_spec(sub) + "+"@ + migrate_from(s, e as int + 1))
                        =~= ((pre + migrate_part_spec(sub)) + "+"@) + migrate_from(
                        s,
                        e as int + 1,
                    ));
                }
                pos = e + 1;
            },
            None => {
                proof {
                    assert(migrate_from(s, pos as int) == migrate_part_spec(sub));
                }
                break;
            },
        }
    }
    out
}

/// Whether a segment is an old hotkey spelling.
pub open spec fn is_old_name(s: Seq<char>) -> bool {
    ||| s == "CmdOrCtrl"@
    ||| s == "CommandOrControl"@
    ||| s == "Ctrl"@
    ||| s == "Control"@
    ||| s == "Cmd"@
    ||| s == "Command"@
    ||| s == "Meta"@
    ||| s == "Super"@
    ||| s == "Shift"@
    ||| s == "Alt"@
}

/// Whether any segment from position `from` on is an old spelling.
pub open spec fn needs_migration_from(s: Seq<char>, from: int) -> bool
    decreases s.len() - from,
    via needs_migration_from_dec
{
    if from < 0 || from > s.len() {
        false
    } else {
        let e = find_char_spec(s, '+', from);
        if e == -1 {
            is_old_name(s.subrange(from, s.len() as int))
        } else {
            is_old_name(s.subrange(from, e)) || needs_migration_from(s, e + 1)
        }
    }
}

#[via_fn]
proof fn needs_migration_from_dec(s: Seq<char>, from: int) {
    if 0 <= from <= s.len() {
        crate::text::lemma_find_char(s, '+', from);
    }
}

/// Whether any `+`-separated segment of the hotkey string is an old
/// spelling.
pub open spec fn needs_migration_spec(s: Seq<char>) -> bool {
    needs_migration_from(s, 0)
}

/// Whether a hotkey string uses an old spelling and must be migrated.
pub fn needs_migration(hotkey: &str) -> (r: bool)
    ensures
        r == needs_migration_spec(hotkey@),
{
    let n = hotkey.unicode_len();
    let mut pos: usize = 0;
    loop
        invariant_except_break
            needs_migration_spec(hotkey@) == needs_migration_from(hotkey@, pos as int),
        invariant
            n == hotkey@.len(),
            0 <= pos <= n,
        ensures
            !needs_migration_spec(hotkey@),
        decreases n - pos,
    {
        let e_opt = find_char(hotkey, '+', pos);
        let end = match e_opt {
            Some(e) => e,
            None => n,
        };
        let ghost s = hotkey@;
        let ghost sub = s.subrange(pos as int, end as int);
        let seg = hotkey.substring_char(pos, end);
        if str_eq(seg, "CmdOrCtrl") || str_eq(seg, "CommandOrControl") || str_eq(seg, "Ctrl") || str_eq(seg, "Control") || str_eq(seg, "Cmd") || str_eq(seg, "Command") || str_eq(seg, "Meta") || str_eq(seg, "Super") || str_eq(seg, "Shift") || str_eq(seg, "Alt") {
            return true;
        }
        proof {
            assert(!is_old_name(sub));
        }
        match e_opt {
            Some(e) => {
                proof {
                    assert(needs_migration_from(s, pos as int) == (is_old_name(sub)
                        || needs_migration_from(s, e as int + 1)));
                }
                pos = e + 1;
            },
            None => {
                proof {
                    assert(needs_migration_from(s, pos as int) == is_old_name(sub));
                }
                break;
            },
        }
    }
    false
}

/// What a change of held keys means for the combo.
#[derive(Debug, Clone, Copy, PartialEq, Eq, Structural)]
pub enum ComboChange {
    Unchanged,
    Pressed,
    Released,
}

/// A key stands somewhere in the held list.
pub open spec fn held_contains(held: Seq<KeyCode>, k: KeyCode) -> bool {
    exists|i: int| 0 <= i < held.len() && held[i] == k
}

/// Every key of the combo is held.
pub open spec fn all_held(combo: Seq<KeyCode>, held: Seq<KeyCode>) -> bool {
    forall|i: int| 0 <= i < combo.len() ==> held_contains(held, #[trigger] combo[i])
}

/// The decision after a key press or release: while not paused and with a
/// non-empty combo, the capture starts when the combo becomes fully held and
/// stops when it ceases to be.
pub open spec fn combo_change_spec(
    combo: Seq<KeyCode>,
    held: Seq<KeyCode>,
    paused: bool,
    was_active: bool,
) -> ComboChange {
    if paused || combo.len() == 0 {
        ComboChange::Unchanged
    } else if all_held(combo, held) && !was_active {
        ComboChange::Pressed
    } else if !all_held(combo, held) && was_active {
        ComboChange::Released
    } else {
        ComboChange::Unchanged
    }
}

/// Whether `k` is one of the held keys.
fn contains_key(held: &Vec<KeyCode>, k: KeyCode) -> (r: bool)
    ensures
        r == held_contains(held@, k),
{
    let mut i: usize = 0;
    while i < held.len()
        invariant
            0 <= i <= held@.len(),
            forall|m: int| 0 <= m < i ==> held@[m] != k,
        decreases held@.len() - i,
    {
        if held[i] == k {
            return true;
        }
        i = i + 1;
    }
    false
}

/// Decide what a change of held keys does to the capture.
pub fn check_combo(combo: &Vec<KeyCode>, held: &Vec<KeyCode>, paused: bool, was_active: bool)
    -> (r: ComboChange)
    ensures
        r == combo_change_spec(combo@, held@, paused, was_active),
{
    if paused || combo.len() == 0 {
        return ComboChange::Unchanged;
    }
    let mut every: bool = true;
    let mut i: usize = 0;
    while i < combo.len()
        invariant
            0 <= i <= combo@.len(),
            every == (forall|m: int|
                0 <= m < i ==> held_contains(held@, #[trigger] combo@[m])),
        decreases combo@.len() - i,
    {
        if !contains_key(held, combo[i]) {
            every = false;
            proof {
                assert(!held_contains(held@, combo@[i as int]));
            }
        }
        i = i + 1;
    }
    if every && !was_active {
        ComboChange::Pressed
    } else if !every && was_active {
        ComboChange::Released
    } else {
        ComboChange::Unchanged
    }
}

} // verus!
