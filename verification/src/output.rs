//! Output delivery: parsing the configured paste shortcut into the keys the
//! keystroke simulator must press.
//!
//! Writing the clipboard and pressing the keys are outside concerns; the
//! parsing and the ordering of the key actions are decided here.

use vstd::prelude::*;
use crate::error::AppError;
use crate::text::{find_char, find_char_spec, lower_char, lower_seq, str_eq, to_ascii_lower,
    trim, trim_spec};

verus! {

/// A key the paste simulation can press.
#[derive(Debug, Clone, Copy, PartialEq, Eq, Structural)]
pub enum PasteKey {
    Control,
    Shift,
    Alt,
    Meta,
    Unicode(char),
}

/// The modifier named by a lowercased shortcut segment.
pub open spec fn modifier_spec(seg: Seq<char>) -> Option<PasteKey> {
    if seg == "ctrl"@ || seg == "control"@ {
        Some(PasteKey::Control)
    } else if seg == "shift"@ {
        Some(PasteKey::Shift)
    } else if seg == "alt"@ {
        Some(PasteKey::Alt)
    } else if seg == "cmd"@ || seg == "meta"@ || seg == "super"@ {
        Some(PasteKey::Meta)
    } else {
        None
    }
}

/// How a paste-shortcut string parses: the modifier list and the final key,
/// or the offending segment.
pub enum PasteParse {
    Keys(Seq<PasteKey>, PasteKey),
    BadModifier(Seq<char>),
    BadKey(Seq<char>),
}

/// Parse the shortcut from position `from` on: every `+`-separated segment
/// but the last must name a modifier (case-insensitively), and the last,
/// trimmed, must be a single character.
pub open spec fn parse_paste_from(s: Seq<char>, from: int) -> PasteParse
    decreases s.len() - from,
    via parse_paste_from_dec
{
    if from < 0 || from > s.len() {
        PasteParse::BadKey(Seq::empty())
    } else {
        let e = find_char_spec(s, '+', from);
        if e == -1 {
            let seg = trim_spec(s.subrange(from, s.len() as int));
            if seg.len() == 1 {
                PasteParse::Keys(Seq::empty(), PasteKey::Unicode(lower_char(seg[0])))
            } else {
                PasteParse::BadKey(seg)
            }
        } else {
            let seg = lower_seq(trim_spec(s.subrange(from, e)));
            match modifier_spec(seg) {
                Some(m) => match parse_paste_from(s, e + 1) {
                    PasteParse::Keys(mods, k) => PasteParse::Keys(seq![m] + mods, k),
                    PasteParse::BadModifier(t) => PasteParse::BadModifier(t),
                    PasteParse::BadKey(t) => PasteParse::BadKey(t),
                },
                None => PasteParse::BadModifier(seg),
            }
        }
    }
}

#[via_fn]
proof fn parse_paste_from_dec(s: Seq<char>, from: int) {
    if 0 <= from <= s.len() {
        crate::text::lemma_find_char(s, '+', from);
    }
}

/// A prefix of already-parsed modifiers joined onto the rest of the parse.
pub open spec fn paste_parse_combine(pre: Seq<PasteKey>, rest: PasteParse) -> PasteParse {
    match rest {
        PasteParse::Keys(mods, k) => PasteParse::Keys(pre + mods, k),
        PasteParse::BadModifier(t) => PasteParse::BadModifier(t),
        PasteParse::BadKey(t) => PasteParse::BadKey(t),
    }
}

/// Parse a paste shortcut such as `Ctrl+Shift+V`: the modifiers to hold and
/// the key to press, lowercased.  An unknown modifier fails with
/// `Unknown modifier in paste shortcut: `&hellip;, a final segment that is
/// not a single character with `Invalid key in paste shortcut: `&hellip;.
pub fn parse_paste_shortcut(shortcut: &str) -> (r: Result<(Vec<PasteKey>, PasteKey), AppError>)
    ensures
        match parse_paste_from(shortcut@, 0) {
            PasteParse::Keys(mods, k) => r matches Ok((m, key)) && m@ == mods && key == k,
            PasteParse::BadModifier(t) => r matches Err(e) && (e matches AppError::Output(msg)
                && msg@ == "Unknown modifier in paste shortcut: "@ + t),
            PasteParse::BadKey(t) => r matches Err(e) && (e matches AppError::Output(msg)
                && msg@ == "Invalid key in paste shortcut: "@ + t),
        },
{
    let n = shortcut.unicode_len();
    let mut mods: Vec<PasteKey> = Vec::new();
    let mut pos: usize = 0;
    loop
        invariant_except_break
            parse_paste_from(shortcut@, 0) == paste_parse_combine(
                mods@,
                parse_paste_from(shortcut@, pos as int),
            ),
        invariant
            n == shortcut@.len(),
            0 <= pos <= n,
        ensures
            parse_paste_from(shortcut@, 0) matches PasteParse::Keys(m, k) && (mods@ == m && (
            parse_paste_from(shortcut@, pos as int) matches PasteParse::Keys(e, k2) && e
                == Seq::<PasteKey>::empty() && k2 == k)),
        decreases n - pos,
    {
        let ghost s = shortcut@;
        match find_char(shortcut, '+', pos) {
            Some(e) => {
                let seg = trim(shortcut.substring_char(pos, e));
                let lowered = to_ascii_lower(seg);
                let m: Option<PasteKey> = if str_eq(lowered.as_str(), "ctrl") || str_eq(
                    lowered.as_str(),
                    "control",
                ) {
                    Some(PasteKey::Control)
                } else if str_eq(lowered.as_str(), "shift") {
                    Some(PasteKey::Shift)
                } else if str_eq(lowered.as_str(), "alt") {
                    Some(PasteKey::Alt)
                } else if str_eq(lowered.as_str(), "cmd") || str_eq(lowered.as_str(), "meta")
                    || str_eq(lowered.as_str(), "super") {
                    Some(PasteKey::Meta)
                } else {
                    None
                };
                match m {
                    Some(modifier) => {
                        let ghost pre = mods@;
                        mods.push(modifier);
                        proof {
                            let rest = parse_paste_from(s, e as int + 1);
                            assert(parse_paste_from(s, pos as int) == paste_parse_combine(
                                seq![modifier],
                                rest,
                            ));
                            if rest is Keys {
                                let m2 = rest->Keys_0;
                                assert(pre + (seq![modifier] + m2) =~= (pre + seq![modifier])
                                    + m2);
                                assert(mods@ =~= pre + seq![modifier]);
                            }
                        }
                        pos = e + 1;
                    },
                    None => {
                        let mut msg = String::from_str("Unknown modifier in paste shortcut: ");
                        msg.append(lowered.as_str());
                        return Err(AppError::Output(msg));
                    },
                }
            },
            None => {
                let seg = trim(shortcut.substring_char(pos, n));
                if seg.unicode_len() == 1 {
                    let c = seg.get_char(0);
                    let key = PasteKey::Unicode(crate::text::lower_char_exec(c));
                    proof {
                        assert(mods@ + Seq::<PasteKey>::empty() =~= mods@);
                    }
                    return Ok((mods, key));
                } else {
                    let mut msg = String::from_str("Invalid key in paste shortcut: ");
                    msg.append(seg);
                    return Err(AppError::Output(msg));
                }
            },
        }
    }
}

/// One step of the paste simulation.
#[derive(Debug, Clone, Copy, PartialEq, Eq, Structural)]
pub enum KeyAction {
    Press(PasteKey),
    Click(PasteKey),
    Release(PasteKey),
}

/// The key actions that deliver a paste: release every common modifier to
/// reach a clean state, press the shortcut's modifiers in order, click the
/// key, then release the modifiers in reverse order.
pub fn paste_key_sequence(mods: &Vec<PasteKey>, key: PasteKey) -> (r: Vec<KeyAction>)
    ensures
        r@.len() == 5 + 2 * mods@.len(),
        r@[0] == KeyAction::Release(PasteKey::Control),
        r@[1] == KeyAction::Release(PasteKey::Shift),
        r@[2] == KeyAction::Release(PasteKey::Alt),
        r@[3] == KeyAction::Release(PasteKey::Meta),
        forall|i: int|
            0 <= i < mods@.len() ==> r@[4 + i] == KeyAction::Press(#[trigger] mods@[i]),
        r@[4 + mods@.len() as int] == KeyAction::Click(key),
        forall|i: int|
            0 <= i < mods@.len() ==> r@[5 + mods@.len() + i] == KeyAction::Release(
                #[trigger] mods@[mods@.len() - 1 - i],
            ),
{
    let mut out: Vec<KeyAction> = Vec::new();
    out.push(KeyAction::Release(PasteKey::Control));
    out.push(KeyAction::Release(PasteKey::Shift));
    out.push(KeyAction::Release(PasteKey::Alt));
    out.push(KeyAction::Release(PasteKey::Meta));
    let mut i: usize = 0;
    while i < mods.len()
        invariant
            0 <= i <= mods@.len(),
            out@.len() == 4 + i,
            out@[0] == KeyAction::Release(PasteKey::Control),
            out@[1] == KeyAction::Release(PasteKey::Shift),
            out@[2] == KeyAction::Release(PasteKey::Alt),
            out@[3] == KeyAction::Release(PasteKey::Meta),
            forall|k: int| 0 <= k < i ==> out@[4 + k] == KeyAction::Press(#[trigger] mods@[k]),
        decreases mods@.len() - i,
    {
        out.push(KeyAction::Press(mods[i]));
        i = i + 1;
    }
    out.push(KeyAction::Click(key));
    let mut j: usize = mods.len();
    while j > 0
        invariant
            0 <= j <= mods@.len(),
            out@.len() == 5 + mods@.len() + (mods@.len() - j),
            out@[0] == KeyAction::Release(PasteKey::Control),
            out@[1] == KeyAction::Release(PasteKey::Shift),
            out@[2] == KeyAction::Release(PasteKey::Alt),
            out@[3] == KeyAction::Release(PasteKey::Meta),
            forall|k: int| 0 <= k < mods@.len() ==> out@[4 + k] == KeyAction::Press(
                #[trigger] mods@[k],
            ),
            out@[4 + mods@.len() as int] == KeyAction::Click(key),
            forall|k: int|
                0 <= k < mods@.len() - j ==> out@[5 + mods@.len() + k] == KeyAction::Release(
                    #[trigger] mods@[mods@.len() - 1 - k],
                ),
        decreases j,
    {
        j = j - 1;
        out.push(KeyAction::Release(mods[j]));
    }
    out
}

} // verus!
