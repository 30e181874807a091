//! Global hotkey strings such as `"Ctrl+Shift+T"`, parsed into a chord of
//! modifiers and one key. Registering the chord with the operating system
//! is left to the caller.

use crate::text::{chars_of, same_chars, string_of, trim_chars, trimmed};
use crate::unicode::{lower_of, lowercase};
use vstd::prelude::*;

verus! {

/// Hotkey actions
#[derive(Debug, Clone, Copy, PartialEq, Eq, Structural, Hash)]
pub enum HotkeyAction {
    /// Toggle transformation on/off
    ToggleTransformation,
    /// Open quick recipe menu
    OpenQuickMenu,
    /// Open dashboard
    OpenDashboard,
}

/// The keys a hotkey can end in.
#[derive(Debug, Clone, Copy, PartialEq, Eq, Structural, Hash)]
pub enum KeyCode {
    KeyA,
    KeyB,
    KeyC,
    KeyD,
    KeyE,
    KeyF,
    KeyG,
    KeyH,
    KeyI,
    KeyJ,
    KeyK,
    KeyL,
    KeyM,
    KeyN,
    KeyO,
    KeyP,
    KeyQ,
    KeyR,
    KeyS,
    KeyT,
    KeyU,
    KeyV,
    KeyW,
    KeyX,
    KeyY,
    KeyZ,
    Digit0,
    Digit1,
    Digit2,
    Digit3,
    Digit4,
    Digit5,
    Digit6,
    Digit7,
    Digit8,
    Digit9,
    F1,
    F2,
    F3,
    F4,
    F5,
    F6,
    F7,
    F8,
    F9,
    F10,
    F11,
    F12,
    Space,
    Enter,
    Tab,
    Escape,
    Backspace,
    Delete,
    Home,
    End,
    PageUp,
    PageDown,
    ArrowUp,
    ArrowDown,
    ArrowLeft,
    ArrowRight,
}

/// A key together with the modifiers held with it.
#[derive(Debug, Clone, Copy, PartialEq, Eq, Structural, Hash)]
pub struct HotkeyChord {
    pub ctrl: bool,
    pub shift: bool,
    pub alt: bool,
    pub meta: bool,
    pub key: KeyCode,
}

/// Why a hotkey string was refused.
#[derive(Debug, Clone, Copy, PartialEq, Eq, Structural, Hash)]
pub enum HotkeyError {
    /// No part of the string names a key.
    NoKey,
}

impl HotkeyError {
    /// A sentence describing the error.
    pub fn message(&self) -> &'static str {
        match self {
            HotkeyError::NoKey => "No valid key found in hotkey string",
        }
    }
}

/// The modifiers and the key read so far.
#[derive(Debug, Clone, Copy, PartialEq, Eq, Structural)]
pub struct ChordState {
    pub ctrl: bool,
    pub shift: bool,
    pub alt: bool,
    pub meta: bool,
    pub key: Option<KeyCode>,
}

/// The key that a lower-case token names, if any.
pub open spec fn key_for(t: Seq<char>) -> Option<KeyCode> {
    if t == "a"@ {
        Some(KeyCode::KeyA)
    } else if t == "b"@ {
        Some(KeyCode::KeyB)
    } else if t == "c"@ {
        Some(KeyCode::KeyC)
    } else if t == "d"@ {
        Some(KeyCode::KeyD)
    } else if t == "e"@ {
        Some(KeyCode::KeyE)
    } else if t == "f"@ {
        Some(KeyCode::KeyF)
    } else if t == "g"@ {
        Some(KeyCode::KeyG)
    } else if t == "h"@ {
        Some(KeyCode::KeyH)
    } else if t == "i"@ {
        Some(KeyCode::KeyI)
    } else if t == "j"@ {
        Some(KeyCode::KeyJ)
    } else if t == "k"@ {
        Some(KeyCode::KeyK)
    } else if t == "l"@ {
        Some(KeyCode::KeyL)
    } else if t == "m"@ {
        Some(KeyCode::KeyM)
    } else if t == "n"@ {
        Some(KeyCode::KeyN)
    } else if t == "o"@ {
        Some(KeyCode::KeyO)
    } else if t == "p"@ {
        Some(KeyCode::KeyP)
    } else if t == "q"@ {
        Some(KeyCode::KeyQ)
    } else if t == "r"@ {
        Some(KeyCode::KeyR)
    } else if t == "s"@ {
        Some(KeyCode::KeyS)
    } else if t == "t"@ {
        Some(KeyCode::KeyT)
    } else if t == "u"@ {
        Some(KeyCode::KeyU)
    } else if t == "v"@ {
        Some(KeyCode::KeyV)
    } else if t == "w"@ {
        Some(KeyCode::KeyW)
    } else if t == "x"@ {
        Some(KeyCode::KeyX)
    } else if t == "y"@ {
        Some(KeyCode::KeyY)
    } else if t == "z"@ {
        Some(KeyCode::KeyZ)
    } else if t == "0"@ {
        Some(KeyCode::Digit0)
    } else if t == "1"@ {
        Some(KeyCode::Digit1)
    } else if t == "2"@ {
        Some(KeyCode::Digit2)
    } else if t == "3"@ {
        Some(KeyCode::Digit3)
    } else if t == "4"@ {
        Some(KeyCode::Digit4)
    } else if t == "5"@ {
        Some(KeyCode::Digit5)
    } else if t == "6"@ {
        Some(KeyCode::Digit6)
    } else if t == "7"@ {
        Some(KeyCode::Digit7)
    } else if t == "8"@ {
        Some(KeyCode::Digit8)
    } else if t == "9"@ {
        Some(KeyCode::Digit9)
    } else if t == "f1"@ {
        Some(KeyCode::F1)
    } else if t == "f2"@ {
        Some(KeyCode::F2)
    } else if t == "f3"@ {
        Some(KeyCode::F3)
    } else if t == "f4"@ {
        Some(KeyCode::F4)
    } else if t == "f5"@ {
        Some(KeyCode::F5)
    } else if t == "f6"@ {
        Some(KeyCode::F6)
    } else if t == "f7"@ {
        Some(KeyCode::F7)
    } else if t == "f8"@ {
        Some(KeyCode::F8)
    } else if t == "f9"@ {
        Some(KeyCode::F9)
    } else if t == "f10"@ {
        Some(KeyCode::F10)
    } else if t == "f11"@ {
        Some(KeyCode::F11)
    } else if t == "f12"@ {
        Some(KeyCode::F12)
    } else if t == "space"@ {
        Some(KeyCode::Space)
    } else if t == "enter"@ || t == "return"@ {
        Some(KeyCode::Enter)
    } else if t == "tab"@ {
        Some(KeyCode::Tab)
    } else if t == "escape"@ || t == "esc"@ {
        Some(KeyCode::Escape)
    } else if t == "backspace"@ {
        Some(KeyCode::Backspace)
    } else if t == "delete"@ {
        Some(KeyCode::Delete)
    } else if t == "home"@ {
        Some(KeyCode::Home)
    } else if t == "end"@ {
        Some(KeyCode::End)
    } else if t == "pageup"@ {
        Some(KeyCode::PageUp)
    } else if t == "pagedown"@ {
        Some(KeyCode::PageDown)
    } else if t == "up"@ {
        Some(KeyCode::ArrowUp)
    } else if t == "down"@ {
        Some(KeyCode::ArrowDown)
    } else if t == "left"@ {
        Some(KeyCode::ArrowLeft)
    } else if t == "right"@ {
        Some(KeyCode::ArrowRight)
    } else {
        None
    }
}

/// The state after reading one lower-case token: a modifier name adds that
/// modifier, a key name replaces the key, anything else is ignored.
pub open spec fn chord_step(st: ChordState, t: Seq<char>) -> ChordState {
    if t == "ctrl"@ || t == "control"@ {
        ChordState { ctrl: true, ..st }
    } else if t == "shift"@ {
        ChordState { shift: true, ..st }
    } else if t == "alt"@ {
        ChordState { alt: true, ..st }
    } else if t == "super"@ || t == "win"@ || t == "cmd"@ || t == "meta"@ {
        ChordState { meta: true, ..st }
    } else {
        match key_for(t) {
            Some(k) => ChordState { key: Some(k), ..st },
            None => st,
        }
    }
}

/// After reading `s`: the pieces ended so far by a `+`, and the piece
/// still open.
pub open spec fn plus_scan(s: Seq<char>) -> (Seq<Seq<char>>, Seq<char>)
    decreases s.len(),
{
    if s.len() == 0 {
        (Seq::empty(), Seq::empty())
    } else {
        let p = plus_scan(s.drop_last());
        if s.last() == '+' {
            (p.0.push(p.1), Seq::empty())
        } else {
            (p.0, p.1.push(s.last()))
        }
    }
}

/// The pieces of `s` between `+` signs, as `str::split('+')` yields them.
pub open spec fn plus_pieces(s: Seq<char>) -> Seq<Seq<char>> {
    plus_scan(s).0.push(plus_scan(s).1)
}

/// The state before any token.
pub open spec fn empty_chord() -> ChordState {
    ChordState { ctrl: false, shift: false, alt: false, meta: false, key: None }
}

/// The state after reading the pieces, each trimmed and lower-cased.
pub open spec fn chord_scan(ps: Seq<Seq<char>>) -> ChordState
    decreases ps.len(),
{
    if ps.len() == 0 {
        empty_chord()
    } else {
        chord_step(chord_scan(ps.drop_last()), lower_of(trimmed(ps.last())))
    }
}

/// Whether token `t` is the word `w`.
fn token_is(t: &Vec<char>, w: &str) -> (r: bool)
    ensures
        r == (t@ == w@),
{
    same_chars(t, &chars_of(w))
}

/// The key that a lower-case token names, as `key_for` states.
fn key_of_token(t: &Vec<char>) -> (r: Option<KeyCode>)
    ensures
        r == key_for(t@),
{
    if token_is(t, "a") {
        Some(KeyCode::KeyA)
    } else if token_is(t, "b") {
        Some(KeyCode::KeyB)
    } else if token_is(t, "c") {
        Some(KeyCode::KeyC)
    } else if token_is(t, "d") {
        Some(KeyCode::KeyD)
    } else if token_is(t, "e") {
        Some(KeyCode::KeyE)
    } else if token_is(t, "f") {
        Some(KeyCode::KeyF)
    } else if token_is(t, "g") {
        Some(KeyCode::KeyG)
    } else if token_is(t, "h") {
        Some(KeyCode::KeyH)
    } else if token_is(t, "i") {
        Some(KeyCode::KeyI)
    } else if token_is(t, "j") {
        Some(KeyCode::KeyJ)
    } else if token_is(t, "k") {
        Some(KeyCode::KeyK)
    } else if token_is(t, "l") {
        Some(KeyCode::KeyL)
    } else if token_is(t, "m") {
        Some(KeyCode::KeyM)
    } else if token_is(t, "n") {
        Some(KeyCode::KeyN)
    } else if token_is(t, "o") {
        Some(KeyCode::KeyO)
    } else if token_is(t, "p") {
        Some(KeyCode::KeyP)
    } else if token_is(t, "q") {
        Some(KeyCode::KeyQ)
    } else if token_is(t, "r") {
        Some(KeyCode::KeyR)
    } else if token_is(t, "s") {
        Some(KeyCode::KeyS)
    } else if token_is(t, "t") {
        Some(KeyCode::KeyT)
    } else if token_is(t, "u") {
        Some(KeyCode::KeyU)
    } else if token_is(t, "v") {
        Some(KeyCode::KeyV)
    } else if token_is(t, "w") {
        Some(KeyCode::KeyW)
    } else if token_is(t, "x") {
        Some(KeyCode::KeyX)
    } else if token_is(t, "y") {
        Some(KeyCode::KeyY)
    } else if token_is(t, "z") {
        Some(KeyCode::KeyZ)
    } else if token_is(t, "0") {
        Some(KeyCode::Digit0)
    } else if token_is(t, "1") {
        Some(KeyCode::Digit1)
    } else if token_is(t, "2") {
        Some(KeyCode::Digit2)
    } else if token_is(t, "3") {
        Some(KeyCode::Digit3)
    } else if token_is(t, "4") {
        Some(KeyCode::Digit4)
    } else if token_is(t, "5") {
        Some(KeyCode::Digit5)
    } else if token_is(t, "6") {
        Some(KeyCode::Digit6)
    } else if token_is(t, "7") {
        Some(KeyCode::Digit7)
    } else if token_is(t, "8") {
        Some(KeyCode::Digit8)
    } else if token_is(t, "9") {
        Some(KeyCode::Digit9)
    } else if token_is(t, "f1") {
        Some(KeyCode::F1)
    } else if token_is(t, "f2") {
        Some(KeyCode::F2)
    } else if token_is(t, "f3") {
        Some(KeyCode::F3)
    } else if token_is(t, "f4") {
        Some(KeyCode::F4)
    } else if token_is(t, "f5") {
        Some(KeyCode::F5)
    } else if token_is(t, "f6") {
        Some(KeyCode::F6)
    } else if token_is(t, "f7") {
        Some(KeyCode::F7)
    } else if token_is(t, "f8") {
        Some(KeyCode::F8)
    } else if token_is(t, "f9") {
        Some(KeyCode::F9)
    } else if token_is(t, "f10") {
        Some(KeyCode::F10)
    } else if token_is(t, "f11") {
        Some(KeyCode::F11)
    } else if token_is(t, "f12") {
        Some(KeyCode::F12)
    } else if token_is(t, "space") {
        Some(KeyCode::Space)
    } else if token_is(t, "enter") || token_is(t, "return") {
        Some(KeyCode::Enter)
    } else if token_is(t, "tab") {
        Some(KeyCode::Tab)
    } else if token_is(t, "escape") || token_is(t, "esc") {
        Some(KeyCode::Escape)
    } else if token_is(t, "backspace") {
        Some(KeyCode::Backspace)
    } else if token_is(t, "delete") {
        Some(KeyCode::Delete)
    } else if token_is(t, "home") {
        Some(KeyCode::Home)
    } else if token_is(t, "end") {
        Some(KeyCode::End)
    } else if token_is(t, "pageup") {
        Some(KeyCode::PageUp)
    } else if token_is(t, "pagedown") {
        Some(KeyCode::PageDown)
    } else if token_is(t, "up") {
        Some(KeyCode::ArrowUp)
    } else if token_is(t, "down") {
        Some(KeyCode::ArrowDown)
    } else if token_is(t, "left") {
        Some(KeyCode::ArrowLeft)
    } else if token_is(t, "right") {
        Some(KeyCode::ArrowRight)
    } else {
        None
    }
}

/// The state after one token, as `chord_step` states.
fn read_token(st: ChordState, t: &Vec<char>) -> (r: ChordState)
    ensures
        r == chord_step(st, t@),
{
    if token_is(t, "ctrl") || token_is(t, "control") {
        ChordState { ctrl: true, ..st }
    } else if token_is(t, "shift") {
        ChordState { shift: true, ..st }
    } else if token_is(t, "alt") {
        ChordState { alt: true, ..st }
    } else if token_is(t, "super") || token_is(t, "win") || token_is(t, "cmd") || token_is(t, "meta") {
        ChordState { meta: true, ..st }
    } else {
        match key_of_token(t) {
            Some(k) => ChordState { key: Some(k), ..st },
            None => st,
        }
    }
}

/// The pieces of `v` between `+` signs.
fn split_plus(v: &Vec<char>) -> (r: Vec<Vec<char>>)
    ensures
        r@.len() == plus_pieces(v@).len(),
        forall|i: int| 0 <= i < r@.len() ==> (#[trigger] r@[i])@ == plus_pieces(v@)[i],
{
    let mut done: Vec<Vec<char>> = Vec::new();
    let mut open: Vec<char> = Vec::new();
    let mut i: usize = 0;
    while i < v.len()
        invariant
            i <= v.len(),
            done@.len() == plus_scan(v@.take(i as int)).0.len(),
            forall|k: int|
                0 <= k < done@.len() ==> (#[trigger] done@[k])@ == plus_scan(v@.take(i as int)).0[k],
            open@ == plus_scan(v@.take(i as int)).1,
        decreases v.len() - i,
    {
        assert(v@.take(i + 1).drop_last() == v@.take(i as int));
        if v[i] == '+' {
            done.push(open);
            open = Vec::new();
        } else {
            open.push(v[i]);
        }
        i = i + 1;
    }
    assert(v@.take(v.len() as int) == v@);
    done.push(open);
    done
}

/// The chord described by `s`: the pieces between `+` signs, trimmed and
/// compared without regard to case, name modifiers (`ctrl`/`control`,
/// `shift`, `alt`, `super`/`win`/`cmd`/`meta`) or a key; unknown pieces
/// are ignored and the last key named wins. Without any key the string is
/// refused.
pub fn parse_hotkey(hotkey_str: &str) -> (r: Result<HotkeyChord, HotkeyError>)
    ensures
        chord_scan(plus_pieces(hotkey_str@)).key is None ==> r == Err::<HotkeyChord, HotkeyError>(
            HotkeyError::NoKey,
        ),
        chord_scan(plus_pieces(hotkey_str@)).key matches Some(k) ==> r == Ok::<
            HotkeyChord,
            HotkeyError,
        >(
            HotkeyChord {
                ctrl: chord_scan(plus_pieces(hotkey_str@)).ctrl,
                shift: chord_scan(plus_pieces(hotkey_str@)).shift,
                alt: chord_scan(plus_pieces(hotkey_str@)).alt,
                meta: chord_scan(plus_pieces(hotkey_str@)).meta,
                key: k,
            },
        ),
{
    let parts = split_plus(&chars_of(hotkey_str));
    let ghost ps = plus_pieces(hotkey_str@);
    let mut st = ChordState { ctrl: false, shift: false, alt: false, meta: false, key: None };
    let mut i: usize = 0;
    while i < parts.len()
        invariant
            i <= parts.len(),
            parts@.len() == ps.len(),
            forall|k: int| 0 <= k < parts@.len() ==> (#[trigger] parts@[k])@ == ps[k],
            st == chord_scan(ps.take(i as int)),
        decreases parts.len() - i,
    {
        assert(ps.take(i + 1).drop_last() == ps.take(i as int));
        assert(ps.take(i + 1).last() == parts@[i as int]@);
        let trimmed_part = trim_chars(&parts[i]);
        let lower = chars_of(lowercase(string_of(&trimmed_part).as_str()).as_str());
        st = read_token(st, &lower);
        i = i + 1;
    }
    assert(ps.take(parts.len() as int) == ps);
    match st.key {
        Some(k) => Ok(HotkeyChord { ctrl: st.ctrl, shift: st.shift, alt: st.alt, meta: st.meta, key: k }),
        None => Err(HotkeyError::NoKey),
    }
}

/// Hotkey presses closer together than this many milliseconds count as one.
pub const HOTKEY_DEBOUNCE_MS: u64 = 300;

/// Whether a press `elapsed_ms` milliseconds after the last accepted one
/// counts as a new press.
pub fn debounce_allows(elapsed_ms: u64) -> (r: bool)
    ensures
        r == (elapsed_ms >= HOTKEY_DEBOUNCE_MS),
{
    elapsed_ms >= HOTKEY_DEBOUNCE_MS
}

} // verus!
