//! Hotkeys: parsing the text form ("ctrl+alt+k"), the table of registered
//! hotkeys and the actions they trigger, and the plan for rebuilding it.

use vstd::prelude::*;
use crate::ranking::texts_view;
use crate::shortcut::Shortcut;
use crate::text::{chars_of, lowercase_text, same_text, to_lowercase, trim, trimmed_of};
use std::collections::HashMap;
use vstd::std_specs::iter::IteratorSpec;
use global_hotkey::hotkey::{Code, HotKey, Modifiers};

verus! {

/// What a registered hotkey does when pressed.
#[derive(Debug, PartialEq, Eq)]
pub enum HotkeyAction {
    TogglePopup,
    LaunchShortcut(String),
}

impl Clone for HotkeyAction {
    fn clone(&self) -> (r: Self)
        ensures
            r == *self,
    {
        match self {
            HotkeyAction::TogglePopup => HotkeyAction::TogglePopup,
            HotkeyAction::LaunchShortcut(id) => HotkeyAction::LaunchShortcut(id.clone()),
        }
    }
}

/// The modifier keys held with a hotkey.
#[derive(Clone, Copy, Debug, PartialEq, Eq, Structural)]
pub struct HotkeyModifiers {
    pub control: bool,
    pub alt: bool,
    pub shift: bool,
    pub super_key: bool,
}

/// No modifier held.
pub open spec fn no_modifiers() -> HotkeyModifiers {
    HotkeyModifiers { control: false, alt: false, shift: false, super_key: false }
}

/// The main key of a hotkey.
#[derive(Clone, Copy, Debug, PartialEq, Eq, Structural)]
pub enum KeyCode {
    Space,
    Enter,
    Tab,
    Escape,
    Backspace,
    Delete,
    Home,
    End,
    PageUp,
    PageDown,
    ArrowUp,
    ArrowDown,
    ArrowLeft,
    ArrowRight,
    F1,
    F2,
    F3,
    F4,
    F5,
    F6,
    F7,
    F8,
    F9,
    F10,
    F11,
    F12,
    Digit0,
    Digit1,
    Digit2,
    Digit3,
    Digit4,
    Digit5,
    Digit6,
    Digit7,
    Digit8,
    Digit9,
    KeyA,
    KeyB,
    KeyC,
    KeyD,
    KeyE,
    KeyF,
    KeyG,
    KeyH,
    KeyI,
    KeyJ,
    KeyK,
    KeyL,
    KeyM,
    KeyN,
    KeyO,
    KeyP,
    KeyQ,
    KeyR,
    KeyS,
    KeyT,
    KeyU,
    KeyV,
    KeyW,
    KeyX,
    KeyY,
    KeyZ,
}

/// The W3C key code name of a key, as global-hotkey's `Code` spells it
/// ("Space", "KeyA", "Digit1", "F5", ...).
pub open spec fn code_name(k: KeyCode) -> Seq<char> {
    match k {
        KeyCode::Space => "Space"@,
        KeyCode::Enter => "Enter"@,
        KeyCode::Tab => "Tab"@,
        KeyCode::Escape => "Escape"@,
        KeyCode::Backspace => "Backspace"@,
        KeyCode::Delete => "Delete"@,
        KeyCode::Home => "Home"@,
        KeyCode::End => "End"@,
        KeyCode::PageUp => "PageUp"@,
        KeyCode::PageDown => "PageDown"@,
        KeyCode::ArrowUp => "ArrowUp"@,
        KeyCode::ArrowDown => "ArrowDown"@,
        KeyCode::ArrowLeft => "ArrowLeft"@,
        KeyCode::ArrowRight => "ArrowRight"@,
        KeyCode::F1 => "F1"@,
        KeyCode::F2 => "F2"@,
        KeyCode::F3 => "F3"@,
        KeyCode::F4 => "F4"@,
        KeyCode::F5 => "F5"@,
        KeyCode::F6 => "F6"@,
        KeyCode::F7 => "F7"@,
        KeyCode::F8 => "F8"@,
        KeyCode::F9 => "F9"@,
        KeyCode::F10 => "F10"@,
        KeyCode::F11 => "F11"@,
        KeyCode::F12 => "F12"@,
        KeyCode::Digit0 => "Digit0"@,
        KeyCode::Digit1 => "Digit1"@,
        KeyCode::Digit2 => "Digit2"@,
        KeyCode::Digit3 => "Digit3"@,
        KeyCode::Digit4 => "Digit4"@,
        KeyCode::Digit5 => "Digit5"@,
        KeyCode::Digit6 => "Digit6"@,
        KeyCode::Digit7 => "Digit7"@,
        KeyCode::Digit8 => "Digit8"@,
        KeyCode::Digit9 => "Digit9"@,
        KeyCode::KeyA => "KeyA"@,
        KeyCode::KeyB => "KeyB"@,
        KeyCode::KeyC => "KeyC"@,
        KeyCode::KeyD => "KeyD"@,
        KeyCode::KeyE => "KeyE"@,
        KeyCode::KeyF => "KeyF"@,
        KeyCode::KeyG => "KeyG"@,
        KeyCode::KeyH => "KeyH"@,
        KeyCode::KeyI => "KeyI"@,
        KeyCode::KeyJ => "KeyJ"@,
        KeyCode::KeyK => "KeyK"@,
        KeyCode::KeyL => "KeyL"@,
        KeyCode::KeyM => "KeyM"@,
        KeyCode::KeyN => "KeyN"@,
        KeyCode::KeyO => "KeyO"@,
        KeyCode::KeyP => "KeyP"@,
        KeyCode::KeyQ => "KeyQ"@,
        KeyCode::KeyR => "KeyR"@,
        KeyCode::KeyS => "KeyS"@,
        KeyCode::KeyT => "KeyT"@,
        KeyCode::KeyU => "KeyU"@,
        KeyCode::KeyV => "KeyV"@,
        KeyCode::KeyW => "KeyW"@,
        KeyCode::KeyX => "KeyX"@,
        KeyCode::KeyY => "KeyY"@,
        KeyCode::KeyZ => "KeyZ"@,
    }
}

/// `name` is the code name of some key.
pub open spec fn is_key_code_name(name: Seq<char>) -> bool {
    exists|k: KeyCode| #[trigger] code_name(k) == name
}

/// The code name of `k`.
fn key_code_name(k: KeyCode) -> (r: &'static str)
    ensures
        r@ == code_name(k),
{
    match k {
        KeyCode::Space => "Space",
        KeyCode::Enter => "Enter",
        KeyCode::Tab => "Tab",
        KeyCode::Escape => "Escape",
        KeyCode::Backspace => "Backspace",
        KeyCode::Delete => "Delete",
        KeyCode::Home => "Home",
        KeyCode::End => "End",
        KeyCode::PageUp => "PageUp",
        KeyCode::PageDown => "PageDown",
        KeyCode::ArrowUp => "ArrowUp",
        KeyCode::ArrowDown => "ArrowDown",
        KeyCode::ArrowLeft => "ArrowLeft",
        KeyCode::ArrowRight => "ArrowRight",
        KeyCode::F1 => "F1",
        KeyCode::F2 => "F2",
        KeyCode::F3 => "F3",
        KeyCode::F4 => "F4",
        KeyCode::F5 => "F5",
        KeyCode::F6 => "F6",
        KeyCode::F7 => "F7",
        KeyCode::F8 => "F8",
        KeyCode::F9 => "F9",
        KeyCode::F10 => "F10",
        KeyCode::F11 => "F11",
        KeyCode::F12 => "F12",
        KeyCode::Digit0 => "Digit0",
        KeyCode::Digit1 => "Digit1",
        KeyCode::Digit2 => "Digit2",
        KeyCode::Digit3 => "Digit3",
        KeyCode::Digit4 => "Digit4",
        KeyCode::Digit5 => "Digit5",
        KeyCode::Digit6 => "Digit6",
        KeyCode::Digit7 => "Digit7",
        KeyCode::Digit8 => "Digit8",
        KeyCode::Digit9 => "Digit9",
        KeyCode::KeyA => "KeyA",
        KeyCode::KeyB => "KeyB",
        KeyCode::KeyC => "KeyC",
        KeyCode::KeyD => "KeyD",
        KeyCode::KeyE => "KeyE",
        KeyCode::KeyF => "KeyF",
        KeyCode::KeyG => "KeyG",
        KeyCode::KeyH => "KeyH",
        KeyCode::KeyI => "KeyI",
        KeyCode::KeyJ => "KeyJ",
        KeyCode::KeyK => "KeyK",
        KeyCode::KeyL => "KeyL",
        KeyCode::KeyM => "KeyM",
        KeyCode::KeyN => "KeyN",
        KeyCode::KeyO => "KeyO",
        KeyCode::KeyP => "KeyP",
        KeyCode::KeyQ => "KeyQ",
        KeyCode::KeyR => "KeyR",
        KeyCode::KeyS => "KeyS",
        KeyCode::KeyT => "KeyT",
        KeyCode::KeyU => "KeyU",
        KeyCode::KeyV => "KeyV",
        KeyCode::KeyW => "KeyW",
        KeyCode::KeyX => "KeyX",
        KeyCode::KeyY => "KeyY",
        KeyCode::KeyZ => "KeyZ",
    }
}

/// What global-hotkey's `HotKey::new(Some(mods), code).id()` gives, `mods`
/// holding the modifiers (Ctrl, Alt, Shift, and Super as Meta) and `code`
/// being `Code::from_str(code_name)`; none when the name does not parse.
pub uninterp spec fn hotkey_id_of(modifiers: HotkeyModifiers, code_name: Seq<char>) -> Option<u32>;

/// Calls global-hotkey's `HotKey::new` with the given modifiers and the key
/// code parsed from `code_name` (keyboard-types' `Code::from_str`), and
/// returns the hotkey's `id()`. Claimed: the result is the named id, and
/// every key code name of this library parses (each appears in that
/// parser's table).
#[verifier::external_body]
fn system_hotkey_id(modifiers: HotkeyModifiers, code_name: &str) -> (r: Option<u32>)
    ensures
        r == hotkey_id_of(modifiers, code_name@),
        is_key_code_name(code_name@) ==> r is Some,
{
    let mut mods = Modifiers::empty();
    mods.set(Modifiers::CONTROL, modifiers.control);
    mods.set(Modifiers::ALT, modifiers.alt);
    mods.set(Modifiers::SHIFT, modifiers.shift);
    mods.set(Modifiers::META, modifiers.super_key);
    match code_name.parse::<Code>() {
        Ok(code) => Some(HotKey::new(Some(mods), code).id()),
        Err(_) => None,
    }
}

/// The id under which global-hotkey registers the hotkey `modifiers` +
/// `key`, and under which it reports presses of it.
pub fn hotkey_id(modifiers: HotkeyModifiers, key: KeyCode) -> (r: u32)
    ensures
        hotkey_id_of(modifiers, code_name(key)) == Some(r),
{
    let name = key_code_name(key);
    assert(is_key_code_name(name@));
    match system_hotkey_id(modifiers, name) {
        Some(id) => id,
        None => 0,
    }
}


/// The key that a (trimmed, lowercased) key name stands for.
pub open spec fn key_code_for(name: Seq<char>) -> Option<KeyCode> {
    if name == "space"@ {
        Some(KeyCode::Space)
    } else if name == "enter"@ {
        Some(KeyCode::Enter)
    } else if name == "tab"@ {
        Some(KeyCode::Tab)
    } else if name == "escape"@ {
        Some(KeyCode::Escape)
    } else if name == "esc"@ {
        Some(KeyCode::Escape)
    } else if name == "backspace"@ {
        Some(KeyCode::Backspace)
    } else if name == "delete"@ {
        Some(KeyCode::Delete)
    } else if name == "home"@ {
        Some(KeyCode::Home)
    } else if name == "end"@ {
        Some(KeyCode::End)
    } else if name == "pageup"@ {
        Some(KeyCode::PageUp)
    } else if name == "pagedown"@ {
        Some(KeyCode::PageDown)
    } else if name == "up"@ {
        Some(KeyCode::ArrowUp)
    } else if name == "down"@ {
        Some(KeyCode::ArrowDown)
    } else if name == "left"@ {
        Some(KeyCode::ArrowLeft)
    } else if name == "right"@ {
        Some(KeyCode::ArrowRight)
    } else if name == "f1"@ {
        Some(KeyCode::F1)
    } else if name == "f2"@ {
        Some(KeyCode::F2)
    } else if name == "f3"@ {
        Some(KeyCode::F3)
    } else if name == "f4"@ {
        Some(KeyCode::F4)
    } else if name == "f5"@ {
        Some(KeyCode::F5)
    } else if name == "f6"@ {
        Some(KeyCode::F6)
    } else if name == "f7"@ {
        Some(KeyCode::F7)
    } else if name == "f8"@ {
        Some(KeyCode::F8)
    } else if name == "f9"@ {
        Some(KeyCode::F9)
    } else if name == "f10"@ {
        Some(KeyCode::F10)
    } else if name == "f11"@ {
        Some(KeyCode::F11)
    } else if name == "f12"@ {
        Some(KeyCode::F12)
    } else if name == "0"@ {
        Some(KeyCode::Digit0)
    } else if name == "1"@ {
        Some(KeyCode::Digit1)
    } else if name == "2"@ {
        Some(KeyCode::Digit2)
    } else if name == "3"@ {
        Some(KeyCode::Digit3)
    } else if name == "4"@ {
        Some(KeyCode::Digit4)
    } else if name == "5"@ {
        Some(KeyCode::Digit5)
    } else if name == "6"@ {
        Some(KeyCode::Digit6)
    } else if name == "7"@ {
        Some(KeyCode::Digit7)
    } else if name == "8"@ {
        Some(KeyCode::Digit8)
    } else if name == "9"@ {
        Some(KeyCode::Digit9)
    } else if name == "a"@ {
        Some(KeyCode::KeyA)
    } else if name == "b"@ {
        Some(KeyCode::KeyB)
    } else if name == "c"@ {
        Some(KeyCode::KeyC)
    } else if name == "d"@ {
        Some(KeyCode::KeyD)
    } else if name == "e"@ {
        Some(KeyCode::KeyE)
    } else if name == "f"@ {
        Some(KeyCode::KeyF)
    } else if name == "g"@ {
        Some(KeyCode::KeyG)
    } else if name == "h"@ {
        Some(KeyCode::KeyH)
    } else if name == "i"@ {
        Some(KeyCode::KeyI)
    } else if name == "j"@ {
        Some(KeyCode::KeyJ)
    } else if name == "k"@ {
        Some(KeyCode::KeyK)
    } else if name == "l"@ {
        Some(KeyCode::KeyL)
    } else if name == "m"@ {
        Some(KeyCode::KeyM)
    } else if name == "n"@ {
        Some(KeyCode::KeyN)
    } else if name == "o"@ {
        Some(KeyCode::KeyO)
    } else if name == "p"@ {
        Some(KeyCode::KeyP)
    } else if name == "q"@ {
        Some(KeyCode::KeyQ)
    } else if name == "r"@ {
        Some(KeyCode::KeyR)
    } else if name == "s"@ {
        Some(KeyCode::KeyS)
    } else if name == "t"@ {
        Some(KeyCode::KeyT)
    } else if name == "u"@ {
        Some(KeyCode::KeyU)
    } else if name == "v"@ {
        Some(KeyCode::KeyV)
    } else if name == "w"@ {
        Some(KeyCode::KeyW)
    } else if name == "x"@ {
        Some(KeyCode::KeyX)
    } else if name == "y"@ {
        Some(KeyCode::KeyY)
    } else if name == "z"@ {
        Some(KeyCode::KeyZ)
    } else {
        None
    }
}

/// Why a hotkey text was refused.
#[derive(Debug, PartialEq, Eq)]
pub enum HotkeyParseError {
    /// A part is neither a modifier nor a known key; holds that part.
    UnknownKey(String),
    /// No part names a key; holds the whole hotkey text.
    NoKey(String),
}

/// The content of a `HotkeyParseError`.
pub enum HotkeyParseFailure {
    UnknownKey(Seq<char>),
    NoKey(Seq<char>),
}

impl View for HotkeyParseError {
    type V = HotkeyParseFailure;

    open spec fn view(&self) -> HotkeyParseFailure {
        match self {
            HotkeyParseError::UnknownKey(p) => HotkeyParseFailure::UnknownKey(p@),
            HotkeyParseError::NoKey(t) => HotkeyParseFailure::NoKey(t@),
        }
    }
}

impl HotkeyParseError {
    /// The message shown for this error.
    pub fn message(&self) -> (r: String)
        ensures
            r@ == match self@ {
                HotkeyParseFailure::UnknownKey(p) => "Unknown key: "@ + p,
                HotkeyParseFailure::NoKey(t) => "No key in hotkey: "@ + t,
            },
    {
        match self {
            HotkeyParseError::UnknownKey(p) => {
                let mut s = String::new();
                s.append("Unknown key: ");
                s.append(p.as_str());
                s
            },
            HotkeyParseError::NoKey(t) => {
                let mut s = String::new();
                s.append("No key in hotkey: ");
                s.append(t.as_str());
                s
            },
        }
    }
}

/// Parses a key name (already trimmed and lowercased): "space", "enter",
/// "tab", "escape"/"esc", "backspace", "delete", "home", "end", "pageup",
/// "pagedown", "up", "down", "left", "right", "f1".."f12", "0".."9",
/// "a".."z".
pub fn parse_key_code(s: &str) -> (r: Result<KeyCode, HotkeyParseError>)
    ensures
        match key_code_for(s@) {
            Some(k) => r == Ok::<KeyCode, HotkeyParseError>(k),
            None => r matches Err(e) && e@ == HotkeyParseFailure::UnknownKey(s@),
        },
{
    if same_text(s, "space") {
        return Ok(KeyCode::Space);
    }
    if same_text(s, "enter") {
        return Ok(KeyCode::Enter);
    }
    if same_text(s, "tab") {
        return Ok(KeyCode::Tab);
    }
    if same_text(s, "escape") {
        return Ok(KeyCode::Escape);
    }
    if same_text(s, "esc") {
        return Ok(KeyCode::Escape);
    }
    if same_text(s, "backspace") {
        return Ok(KeyCode::Backspace);
    }
    if same_text(s, "delete") {
        return Ok(KeyCode::Delete);
    }
    if same_text(s, "home") {
        return Ok(KeyCode::Home);
    }
    if same_text(s, "end") {
        return Ok(KeyCode::End);
    }
    if same_text(s, "pageup") {
        return Ok(KeyCode::PageUp);
    }
    if same_text(s, "pagedown") {
        return Ok(KeyCode::PageDown);
    }
    if same_text(s, "up") {
        return Ok(KeyCode::ArrowUp);
    }
    if same_text(s, "down") {
        return Ok(KeyCode::ArrowDown);
    }
    if same_text(s, "left") {
        return Ok(KeyCode::ArrowLeft);
    }
    if same_text(s, "right") {
        return Ok(KeyCode::ArrowRight);
    }
    if same_text(s, "f1") {
        return Ok(KeyCode::F1);
    }
    if same_text(s, "f2") {
        return Ok(KeyCode::F2);
    }
    if same_text(s, "f3") {
        return Ok(KeyCode::F3);
    }
    if same_text(s, "f4") {
        return Ok(KeyCode::F4);
    }
    if same_text(s, "f5") {
        return Ok(KeyCode::F5);
    }
    if same_text(s, "f6") {
        return Ok(KeyCode::F6);
    }
    if same_text(s, "f7") {
        return Ok(KeyCode::F7);
    }
    if same_text(s, "f8") {
        return Ok(KeyCode::F8);
    }
    if same_text(s, "f9") {
        return Ok(KeyCode::F9);
    }
    if same_text(s, "f10") {
        return Ok(KeyCode::F10);
    }
    if same_text(s, "f11") {
        return Ok(KeyCode::F11);
    }
    if same_text(s, "f12") {
        return Ok(KeyCode::F12);
    }
    if same_text(s, "0") {
        return Ok(KeyCode::Digit0);
    }
    if same_text(s, "1") {
        return Ok(KeyCode::Digit1);
    }
    if same_text(s, "2") {
        return Ok(KeyCode::Digit2);
    }
    if same_text(s, "3") {
        return Ok(KeyCode::Digit3);
    }
    if same_text(s, "4") {
        return Ok(KeyCode::Digit4);
    }
    if same_text(s, "5") {
        return Ok(KeyCode::Digit5);
    }
    if same_text(s, "6") {
        return Ok(KeyCode::Digit6);
    }
    if same_text(s, "7") {
        return Ok(KeyCode::Digit7);
    }
    if same_text(s, "8") {
        return Ok(KeyCode::Digit8);
    }
    if same_text(s, "9") {
        return Ok(KeyCode::Digit9);
    }
    if same_text(s, "a") {
        return Ok(KeyCode::KeyA);
    }
    if same_text(s, "b") {
        return Ok(KeyCode::KeyB);
    }
    if same_text(s, "c") {
        return Ok(KeyCode::KeyC);
    }
    if same_text(s, "d") {
        return Ok(KeyCode::KeyD);
    }
    if same_text(s, "e") {
        return Ok(KeyCode::KeyE);
    }
    if same_text(s, "f") {
        return Ok(KeyCode::KeyF);
    }
    if same_text(s, "g") {
        return Ok(KeyCode::KeyG);
    }
    if same_text(s, "h") {
        return Ok(KeyCode::KeyH);
    }
    if same_text(s, "i") {
        return Ok(KeyCode::KeyI);
    }
    if same_text(s, "j") {
        return Ok(KeyCode::KeyJ);
    }
    if same_text(s, "k") {
        return Ok(KeyCode::KeyK);
    }
    if same_text(s, "l") {
        return Ok(KeyCode::KeyL);
    }
    if same_text(s, "m") {
        return Ok(KeyCode::KeyM);
    }
    if same_text(s, "n") {
        return Ok(KeyCode::KeyN);
    }
    if same_text(s, "o") {
        return Ok(KeyCode::KeyO);
    }
    if same_text(s, "p") {
        return Ok(KeyCode::KeyP);
    }
    if same_text(s, "q") {
        return Ok(KeyCode::KeyQ);
    }
    if same_text(s, "r") {
        return Ok(KeyCode::KeyR);
    }
    if same_text(s, "s") {
        return Ok(KeyCode::KeyS);
    }
    if same_text(s, "t") {
        return Ok(KeyCode::KeyT);
    }
    if same_text(s, "u") {
        return Ok(KeyCode::KeyU);
    }
    if same_text(s, "v") {
        return Ok(KeyCode::KeyV);
    }
    if same_text(s, "w") {
        return Ok(KeyCode::KeyW);
    }
    if same_text(s, "x") {
        return Ok(KeyCode::KeyX);
    }
    if same_text(s, "y") {
        return Ok(KeyCode::KeyY);
    }
    if same_text(s, "z") {
        return Ok(KeyCode::KeyZ);
    }
    Err(HotkeyParseError::UnknownKey(s.to_owned()))
}

/// The parts of `s` between separators `sep` (what `str::split` with a
/// `char` pattern yields): always at least one part, possibly empty ones.
pub open spec fn split_on(s: Seq<char>, sep: char) -> Seq<Seq<char>>
    decreases s.len(),
{
    if s.len() == 0 {
        seq![Seq::<char>::empty()]
    } else {
        let parts = split_on(s.drop_last(), sep);
        if s.last() == sep {
            parts.push(Seq::<char>::empty())
        } else {
            parts.update(parts.len() - 1, parts.last().push(s.last()))
        }
    }
}

/// `split_on` never yields an empty list.
pub proof fn lemma_split_nonempty(s: Seq<char>, sep: char)
    ensures
        split_on(s, sep).len() >= 1,
    decreases s.len(),
{
    if s.len() > 0 {
        lemma_split_nonempty(s.drop_last(), sep);
    }
}

/// The parts of a hotkey text as they are compared: split at '+', each
/// trimmed and lowercased.
pub open spec fn normalized_parts(text: Seq<char>) -> Seq<Seq<char>> {
    split_on(text, '+').map_values(|p: Seq<char>| lowercase_text(trimmed_of(p)))
}

/// The effect of one normalized part on the modifiers and key read so far;
/// an unknown part is the error.
pub open spec fn apply_part(acc: (HotkeyModifiers, Option<KeyCode>), part: Seq<char>) -> Result<
    (HotkeyModifiers, Option<KeyCode>),
    Seq<char>,
> {
    let m = acc.0;
    if part == "ctrl"@ || part == "control"@ {
        Ok((HotkeyModifiers { control: true, ..m }, acc.1))
    } else if part == "alt"@ {
        Ok((HotkeyModifiers { alt: true, ..m }, acc.1))
    } else if part == "shift"@ {
        Ok((HotkeyModifiers { shift: true, ..m }, acc.1))
    } else if part == "super"@ || part == "win"@ || part == "cmd"@ || part == "meta"@ {
        Ok((HotkeyModifiers { super_key: true, ..m }, acc.1))
    } else {
        match key_code_for(part) {
            Some(k) => Ok((m, Some(k))),
            None => Err(part),
        }
    }
}

/// Reads the parts from first to last; the first unknown part stops it.
pub open spec fn read_parts(parts: Seq<Seq<char>>) -> Result<(HotkeyModifiers, Option<KeyCode>), Seq<char>>
    decreases parts.len(),
{
    if parts.len() == 0 {
        Ok((no_modifiers(), None))
    } else {
        match read_parts(parts.drop_last()) {
            Err(bad) => Err(bad),
            Ok(acc) => apply_part(acc, parts.last()),
        }
    }
}

/// The outcome of parsing a hotkey `text` whose normalized parts are
/// `parts`: the modifiers named and the last key named, an unknown part, or
/// no key at all.
pub open spec fn parts_outcome(parts: Seq<Seq<char>>, text: Seq<char>) -> Result<
    (HotkeyModifiers, KeyCode),
    HotkeyParseFailure,
> {
    match read_parts(parts) {
        Err(bad) => Err(HotkeyParseFailure::UnknownKey(bad)),
        Ok((m, None)) => Err(HotkeyParseFailure::NoKey(text)),
        Ok((m, Some(k))) => Ok((m, k)),
    }
}

/// `r` is the executable form of the outcome `o`.
pub open spec fn outcome_matches(
    r: Result<(HotkeyModifiers, KeyCode), HotkeyParseError>,
    o: Result<(HotkeyModifiers, KeyCode), HotkeyParseFailure>,
) -> bool {
    match (r, o) {
        (Ok(a), Ok(b)) => a == b,
        (Err(e), Err(f)) => e@ == f,
        _ => false,
    }
}

/// The outcome of parsing the hotkey text `text`.
pub open spec fn hotkey_outcome(text: Seq<char>) -> Result<(HotkeyModifiers, KeyCode), HotkeyParseFailure> {
    parts_outcome(normalized_parts(text), text)
}

/// Splits `s` at every '+'.
pub fn split_plus(s: &str) -> (r: Vec<String>)
    ensures
        texts_view(r@) == split_on(s@, '+'),
{
    let cs = chars_of(s);
    let mut parts: Vec<String> = Vec::new();
    let mut start: usize = 0;
    let mut i: usize = 0;
    assert(s@.take(0) =~= Seq::<char>::empty());
    assert(s@.subrange(0, 0) =~= Seq::<char>::empty());
    assert(texts_view(parts@) =~= Seq::<Seq<char>>::empty());
    while i < cs.len()
        invariant
            start <= i <= cs.len(),
            cs@ == s@,
            split_on(s@.take(i as int), '+') == texts_view(parts@).push(s@.subrange(start as int, i as int)),
        decreases cs.len() - i,
    {
        let ghost before = texts_view(parts@);
        let ghost cur = s@.subrange(start as int, i as int);
        assert(s@.take(i + 1).drop_last() =~= s@.take(i as int));
        assert(s@.take(i + 1).last() == s@[i as int]);
        if cs[i] == '+' {
            let piece = s.substring_char(start, i).to_owned();
            parts.push(piece);
            assert(texts_view(parts@) =~= before.push(cur));
            start = i + 1;
            assert(s@.subrange(start as int, i + 1) =~= Seq::<char>::empty());
        } else {
            assert(s@.subrange(start as int, i + 1) =~= cur.push(s@[i as int]));
            assert(before.push(cur).update(before.len() as int, cur.push(s@[i as int])) =~= before.push(
                cur.push(s@[i as int]),
            ));
        }
        i += 1;
    }
    let ghost before = texts_view(parts@);
    let piece = s.substring_char(start, cs.len()).to_owned();
    parts.push(piece);
    assert(texts_view(parts@) =~= before.push(s@.subrange(start as int, i as int)));
    assert(s@.take(i as int) =~= s@);
    parts
}

/// Parses hotkey text whose parts are already split, trimmed and
/// lowercased; `text` is the whole text, for the error message.
pub fn parse_hotkey_parts(parts: &Vec<String>, text: &str) -> (r: Result<(HotkeyModifiers, KeyCode), HotkeyParseError>)
    ensures
        outcome_matches(r, parts_outcome(texts_view(parts@), text@)),
{
    let ghost tv = texts_view(parts@);
    let mut mods = HotkeyModifiers { control: false, alt: false, shift: false, super_key: false };
    let mut key: Option<KeyCode> = None;
    let mut i: usize = 0;
    assert(tv.take(0) =~= Seq::<Seq<char>>::empty());
    while i < parts.len()
        invariant
            i <= parts.len(),
            tv == texts_view(parts@),
            read_parts(tv.take(i as int)) == Ok::<(HotkeyModifiers, Option<KeyCode>), Seq<char>>((mods, key)),
        decreases parts.len() - i,
    {
        assert(tv.take(i + 1).drop_last() =~= tv.take(i as int));
        assert(tv.take(i + 1).last() == parts@[i as int]@);
        let part = parts[i].as_str();
        if same_text(part, "ctrl") || same_text(part, "control") {
            mods.control = true;
        } else if same_text(part, "alt") {
            mods.alt = true;
        } else if same_text(part, "shift") {
            mods.shift = true;
        } else if same_text(part, "super") || same_text(part, "win") || same_text(part, "cmd")
            || same_text(part, "meta") {
            mods.super_key = true;
        } else {
            match parse_key_code(part) {
                Ok(k) => {
                    key = Some(k);
                },
                Err(e) => {
                    proof {
                        reveal_with_fuel(read_parts, 2);
                        assert forall|j: int| i + 1 <= j <= tv.len() implies read_parts(#[trigger] tv.take(j))
                            == Err::<(HotkeyModifiers, Option<KeyCode>), Seq<char>>(parts@[i as int]@) by {
                            lemma_read_parts_error_sticks(tv, i as int + 1, j);
                        }
                        assert(tv.take(tv.len() as int) =~= tv);
                    }
                    return Err(e);
                },
            }
        }
        i += 1;
    }
    assert(tv.take(i as int) =~= tv);
    match key {
        Some(k) => Ok((mods, k)),
        None => Err(HotkeyParseError::NoKey(text.to_owned())),
    }
}

/// Once reading stops at an unknown part, reading more parts keeps that
/// error.
proof fn lemma_read_parts_error_sticks(parts: Seq<Seq<char>>, i: int, j: int)
    requires
        0 <= i <= j <= parts.len(),
        read_parts(parts.take(i)) is Err,
    ensures
        read_parts(parts.take(j)) == read_parts(parts.take(i)),
    decreases j - i,
{
    if j > i {
        lemma_read_parts_error_sticks(parts, i, j - 1);
        assert(parts.take(j).drop_last() =~= parts.take(j - 1));
    }
}

/// Parses a hotkey text such as "ctrl+alt+k": split at '+', each part
/// trimmed and lowercased; "ctrl"/"control", "alt", "shift" and
/// "super"/"win"/"cmd"/"meta" set modifiers, any other part must be a key
/// name (the last one wins); some part must name a key.
pub fn parse_hotkey(s: &str) -> (r: Result<(HotkeyModifiers, KeyCode), HotkeyParseError>)
    ensures
        outcome_matches(r, hotkey_outcome(s@)),
{
    let raw = split_plus(s);
    let ghost pieces = split_on(s@, '+');
    let mut parts: Vec<String> = Vec::new();
    let mut i: usize = 0;
    while i < raw.len()
        invariant
            i <= raw.len(),
            texts_view(raw@) == pieces,
            pieces == split_on(s@, '+'),
            parts.len() == i,
            texts_view(parts@) == normalized_parts(s@).take(i as int),
        decreases raw.len() - i,
    {
        let ghost before = texts_view(parts@);
        let ghost old_parts = parts@;
        assert(raw@[i as int]@ == pieces[i as int]);
        let part = to_lowercase(trim(raw[i].as_str()));
        parts.push(part);
        assert(texts_view(parts@) =~= normalized_parts(s@).take(i + 1)) by {
            lemma_split_nonempty(s@, '+');
            assert(before == normalized_parts(s@).take(i as int));
            assert forall|k: int| 0 <= k < i + 1 implies texts_view(parts@)[k] == normalized_parts(s@).take(
                i + 1,
            )[k] by {
                if k < i {
                    assert(parts@[k] == old_parts[k]);
                    assert(texts_view(parts@)[k] == before[k]);
                }
            }
        }
        i += 1;
    }
    assert(normalized_parts(s@).take(i as int) =~= normalized_parts(s@));
    parse_hotkey_parts(&parts, s)
}

/// A hotkey to register: its keys and what it triggers.
#[derive(Debug, PartialEq, Eq)]
pub struct HotkeyBinding {
    pub modifiers: HotkeyModifiers,
    pub key: KeyCode,
    pub action: HotkeyAction,
}

impl Clone for HotkeyBinding {
    fn clone(&self) -> (r: Self)
        ensures
            r == *self,
    {
        HotkeyBinding { modifiers: self.modifiers, key: self.key, action: self.action.clone() }
    }
}

/// A shortcut whose hotkey text could not be parsed.
#[derive(Debug, PartialEq, Eq)]
pub struct RejectedHotkey {
    pub hotkey: String,
    pub shortcut_name: String,
    pub error: HotkeyParseError,
}

/// The hotkey that toggles the launcher: Ctrl+Alt+Space.
pub open spec fn toggle_binding() -> HotkeyBinding {
    HotkeyBinding {
        modifiers: HotkeyModifiers { control: true, alt: true, shift: false, super_key: false },
        key: KeyCode::Space,
        action: HotkeyAction::TogglePopup,
    }
}

/// The plan entry for a shortcut with hotkey text: the binding that
/// launches it, or the rejection with the parse error.
pub open spec fn plans_shortcut(entry: Result<HotkeyBinding, RejectedHotkey>, s: Shortcut) -> bool {
    let text = s.hotkey.unwrap()@;
    match entry {
        Ok(b) => hotkey_outcome(text) == Ok::<(HotkeyModifiers, KeyCode), HotkeyParseFailure>(
            (b.modifiers, b.key),
        ) && (b.action matches HotkeyAction::LaunchShortcut(id) && id@ == s.id@),
        Err(rej) => hotkey_outcome(text) matches Err(f) && rej.error@ == f && rej.hotkey@ == text
            && rej.shortcut_name@ == s.name@,
    }
}

/// Some hotkey id of `m` is bound to `b`.
pub open spec fn bound_somewhere(m: Map<u32, HotkeyBinding>, b: HotkeyBinding) -> bool {
    exists|k: u32| m.contains_key(k) && m[k] == b
}

/// The registered hotkeys, by hotkey id.
pub struct HotkeyManager {
    bindings: HashMap<u32, HotkeyBinding>,
}

impl View for HotkeyManager {
    type V = Map<u32, HotkeyBinding>;

    closed spec fn view(&self) -> Map<u32, HotkeyBinding> {
        self.bindings@
    }
}

impl HotkeyManager {
    /// No hotkey registered.
    pub fn new() -> (r: HotkeyManager)
        ensures
            r@ == Map::<u32, HotkeyBinding>::empty(),
    {
        HotkeyManager { bindings: HashMap::new() }
    }

    /// Records that the hotkey `modifiers` + `key` toggles the launcher,
    /// under its system id, which it returns (the id to register with the
    /// system and that presses are reported with).
    pub fn register_toggle(&mut self, modifiers: HotkeyModifiers, key: KeyCode) -> (r: u32)
        ensures
            hotkey_id_of(modifiers, code_name(key)) == Some(r),
            final(self)@ == old(self)@.insert(
                r,
                HotkeyBinding { modifiers, key, action: HotkeyAction::TogglePopup },
            ),
    {
        broadcast use vstd::std_specs::hash::group_hash_axioms;
        let hotkey_id = hotkey_id(modifiers, key);
        self.bindings.insert(
            hotkey_id,
            HotkeyBinding { modifiers, key, action: HotkeyAction::TogglePopup },
        );
        hotkey_id
    }

    /// Records that the hotkey `modifiers` + `key` launches the shortcut
    /// with id `id`, under its system id, which it returns.
    pub fn register_shortcut(&mut self, modifiers: HotkeyModifiers, key: KeyCode, id: &str) -> (r: u32)
        ensures
            hotkey_id_of(modifiers, code_name(key)) == Some(r),
            final(self)@.dom() == old(self)@.dom().insert(r),
            forall|k: u32| k != r && old(self)@.contains_key(k) ==> final(self)@[k] == old(self)@[k],
            final(self)@[r].modifiers == modifiers,
            final(self)@[r].key == key,
            final(self)@[r].action matches HotkeyAction::LaunchShortcut(s) && s@ == id@,
    {
        broadcast use vstd::std_specs::hash::group_hash_axioms;
        let hotkey_id = hotkey_id(modifiers, key);
        self.bindings.insert(
            hotkey_id,
            HotkeyBinding { modifiers, key, action: HotkeyAction::LaunchShortcut(id.to_owned()) },
        );
        hotkey_id
    }

    /// The hotkeys that unregistering everything must release: each
    /// registered binding once, in no particular order.
    pub fn unregister_all(&self) -> (r: Vec<HotkeyBinding>)
        ensures
            r.len() == self@.dom().len(),
            forall|i: int| 0 <= i < r.len() ==> bound_somewhere(self@, #[trigger] r@[i]),
            forall|k: u32| #[trigger] self@.contains_key(k) ==> r@.contains(self@[k]),
    {
        broadcast use vstd::std_specs::hash::group_hash_axioms;
        let mut r: Vec<HotkeyBinding> = Vec::new();
        let ghost v = vstd::std_specs::hash::spec_hash_map_iter(&self.bindings).remaining();
        for kv in it: self.bindings.iter()
            invariant
                it.seq() == v,
                v == vstd::std_specs::hash::spec_hash_map_iter(&self.bindings).remaining(),
                r.len() == it.index(),
                forall|i: int| 0 <= i < r.len() ==> r@[i] == *v[i].1,
        {
            let (_, b) = kv;
            r.push(b.clone());
        }
        proof {
            assert(v.len() == self@.dom().len());
            assert forall|i: int| 0 <= i < r.len() implies bound_somewhere(self@, #[trigger] r@[i]) by {
                assert(self@.contains_key(*v[i].0) && self@[*v[i].0] == *v[i].1);
            }
            assert forall|k: u32| #[trigger] self@.contains_key(k) implies r@.contains(self@[k]) by {
                assert(v.contains((&k, &self@[k])));
                let i = choose|i: int| 0 <= i < v.len() && v[i] == (&k, &self@[k]);
                assert(r@[i] == self@[k]);
            }
        }
        r
    }

    /// Forgets every binding.
    pub fn clear(&mut self)
        ensures
            final(self)@ == Map::<u32, HotkeyBinding>::empty(),
    {
        self.bindings.clear();
    }

    /// The action bound to hotkey `hotkey_id`, if any.
    pub fn handle_event(&self, hotkey_id: u32) -> (r: Option<HotkeyAction>)
        ensures
            self@.contains_key(hotkey_id) ==> r == Some(self@[hotkey_id].action),
            !self@.contains_key(hotkey_id) ==> r is None,
    {
        broadcast use vstd::std_specs::hash::group_hash_axioms;
        match self.bindings.get(&hotkey_id) {
            Some(b) => Some(b.action.clone()),
            None => None,
        }
    }

    /// Starts over: forgets every binding and returns what to register, in
    /// order: first the launcher toggle, then, for each shortcut that has a
    /// hotkey text (in the given order), its binding or why it was refused.
    pub fn rebuild(&mut self, shortcuts: &Vec<Shortcut>) -> (plan: Vec<Result<HotkeyBinding, RejectedHotkey>>)
        ensures
            final(self)@ == Map::<u32, HotkeyBinding>::empty(),
            ({
                let with_hotkey = shortcuts@.filter(|s: Shortcut| s.hotkey is Some);
                &&& plan.len() == with_hotkey.len() + 1
                &&& plan@[0] matches Ok(b) && b == toggle_binding()
                &&& forall|k: int| 0 <= k < with_hotkey.len() ==> plans_shortcut(#[trigger] plan@[k + 1], with_hotkey[k])
            }),
    {
        self.clear();
        let ghost has = |s: Shortcut| s.hotkey is Some;
        let mut plan: Vec<Result<HotkeyBinding, RejectedHotkey>> = Vec::new();
        plan.push(
            Ok(
                HotkeyBinding {
                    modifiers: HotkeyModifiers { control: true, alt: true, shift: false, super_key: false },
                    key: KeyCode::Space,
                    action: HotkeyAction::TogglePopup,
                },
            ),
        );
        let mut i: usize = 0;
        while i < shortcuts.len()
            invariant
                i <= shortcuts.len(),
                has == (|s: Shortcut| s.hotkey is Some),
                plan.len() == shortcuts@.take(i as int).filter(has).len() + 1,
                plan@[0] matches Ok(b) && b == toggle_binding(),
                forall|k: int| 0 <= k < shortcuts@.take(i as int).filter(has).len() ==> plans_shortcut(
                    #[trigger] plan@[k + 1],
                    shortcuts@.take(i as int).filter(has)[k],
                ),
            decreases shortcuts.len() - i,
        {
            reveal_with_fuel(Seq::<_>::filter, 1);
            let ghost before = shortcuts@.take(i as int).filter(has);
            assert(shortcuts@.take(i + 1).drop_last() =~= shortcuts@.take(i as int));
            let s = &shortcuts[i];
            match &s.hotkey {
                Some(text) => {
                    let entry = match parse_hotkey(text.as_str()) {
                        Ok((m, k)) => Ok(HotkeyBinding { modifiers: m, key: k, action: HotkeyAction::LaunchShortcut(s.id.clone()) }),
                        Err(e) => Err(RejectedHotkey { hotkey: text.clone(), shortcut_name: s.name.clone(), error: e }),
                    };
                    plan.push(entry);
                    assert(shortcuts@.take(i + 1).filter(has) == before.push(shortcuts@[i as int]));
                },
                None => {},
            }
            i += 1;
        }
        assert(shortcuts@.take(i as int) =~= shortcuts@);
        plan
    }
}


/// `part` is one of the modifier names.
pub open spec fn is_modifier_name(part: Seq<char>) -> bool {
    part == "ctrl"@ || part == "control"@ || part == "alt"@ || part == "shift"@ || part == "super"@
        || part == "win"@ || part == "cmd"@ || part == "meta"@
}

/// Two modifier parts read in either order give the same result.
proof fn lemma_modifiers_commute(acc: (HotkeyModifiers, Option<KeyCode>), a: Seq<char>, b: Seq<char>)
    requires
        is_modifier_name(a),
        is_modifier_name(b),
    ensures
        (match apply_part(acc, a) {
            Ok(x) => apply_part(x, b),
            Err(e) => Err(e),
        }) == (match apply_part(acc, b) {
            Ok(x) => apply_part(x, a),
            Err(e) => Err(e),
        }),
{
}

/// The order of modifier names in a hotkey text does not matter:
/// swapping two neighbouring modifier parts gives the same parse.
pub proof fn law_modifier_order_irrelevant(
    pre: Seq<Seq<char>>,
    a: Seq<char>,
    b: Seq<char>,
    post: Seq<Seq<char>>,
    text: Seq<char>,
)
    requires
        is_modifier_name(a),
        is_modifier_name(b),
    ensures
        parts_outcome(pre + seq![a, b] + post, text) == parts_outcome(pre + seq![b, a] + post, text),
    decreases post.len(),
{
    lemma_swapped_reads_agree(pre, a, b, post);
}

/// `read_parts` agrees on the two orders of a pair of neighbouring
/// modifier parts.
proof fn lemma_swapped_reads_agree(pre: Seq<Seq<char>>, a: Seq<char>, b: Seq<char>, post: Seq<Seq<char>>)
    requires
        is_modifier_name(a),
        is_modifier_name(b),
    ensures
        read_parts(pre + seq![a, b] + post) == read_parts(pre + seq![b, a] + post),
    decreases post.len(),
{
    let s1 = pre + seq![a, b] + post;
    let s2 = pre + seq![b, a] + post;
    if post.len() == 0 {
        assert(s1 =~= pre.push(a).push(b));
        assert(s2 =~= pre.push(b).push(a));
        assert(pre.push(a).push(b).drop_last() =~= pre.push(a));
        assert(pre.push(b).push(a).drop_last() =~= pre.push(b));
        assert(pre.push(a).drop_last() =~= pre);
        assert(pre.push(b).drop_last() =~= pre);
        assert(read_parts(pre.push(a)) == match read_parts(pre) {
            Err(bad) => Err(bad),
            Ok(acc) => apply_part(acc, a),
        });
        assert(read_parts(pre.push(b)) == match read_parts(pre) {
            Err(bad) => Err(bad),
            Ok(acc) => apply_part(acc, b),
        });
        assert(read_parts(pre.push(a).push(b)) == match read_parts(pre.push(a)) {
            Err(bad) => Err(bad),
            Ok(acc) => apply_part(acc, b),
        });
        assert(read_parts(pre.push(b).push(a)) == match read_parts(pre.push(b)) {
            Err(bad) => Err(bad),
            Ok(acc) => apply_part(acc, a),
        });
        match read_parts(pre) {
            Ok(acc) => lemma_modifiers_commute(acc, a, b),
            Err(_) => {},
        }
    } else {
        let shorter = post.drop_last();
        lemma_swapped_reads_agree(pre, a, b, shorter);
        assert(s1.drop_last() =~= pre + seq![a, b] + shorter);
        assert(s2.drop_last() =~= pre + seq![b, a] + shorter);
        assert(s1.last() == post.last());
        assert(s2.last() == post.last());
    }
}

/// After hotkey `id` is recorded as the launcher toggle, pressing it
/// toggles the launcher (`register_toggle`, then `handle_event`), and the
/// other hotkeys keep their actions.
pub proof fn law_toggle_after_register(m: Map<u32, HotkeyBinding>, id: u32, modifiers: HotkeyModifiers, key: KeyCode)
    ensures
        ({
            let after = m.insert(id, HotkeyBinding { modifiers, key, action: HotkeyAction::TogglePopup });
            &&& after.contains_key(id)
            &&& after[id].action == HotkeyAction::TogglePopup
            &&& forall|k: u32| k != id && m.contains_key(k) ==> after.contains_key(k) && #[trigger] after[k] == m[k]
        }),
{
}

/// Each lowercase letter names its own key: "a" to "z" parse to the keys
/// whose code names are "KeyA" to "KeyZ".
pub proof fn law_letter_names_its_key(l: char)
    requires
        'a' <= l && l <= 'z',
    ensures
        key_code_for(seq![l]) matches Some(k) && code_name(k) == seq!['K', 'e', 'y', (((l as u32) - 32) as u32) as char],
{
    assert(seq![l].len() == 1 && seq![l][0] == l);
    reveal_strlit("space");
    assert("space"@ =~= seq!['s', 'p', 'a', 'c', 'e']);
    reveal_strlit("enter");
    assert("enter"@ =~= seq!['e', 'n', 't', 'e', 'r']);
    reveal_strlit("tab");
    assert("tab"@ =~= seq!['t', 'a', 'b']);
    reveal_strlit("escape");
    assert("escape"@ =~= seq!['e', 's', 'c', 'a', 'p', 'e']);
    reveal_strlit("esc");
    assert("esc"@ =~= seq!['e', 's', 'c']);
    reveal_strlit("backspace");
    assert("backspace"@ =~= seq!['b', 'a', 'c', 'k', 's', 'p', 'a', 'c', 'e']);
    reveal_strlit("delete");
    assert("delete"@ =~= seq!['d', 'e', 'l', 'e', 't', 'e']);
    reveal_strlit("home");
    assert("home"@ =~= seq!['h', 'o', 'm', 'e']);
    reveal_strlit("end");
    assert("end"@ =~= seq!['e', 'n', 'd']);
    reveal_strlit("pageup");
    assert("pageup"@ =~= seq!['p', 'a', 'g', 'e', 'u', 'p']);
    reveal_strlit("pagedown");
    assert("pagedown"@ =~= seq!['p', 'a', 'g', 'e', 'd', 'o', 'w', 'n']);
    reveal_strlit("up");
    assert("up"@ =~= seq!['u', 'p']);
    reveal_strlit("down");
    assert("down"@ =~= seq!['d', 'o', 'w', 'n']);
    reveal_strlit("left");
    assert("left"@ =~= seq!['l', 'e', 'f', 't']);
    reveal_strlit("right");
    assert("right"@ =~= seq!['r', 'i', 'g', 'h', 't']);
    reveal_strlit("f1");
    assert("f1"@ =~= seq!['f', '1']);
    reveal_strlit("f2");
    assert("f2"@ =~= seq!['f', '2']);
    reveal_strlit("f3");
    assert("f3"@ =~= seq!['f', '3']);
    reveal_strlit("f4");
    assert("f4"@ =~= seq!['f', '4']);
    reveal_strlit("f5");
    assert("f5"@ =~= seq!['f', '5']);
    reveal_strlit("f6");
    assert("f6"@ =~= seq!['f', '6']);
    reveal_strlit("f7");
    assert("f7"@ =~= seq!['f', '7']);
    reveal_strlit("f8");
    assert("f8"@ =~= seq!['f', '8']);
    reveal_strlit("f9");
    assert("f9"@ =~= seq!['f', '9']);
    reveal_strlit("f10");
    assert("f10"@ =~= seq!['f', '1', '0']);
    reveal_strlit("f11");
    assert("f11"@ =~= seq!['f', '1', '1']);
    reveal_strlit("f12");
    assert("f12"@ =~= seq!['f', '1', '2']);
    reveal_strlit("0");
    assert("0"@ =~= seq!['0']);
    reveal_strlit("1");
    assert("1"@ =~= seq!['1']);
    reveal_strlit("2");
    assert("2"@ =~= seq!['2']);
    reveal_strlit("3");
    assert("3"@ =~= seq!['3']);
    reveal_strlit("4");
    assert("4"@ =~= seq!['4']);
    reveal_strlit("5");
    assert("5"@ =~= seq!['5']);
    reveal_strlit("6");
    assert("6"@ =~= seq!['6']);
    reveal_strlit("7");
    assert("7"@ =~= seq!['7']);
    reveal_strlit("8");
    assert("8"@ =~= seq!['8']);
    reveal_strlit("9");
    assert("9"@ =~= seq!['9']);
    reveal_strlit("a");
    assert("a"@ =~= seq!['a']);
    reveal_strlit("b");
    assert("b"@ =~= seq!['b']);
    reveal_strlit("c");
    assert("c"@ =~= seq!['c']);
    reveal_strlit("d");
    assert("d"@ =~= seq!['d']);
    reveal_strlit("e");
    assert("e"@ =~= seq!['e']);
    reveal_strlit("f");
    assert("f"@ =~= seq!['f']);
    reveal_strlit("g");
    assert("g"@ =~= seq!['g']);
    reveal_strlit("h");
    assert("h"@ =~= seq!['h']);
    reveal_strlit("i");
    assert("i"@ =~= seq!['i']);
    reveal_strlit("j");
    assert("j"@ =~= seq!['j']);
    reveal_strlit("k");
    assert("k"@ =~= seq!['k']);
    reveal_strlit("l");
    assert("l"@ =~= seq!['l']);
    reveal_strlit("m");
    assert("m"@ =~= seq!['m']);
    reveal_strlit("n");
    assert("n"@ =~= seq!['n']);
    reveal_strlit("o");
    assert("o"@ =~= seq!['o']);
    reveal_strlit("p");
    assert("p"@ =~= seq!['p']);
    reveal_strlit("q");
    assert("q"@ =~= seq!['q']);
    reveal_strlit("r");
    assert("r"@ =~= seq!['r']);
    reveal_strlit("s");
    assert("s"@ =~= seq!['s']);
    reveal_strlit("t");
    assert("t"@ =~= seq!['t']);
    reveal_strlit("u");
    assert("u"@ =~= seq!['u']);
    reveal_strlit("v");
    assert("v"@ =~= seq!['v']);
    reveal_strlit("w");
    assert("w"@ =~= seq!['w']);
    reveal_strlit("x");
    assert("x"@ =~= seq!['x']);
    reveal_strlit("y");
    assert("y"@ =~= seq!['y']);
    reveal_strlit("z");
    assert("z"@ =~= seq!['z']);
    reveal_strlit("KeyA");
    assert("KeyA"@ =~= seq!['K', 'e', 'y', 'A']);
    reveal_strlit("KeyB");
    assert("KeyB"@ =~= seq!['K', 'e', 'y', 'B']);
    reveal_strlit("KeyC");
    assert("KeyC"@ =~= seq!['K', 'e', 'y', 'C']);
    reveal_strlit("KeyD");
    assert("KeyD"@ =~= seq!['K', 'e', 'y', 'D']);
    reveal_strlit("KeyE");
    assert("KeyE"@ =~= seq!['K', 'e', 'y', 'E']);
    reveal_strlit("KeyF");
    assert("KeyF"@ =~= seq!['K', 'e', 'y', 'F']);
    reveal_strlit("KeyG");
    assert("KeyG"@ =~= seq!['K', 'e', 'y', 'G']);
    reveal_strlit("KeyH");
    assert("KeyH"@ =~= seq!['K', 'e', 'y', 'H']);
    reveal_strlit("KeyI");
    assert("KeyI"@ =~= seq!['K', 'e', 'y', 'I']);
    reveal_strlit("KeyJ");
    assert("KeyJ"@ =~= seq!['K', 'e', 'y', 'J']);
    reveal_strlit("KeyK");
    assert("KeyK"@ =~= seq!['K', 'e', 'y', 'K']);
    reveal_strlit("KeyL");
    assert("KeyL"@ =~= seq!['K', 'e', 'y', 'L']);
    reveal_strlit("KeyM");
    assert("KeyM"@ =~= seq!['K', 'e', 'y', 'M']);
    reveal_strlit("KeyN");
    assert("KeyN"@ =~= seq!['K', 'e', 'y', 'N']);
    reveal_strlit("KeyO");
    assert("KeyO"@ =~= seq!['K', 'e', 'y', 'O']);
    reveal_strlit("KeyP");
    assert("KeyP"@ =~= seq!['K', 'e', 'y', 'P']);
    reveal_strlit("KeyQ");
    assert("KeyQ"@ =~= seq!['K', 'e', 'y', 'Q']);
    reveal_strlit("KeyR");
    assert("KeyR"@ =~= seq!['K', 'e', 'y', 'R']);
    reveal_strlit("KeyS");
    assert("KeyS"@ =~= seq!['K', 'e', 'y', 'S']);
    reveal_strlit("KeyT");
    assert("KeyT"@ =~= seq!['K', 'e', 'y', 'T']);
    reveal_strlit("KeyU");
    assert("KeyU"@ =~= seq!['K', 'e', 'y', 'U']);
    reveal_strlit("KeyV");
    assert("KeyV"@ =~= seq!['K', 'e', 'y', 'V']);
    reveal_strlit("KeyW");
    assert("KeyW"@ =~= seq!['K', 'e', 'y', 'W']);
    reveal_strlit("KeyX");
    assert("KeyX"@ =~= seq!['K', 'e', 'y', 'X']);
    reveal_strlit("KeyY");
    assert("KeyY"@ =~= seq!['K', 'e', 'y', 'Y']);
    reveal_strlit("KeyZ");
    assert("KeyZ"@ =~= seq!['K', 'e', 'y', 'Z']);
    if l == 'a' {
    } else if l == 'b' {
    } else if l == 'c' {
    } else if l == 'd' {
    } else if l == 'e' {
    } else if l == 'f' {
    } else if l == 'g' {
    } else if l == 'h' {
    } else if l == 'i' {
    } else if l == 'j' {
    } else if l == 'k' {
    } else if l == 'l' {
    } else if l == 'm' {
    } else if l == 'n' {
    } else if l == 'o' {
    } else if l == 'p' {
    } else if l == 'q' {
    } else if l == 'r' {
    } else if l == 's' {
    } else if l == 't' {
    } else if l == 'u' {
    } else if l == 'v' {
    } else if l == 'w' {
    } else if l == 'x' {
    } else if l == 'y' {
    } else if l == 'z' {
    }
}

/// Each digit names its own key: "0" to "9" parse to the keys whose code
/// names are "Digit0" to "Digit9".
pub proof fn law_digit_names_its_key(d: char)
    requires
        '0' <= d && d <= '9',
    ensures
        key_code_for(seq![d]) matches Some(k) && code_name(k) == seq!['D', 'i', 'g', 'i', 't', d],
{
    assert(seq![d].len() == 1 && seq![d][0] == d);
    reveal_strlit("space");
    assert("space"@ =~= seq!['s', 'p', 'a', 'c', 'e']);
    reveal_strlit("enter");
    assert("enter"@ =~= seq!['e', 'n', 't', 'e', 'r']);
    reveal_strlit("tab");
    assert("tab"@ =~= seq!['t', 'a', 'b']);
    reveal_strlit("escape");
    assert("escape"@ =~= seq!['e', 's', 'c', 'a', 'p', 'e']);
    reveal_strlit("esc");
    assert("esc"@ =~= seq!['e', 's', 'c']);
    reveal_strlit("backspace");
    assert("backspace"@ =~= seq!['b', 'a', 'c', 'k', 's', 'p', 'a', 'c', 'e']);
    reveal_strlit("delete");
    assert("delete"@ =~= seq!['d', 'e', 'l', 'e', 't', 'e']);
    reveal_strlit("home");
    assert("home"@ =~= seq!['h', 'o', 'm', 'e']);
    reveal_strlit("end");
    assert("end"@ =~= seq!['e', 'n', 'd']);
    reveal_strlit("pageup");
    assert("pageup"@ =~= seq!['p', 'a', 'g', 'e', 'u', 'p']);
    reveal_strlit("pagedown");
    assert("pagedown"@ =~= seq!['p', 'a', 'g', 'e', 'd', 'o', 'w', 'n']);
    reveal_strlit("up");
    assert("up"@ =~= seq!['u', 'p']);
    reveal_strlit("down");
    assert("down"@ =~= seq!['d', 'o', 'w', 'n']);
    reveal_strlit("left");
    assert("left"@ =~= seq!['l', 'e', 'f', 't']);
    reveal_strlit("right");
    assert("right"@ =~= seq!['r', 'i', 'g', 'h', 't']);
    reveal_strlit("f1");
    assert("f1"@ =~= seq!['f', '1']);
    reveal_strlit("f2");
    assert("f2"@ =~= seq!['f', '2']);
    reveal_strlit("f3");
    assert("f3"@ =~= seq!['f', '3']);
    reveal_strlit("f4");
    assert("f4"@ =~= seq!['f', '4']);
    reveal_strlit("f5");
    assert("f5"@ =~= seq!['f', '5']);
    reveal_strlit("f6");
    assert("f6"@ =~= seq!['f', '6']);
    reveal_strlit("f7");
    assert("f7"@ =~= seq!['f', '7']);
    reveal_strlit("f8");
    assert("f8"@ =~= seq!['f', '8']);
    reveal_strlit("f9");
    assert("f9"@ =~= seq!['f', '9']);
    reveal_strlit("f10");
    assert("f10"@ =~= seq!['f', '1', '0']);
    reveal_strlit("f11");
    assert("f11"@ =~= seq!['f', '1', '1']);
    reveal_strlit("f12");
    assert("f12"@ =~= seq!['f', '1', '2']);
    reveal_strlit("0");
    assert("0"@ =~= seq!['0']);
    reveal_strlit("1");
    assert("1"@ =~= seq!['1']);
    reveal_strlit("2");
    assert("2"@ =~= seq!['2']);
    reveal_strlit("3");
    assert("3"@ =~= seq!['3']);
    reveal_strlit("4");
    assert("4"@ =~= seq!['4']);
    reveal_strlit("5");
    assert("5"@ =~= seq!['5']);
    reveal_strlit("6");
    assert("6"@ =~= seq!['6']);
    reveal_strlit("7");
    assert("7"@ =~= seq!['7']);
    reveal_strlit("8");
    assert("8"@ =~= seq!['8']);
    reveal_strlit("9");
    assert("9"@ =~= seq!['9']);
    reveal_strlit("a");
    assert("a"@ =~= seq!['a']);
    reveal_strlit("b");
    assert("b"@ =~= seq!['b']);
    reveal_strlit("c");
    assert("c"@ =~= seq!['c']);
    reveal_strlit("d");
    assert("d"@ =~= seq!['d']);
    reveal_strlit("e");
    assert("e"@ =~= seq!['e']);
    reveal_strlit("f");
    assert("f"@ =~= seq!['f']);
    reveal_strlit("g");
    assert("g"@ =~= seq!['g']);
    reveal_strlit("h");
    assert("h"@ =~= seq!['h']);
    reveal_strlit("i");
    assert("i"@ =~= seq!['i']);
    reveal_strlit("j");
    assert("j"@ =~= seq!['j']);
    reveal_strlit("k");
    assert("k"@ =~= seq!['k']);
    reveal_strlit("l");
    assert("l"@ =~= seq!['l']);
    reveal_strlit("m");
    assert("m"@ =~= seq!['m']);
    reveal_strlit("n");
    assert("n"@ =~= seq!['n']);
    reveal_strlit("o");
    assert("o"@ =~= seq!['o']);
    reveal_strlit("p");
    assert("p"@ =~= seq!['p']);
    reveal_strlit("q");
    assert("q"@ =~= seq!['q']);
    reveal_strlit("r");
    assert("r"@ =~= seq!['r']);
    reveal_strlit("s");
    assert("s"@ =~= seq!['s']);
    reveal_strlit("t");
    assert("t"@ =~= seq!['t']);
    reveal_strlit("u");
    assert("u"@ =~= seq!['u']);
    reveal_strlit("v");
    assert("v"@ =~= seq!['v']);
    reveal_strlit("w");
    assert("w"@ =~= seq!['w']);
    reveal_strlit("x");
    assert("x"@ =~= seq!['x']);
    reveal_strlit("y");
    assert("y"@ =~= seq!['y']);
    reveal_strlit("z");
    assert("z"@ =~= seq!['z']);
    reveal_strlit("Digit0");
    assert("Digit0"@ =~= seq!['D', 'i', 'g', 'i', 't', '0']);
    reveal_strlit("Digit1");
    assert("Digit1"@ =~= seq!['D', 'i', 'g', 'i', 't', '1']);
    reveal_strlit("Digit2");
    assert("Digit2"@ =~= seq!['D', 'i', 'g', 'i', 't', '2']);
    reveal_strlit("Digit3");
    assert("Digit3"@ =~= seq!['D', 'i', 'g', 'i', 't', '3']);
    reveal_strlit("Digit4");
    assert("Digit4"@ =~= seq!['D', 'i', 'g', 'i', 't', '4']);
    reveal_strlit("Digit5");
    assert("Digit5"@ =~= seq!['D', 'i', 'g', 'i', 't', '5']);
    reveal_strlit("Digit6");
    assert("Digit6"@ =~= seq!['D', 'i', 'g', 'i', 't', '6']);
    reveal_strlit("Digit7");
    assert("Digit7"@ =~= seq!['D', 'i', 'g', 'i', 't', '7']);
    reveal_strlit("Digit8");
    assert("Digit8"@ =~= seq!['D', 'i', 'g', 'i', 't', '8']);
    reveal_strlit("Digit9");
    assert("Digit9"@ =~= seq!['D', 'i', 'g', 'i', 't', '9']);
    if d == '0' {
    } else if d == '1' {
    } else if d == '2' {
    } else if d == '3' {
    } else if d == '4' {
    } else if d == '5' {
    } else if d == '6' {
    } else if d == '7' {
    } else if d == '8' {
    } else if d == '9' {
    }
}

/// "f1" to "f9" name the function keys whose code names are "F1" to "F9".
pub proof fn law_short_function_names(d: char)
    requires
        '1' <= d && d <= '9',
    ensures
        key_code_for(seq!['f', d]) matches Some(k) && code_name(k) == seq!['F', d],
{
    assert(seq!['f', d].len() == 2 && seq!['f', d][0] == 'f' && seq!['f', d][1] == d);
    reveal_strlit("space");
    assert("space"@ =~= seq!['s', 'p', 'a', 'c', 'e']);
    reveal_strlit("enter");
    assert("enter"@ =~= seq!['e', 'n', 't', 'e', 'r']);
    reveal_strlit("tab");
    assert("tab"@ =~= seq!['t', 'a', 'b']);
    reveal_strlit("escape");
    assert("escape"@ =~= seq!['e', 's', 'c', 'a', 'p', 'e']);
    reveal_strlit("esc");
    assert("esc"@ =~= seq!['e', 's', 'c']);
    reveal_strlit("backspace");
    assert("backspace"@ =~= seq!['b', 'a', 'c', 'k', 's', 'p', 'a', 'c', 'e']);
    reveal_strlit("delete");
    assert("delete"@ =~= seq!['d', 'e', 'l', 'e', 't', 'e']);
    reveal_strlit("home");
    assert("home"@ =~= seq!['h', 'o', 'm', 'e']);
    reveal_strlit("end");
    assert("end"@ =~= seq!['e', 'n', 'd']);
    reveal_strlit("pageup");
    assert("pageup"@ =~= seq!['p', 'a', 'g', 'e', 'u', 'p']);
    reveal_strlit("pagedown");
    assert("pagedown"@ =~= seq!['p', 'a', 'g', 'e', 'd', 'o', 'w', 'n']);
    reveal_strlit("up");
    assert("up"@ =~= seq!['u', 'p']);
    reveal_strlit("down");
    assert("down"@ =~= seq!['d', 'o', 'w', 'n']);
    reveal_strlit("left");
    assert("left"@ =~= seq!['l', 'e', 'f', 't']);
    reveal_strlit("right");
    assert("right"@ =~= seq!['r', 'i', 'g', 'h', 't']);
    reveal_strlit("f1");
    assert("f1"@ =~= seq!['f', '1']);
    reveal_strlit("f2");
    assert("f2"@ =~= seq!['f', '2']);
    reveal_strlit("f3");
    assert("f3"@ =~= seq!['f', '3']);
    reveal_strlit("f4");
    assert("f4"@ =~= seq!['f', '4']);
    reveal_strlit("f5");
    assert("f5"@ =~= seq!['f', '5']);
    reveal_strlit("f6");
    assert("f6"@ =~= seq!['f', '6']);
    reveal_strlit("f7");
    assert("f7"@ =~= seq!['f', '7']);
    reveal_strlit("f8");
    assert("f8"@ =~= seq!['f', '8']);
    reveal_strlit("f9");
    assert("f9"@ =~= seq!['f', '9']);
    reveal_strlit("f10");
    assert("f10"@ =~= seq!['f', '1', '0']);
    reveal_strlit("f11");
    assert("f11"@ =~= seq!['f', '1', '1']);
    reveal_strlit("f12");
    assert("f12"@ =~= seq!['f', '1', '2']);
    reveal_strlit("0");
    assert("0"@ =~= seq!['0']);
    reveal_strlit("1");
    assert("1"@ =~= seq!['1']);
    reveal_strlit("2");
    assert("2"@ =~= seq!['2']);
    reveal_strlit("3");
    assert("3"@ =~= seq!['3']);
    reveal_strlit("4");
    assert("4"@ =~= seq!['4']);
    reveal_strlit("5");
    assert("5"@ =~= seq!['5']);
    reveal_strlit("6");
    assert("6"@ =~= seq!['6']);
    reveal_strlit("7");
    assert("7"@ =~= seq!['7']);
    reveal_strlit("8");
    assert("8"@ =~= seq!['8']);
    reveal_strlit("9");
    assert("9"@ =~= seq!['9']);
    reveal_strlit("a");
    assert("a"@ =~= seq!['a']);
    reveal_strlit("b");
    assert("b"@ =~= seq!['b']);
    reveal_strlit("c");
    assert("c"@ =~= seq!['c']);
    reveal_strlit("d");
    assert("d"@ =~= seq!['d']);
    reveal_strlit("e");
    assert("e"@ =~= seq!['e']);
    reveal_strlit("f");
    assert("f"@ =~= seq!['f']);
    reveal_strlit("g");
    assert("g"@ =~= seq!['g']);
    reveal_strlit("h");
    assert("h"@ =~= seq!['h']);
    reveal_strlit("i");
    assert("i"@ =~= seq!['i']);
    reveal_strlit("j");
    assert("j"@ =~= seq!['j']);
    reveal_strlit("k");
    assert("k"@ =~= seq!['k']);
    reveal_strlit("l");
    assert("l"@ =~= seq!['l']);
    reveal_strlit("m");
    assert("m"@ =~= seq!['m']);
    reveal_strlit("n");
    assert("n"@ =~= seq!['n']);
    reveal_strlit("o");
    assert("o"@ =~= seq!['o']);
    reveal_strlit("p");
    assert("p"@ =~= seq!['p']);
    reveal_strlit("q");
    assert("q"@ =~= seq!['q']);
    reveal_strlit("r");
    assert("r"@ =~= seq!['r']);
    reveal_strlit("s");
    assert("s"@ =~= seq!['s']);
    reveal_strlit("t");
    assert("t"@ =~= seq!['t']);
    reveal_strlit("u");
    assert("u"@ =~= seq!['u']);
    reveal_strlit("v");
    assert("v"@ =~= seq!['v']);
    reveal_strlit("w");
    assert("w"@ =~= seq!['w']);
    reveal_strlit("x");
    assert("x"@ =~= seq!['x']);
    reveal_strlit("y");
    assert("y"@ =~= seq!['y']);
    reveal_strlit("z");
    assert("z"@ =~= seq!['z']);
    reveal_strlit("F1");
    assert("F1"@ =~= seq!['F', '1']);
    reveal_strlit("F2");
    assert("F2"@ =~= seq!['F', '2']);
    reveal_strlit("F3");
    assert("F3"@ =~= seq!['F', '3']);
    reveal_strlit("F4");
    assert("F4"@ =~= seq!['F', '4']);
    reveal_strlit("F5");
    assert("F5"@ =~= seq!['F', '5']);
    reveal_strlit("F6");
    assert("F6"@ =~= seq!['F', '6']);
    reveal_strlit("F7");
    assert("F7"@ =~= seq!['F', '7']);
    reveal_strlit("F8");
    assert("F8"@ =~= seq!['F', '8']);
    reveal_strlit("F9");
    assert("F9"@ =~= seq!['F', '9']);
    if d == '1' {
    } else if d == '2' {
    } else if d == '3' {
    } else if d == '4' {
    } else if d == '5' {
    } else if d == '6' {
    } else if d == '7' {
    } else if d == '8' {
    } else if d == '9' {
    }
}

/// "f10" to "f12" name the function keys whose code names are "F10" to
/// "F12".
pub proof fn law_long_function_names(d: char)
    requires
        '0' <= d && d <= '2',
    ensures
        key_code_for(seq!['f', '1', d]) matches Some(k) && code_name(k) == seq!['F', '1', d],
{
    assert(seq!['f', '1', d].len() == 3 && seq!['f', '1', d][0] == 'f' && seq!['f', '1', d][1] == '1'
        && seq!['f', '1', d][2] == d);
    reveal_strlit("space");
    assert("space"@ =~= seq!['s', 'p', 'a', 'c', 'e']);
    reveal_strlit("enter");
    assert("enter"@ =~= seq!['e', 'n', 't', 'e', 'r']);
    reveal_strlit("tab");
    assert("tab"@ =~= seq!['t', 'a', 'b']);
    reveal_strlit("escape");
    assert("escape"@ =~= seq!['e', 's', 'c', 'a', 'p', 'e']);
    reveal_strlit("esc");
    assert("esc"@ =~= seq!['e', 's', 'c']);
    reveal_strlit("backspace");
    assert("backspace"@ =~= seq!['b', 'a', 'c', 'k', 's', 'p', 'a', 'c', 'e']);
    reveal_strlit("delete");
    assert("delete"@ =~= seq!['d', 'e', 'l', 'e', 't', 'e']);
    reveal_strlit("home");
    assert("home"@ =~= seq!['h', 'o', 'm', 'e']);
    reveal_strlit("end");
    assert("end"@ =~= seq!['e', 'n', 'd']);
    reveal_strlit("pageup");
    assert("pageup"@ =~= seq!['p', 'a', 'g', 'e', 'u', 'p']);
    reveal_strlit("pagedown");
    assert("pagedown"@ =~= seq!['p', 'a', 'g', 'e', 'd', 'o', 'w', 'n']);
    reveal_strlit("up");
    assert("up"@ =~= seq!['u', 'p']);
    reveal_strlit("down");
    assert("down"@ =~= seq!['d', 'o', 'w', 'n']);
    reveal_strlit("left");
    assert("left"@ =~= seq!['l', 'e', 'f', 't']);
    reveal_strlit("right");
    assert("right"@ =~= seq!['r', 'i', 'g', 'h', 't']);
    reveal_strlit("f1");
    assert("f1"@ =~= seq!['f', '1']);
    reveal_strlit("f2");
    assert("f2"@ =~= seq!['f', '2']);
    reveal_strlit("f3");
    assert("f3"@ =~= seq!['f', '3']);
    reveal_strlit("f4");
    assert("f4"@ =~= seq!['f', '4']);
    reveal_strlit("f5");
    assert("f5"@ =~= seq!['f', '5']);
    reveal_strlit("f6");
    assert("f6"@ =~= seq!['f', '6']);
    reveal_strlit("f7");
    assert("f7"@ =~= seq!['f', '7']);
    reveal_strlit("f8");
    assert("f8"@ =~= seq!['f', '8']);
    reveal_strlit("f9");
    assert("f9"@ =~= seq!['f', '9']);
    reveal_strlit("f10");
    assert("f10"@ =~= seq!['f', '1', '0']);
    reveal_strlit("f11");
    assert("f11"@ =~= seq!['f', '1', '1']);
    reveal_strlit("f12");
    assert("f12"@ =~= seq!['f', '1', '2']);
    reveal_strlit("0");
    assert("0"@ =~= seq!['0']);
    reveal_strlit("1");
    assert("1"@ =~= seq!['1']);
    reveal_strlit("2");
    assert("2"@ =~= seq!['2']);
    reveal_strlit("3");
    assert("3"@ =~= seq!['3']);
    reveal_strlit("4");
    assert("4"@ =~= seq!['4']);
    reveal_strlit("5");
    assert("5"@ =~= seq!['5']);
    reveal_strlit("6");
    assert("6"@ =~= seq!['6']);
    reveal_strlit("7");
    assert("7"@ =~= seq!['7']);
    reveal_strlit("8");
    assert("8"@ =~= seq!['8']);
    reveal_strlit("9");
    assert("9"@ =~= seq!['9']);
    reveal_strlit("a");
    assert("a"@ =~= seq!['a']);
    reveal_strlit("b");
    assert("b"@ =~= seq!['b']);
    reveal_strlit("c");
    assert("c"@ =~= seq!['c']);
    reveal_strlit("d");
    assert("d"@ =~= seq!['d']);
    reveal_strlit("e");
    assert("e"@ =~= seq!['e']);
    reveal_strlit("f");
    assert("f"@ =~= seq!['f']);
    reveal_strlit("g");
    assert("g"@ =~= seq!['g']);
    reveal_strlit("h");
    assert("h"@ =~= seq!['h']);
    reveal_strlit("i");
    assert("i"@ =~= seq!['i']);
    reveal_strlit("j");
    assert("j"@ =~= seq!['j']);
    reveal_strlit("k");
    assert("k"@ =~= seq!['k']);
    reveal_strlit("l");
    assert("l"@ =~= seq!['l']);
    reveal_strlit("m");
    assert("m"@ =~= seq!['m']);
    reveal_strlit("n");
    assert("n"@ =~= seq!['n']);
    reveal_strlit("o");
    assert("o"@ =~= seq!['o']);
    reveal_strlit("p");
    assert("p"@ =~= seq!['p']);
    reveal_strlit("q");
    assert("q"@ =~= seq!['q']);
    reveal_strlit("r");
    assert("r"@ =~= seq!['r']);
    reveal_strlit("s");
    assert("s"@ =~= seq!['s']);
    reveal_strlit("t");
    assert("t"@ =~= seq!['t']);
    reveal_strlit("u");
    assert("u"@ =~= seq!['u']);
    reveal_strlit("v");
    assert("v"@ =~= seq!['v']);
    reveal_strlit("w");
    assert("w"@ =~= seq!['w']);
    reveal_strlit("x");
    assert("x"@ =~= seq!['x']);
    reveal_strlit("y");
    assert("y"@ =~= seq!['y']);
    reveal_strlit("z");
    assert("z"@ =~= seq!['z']);
    reveal_strlit("F10");
    assert("F10"@ =~= seq!['F', '1', '0']);
    reveal_strlit("F11");
    assert("F11"@ =~= seq!['F', '1', '1']);
    reveal_strlit("F12");
    assert("F12"@ =~= seq!['F', '1', '2']);
    if d == '0' {
    } else if d == '1' {
    } else if d == '2' {
    }
}

/// Different keys have different code names, so no two keys share a
/// hotkey id through their names.
#[verifier::rlimit(100)]
pub proof fn law_code_names_distinct(k1: KeyCode, k2: KeyCode)
    requires
        k1 != k2,
    ensures
        code_name(k1) != code_name(k2),
{
    reveal_strlit("Space");
    assert("Space"@ =~= seq!['S', 'p', 'a', 'c', 'e']);
    reveal_strlit("Enter");
    assert("Enter"@ =~= seq!['E', 'n', 't', 'e', 'r']);
    reveal_strlit("Tab");
    assert("Tab"@ =~= seq!['T', 'a', 'b']);
    reveal_strlit("Escape");
    assert("Escape"@ =~= seq!['E', 's', 'c', 'a', 'p', 'e']);
    reveal_strlit("Backspace");
    assert("Backspace"@ =~= seq!['B', 'a', 'c', 'k', 's', 'p', 'a', 'c', 'e']);
    reveal_strlit("Delete");
    assert("Delete"@ =~= seq!['D', 'e', 'l', 'e', 't', 'e']);
    reveal_strlit("Home");
    assert("Home"@ =~= seq!['H', 'o', 'm', 'e']);
    reveal_strlit("End");
    assert("End"@ =~= seq!['E', 'n', 'd']);
    reveal_strlit("PageUp");
    assert("PageUp"@ =~= seq!['P', 'a', 'g', 'e', 'U', 'p']);
    reveal_strlit("PageDown");
    assert("PageDown"@ =~= seq!['P', 'a', 'g', 'e', 'D', 'o', 'w', 'n']);
    reveal_strlit("ArrowUp");
    assert("ArrowUp"@ =~= seq!['A', 'r', 'r', 'o', 'w', 'U', 'p']);
    reveal_strlit("ArrowDown");
    assert("ArrowDown"@ =~= seq!['A', 'r', 'r', 'o', 'w', 'D', 'o', 'w', 'n']);
    reveal_strlit("ArrowLeft");
    assert("ArrowLeft"@ =~= seq!['A', 'r', 'r', 'o', 'w', 'L', 'e', 'f', 't']);
    reveal_strlit("ArrowRight");
    assert("ArrowRight"@ =~= seq!['A', 'r', 'r', 'o', 'w', 'R', 'i', 'g', 'h', 't']);
    reveal_strlit("F1");
    assert("F1"@ =~= seq!['F', '1']);
    reveal_strlit("F2");
    assert("F2"@ =~= seq!['F', '2']);
    reveal_strlit("F3");
    assert("F3"@ =~= seq!['F', '3']);
    reveal_strlit("F4");
    assert("F4"@ =~= seq!['F', '4']);
    reveal_strlit("F5");
    assert("F5"@ =~= seq!['F', '5']);
    reveal_strlit("F6");
    assert("F6"@ =~= seq!['F', '6']);
    reveal_strlit("F7");
    assert("F7"@ =~= seq!['F', '7']);
    reveal_strlit("F8");
    assert("F8"@ =~= seq!['F', '8']);
    reveal_strlit("F9");
    assert("F9"@ =~= seq!['F', '9']);
    reveal_strlit("F10");
    assert("F10"@ =~= seq!['F', '1', '0']);
    reveal_strlit("F11");
    assert("F11"@ =~= seq!['F', '1', '1']);
    reveal_strlit("F12");
    assert("F12"@ =~= seq!['F', '1', '2']);
    reveal_strlit("Digit0");
    assert("Digit0"@ =~= seq!['D', 'i', 'g', 'i', 't', '0']);
    reveal_strlit("Digit1");
    assert("Digit1"@ =~= seq!['D', 'i', 'g', 'i', 't', '1']);
    reveal_strlit("Digit2");
    assert("Digit2"@ =~= seq!['D', 'i', 'g', 'i', 't', '2']);
    reveal_strlit("Digit3");
    assert("Digit3"@ =~= seq!['D', 'i', 'g', 'i', 't', '3']);
    reveal_strlit("Digit4");
    assert("Digit4"@ =~= seq!['D', 'i', 'g', 'i', 't', '4']);
    reveal_strlit("Digit5");
    assert("Digit5"@ =~= seq!['D', 'i', 'g', 'i', 't', '5']);
    reveal_strlit("Digit6");
    assert("Digit6"@ =~= seq!['D', 'i', 'g', 'i', 't', '6']);
    reveal_strlit("Digit7");
    assert("Digit7"@ =~= seq!['D', 'i', 'g', 'i', 't', '7']);
    reveal_strlit("Digit8");
    assert("Digit8"@ =~= seq!['D', 'i', 'g', 'i', 't', '8']);
    reveal_strlit("Digit9");
    assert("Digit9"@ =~= seq!['D', 'i', 'g', 'i', 't', '9']);
    reveal_strlit("KeyA");
    assert("KeyA"@ =~= seq!['K', 'e', 'y', 'A']);
    reveal_strlit("KeyB");
    assert("KeyB"@ =~= seq!['K', 'e', 'y', 'B']);
    reveal_strlit("KeyC");
    assert("KeyC"@ =~= seq!['K', 'e', 'y', 'C']);
    reveal_strlit("KeyD");
    assert("KeyD"@ =~= seq!['K', 'e', 'y', 'D']);
    reveal_strlit("KeyE");
    assert("KeyE"@ =~= seq!['K', 'e', 'y', 'E']);
    reveal_strlit("KeyF");
    assert("KeyF"@ =~= seq!['K', 'e', 'y', 'F']);
    reveal_strlit("KeyG");
    assert("KeyG"@ =~= seq!['K', 'e', 'y', 'G']);
    reveal_strlit("KeyH");
    assert("KeyH"@ =~= seq!['K', 'e', 'y', 'H']);
    reveal_strlit("KeyI");
    assert("KeyI"@ =~= seq!['K', 'e', 'y', 'I']);
    reveal_strlit("KeyJ");
    assert("KeyJ"@ =~= seq!['K', 'e', 'y', 'J']);
    reveal_strlit("KeyK");
    assert("KeyK"@ =~= seq!['K', 'e', 'y', 'K']);
    reveal_strlit("KeyL");
    assert("KeyL"@ =~= seq!['K', 'e', 'y', 'L']);
    reveal_strlit("KeyM");
    assert("KeyM"@ =~= seq!['K', 'e', 'y', 'M']);
    reveal_strlit("KeyN");
    assert("KeyN"@ =~= seq!['K', 'e', 'y', 'N']);
    reveal_strlit("KeyO");
    assert("KeyO"@ =~= seq!['K', 'e', 'y', 'O']);
    reveal_strlit("KeyP");
    assert("KeyP"@ =~= seq!['K', 'e', 'y', 'P']);
    reveal_strlit("KeyQ");
    assert("KeyQ"@ =~= seq!['K', 'e', 'y', 'Q']);
    reveal_strlit("KeyR");
    assert("KeyR"@ =~= seq!['K', 'e', 'y', 'R']);
    reveal_strlit("KeyS");
    assert("KeyS"@ =~= seq!['K', 'e', 'y', 'S']);
    reveal_strlit("KeyT");
    assert("KeyT"@ =~= seq!['K', 'e', 'y', 'T']);
    reveal_strlit("KeyU");
    assert("KeyU"@ =~= seq!['K', 'e', 'y', 'U']);
    reveal_strlit("KeyV");
    assert("KeyV"@ =~= seq!['K', 'e', 'y', 'V']);
    reveal_strlit("KeyW");
    assert("KeyW"@ =~= seq!['K', 'e', 'y', 'W']);
    reveal_strlit("KeyX");
    assert("KeyX"@ =~= seq!['K', 'e', 'y', 'X']);
    reveal_strlit("KeyY");
    assert("KeyY"@ =~= seq!['K', 'e', 'y', 'Y']);
    reveal_strlit("KeyZ");
    assert("KeyZ"@ =~= seq!['K', 'e', 'y', 'Z']);
    let n1 = code_name(k1);
    let n2 = code_name(k2);
    if n1 == n2 {
        assert(n1.len() == n2.len());
        assert(n1[0] == n2[0]);
        assert(n1[n1.len() - 1] == n2[n2.len() - 1]);
    }
}

/// The named keys: "space", "enter", "tab", "escape" or "esc",
/// "backspace", "delete", "home", "end", "pageup", "pagedown" and the arrows
/// "up", "down", "left", "right" parse to the keys with the matching code
/// names.
pub proof fn law_named_keys()
    ensures
        key_code_for(seq!['s', 'p', 'a', 'c', 'e']) matches Some(k) && code_name(k) == seq!['S', 'p', 'a', 'c', 'e'],
        key_code_for(seq!['e', 'n', 't', 'e', 'r']) matches Some(k) && code_name(k) == seq!['E', 'n', 't', 'e', 'r'],
        key_code_for(seq!['t', 'a', 'b']) matches Some(k) && code_name(k) == seq!['T', 'a', 'b'],
        key_code_for(seq!['e', 's', 'c', 'a', 'p', 'e']) matches Some(k) && code_name(k) == seq!['E', 's', 'c', 'a', 'p', 'e'],
        key_code_for(seq!['e', 's', 'c']) matches Some(k) && code_name(k) == seq!['E', 's', 'c', 'a', 'p', 'e'],
        key_code_for(seq!['b', 'a', 'c', 'k', 's', 'p', 'a', 'c', 'e']) matches Some(k) && code_name(k) == seq!['B', 'a', 'c', 'k', 's', 'p', 'a', 'c', 'e'],
        key_code_for(seq!['d', 'e', 'l', 'e', 't', 'e']) matches Some(k) && code_name(k) == seq!['D', 'e', 'l', 'e', 't', 'e'],
        key_code_for(seq!['h', 'o', 'm', 'e']) matches Some(k) && code_name(k) == seq!['H', 'o', 'm', 'e'],
        key_code_for(seq!['e', 'n', 'd']) matches Some(k) && code_name(k) == seq!['E', 'n', 'd'],
        key_code_for(seq!['p', 'a', 'g', 'e', 'u', 'p']) matches Some(k) && code_name(k) == seq!['P', 'a', 'g', 'e', 'U', 'p'],
        key_code_for(seq!['p', 'a', 'g', 'e', 'd', 'o', 'w', 'n']) matches Some(k) && code_name(k) == seq!['P', 'a', 'g', 'e', 'D', 'o', 'w', 'n'],
        key_code_for(seq!['u', 'p']) matches Some(k) && code_name(k) == seq!['A', 'r', 'r', 'o', 'w', 'U', 'p'],
        key_code_for(seq!['d', 'o', 'w', 'n']) matches Some(k) && code_name(k) == seq!['A', 'r', 'r', 'o', 'w', 'D', 'o', 'w', 'n'],
        key_code_for(seq!['l', 'e', 'f', 't']) matches Some(k) && code_name(k) == seq!['A', 'r', 'r', 'o', 'w', 'L', 'e', 'f', 't'],
        key_code_for(seq!['r', 'i', 'g', 'h', 't']) matches Some(k) && code_name(k) == seq!['A', 'r', 'r', 'o', 'w', 'R', 'i', 'g', 'h', 't'],
{
    reveal_strlit("space");
    assert("space"@ =~= seq!['s', 'p', 'a', 'c', 'e']);
    reveal_strlit("enter");
    assert("enter"@ =~= seq!['e', 'n', 't', 'e', 'r']);
    reveal_strlit("tab");
    assert("tab"@ =~= seq!['t', 'a', 'b']);
    reveal_strlit("escape");
    assert("escape"@ =~= seq!['e', 's', 'c', 'a', 'p', 'e']);
    reveal_strlit("esc");
    assert("esc"@ =~= seq!['e', 's', 'c']);
    reveal_strlit("backspace");
    assert("backspace"@ =~= seq!['b', 'a', 'c', 'k', 's', 'p', 'a', 'c', 'e']);
    reveal_strlit("delete");
    assert("delete"@ =~= seq!['d', 'e', 'l', 'e', 't', 'e']);
    reveal_strlit("home");
    assert("home"@ =~= seq!['h', 'o', 'm', 'e']);
    reveal_strlit("end");
    assert("end"@ =~= seq!['e', 'n', 'd']);
    reveal_strlit("pageup");
    assert("pageup"@ =~= seq!['p', 'a', 'g', 'e', 'u', 'p']);
    reveal_strlit("pagedown");
    assert("pagedown"@ =~= seq!['p', 'a', 'g', 'e', 'd', 'o', 'w', 'n']);
    reveal_strlit("up");
    assert("up"@ =~= seq!['u', 'p']);
    reveal_strlit("down");
    assert("down"@ =~= seq!['d', 'o', 'w', 'n']);
    reveal_strlit("left");
    assert("left"@ =~= seq!['l', 'e', 'f', 't']);
    reveal_strlit("right");
    assert("right"@ =~= seq!['r', 'i', 'g', 'h', 't']);
    reveal_strlit("f1");
    assert("f1"@ =~= seq!['f', '1']);
    reveal_strlit("f2");
    assert("f2"@ =~= seq!['f', '2']);
    reveal_strlit("f3");
    assert("f3"@ =~= seq!['f', '3']);
    reveal_strlit("f4");
    assert("f4"@ =~= seq!['f', '4']);
    reveal_strlit("f5");
    assert("f5"@ =~= seq!['f', '5']);
    reveal_strlit("f6");
    assert("f6"@ =~= seq!['f', '6']);
    reveal_strlit("f7");
    assert("f7"@ =~= seq!['f', '7']);
    reveal_strlit("f8");
    assert("f8"@ =~= seq!['f', '8']);
    reveal_strlit("f9");
    assert("f9"@ =~= seq!['f', '9']);
    reveal_strlit("f10");
    assert("f10"@ =~= seq!['f', '1', '0']);
    reveal_strlit("f11");
    assert("f11"@ =~= seq!['f', '1', '1']);
    reveal_strlit("f12");
    assert("f12"@ =~= seq!['f', '1', '2']);
    reveal_strlit("0");
    assert("0"@ =~= seq!['0']);
    reveal_strlit("1");
    assert("1"@ =~= seq!['1']);
    reveal_strlit("2");
    assert("2"@ =~= seq!['2']);
    reveal_strlit("3");
    assert("3"@ =~= seq!['3']);
    reveal_strlit("4");
    assert("4"@ =~= seq!['4']);
    reveal_strlit("5");
    assert("5"@ =~= seq!['5']);
    reveal_strlit("6");
    assert("6"@ =~= seq!['6']);
    reveal_strlit("7");
    assert("7"@ =~= seq!['7']);
    reveal_strlit("8");
    assert("8"@ =~= seq!['8']);
    reveal_strlit("9");
    assert("9"@ =~= seq!['9']);
    reveal_strlit("a");
    assert("a"@ =~= seq!['a']);
    reveal_strlit("b");
    assert("b"@ =~= seq!['b']);
    reveal_strlit("c");
    assert("c"@ =~= seq!['c']);
    reveal_strlit("d");
    assert("d"@ =~= seq!['d']);
    reveal_strlit("e");
    assert("e"@ =~= seq!['e']);
    reveal_strlit("f");
    assert("f"@ =~= seq!['f']);
    reveal_strlit("g");
    assert("g"@ =~= seq!['g']);
    reveal_strlit("h");
    assert("h"@ =~= seq!['h']);
    reveal_strlit("i");
    assert("i"@ =~= seq!['i']);
    reveal_strlit("j");
    assert("j"@ =~= seq!['j']);
    reveal_strlit("k");
    assert("k"@ =~= seq!['k']);
    reveal_strlit("l");
    assert("l"@ =~= seq!['l']);
    reveal_strlit("m");
    assert("m"@ =~= seq!['m']);
    reveal_strlit("n");
    assert("n"@ =~= seq!['n']);
    reveal_strlit("o");
    assert("o"@ =~= seq!['o']);
    reveal_strlit("p");
    assert("p"@ =~= seq!['p']);
    reveal_strlit("q");
    assert("q"@ =~= seq!['q']);
    reveal_strlit("r");
    assert("r"@ =~= seq!['r']);
    reveal_strlit("s");
    assert("s"@ =~= seq!['s']);
    reveal_strlit("t");
    assert("t"@ =~= seq!['t']);
    reveal_strlit("u");
    assert("u"@ =~= seq!['u']);
    reveal_strlit("v");
    assert("v"@ =~= seq!['v']);
    reveal_strlit("w");
    assert("w"@ =~= seq!['w']);
    reveal_strlit("x");
    assert("x"@ =~= seq!['x']);
    reveal_strlit("y");
    assert("y"@ =~= seq!['y']);
    reveal_strlit("z");
    assert("z"@ =~= seq!['z']);
    reveal_strlit("ArrowDown");
    assert("ArrowDown"@ =~= seq!['A', 'r', 'r', 'o', 'w', 'D', 'o', 'w', 'n']);
    reveal_strlit("ArrowLeft");
    assert("ArrowLeft"@ =~= seq!['A', 'r', 'r', 'o', 'w', 'L', 'e', 'f', 't']);
    reveal_strlit("ArrowRight");
    assert("ArrowRight"@ =~= seq!['A', 'r', 'r', 'o', 'w', 'R', 'i', 'g', 'h', 't']);
    reveal_strlit("ArrowUp");
    assert("ArrowUp"@ =~= seq!['A', 'r', 'r', 'o', 'w', 'U', 'p']);
    reveal_strlit("Backspace");
    assert("Backspace"@ =~= seq!['B', 'a', 'c', 'k', 's', 'p', 'a', 'c', 'e']);
    reveal_strlit("Delete");
    assert("Delete"@ =~= seq!['D', 'e', 'l', 'e', 't', 'e']);
    reveal_strlit("End");
    assert("End"@ =~= seq!['E', 'n', 'd']);
    reveal_strlit("Enter");
    assert("Enter"@ =~= seq!['E', 'n', 't', 'e', 'r']);
    reveal_strlit("Escape");
    assert("Escape"@ =~= seq!['E', 's', 'c', 'a', 'p', 'e']);
    reveal_strlit("Home");
    assert("Home"@ =~= seq!['H', 'o', 'm', 'e']);
    reveal_strlit("PageDown");
    assert("PageDown"@ =~= seq!['P', 'a', 'g', 'e', 'D', 'o', 'w', 'n']);
    reveal_strlit("PageUp");
    assert("PageUp"@ =~= seq!['P', 'a', 'g', 'e', 'U', 'p']);
    reveal_strlit("Space");
    assert("Space"@ =~= seq!['S', 'p', 'a', 'c', 'e']);
    reveal_strlit("Tab");
    assert("Tab"@ =~= seq!['T', 'a', 'b']);
    assert(seq!['s', 'p', 'a', 'c', 'e'].len() == 5 && seq!['s', 'p', 'a', 'c', 'e'][0] == 's' && seq!['s', 'p', 'a', 'c', 'e'][1] == 'p' && seq!['s', 'p', 'a', 'c', 'e'][2] == 'a' && seq!['s', 'p', 'a', 'c', 'e'][3] == 'c' && seq!['s', 'p', 'a', 'c', 'e'][4] == 'e');
    assert(seq!['e', 'n', 't', 'e', 'r'].len() == 5 && seq!['e', 'n', 't', 'e', 'r'][0] == 'e' && seq!['e', 'n', 't', 'e', 'r'][1] == 'n' && seq!['e', 'n', 't', 'e', 'r'][2] == 't' && seq!['e', 'n', 't', 'e', 'r'][3] == 'e' && seq!['e', 'n', 't', 'e', 'r'][4] == 'r');
    assert(seq!['t', 'a', 'b'].len() == 3 && seq!['t', 'a', 'b'][0] == 't' && seq!['t', 'a', 'b'][1] == 'a' && seq!['t', 'a', 'b'][2] == 'b');
    assert(seq!['e', 's', 'c', 'a', 'p', 'e'].len() == 6 && seq!['e', 's', 'c', 'a', 'p', 'e'][0] == 'e' && seq!['e', 's', 'c', 'a', 'p', 'e'][1] == 's' && seq!['e', 's', 'c', 'a', 'p', 'e'][2] == 'c' && seq!['e', 's', 'c', 'a', 'p', 'e'][3] == 'a' && seq!['e', 's', 'c', 'a', 'p', 'e'][4] == 'p' && seq!['e', 's', 'c', 'a', 'p', 'e'][5] == 'e');
    assert(seq!['e', 's', 'c'].len() == 3 && seq!['e', 's', 'c'][0] == 'e' && seq!['e', 's', 'c'][1] == 's' && seq!['e', 's', 'c'][2] == 'c');
    assert(seq!['b', 'a', 'c', 'k', 's', 'p', 'a', 'c', 'e'].len() == 9 && seq!['b', 'a', 'c', 'k', 's', 'p', 'a', 'c', 'e'][0] == 'b' && seq!['b', 'a', 'c', 'k', 's', 'p', 'a', 'c', 'e'][1] == 'a' && seq!['b', 'a', 'c', 'k', 's', 'p', 'a', 'c', 'e'][2] == 'c' && seq!['b', 'a', 'c', 'k', 's', 'p', 'a', 'c', 'e'][3] == 'k' && seq!['b', 'a', 'c', 'k', 's', 'p', 'a', 'c', 'e'][4] == 's' && seq!['b', 'a', 'c', 'k', 's', 'p', 'a', 'c', 'e'][5] == 'p' && seq!['b', 'a', 'c', 'k', 's', 'p', 'a', 'c', 'e'][6] == 'a' && seq!['b', 'a', 'c', 'k', 's', 'p', 'a', 'c', 'e'][7] == 'c' && seq!['b', 'a', 'c', 'k', 's', 'p', 'a', 'c', 'e'][8] == 'e');
    assert(seq!['d', 'e', 'l', 'e', 't', 'e'].len() == 6 && seq!['d', 'e', 'l', 'e', 't', 'e'][0] == 'd' && seq!['d', 'e', 'l', 'e', 't', 'e'][1] == 'e' && seq!['d', 'e', 'l', 'e', 't', 'e'][2] == 'l' && seq!['d', 'e', 'l', 'e', 't', 'e'][3] == 'e' && seq!['d', 'e', 'l', 'e', 't', 'e'][4] == 't' && seq!['d', 'e', 'l', 'e', 't', 'e'][5] == 'e');
    assert(seq!['h', 'o', 'm', 'e'].len() == 4 && seq!['h', 'o', 'm', 'e'][0] == 'h' && seq!['h', 'o', 'm', 'e'][1] == 'o' && seq!['h', 'o', 'm', 'e'][2] == 'm' && seq!['h', 'o', 'm', 'e'][3] == 'e');
    assert(seq!['e', 'n', 'd'].len() == 3 && seq!['e', 'n', 'd'][0] == 'e' && seq!['e', 'n', 'd'][1] == 'n' && seq!['e', 'n', 'd'][2] == 'd');
    assert(seq!['p', 'a', 'g', 'e', 'u', 'p'].len() == 6 && seq!['p', 'a', 'g', 'e', 'u', 'p'][0] == 'p' && seq!['p', 'a', 'g', 'e', 'u', 'p'][1] == 'a' && seq!['p', 'a', 'g', 'e', 'u', 'p'][2] == 'g' && seq!['p', 'a', 'g', 'e', 'u', 'p'][3] == 'e' && seq!['p', 'a', 'g', 'e', 'u', 'p'][4] == 'u' && seq!['p', 'a', 'g', 'e', 'u', 'p'][5] == 'p');
    assert(seq!['p', 'a', 'g', 'e', 'd', 'o', 'w', 'n'].len() == 8 && seq!['p', 'a', 'g', 'e', 'd', 'o', 'w', 'n'][0] == 'p' && seq!['p', 'a', 'g', 'e', 'd', 'o', 'w', 'n'][1] == 'a' && seq!['p', 'a', 'g', 'e', 'd', 'o', 'w', 'n'][2] == 'g' && seq!['p', 'a', 'g', 'e', 'd', 'o', 'w', 'n'][3] == 'e' && seq!['p', 'a', 'g', 'e', 'd', 'o', 'w', 'n'][4] == 'd' && seq!['p', 'a', 'g', 'e', 'd', 'o', 'w', 'n'][5] == 'o' && seq!['p', 'a', 'g', 'e', 'd', 'o', 'w', 'n'][6] == 'w' && seq!['p', 'a', 'g', 'e', 'd', 'o', 'w', 'n'][7] == 'n');
    assert(seq!['u', 'p'].len() == 2 && seq!['u', 'p'][0] == 'u' && seq!['u', 'p'][1] == 'p');
    assert(seq!['d', 'o', 'w', 'n'].len() == 4 && seq!['d', 'o', 'w', 'n'][0] == 'd' && seq!['d', 'o', 'w', 'n'][1] == 'o' && seq!['d', 'o', 'w', 'n'][2] == 'w' && seq!['d', 'o', 'w', 'n'][3] == 'n');
    assert(seq!['l', 'e', 'f', 't'].len() == 4 && seq!['l', 'e', 'f', 't'][0] == 'l' && seq!['l', 'e', 'f', 't'][1] == 'e' && seq!['l', 'e', 'f', 't'][2] == 'f' && seq!['l', 'e', 'f', 't'][3] == 't');
    assert(seq!['r', 'i', 'g', 'h', 't'].len() == 5 && seq!['r', 'i', 'g', 'h', 't'][0] == 'r' && seq!['r', 'i', 'g', 'h', 't'][1] == 'i' && seq!['r', 'i', 'g', 'h', 't'][2] == 'g' && seq!['r', 'i', 'g', 'h', 't'][3] == 'h' && seq!['r', 'i', 'g', 'h', 't'][4] == 't');
}

} // verus!
