//! Hotkeys: parsing a hotkey description such as `F14`, `Alt+C` or
//! `Ctrl+F13`, and deciding, event by event, when the global keyboard
//! listener has seen the hotkey.

use vstd::prelude::*;

use crate::text::{
    ascii_upper, decimal, decimal_string, eq_ignore_ascii_case, is_ascii_letter, is_white_space,
    lemma_decimal_digits, lemma_decimal_injective, lemma_decimal_roundtrip, lemma_split_concat, lemma_split_on_nonempty,
    lemma_split_without_sep, lemma_trim_unchanged, split_on, split_str,
    str_eq_ignore_ascii_case, to_ascii_upper, trim, trim_end, trim_start, trim_str,
};

verus! {

/// A physical key, as the keyboard listener reports it (QWERTY names);
/// keys without a name of their own carry their platform code in `Unknown`.
#[derive(Debug, Copy, Clone, PartialEq, Eq, Hash, Structural)]
pub enum Key {
    Alt,
    AltGr,
    Backspace,
    CapsLock,
    ControlLeft,
    ControlRight,
    Delete,
    DownArrow,
    End,
    Escape,
    F1,
    F10,
    F11,
    F12,
    F2,
    F3,
    F4,
    F5,
    F6,
    F7,
    F8,
    F9,
    Home,
    LeftArrow,
    MetaLeft,
    MetaRight,
    PageDown,
    PageUp,
    Return,
    RightArrow,
    ShiftLeft,
    ShiftRight,
    Space,
    Tab,
    UpArrow,
    PrintScreen,
    ScrollLock,
    Pause,
    NumLock,
    BackQuote,
    Num1,
    Num2,
    Num3,
    Num4,
    Num5,
    Num6,
    Num7,
    Num8,
    Num9,
    Num0,
    Minus,
    Equal,
    KeyQ,
    KeyW,
    KeyE,
    KeyR,
    KeyT,
    KeyY,
    KeyU,
    KeyI,
    KeyO,
    KeyP,
    LeftBracket,
    RightBracket,
    KeyA,
    KeyS,
    KeyD,
    KeyF,
    KeyG,
    KeyH,
    KeyJ,
    KeyK,
    KeyL,
    SemiColon,
    Quote,
    BackSlash,
    IntlBackslash,
    KeyZ,
    KeyX,
    KeyC,
    KeyV,
    KeyB,
    KeyN,
    KeyM,
    Comma,
    Dot,
    Slash,
    Insert,
    KpReturn,
    KpMinus,
    KpPlus,
    KpMultiply,
    KpDivide,
    Kp0,
    Kp1,
    Kp2,
    Kp3,
    Kp4,
    Kp5,
    Kp6,
    Kp7,
    Kp8,
    Kp9,
    KpDelete,
    Function,
    Unknown(u32),
}

/// What the listener reports to the compression loop.
#[derive(Debug, Clone, Copy, PartialEq, Eq, Structural)]
pub enum HotkeyEvent {
    Triggered,
}

/// A parsed hotkey: the key, and the modifiers that must be held with it.
#[derive(Debug, Clone, Copy, PartialEq, Eq, Structural)]
pub struct HotkeySpec {
    pub key: Key,
    pub require_alt: bool,
    pub require_ctrl: bool,
}

/// The key of function key `F<n>` (`1 <= n <= 24`). F13 to F24 have no
/// name of their own: they are reported by their virtual key codes 124 to 135.
pub open spec fn function_key(n: nat) -> Key {
    if n == 1 {
        Key::F1
    } else if n == 2 {
        Key::F2
    } else if n == 3 {
        Key::F3
    } else if n == 4 {
        Key::F4
    } else if n == 5 {
        Key::F5
    } else if n == 6 {
        Key::F6
    } else if n == 7 {
        Key::F7
    } else if n == 8 {
        Key::F8
    } else if n == 9 {
        Key::F9
    } else if n == 10 {
        Key::F10
    } else if n == 11 {
        Key::F11
    } else if n == 12 {
        Key::F12
    } else {
        Key::Unknown((111 + n) as u32)
    }
}

/// `name` is `F` followed by the decimal digits of `n`, for `1 <= n <= 24`.
pub open spec fn names_function_key(name: Seq<char>, n: nat) -> bool {
    1 <= n <= 24 && name == seq!['F'] + decimal(n)
}

/// The key the listener reports for the upper-case ASCII letter `c`
/// (QWERTY names `KeyA` to `KeyZ`).
pub open spec fn letter_key(c: char) -> Key {
    if c == 'A' {
        Key::KeyA
    } else if c == 'B' {
        Key::KeyB
    } else if c == 'C' {
        Key::KeyC
    } else if c == 'D' {
        Key::KeyD
    } else if c == 'E' {
        Key::KeyE
    } else if c == 'F' {
        Key::KeyF
    } else if c == 'G' {
        Key::KeyG
    } else if c == 'H' {
        Key::KeyH
    } else if c == 'I' {
        Key::KeyI
    } else if c == 'J' {
        Key::KeyJ
    } else if c == 'K' {
        Key::KeyK
    } else if c == 'L' {
        Key::KeyL
    } else if c == 'M' {
        Key::KeyM
    } else if c == 'N' {
        Key::KeyN
    } else if c == 'O' {
        Key::KeyO
    } else if c == 'P' {
        Key::KeyP
    } else if c == 'Q' {
        Key::KeyQ
    } else if c == 'R' {
        Key::KeyR
    } else if c == 'S' {
        Key::KeyS
    } else if c == 'T' {
        Key::KeyT
    } else if c == 'U' {
        Key::KeyU
    } else if c == 'V' {
        Key::KeyV
    } else if c == 'W' {
        Key::KeyW
    } else if c == 'X' {
        Key::KeyX
    } else if c == 'Y' {
        Key::KeyY
    } else if c == 'Z' {
        Key::KeyZ
    } else {
        Key::Unknown(c as u32)
    }
}

fn letter_key_exec(c: char) -> (k: Key)
    ensures
        k == letter_key(c),
{
    match c {
        'A' => Key::KeyA,
        'B' => Key::KeyB,
        'C' => Key::KeyC,
        'D' => Key::KeyD,
        'E' => Key::KeyE,
        'F' => Key::KeyF,
        'G' => Key::KeyG,
        'H' => Key::KeyH,
        'I' => Key::KeyI,
        'J' => Key::KeyJ,
        'K' => Key::KeyK,
        'L' => Key::KeyL,
        'M' => Key::KeyM,
        'N' => Key::KeyN,
        'O' => Key::KeyO,
        'P' => Key::KeyP,
        'Q' => Key::KeyQ,
        'R' => Key::KeyR,
        'S' => Key::KeyS,
        'T' => Key::KeyT,
        'U' => Key::KeyU,
        'V' => Key::KeyV,
        'W' => Key::KeyW,
        'X' => Key::KeyX,
        'Y' => Key::KeyY,
        'Z' => Key::KeyZ,
        _ => Key::Unknown(c as u32),
    }
}

/// The key that a key name stands for: `F1` to `F24`, or a single ASCII
/// letter (either case), which stands for the letter's key.
pub open spec fn key_for_name(name: Seq<char>) -> Option<Key> {
    if exists|n: nat| names_function_key(name, n) {
        Some(function_key(choose|n: nat| names_function_key(name, n)))
    } else if name.len() == 1 && is_ascii_letter(name[0]) {
        Some(letter_key(ascii_upper(name[0])))
    } else {
        None
    }
}

/// A key name names at most one function key.
pub proof fn lemma_function_key_name_unique(name: Seq<char>, a: nat, b: nat)
    requires
        names_function_key(name, a),
        names_function_key(name, b),
    ensures
        a == b,
{
    assert(decimal(a) =~= name.subrange(1, name.len() as int));
    assert(decimal(b) =~= name.subrange(1, name.len() as int));
    lemma_decimal_injective(a, b);
}

fn function_key_exec(n: u32) -> (k: Key)
    requires
        1 <= n <= 24,
    ensures
        k == function_key(n as nat),
{
    match n {
        1 => Key::F1,
        2 => Key::F2,
        3 => Key::F3,
        4 => Key::F4,
        5 => Key::F5,
        6 => Key::F6,
        7 => Key::F7,
        8 => Key::F8,
        9 => Key::F9,
        10 => Key::F10,
        11 => Key::F11,
        12 => Key::F12,
        _ => Key::Unknown(111 + n),
    }
}

/// The key that `name` stands for, if any.
pub fn parse_key(name: &str) -> (k: Option<Key>)
    ensures
        k == key_for_name(name@),
{
    let name_s = String::from_str(name);
    let mut n: u32 = 1;
    while n <= 24
        invariant
            1 <= n <= 25,
            name_s@ == name@,
            forall|m: nat| 1 <= m < n ==> !names_function_key(name@, m),
        decreases 25 - n,
    {
        let mut candidate = String::from_str("F");
        let digits = decimal_string(n);
        candidate.append(digits.as_str());
        proof {
            reveal_strlit("F");
            assert(candidate@ =~= seq!['F'] + decimal(n as nat));
        }
        if candidate == name_s {
            proof {
                assert(names_function_key(name@, n as nat));
                let m = choose|m: nat| names_function_key(name@, m);
                lemma_function_key_name_unique(name@, m, n as nat);
            }
            return Some(function_key_exec(n));
        }
        n = n + 1;
    }
    proof {
        assert forall|m: nat| !names_function_key(name@, m) by {
            if 1 <= m < 25 {
            }
        }
    }
    if name.unicode_len() == 1 {
        let c = name.get_char(0);
        let v = c as u32;
        if (65 <= v && v <= 90) || (97 <= v && v <= 122) {
            return Some(letter_key_exec(to_ascii_upper(c)));
        }
    }
    None
}

/// Some piece of `parts` other than the last equals `name`, ignoring ASCII case.
pub open spec fn modifier_named(parts: Seq<Seq<char>>, name: Seq<char>) -> bool {
    exists|i: int| 0 <= i < parts.len() - 1 && eq_ignore_ascii_case(#[trigger] parts[i], name)
}

/// The hotkey that a description stands for. The description is split at
/// `+`; the last piece, trimmed of whitespace, names the key, and the
/// pieces before it name modifiers (`alt`, `ctrl`, in any ASCII case; other
/// pieces are ignored).
pub open spec fn parse_hotkey(s: Seq<char>) -> Option<HotkeySpec> {
    let parts = split_on(s, '+');
    match key_for_name(trim(parts.last())) {
        Some(key) => Some(
            HotkeySpec {
                key,
                require_alt: modifier_named(parts, "alt"@),
                require_ctrl: modifier_named(parts, "ctrl"@),
            },
        ),
        None => None,
    }
}

impl HotkeySpec {
    /// Parses a hotkey description such as `F14`, `Alt+C` or `Ctrl+F13`.
    pub fn parse(spec: &str) -> (r: Option<Self>)
        ensures
            r == parse_hotkey(spec@),
    {
        let parts = split_str(spec, '+');
        proof {
            lemma_split_on_nonempty(spec@, '+');
        }
        let last = parts.len() - 1;
        let key_name = trim_str(parts[last]);
        let key = match parse_key(key_name) {
            Some(k) => k,
            None => {
                return None;
            },
        };
        let ghost pieces = split_on(spec@, '+');
        let mut require_alt = false;
        let mut require_ctrl = false;
        let mut i: usize = 0;
        while i < last
            invariant
                last + 1 == parts@.len(),
                parts@.len() == pieces.len(),
                pieces == split_on(spec@, '+'),
                forall|k: int| 0 <= k < parts@.len() ==> #[trigger] parts@[k]@ == pieces[k],
                i <= last,
                require_alt == exists|j: int|
                    0 <= j < i && eq_ignore_ascii_case(#[trigger] pieces[j], "alt"@),
                require_ctrl == exists|j: int|
                    0 <= j < i && eq_ignore_ascii_case(#[trigger] pieces[j], "ctrl"@),
            decreases last - i,
        {
            assert(parts@[i as int]@ == pieces[i as int]);
            if str_eq_ignore_ascii_case(parts[i], "alt") {
                require_alt = true;
            }
            if str_eq_ignore_ascii_case(parts[i], "ctrl") {
                require_ctrl = true;
            }
            i = i + 1;
        }
        assert(parts@[last as int]@ == pieces.last());
        Some(HotkeySpec { key, require_alt, require_ctrl })
    }
}

/// `F1` to `F24` each parse as their function key, with no modifier.
pub proof fn lemma_parse_function_key(n: nat)
    requires
        1 <= n <= 24,
    ensures
        parse_hotkey(seq!['F'] + decimal(n)) == Some(
            HotkeySpec { key: function_key(n), require_alt: false, require_ctrl: false },
        ),
{
    let name = seq!['F'] + decimal(n);
    lemma_decimal_digits(n);
    lemma_decimal_roundtrip(n);
    assert(!name.contains('+')) by {
        if name.contains('+') {
            let i = choose|i: int| 0 <= i < name.len() && name[i] == '+';
            if i > 0 {
                assert(name[i] == decimal(n)[i - 1]);
            }
        }
    }
    lemma_split_without_sep(name, '+');
    assert(name.last() == decimal(n)[decimal(n).len() - 1]);
    lemma_trim_unchanged(name);
    assert(names_function_key(name, n));
    let m = choose|m: nat| names_function_key(name, m);
    lemma_function_key_name_unique(name, m, n);
    let parts = split_on(name, '+');
    assert(!modifier_named(parts, "alt"@));
    assert(!modifier_named(parts, "ctrl"@));
}

/// A description `<modifier>+<key name>` (neither part holding `+`) parses
/// as the key name's key, requiring Alt exactly when the modifier is `alt`
/// and Control exactly when it is `ctrl`, in any ASCII case.
pub proof fn lemma_parse_with_modifier(m: Seq<char>, name: Seq<char>)
    requires
        !m.contains('+'),
        !name.contains('+'),
    ensures
        parse_hotkey(m + seq!['+'] + name) == match key_for_name(trim(name)) {
            Some(key) => Some(
                HotkeySpec {
                    key,
                    require_alt: eq_ignore_ascii_case(m, "alt"@),
                    require_ctrl: eq_ignore_ascii_case(m, "ctrl"@),
                },
            ),
            None => None,
        },
{
    lemma_split_concat(m, name, '+');
    lemma_split_without_sep(m, '+');
    lemma_split_without_sep(name, '+');
    let parts = split_on(m + seq!['+'] + name, '+');
    assert(parts =~= seq![m, name]);
    if eq_ignore_ascii_case(m, "alt"@) {
        assert(eq_ignore_ascii_case(parts[0], "alt"@));
    }
    if eq_ignore_ascii_case(m, "ctrl"@) {
        assert(eq_ignore_ascii_case(parts[0], "ctrl"@));
    }
}

/// `Alt+<letter>` parses as the letter's key with Alt required, and fires
/// when the listener reports Alt and then that key.
pub proof fn lemma_alt_letter_hotkey(c: char, st: ListenerState)
    requires
        is_ascii_letter(c),
    ensures
        parse_hotkey("Alt+"@.push(c)) == Some(
            HotkeySpec { key: letter_key(ascii_upper(c)), require_alt: true, require_ctrl: false },
        ),
        ({
            let spec = HotkeySpec {
                key: letter_key(ascii_upper(c)),
                require_alt: true,
                require_ctrl: false,
            };
            let press = InputEvent::KeyPress(spec.key);
            fires(
                after_event(after_event(st, InputEvent::KeyPress(Key::Alt)), press),
                spec,
                press,
            )
        }),
{
    reveal_strlit("Alt+");
    reveal_strlit("alt");
    reveal_strlit("ctrl");
    let m = seq!['A', 'l', 't'];
    let name = seq![c];
    assert("Alt+"@.push(c) =~= m + seq!['+'] + name);
    assert(!m.contains('+')) by {
        if m.contains('+') {
            let i = choose|i: int| 0 <= i < m.len() && m[i] == '+';
        }
    }
    assert(!name.contains('+')) by {
        if name.contains('+') {
            let i = choose|i: int| 0 <= i < name.len() && name[i] == '+';
        }
    }
    lemma_parse_with_modifier(m, name);
    lemma_trim_unchanged(name);
    assert forall|n: nat| !names_function_key(name, n) by {
        lemma_decimal_roundtrip(n);
        if names_function_key(name, n) {
            assert((seq!['F'] + decimal(n)).len() >= 2);
        }
    }
    assert(eq_ignore_ascii_case(m, "alt"@));
    assert(!eq_ignore_ascii_case(m, "ctrl"@));
    let key = letter_key(ascii_upper(c));
    assert(!is_alt_key(key));
}

/// An event of the global input listener: a key going down or up, or
/// anything else (pointer movement, buttons, wheel).
#[derive(Debug, Clone, Copy, PartialEq, Eq, Structural)]
pub enum InputEvent {
    KeyPress(Key),
    KeyRelease(Key),
    Other,
}

/// Whether an Alt key and whether a Control key is currently held down, as
/// far as the listener has seen.
#[derive(Debug, Clone, Copy, PartialEq, Eq, Structural)]
pub struct ListenerState {
    pub alt_down: bool,
    pub ctrl_down: bool,
}

/// `k` is one of the Alt keys.
pub open spec fn is_alt_key(k: Key) -> bool {
    k == Key::Alt || k == Key::AltGr
}

/// `k` is one of the Control keys.
pub open spec fn is_ctrl_key(k: Key) -> bool {
    k == Key::ControlLeft || k == Key::ControlRight
}

/// The modifier state after an event: pressing an Alt (Control) key marks
/// Alt (Control) as held, releasing one marks it as released; nothing else
/// changes the state.
pub open spec fn after_event(st: ListenerState, ev: InputEvent) -> ListenerState {
    match ev {
        InputEvent::KeyPress(k) => if is_alt_key(k) {
            ListenerState { alt_down: true, ctrl_down: st.ctrl_down }
        } else if is_ctrl_key(k) {
            ListenerState { alt_down: st.alt_down, ctrl_down: true }
        } else {
            st
        },
        InputEvent::KeyRelease(k) => if is_alt_key(k) {
            ListenerState { alt_down: false, ctrl_down: st.ctrl_down }
        } else if is_ctrl_key(k) {
            ListenerState { alt_down: st.alt_down, ctrl_down: false }
        } else {
            st
        },
        InputEvent::Other => st,
    }
}

/// The hotkey fires on `ev`, with `st` the modifier state after `ev`: `ev`
/// presses the hotkey's key while every modifier it requires is held.
pub open spec fn fires(st: ListenerState, spec: HotkeySpec, ev: InputEvent) -> bool {
    &&& ev matches InputEvent::KeyPress(k) && k == spec.key
    &&& spec.require_alt ==> st.alt_down
    &&& spec.require_ctrl ==> st.ctrl_down
}

/// The pressed key is the hotkey's key.
pub fn keys_match(pressed: &Key, target: &Key) -> (r: bool)
    ensures
        r == (*pressed == *target),
{
    match (pressed, target) {
        (Key::Unknown(a), Key::Unknown(b)) => *a == *b,
        _ => *pressed == *target,
    }
}

impl ListenerState {
    /// No modifier held.
    pub fn new() -> (st: Self)
        ensures
            !st.alt_down,
            !st.ctrl_down,
    {
        ListenerState { alt_down: false, ctrl_down: false }
    }

    /// Takes in one listener event; returns whether the hotkey fires on it.
    pub fn on_event(&mut self, spec: &HotkeySpec, event: &InputEvent) -> (fired: bool)
        ensures
            *final(self) == after_event(*old(self), *event),
            fired == fires(*final(self), *spec, *event),
    {
        match event {
            InputEvent::KeyPress(key) => {
                match key {
                    Key::Alt | Key::AltGr => self.alt_down = true,
                    Key::ControlLeft | Key::ControlRight => self.ctrl_down = true,
                    _ => {},
                }
                let modifiers_ok = (!spec.require_alt || self.alt_down) && (!spec.require_ctrl
                    || self.ctrl_down);
                modifiers_ok && keys_match(key, &spec.key)
            },
            InputEvent::KeyRelease(key) => {
                match key {
                    Key::Alt | Key::AltGr => self.alt_down = false,
                    Key::ControlLeft | Key::ControlRight => self.ctrl_down = false,
                    _ => {},
                }
                false
            },
            InputEvent::Other => false,
        }
    }
}

/// A hotkey without modifiers fires whenever its key is pressed, whatever
/// the modifier state.
pub proof fn lemma_plain_hotkey_always_fires(st: ListenerState, spec: HotkeySpec)
    requires
        !spec.require_alt,
        !spec.require_ctrl,
    ensures
        fires(
            after_event(st, InputEvent::KeyPress(spec.key)),
            spec,
            InputEvent::KeyPress(spec.key),
        ),
{
}

/// Once Alt and Control are both pressed (in either order), pressing the
/// hotkey's key fires it, whatever modifiers it requires.
pub proof fn lemma_held_modifiers_fire(st: ListenerState, spec: HotkeySpec, alt: Key, ctrl: Key)
    requires
        is_alt_key(alt),
        is_ctrl_key(ctrl),
    ensures
        ({
            let held = after_event(
                after_event(st, InputEvent::KeyPress(alt)),
                InputEvent::KeyPress(ctrl),
            );
            fires(
                after_event(held, InputEvent::KeyPress(spec.key)),
                spec,
                InputEvent::KeyPress(spec.key),
            )
        }),
        ({
            let held = after_event(
                after_event(st, InputEvent::KeyPress(ctrl)),
                InputEvent::KeyPress(alt),
            );
            fires(
                after_event(held, InputEvent::KeyPress(spec.key)),
                spec,
                InputEvent::KeyPress(spec.key),
            )
        }),
{
}

/// After an Alt key is released, a hotkey that requires Alt does not fire
/// on a press of any key other than an Alt key.
pub proof fn lemma_released_alt_blocks(st: ListenerState, spec: HotkeySpec, alt: Key, k: Key)
    requires
        spec.require_alt,
        is_alt_key(alt),
        !is_alt_key(k),
    ensures
        ({
            let st2 = after_event(after_event(st, InputEvent::KeyRelease(alt)), InputEvent::KeyPress(k));
            !fires(st2, spec, InputEvent::KeyPress(k))
        }),
{
}

/// After a Control key is released, a hotkey that requires Control does not
/// fire on a press of any key other than a Control key.
pub proof fn lemma_released_ctrl_blocks(st: ListenerState, spec: HotkeySpec, ctrl: Key, k: Key)
    requires
        spec.require_ctrl,
        is_ctrl_key(ctrl),
        !is_ctrl_key(k),
    ensures
        ({
            let st2 = after_event(after_event(st, InputEvent::KeyRelease(ctrl)), InputEvent::KeyPress(k));
            !fires(st2, spec, InputEvent::KeyPress(k))
        }),
{
}

/// Key releases and non-key events never fire a hotkey, and non-key events
/// leave the modifier state as it was.
pub proof fn lemma_only_presses_fire(st: ListenerState, spec: HotkeySpec, k: Key)
    ensures
        !fires(after_event(st, InputEvent::KeyRelease(k)), spec, InputEvent::KeyRelease(k)),
        !fires(after_event(st, InputEvent::Other), spec, InputEvent::Other),
        after_event(st, InputEvent::Other) == st,
{
}

/// The letter printed on a letter key of a QWERTY keyboard (`KeyA` is the
/// A key, and so on); nothing for other keys.
pub open spec fn key_letter(k: Key) -> Option<char> {
    if k == Key::KeyA {
        Some('A')
    } else if k == Key::KeyB {
        Some('B')
    } else if k == Key::KeyC {
        Some('C')
    } else if k == Key::KeyD {
        Some('D')
    } else if k == Key::KeyE {
        Some('E')
    } else if k == Key::KeyF {
        Some('F')
    } else if k == Key::KeyG {
        Some('G')
    } else if k == Key::KeyH {
        Some('H')
    } else if k == Key::KeyI {
        Some('I')
    } else if k == Key::KeyJ {
        Some('J')
    } else if k == Key::KeyK {
        Some('K')
    } else if k == Key::KeyL {
        Some('L')
    } else if k == Key::KeyM {
        Some('M')
    } else if k == Key::KeyN {
        Some('N')
    } else if k == Key::KeyO {
        Some('O')
    } else if k == Key::KeyP {
        Some('P')
    } else if k == Key::KeyQ {
        Some('Q')
    } else if k == Key::KeyR {
        Some('R')
    } else if k == Key::KeyS {
        Some('S')
    } else if k == Key::KeyT {
        Some('T')
    } else if k == Key::KeyU {
        Some('U')
    } else if k == Key::KeyV {
        Some('V')
    } else if k == Key::KeyW {
        Some('W')
    } else if k == Key::KeyX {
        Some('X')
    } else if k == Key::KeyY {
        Some('Y')
    } else if k == Key::KeyZ {
        Some('Z')
    } else {
        None
    }
}

/// A single-letter key name stands for the key of that very letter, in
/// either case: the key parsed from a letter carries that letter, so
/// different letters (ignoring case) give different keys.
pub proof fn lemma_letter_names_their_key(c: char, d: char)
    requires
        is_ascii_letter(c),
        is_ascii_letter(d),
    ensures
        key_for_name(seq![c]) is Some,
        key_letter(key_for_name(seq![c])->Some_0) == Some(ascii_upper(c)),
        (key_for_name(seq![c]) == key_for_name(seq![d])) <==> (ascii_upper(c) == ascii_upper(d)),
{
    assert forall|n: nat| !names_function_key(seq![c], n) by {
        lemma_decimal_roundtrip(n);
        if names_function_key(seq![c], n) {
            assert((seq!['F'] + decimal(n)).len() >= 2);
        }
    }
    assert forall|n: nat| !names_function_key(seq![d], n) by {
        lemma_decimal_roundtrip(n);
        if names_function_key(seq![d], n) {
            assert((seq!['F'] + decimal(n)).len() >= 2);
        }
    }
    let kc = letter_key(ascii_upper(c));
    let kd = letter_key(ascii_upper(d));
    assert(key_letter(kc) == Some(ascii_upper(c)));
    assert(key_letter(kd) == Some(ascii_upper(d)));
}

/// Releasing a key that is neither an Alt nor a Control key, or pressing
/// one, leaves the modifier state as it was.
pub proof fn lemma_other_keys_keep_modifiers(st: ListenerState, k: Key)
    requires
        !is_alt_key(k),
        !is_ctrl_key(k),
    ensures
        after_event(st, InputEvent::KeyRelease(k)) == st,
        after_event(st, InputEvent::KeyPress(k)) == st,
{
}

/// While Control is held, a Control hotkey whose key is not a modifier fires
/// on every press of its key, however often the key is released in between.
pub proof fn lemma_held_ctrl_fires_every_press(st: ListenerState, spec: HotkeySpec)
    requires
        st.ctrl_down,
        !spec.require_alt,
        !is_alt_key(spec.key),
        !is_ctrl_key(spec.key),
    ensures
        ({
            let press = InputEvent::KeyPress(spec.key);
            let release = InputEvent::KeyRelease(spec.key);
            let s1 = after_event(st, press);
            let s2 = after_event(s1, release);
            let s3 = after_event(s2, press);
            fires(s1, spec, press) && fires(s3, spec, press) && s3 == st
        }),
{
    lemma_other_keys_keep_modifiers(st, spec.key);
}

/// While Alt is held, an Alt hotkey whose key is not a modifier fires on
/// every press of its key, however often the key is released in between.
pub proof fn lemma_held_alt_fires_every_press(st: ListenerState, spec: HotkeySpec)
    requires
        st.alt_down,
        !spec.require_ctrl,
        !is_alt_key(spec.key),
        !is_ctrl_key(spec.key),
    ensures
        ({
            let press = InputEvent::KeyPress(spec.key);
            let release = InputEvent::KeyRelease(spec.key);
            let s1 = after_event(st, press);
            let s2 = after_event(s1, release);
            let s3 = after_event(s2, press);
            fires(s1, spec, press) && fires(s3, spec, press) && s3 == st
        }),
{
    lemma_other_keys_keep_modifiers(st, spec.key);
}

} // verus!
