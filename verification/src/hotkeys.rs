//! Parsing of hotkey accelerators such as `"Ctrl+Shift+F1"` or `"F1"`.

use vstd::prelude::*;
use crate::text::{
    chars_equal, chars_of, spec_split, spec_to_lowercase, spec_to_uppercase, spec_trim,
    split_chars, str_to_lowercase, str_to_uppercase, string_of, trim_chars, views_of,
};

verus! {

/// The keys an accelerator can name as its main key.
#[derive(Clone, Copy, Debug, PartialEq, Eq, Structural)]
pub enum KeyCode {
    F1,
    F2,
    F3,
    F4,
    F5,
    F6,
    F7,
    F8,
    F9,
    F10,
    F11,
    F12,
    KeyA,
    KeyB,
    KeyC,
    KeyD,
    KeyE,
    KeyF,
    KeyG,
    KeyH,
    KeyI,
    KeyJ,
    KeyK,
    KeyL,
    KeyM,
    KeyN,
    KeyO,
    KeyP,
    KeyQ,
    KeyR,
    KeyS,
    KeyT,
    KeyU,
    KeyV,
    KeyW,
    KeyX,
    KeyY,
    KeyZ,
    Digit0,
    Digit1,
    Digit2,
    Digit3,
    Digit4,
    Digit5,
    Digit6,
    Digit7,
    Digit8,
    Digit9,
    Space,
    Escape,
}

/// The modifier keys an accelerator can hold down.
#[derive(Clone, Copy, Debug, PartialEq, Eq, Structural)]
pub enum ModifierKey {
    Control,
    Shift,
    Alt,
    Meta,
}

/// A set of held-down modifier keys.
#[derive(Clone, Copy, Debug, PartialEq, Eq, Structural)]
pub struct Modifiers {
    pub control: bool,
    pub shift: bool,
    pub alt: bool,
    pub meta: bool,
}

/// A parsed accelerator: the modifiers to hold and the main key.
#[derive(Clone, Copy, Debug, PartialEq, Eq, Structural)]
pub struct Accelerator {
    pub mods: Modifiers,
    pub code: KeyCode,
}

/// The empty modifier set.
pub open spec fn no_modifiers() -> Modifiers {
    Modifiers { control: false, shift: false, alt: false, meta: false }
}

/// `m` with `k` added.
pub open spec fn spec_with_modifier(m: Modifiers, k: ModifierKey) -> Modifiers {
    match k {
        ModifierKey::Control => Modifiers { control: true, ..m },
        ModifierKey::Shift => Modifiers { shift: true, ..m },
        ModifierKey::Alt => Modifiers { alt: true, ..m },
        ModifierKey::Meta => Modifiers { meta: true, ..m },
    }
}

impl Modifiers {
    /// No modifier held.
    pub fn empty() -> (m: Modifiers)
        ensures
            m == no_modifiers(),
    {
        Modifiers { control: false, shift: false, alt: false, meta: false }
    }

    /// This set with `k` added.
    pub fn with(self, k: ModifierKey) -> (m: Modifiers)
        ensures
            m == spec_with_modifier(self, k),
    {
        match k {
            ModifierKey::Control => Modifiers { control: true, ..self },
            ModifierKey::Shift => Modifiers { shift: true, ..self },
            ModifierKey::Alt => Modifiers { alt: true, ..self },
            ModifierKey::Meta => Modifiers { meta: true, ..self },
        }
    }
}

/// The key named by an upper-case letter `'A'..='Z'`.
pub open spec fn spec_letter_key(c: char) -> KeyCode {
    if c == 'A' { KeyCode::KeyA }
    else if c == 'B' { KeyCode::KeyB }
    else if c == 'C' { KeyCode::KeyC }
    else if c == 'D' { KeyCode::KeyD }
    else if c == 'E' { KeyCode::KeyE }
    else if c == 'F' { KeyCode::KeyF }
    else if c == 'G' { KeyCode::KeyG }
    else if c == 'H' { KeyCode::KeyH }
    else if c == 'I' { KeyCode::KeyI }
    else if c == 'J' { KeyCode::KeyJ }
    else if c == 'K' { KeyCode::KeyK }
    else if c == 'L' { KeyCode::KeyL }
    else if c == 'M' { KeyCode::KeyM }
    else if c == 'N' { KeyCode::KeyN }
    else if c == 'O' { KeyCode::KeyO }
    else if c == 'P' { KeyCode::KeyP }
    else if c == 'Q' { KeyCode::KeyQ }
    else if c == 'R' { KeyCode::KeyR }
    else if c == 'S' { KeyCode::KeyS }
    else if c == 'T' { KeyCode::KeyT }
    else if c == 'U' { KeyCode::KeyU }
    else if c == 'V' { KeyCode::KeyV }
    else if c == 'W' { KeyCode::KeyW }
    else if c == 'X' { KeyCode::KeyX }
    else if c == 'Y' { KeyCode::KeyY }
    else { KeyCode::KeyZ }
}

/// The key named by a decimal digit `'0'..='9'`.
pub open spec fn spec_digit_key(c: char) -> KeyCode {
    if c == '0' { KeyCode::Digit0 }
    else if c == '1' { KeyCode::Digit1 }
    else if c == '2' { KeyCode::Digit2 }
    else if c == '3' { KeyCode::Digit3 }
    else if c == '4' { KeyCode::Digit4 }
    else if c == '5' { KeyCode::Digit5 }
    else if c == '6' { KeyCode::Digit6 }
    else if c == '7' { KeyCode::Digit7 }
    else if c == '8' { KeyCode::Digit8 }
    else { KeyCode::Digit9 }
}

/// The function key `F<n>`, `1 <= n <= 12`.
pub open spec fn spec_function_key(n: int) -> KeyCode {
    if n == 1 { KeyCode::F1 }
    else if n == 2 { KeyCode::F2 }
    else if n == 3 { KeyCode::F3 }
    else if n == 4 { KeyCode::F4 }
    else if n == 5 { KeyCode::F5 }
    else if n == 6 { KeyCode::F6 }
    else if n == 7 { KeyCode::F7 }
    else if n == 8 { KeyCode::F8 }
    else if n == 9 { KeyCode::F9 }
    else if n == 10 { KeyCode::F10 }
    else if n == 11 { KeyCode::F11 }
    else { KeyCode::F12 }
}

fn letter_key(c: char) -> (k: KeyCode)
    requires
        'A' <= c <= 'Z',
    ensures
        k == spec_letter_key(c),
{
    if c == 'A' { KeyCode::KeyA }
    else if c == 'B' { KeyCode::KeyB }
    else if c == 'C' { KeyCode::KeyC }
    else if c == 'D' { KeyCode::KeyD }
    else if c == 'E' { KeyCode::KeyE }
    else if c == 'F' { KeyCode::KeyF }
    else if c == 'G' { KeyCode::KeyG }
    else if c == 'H' { KeyCode::KeyH }
    else if c == 'I' { KeyCode::KeyI }
    else if c == 'J' { KeyCode::KeyJ }
    else if c == 'K' { KeyCode::KeyK }
    else if c == 'L' { KeyCode::KeyL }
    else if c == 'M' { KeyCode::KeyM }
    else if c == 'N' { KeyCode::KeyN }
    else if c == 'O' { KeyCode::KeyO }
    else if c == 'P' { KeyCode::KeyP }
    else if c == 'Q' { KeyCode::KeyQ }
    else if c == 'R' { KeyCode::KeyR }
    else if c == 'S' { KeyCode::KeyS }
    else if c == 'T' { KeyCode::KeyT }
    else if c == 'U' { KeyCode::KeyU }
    else if c == 'V' { KeyCode::KeyV }
    else if c == 'W' { KeyCode::KeyW }
    else if c == 'X' { KeyCode::KeyX }
    else if c == 'Y' { KeyCode::KeyY }
    else { KeyCode::KeyZ }
}

fn digit_key(c: char) -> (k: KeyCode)
    requires
        '0' <= c <= '9',
    ensures
        k == spec_digit_key(c),
{
    if c == '0' { KeyCode::Digit0 }
    else if c == '1' { KeyCode::Digit1 }
    else if c == '2' { KeyCode::Digit2 }
    else if c == '3' { KeyCode::Digit3 }
    else if c == '4' { KeyCode::Digit4 }
    else if c == '5' { KeyCode::Digit5 }
    else if c == '6' { KeyCode::Digit6 }
    else if c == '7' { KeyCode::Digit7 }
    else if c == '8' { KeyCode::Digit8 }
    else { KeyCode::Digit9 }
}

fn function_key(n: u32) -> (k: KeyCode)
    requires
        1 <= n <= 12,
    ensures
        k == spec_function_key(n as int),
{
    if n == 1 { KeyCode::F1 }
    else if n == 2 { KeyCode::F2 }
    else if n == 3 { KeyCode::F3 }
    else if n == 4 { KeyCode::F4 }
    else if n == 5 { KeyCode::F5 }
    else if n == 6 { KeyCode::F6 }
    else if n == 7 { KeyCode::F7 }
    else if n == 8 { KeyCode::F8 }
    else if n == 9 { KeyCode::F9 }
    else if n == 10 { KeyCode::F10 }
    else if n == 11 { KeyCode::F11 }
    else { KeyCode::F12 }
}


/// The main key named by an upper-cased key token, if any.
pub open spec fn spec_key_code(u: Seq<char>) -> Option<KeyCode> {
    if u.len() == 1 && 'A' <= u[0] && u[0] <= 'Z' {
        Some(spec_letter_key(u[0]))
    } else if u.len() == 1 && '0' <= u[0] && u[0] <= '9' {
        Some(spec_digit_key(u[0]))
    } else if u.len() == 2 && u[0] == 'F' && '1' <= u[1] && u[1] <= '9' {
        Some(spec_function_key(u[1] as int - '0' as int))
    } else if u.len() == 3 && u[0] == 'F' && u[1] == '1' && '0' <= u[2] && u[2] <= '2' {
        Some(spec_function_key(10 + (u[2] as int - '0' as int)))
    } else if u == seq!['S', 'P', 'A', 'C', 'E'] {
        Some(KeyCode::Space)
    } else if u == seq!['E', 'S', 'C'] || u == seq!['E', 'S', 'C', 'A', 'P', 'E'] {
        Some(KeyCode::Escape)
    } else {
        None
    }
}

/// The modifier named by a lower-cased token, if any.
pub open spec fn spec_modifier_of(l: Seq<char>) -> Option<ModifierKey> {
    if l == seq!['c', 't', 'r', 'l'] || l == seq!['c', 'o', 'n', 't', 'r', 'o', 'l'] {
        Some(ModifierKey::Control)
    } else if l == seq!['s', 'h', 'i', 'f', 't'] {
        Some(ModifierKey::Shift)
    } else if l == seq!['a', 'l', 't'] {
        Some(ModifierKey::Alt)
    } else if l == seq!['s', 'u', 'p', 'e', 'r'] || l == seq!['m', 'e', 't', 'a'] || l == seq!['w', 'i', 'n'] {
        Some(ModifierKey::Meta)
    } else {
        None
    }
}

/// The main key named by the upper-cased key token `upper`, if any: `F1` to
/// `F12`, a letter, a digit, `SPACE`, or `ESC`/`ESCAPE`.
pub fn key_code_from_upper(upper: &str) -> (r: Option<KeyCode>)
    ensures
        r == spec_key_code(upper@),
{
    let u = chars_of(upper);
    let n = u.len();
    if n == 1 && 'A' <= u[0] && u[0] <= 'Z' {
        Some(letter_key(u[0]))
    } else if n == 1 && '0' <= u[0] && u[0] <= '9' {
        Some(digit_key(u[0]))
    } else if n == 2 && u[0] == 'F' && '1' <= u[1] && u[1] <= '9' {
        Some(function_key((u[1] as u32) - ('0' as u32)))
    } else if n == 3 && u[0] == 'F' && u[1] == '1' && '0' <= u[2] && u[2] <= '2' {
        Some(function_key(10 + ((u[2] as u32) - ('0' as u32))))
    } else if chars_equal(&u, &vec!['S', 'P', 'A', 'C', 'E']) {
        Some(KeyCode::Space)
    } else if chars_equal(&u, &vec!['E', 'S', 'C']) || chars_equal(&u, &vec!['E', 'S', 'C', 'A', 'P', 'E']) {
        Some(KeyCode::Escape)
    } else {
        None
    }
}

/// The modifier named by the lower-cased token `lower`, if any: `ctrl` or
/// `control`, `shift`, `alt`, and `super`, `meta` or `win`.
pub fn modifier_of(lower: &str) -> (r: Option<ModifierKey>)
    ensures
        r == spec_modifier_of(lower@),
{
    let l = chars_of(lower);
    if chars_equal(&l, &vec!['c', 't', 'r', 'l']) || chars_equal(&l, &vec!['c', 'o', 'n', 't', 'r', 'o', 'l']) {
        Some(ModifierKey::Control)
    } else if chars_equal(&l, &vec!['s', 'h', 'i', 'f', 't']) {
        Some(ModifierKey::Shift)
    } else if chars_equal(&l, &vec!['a', 'l', 't']) {
        Some(ModifierKey::Alt)
    } else if chars_equal(&l, &vec!['s', 'u', 'p', 'e', 'r']) || chars_equal(&l, &vec!['m', 'e', 't', 'a'])
        || chars_equal(&l, &vec!['w', 'i', 'n']) {
        Some(ModifierKey::Meta)
    } else {
        None
    }
}


/// Why an accelerator was refused.
#[derive(Debug)]
pub enum HotkeyError {
    /// The accelerator names no main key; holds the accelerator as given.
    NoKey(String),
    /// A token is neither a modifier nor a known key; holds the token upper-cased.
    UnknownKey(String),
}

/// The abstract content of a [`HotkeyError`].
pub enum HotkeyFault {
    NoKey(Seq<char>),
    UnknownKey(Seq<char>),
}

impl View for HotkeyError {
    type V = HotkeyFault;

    open spec fn view(&self) -> HotkeyFault {
        match self {
            HotkeyError::NoKey(s) => HotkeyFault::NoKey(s@),
            HotkeyError::UnknownKey(s) => HotkeyFault::UnknownKey(s@),
        }
    }
}

/// The text of the error message for `f`.
pub open spec fn spec_fault_message(f: HotkeyFault) -> Seq<char> {
    match f {
        HotkeyFault::NoKey(s) => "no key in accelerator '"@ + s + "'"@,
        HotkeyFault::UnknownKey(k) => "unknown key '"@ + k + "'"@,
    }
}

impl HotkeyError {
    /// The error message, e.g. `unknown key 'F13'`.
    pub fn message(&self) -> (m: String)
        ensures
            m@ == spec_fault_message(self@),
    {
        match self {
            HotkeyError::NoKey(s) => {
                let mut m = String::from_str("no key in accelerator '");
                m.append(s.as_str());
                m.append("'");
                m
            },
            HotkeyError::UnknownKey(k) => {
                let mut m = String::from_str("unknown key '");
                m.append(k.as_str());
                m.append("'");
                m
            },
        }
    }
}

/// Parses a key token: upper-cases it, then looks the key up.
pub fn parse_code(s: &str) -> (r: Result<KeyCode, HotkeyError>)
    ensures
        match r {
            Ok(k) => spec_key_code(spec_to_uppercase(s@)) == Some(k),
            Err(e) => spec_key_code(spec_to_uppercase(s@)) is None
                && e@ == HotkeyFault::UnknownKey(spec_to_uppercase(s@)),
        },
{
    let upper = str_to_uppercase(s);
    match key_code_from_upper(upper.as_str()) {
        Some(k) => Ok(k),
        None => Err(HotkeyError::UnknownKey(upper)),
    }
}

/// What the tokens seen so far give: the modifiers collected and the last
/// main key, or the first token that is neither (upper-cased).
pub open spec fn spec_fold_tokens(tokens: Seq<Seq<char>>) -> Result<(Modifiers, Option<KeyCode>), Seq<char>>
    decreases tokens.len(),
{
    if tokens.len() == 0 {
        Ok((no_modifiers(), None))
    } else {
        match spec_fold_tokens(tokens.drop_last()) {
            Err(u) => Err(u),
            Ok((m, c)) => match spec_modifier_of(tokens.last()) {
                Some(k) => Ok((spec_with_modifier(m, k), c)),
                None => match spec_key_code(spec_to_uppercase(tokens.last())) {
                    Some(code) => Ok((m, Some(code))),
                    None => Err(spec_to_uppercase(tokens.last())),
                },
            },
        }
    }
}

/// The tokens of an accelerator: its `+`-separated pieces, trimmed and
/// lower-cased.
pub open spec fn spec_tokens(s: Seq<char>) -> Seq<Seq<char>> {
    spec_split(s, '+').map_values(|p: Seq<char>| spec_to_lowercase(spec_trim(p)))
}

/// What parsing the accelerator `s` gives.
pub open spec fn spec_parse_accelerator(s: Seq<char>) -> Result<Accelerator, HotkeyFault> {
    match spec_fold_tokens(spec_tokens(s)) {
        Err(u) => Err(HotkeyFault::UnknownKey(u)),
        Ok((m, None)) => Err(HotkeyFault::NoKey(s)),
        Ok((m, Some(c))) => Ok(Accelerator { mods: m, code: c }),
    }
}

/// Parses an accelerator string like `"Ctrl+Shift+F1"` or `"F1"`: every
/// `+`-separated token is trimmed and lower-cased; modifier tokens add their
/// modifier, any other token must name a key, and the last key named is the
/// main key. Fails on the first token that names neither, or when no key is
/// named at all.
pub fn parse_accelerator(s: &str) -> (r: Result<Accelerator, HotkeyError>)
    ensures
        match r {
            Ok(a) => spec_parse_accelerator(s@) == Ok::<Accelerator, HotkeyFault>(a),
            Err(e) => spec_parse_accelerator(s@) == Err::<Accelerator, HotkeyFault>(e@),
        },
{
    let chars = chars_of(s);
    let pieces = split_chars(&chars, '+');
    let ghost tokens = spec_tokens(s@);
    assert(tokens.len() == pieces@.len());
    let mut mods = Modifiers::empty();
    let mut code: Option<KeyCode> = None;
    let mut i: usize = 0;
    while i < pieces.len()
        invariant
            i <= pieces@.len(),
            tokens == spec_tokens(s@),
            tokens.len() == pieces@.len(),
            views_of(pieces@) == spec_split(s@, '+'),
            spec_fold_tokens(tokens.take(i as int)) == Ok::<(Modifiers, Option<KeyCode>), Seq<char>>((mods, code)),
        decreases pieces@.len() - i,
    {
        let trimmed = trim_chars(&pieces[i]);
        let piece = string_of(&trimmed);
        let lower = str_to_lowercase(piece.as_str());
        proof {
            assert(pieces@[i as int]@ == views_of(pieces@)[i as int]);
            assert(lower@ == tokens[i as int]);
            assert(tokens.take(i + 1).drop_last() =~= tokens.take(i as int));
            assert(tokens.take(i + 1).last() == tokens[i as int]);
        }
        match modifier_of(lower.as_str()) {
            Some(k) => {
                mods = mods.with(k);
            },
            None => {
                match parse_code(lower.as_str()) {
                    Ok(c) => {
                        code = Some(c);
                    },
                    Err(e) => {
                        proof { lemma_fold_err_sticks(tokens, i as int + 1); }
                        return Err(e);
                    },
                }
            },
        }
        i = i + 1;
    }
    proof { assert(tokens.take(pieces@.len() as int) =~= tokens); }
    match code {
        Some(c) => Ok(Accelerator { mods, code: c }),
        None => Err(HotkeyError::NoKey(string_of(&chars))),
    }
}

/// Once a token is refused, no later token changes the outcome.
pub proof fn lemma_fold_err_sticks(tokens: Seq<Seq<char>>, i: int)
    requires
        0 <= i <= tokens.len(),
        spec_fold_tokens(tokens.take(i)) is Err,
    ensures
        spec_fold_tokens(tokens) == spec_fold_tokens(tokens.take(i)),
    decreases tokens.len() - i,
{
    if i < tokens.len() {
        assert(tokens.take(i + 1).drop_last() =~= tokens.take(i));
        lemma_fold_err_sticks(tokens, i + 1);
    } else {
        assert(tokens.take(i) =~= tokens);
    }
}


/// Tokens that lead to the same outcome keep doing so whatever follows them.
pub proof fn lemma_fold_congruent(x: Seq<Seq<char>>, y: Seq<Seq<char>>, b: Seq<Seq<char>>)
    requires
        spec_fold_tokens(x) == spec_fold_tokens(y),
    ensures
        spec_fold_tokens(x + b) == spec_fold_tokens(y + b),
    decreases b.len(),
{
    if b.len() == 0 {
        assert(x + b =~= x);
        assert(y + b =~= y);
    } else {
        lemma_fold_congruent(x, y, b.drop_last());
        assert((x + b).drop_last() =~= x + b.drop_last());
        assert((y + b).drop_last() =~= y + b.drop_last());
    }
}

/// The order in which modifiers are written does not matter:
/// `"Ctrl+Shift+A"` and `"Shift+Ctrl+A"` parse alike.
pub proof fn lemma_modifier_order_irrelevant(
    a: Seq<Seq<char>>,
    p: Seq<char>,
    q: Seq<char>,
    b: Seq<Seq<char>>,
)
    requires
        spec_modifier_of(p) is Some,
        spec_modifier_of(q) is Some,
    ensures
        spec_fold_tokens(a + seq![p, q] + b) == spec_fold_tokens(a + seq![q, p] + b),
{
    let x = a + seq![p, q];
    let y = a + seq![q, p];
    assert(x.drop_last().drop_last() =~= a);
    assert(y.drop_last().drop_last() =~= a);
    assert(x.drop_last() =~= a.push(p));
    assert(y.drop_last() =~= a.push(q));
    reveal_with_fuel(spec_fold_tokens, 3);
    assert(spec_fold_tokens(x) == spec_fold_tokens(y));
    lemma_fold_congruent(x, y, b);
}

/// Writing a modifier twice is the same as writing it once.
pub proof fn lemma_repeated_modifier_idempotent(a: Seq<Seq<char>>, p: Seq<char>, b: Seq<Seq<char>>)
    requires
        spec_modifier_of(p) is Some,
    ensures
        spec_fold_tokens(a + seq![p, p] + b) == spec_fold_tokens(a + seq![p] + b),
{
    let x = a + seq![p, p];
    let y = a + seq![p];
    assert(x.drop_last().drop_last() =~= a);
    assert(x.drop_last() =~= y);
    assert(y.drop_last() =~= a);
    assert(spec_fold_tokens(x) == spec_fold_tokens(y));
    lemma_fold_congruent(x, y, b);
}

/// Of two keys written one after the other, the later one is the main key.
pub proof fn lemma_later_key_wins(a: Seq<Seq<char>>, p: Seq<char>, q: Seq<char>, b: Seq<Seq<char>>)
    requires
        spec_modifier_of(p) is None,
        spec_key_code(spec_to_uppercase(p)) is Some,
        spec_modifier_of(q) is None,
    ensures
        spec_fold_tokens(a + seq![p, q] + b) == spec_fold_tokens(a + seq![q] + b),
{
    let x = a + seq![p, q];
    let y = a + seq![q];
    assert(x.drop_last().drop_last() =~= a);
    assert(x.drop_last() =~= a.push(p));
    assert(y.drop_last() =~= a);
    reveal_with_fuel(spec_fold_tokens, 3);
    assert(spec_fold_tokens(x) == spec_fold_tokens(y));
    lemma_fold_congruent(x, y, b);
}

/// The upper-case name by which an accelerator writes each key: `F1`..`F12`,
/// the letter, the digit, `SPACE`, `ESCAPE`.
pub open spec fn spec_key_name(k: KeyCode) -> Seq<char> {
    match k {
        KeyCode::F1 => seq!['F', '1'],
        KeyCode::F2 => seq!['F', '2'],
        KeyCode::F3 => seq!['F', '3'],
        KeyCode::F4 => seq!['F', '4'],
        KeyCode::F5 => seq!['F', '5'],
        KeyCode::F6 => seq!['F', '6'],
        KeyCode::F7 => seq!['F', '7'],
        KeyCode::F8 => seq!['F', '8'],
        KeyCode::F9 => seq!['F', '9'],
        KeyCode::F10 => seq!['F', '1', '0'],
        KeyCode::F11 => seq!['F', '1', '1'],
        KeyCode::F12 => seq!['F', '1', '2'],
        KeyCode::KeyA => seq!['A'],
        KeyCode::KeyB => seq!['B'],
        KeyCode::KeyC => seq!['C'],
        KeyCode::KeyD => seq!['D'],
        KeyCode::KeyE => seq!['E'],
        KeyCode::KeyF => seq!['F'],
        KeyCode::KeyG => seq!['G'],
        KeyCode::KeyH => seq!['H'],
        KeyCode::KeyI => seq!['I'],
        KeyCode::KeyJ => seq!['J'],
        KeyCode::KeyK => seq!['K'],
        KeyCode::KeyL => seq!['L'],
        KeyCode::KeyM => seq!['M'],
        KeyCode::KeyN => seq!['N'],
        KeyCode::KeyO => seq!['O'],
        KeyCode::KeyP => seq!['P'],
        KeyCode::KeyQ => seq!['Q'],
        KeyCode::KeyR => seq!['R'],
        KeyCode::KeyS => seq!['S'],
        KeyCode::KeyT => seq!['T'],
        KeyCode::KeyU => seq!['U'],
        KeyCode::KeyV => seq!['V'],
        KeyCode::KeyW => seq!['W'],
        KeyCode::KeyX => seq!['X'],
        KeyCode::KeyY => seq!['Y'],
        KeyCode::KeyZ => seq!['Z'],
        KeyCode::Digit0 => seq!['0'],
        KeyCode::Digit1 => seq!['1'],
        KeyCode::Digit2 => seq!['2'],
        KeyCode::Digit3 => seq!['3'],
        KeyCode::Digit4 => seq!['4'],
        KeyCode::Digit5 => seq!['5'],
        KeyCode::Digit6 => seq!['6'],
        KeyCode::Digit7 => seq!['7'],
        KeyCode::Digit8 => seq!['8'],
        KeyCode::Digit9 => seq!['9'],
        KeyCode::Space => seq!['S', 'P', 'A', 'C', 'E'],
        KeyCode::Escape => seq!['E', 'S', 'C', 'A', 'P', 'E'],
    }
}

/// Every key is found under its own name.
pub proof fn lemma_key_found_by_name(k: KeyCode)
    ensures
        spec_key_code(spec_key_name(k)) == Some(k),
{
}

/// A one-letter token names the key of that same letter, and a one-digit
/// token the key of that digit.
pub proof fn lemma_single_char_key(c: char)
    requires
        ('A' <= c && c <= 'Z') || ('0' <= c && c <= '9'),
    ensures
        spec_key_code(seq![c]) matches Some(k) && spec_key_name(k) == seq![c],
{
    assert(seq![c].len() == 1);
    assert(seq![c][0] == c);
}

/// `F<n>` names the function key whose name is `F<n>`, for `n` from 1 to 12.
pub proof fn lemma_function_key_names(u: Seq<char>)
    requires
        u.len() >= 2,
        u[0] == 'F',
        spec_key_code(u) is Some,
    ensures
        spec_key_name(spec_key_code(u).unwrap()) =~= u,
{
}

} // verus!
