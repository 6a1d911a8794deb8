//! Configuration values: key names, modifiers, actions, placements and the
//! percentage tokens that placements are written in.

use vstd::prelude::*;
use vstd::string::StrSliceExecFns;

use crate::error::PixieError;
use crate::placement::Placement;
use crate::text::str_eq;
use vstd::string::StringExecFns;

verus! {

/// Characters with the Unicode White_Space property.
pub open spec fn is_white_space(c: char) -> bool {
    ('\u{9}' <= c <= '\u{d}') || c == ' ' || c == '\u{85}' || c == '\u{a0}' || c == '\u{1680}'
        || ('\u{2000}' <= c <= '\u{200a}') || c == '\u{2028}' || c == '\u{2029}' || c
        == '\u{202f}' || c == '\u{205f}' || c == '\u{3000}'
}

pub open spec fn trim_start(s: Seq<char>) -> Seq<char>
    decreases s.len(),
{
    if s.len() > 0 && is_white_space(s[0]) {
        trim_start(s.drop_first())
    } else {
        s
    }
}

pub open spec fn trim_end(s: Seq<char>) -> Seq<char>
    decreases s.len(),
{
    if s.len() > 0 && is_white_space(s.last()) {
        trim_end(s.drop_last())
    } else {
        s
    }
}

/// The string without White_Space characters at either end.
pub open spec fn trimmed(s: Seq<char>) -> Seq<char> {
    trim_end(trim_start(s))
}

/// Relies on `str::trim`: leading and trailing characters with the Unicode
/// White_Space property are removed.
#[verifier::external_body]
pub(crate) fn trim_str(s: &str) -> (r: &str)
    ensures
        r@ == trimmed(s@),
{
    s.trim()
}

/// Most digits a percentage may have.
pub const MAX_PERCENT_DIGITS: u32 = 9;

pub open spec fn is_digit(c: char) -> bool {
    '0' <= c <= '9'
}

pub open spec fn digit_value(c: char) -> int {
    c as int - '0' as int
}

pub open spec fn pow10(n: nat) -> int
    decreases n,
{
    if n == 0 {
        1
    } else {
        10 * pow10((n - 1) as nat)
    }
}

/// Left-to-right reading of an unsigned decimal: its digits as one integer,
/// the number of digits after the point, whether a point was seen, and the
/// number of digits; `None` at the first character that does not fit.
pub open spec fn scan_decimal(s: Seq<char>) -> Option<(int, int, bool, int)>
    decreases s.len(),
{
    if s.len() == 0 {
        Some((0, 0, false, 0))
    } else {
        match scan_decimal(s.drop_last()) {
            None => None,
            Some(st) => {
                let c = s.last();
                if is_digit(c) {
                    Some(
                        (
                            st.0 * 10 + digit_value(c),
                            if st.2 {
                                st.1 + 1
                            } else {
                                st.1
                            },
                            st.2,
                            st.3 + 1,
                        ),
                    )
                } else if c == '.' && !st.2 {
                    Some((st.0, st.1, true, st.3))
                } else {
                    None
                }
            },
        }
    }
}

/// An unsigned decimal with one to nine digits: its digits and its count of
/// fraction digits.
pub open spec fn unsigned_decimal(s: Seq<char>) -> Option<(int, int)> {
    match scan_decimal(s) {
        Some(st) => if 1 <= st.3 <= MAX_PERCENT_DIGITS {
            Some((st.0, st.1))
        } else {
            None
        },
        None => None,
    }
}

/// A decimal with an optional sign.
pub open spec fn signed_decimal(s: Seq<char>) -> Option<(int, int)> {
    if s.len() > 0 && s[0] == '-' {
        match unsigned_decimal(s.drop_first()) {
            Some(v) => Some((-v.0, v.1)),
            None => None,
        }
    } else if s.len() > 0 && s[0] == '+' {
        unsigned_decimal(s.drop_first())
    } else {
        unsigned_decimal(s)
    }
}

/// A percentage token such as `50%` or `12.5%` written with a point, as the fraction
/// `numerator / denominator`.
pub open spec fn percent_fraction(t: Seq<char>) -> Option<(int, int)> {
    if t.len() > 0 && t.last() == '%' {
        match signed_decimal(t.drop_last()) {
            Some(v) => Some((v.0, 100 * pow10(v.1 as nat))),
            None => None,
        }
    } else {
        None
    }
}

/// A fraction of one, as parsed from a percentage.
#[derive(Debug, Clone, Copy, PartialEq, Eq)]
pub struct Percentage {
    pub numerator: i64,
    pub denominator: i64,
}

proof fn lemma_pow10_pos(n: nat)
    ensures
        pow10(n) >= 1,
    decreases n,
{
    if n > 0 {
        lemma_pow10_pos((n - 1) as nat);
    }
}

proof fn lemma_pow10_bounds(n: nat)
    ensures
        pow10(n) >= 1,
        n <= 9 ==> pow10(n) <= 1_000_000_000,
{
    lemma_pow10_pos(n);
    if n <= 9 {
        lemma_pow10_le(n, 9);
        reveal_with_fuel(pow10, 10);
    }
}

proof fn lemma_scan_bounds(s: Seq<char>)
    ensures
        scan_decimal(s) matches Some(st) ==> 0 <= st.1 <= st.3 && 0 <= st.0 < pow10(
            st.3 as nat,
        ),
    decreases s.len(),
{
    if s.len() > 0 {
        lemma_scan_bounds(s.drop_last());
    }
}

/// Reads the characters `from..to` of `s` as an unsigned decimal.
fn parse_unsigned_decimal(s: &str, from: usize, to: usize) -> (r: Option<(i64, u32)>)
    requires
        from <= to <= s@.len(),
    ensures
        match r {
            Some(v) => unsigned_decimal(s@.subrange(from as int, to as int)) == Some(
                (v.0 as int, v.1 as int),
            ),
            None => unsigned_decimal(s@.subrange(from as int, to as int)) is None,
        },
{
    let ghost body = s@.subrange(from as int, to as int);
    let mut value: i64 = 0;
    let mut frac: u32 = 0;
    let mut dot = false;
    let mut digits: u32 = 0;
    let mut i: usize = from;
    assert(s@.subrange(from as int, from as int) =~= Seq::<char>::empty());
    while i < to
        invariant
            from <= i <= to <= s@.len(),
            body == s@.subrange(from as int, to as int),
            scan_decimal(s@.subrange(from as int, i as int)) == Some(
                (value as int, frac as int, dot, digits as int),
            ),
            digits <= MAX_PERCENT_DIGITS,
        decreases to - i,
    {
        proof {
            lemma_scan_bounds(s@.subrange(from as int, i as int));
            lemma_pow10_bounds(digits as nat);
            assert(s@.subrange(from as int, i + 1).drop_last() == s@.subrange(
                from as int,
                i as int,
            ));
        }
        let c = s.get_char(i);
        if '0' <= c && c <= '9' {
            if digits == MAX_PERCENT_DIGITS {
                proof {
                    assert(s@.subrange(from as int, i + 1) =~= body.subrange(0, i + 1 - from));
                    lemma_scan_too_long(s@.subrange(from as int, i + 1), body);
                }
                return None;
            }
            value = value * 10 + (c as u32 - '0' as u32) as i64;
            if dot {
                frac = frac + 1;
            }
            digits = digits + 1;
        } else if c == '.' && !dot {
            dot = true;
        } else {
            proof {
                assert(s@.subrange(from as int, i + 1) =~= body.subrange(0, i + 1 - from));
                lemma_scan_fails_after(s@.subrange(from as int, i + 1), body);
            }
            return None;
        }
        i += 1;
    }
    if digits == 0 {
        return None;
    }
    Some((value, frac))
}

/// Once a prefix cannot be read, no longer string can.
proof fn lemma_scan_fails_after(p: Seq<char>, s: Seq<char>)
    requires
        p.len() <= s.len(),
        p == s.subrange(0, p.len() as int),
        scan_decimal(p) is None,
    ensures
        scan_decimal(s) is None,
    decreases s.len() - p.len(),
{
    if p.len() < s.len() {
        let q = s.subrange(0, p.len() as int + 1);
        assert(q.drop_last() =~= p);
        lemma_scan_fails_after(q, s);
    } else {
        assert(p =~= s);
    }
}

/// Digit counts never shrink as the string grows.
proof fn lemma_scan_digits_grow(p: Seq<char>, s: Seq<char>)
    requires
        p.len() <= s.len(),
        p == s.subrange(0, p.len() as int),
        scan_decimal(p) is Some,
        scan_decimal(s) is Some,
    ensures
        ({
            let a = scan_decimal(p)->0;
            let b = scan_decimal(s)->0;
            a.3 <= b.3
        }),
    decreases s.len() - p.len(),
{
    if p.len() < s.len() {
        let q = s.subrange(0, p.len() as int + 1);
        assert(q.drop_last() =~= p);
        if scan_decimal(q) is None {
            lemma_scan_fails_after(q, s);
        } else {
            let a = scan_decimal(p)->0;
            let b = scan_decimal(q)->0;
            assert(a.3 <= b.3);
            lemma_scan_digits_grow(q, s);
        }
    } else {
        assert(p =~= s);
    }
}

proof fn lemma_scan_too_long(p: Seq<char>, s: Seq<char>)
    requires
        p.len() <= s.len(),
        p == s.subrange(0, p.len() as int),
        scan_decimal(p) matches Some(st) && st.3 > MAX_PERCENT_DIGITS,
    ensures
        unsigned_decimal(s) is None,
{
    if scan_decimal(s) is Some {
        lemma_scan_digits_grow(p, s);
    }
}

/// Parses a percentage token whose surrounding whitespace is already gone.
pub fn percent_from_trimmed(t: &str) -> (r: Result<Percentage, PixieError>)
    ensures
        match r {
            Ok(p) => percent_fraction(t@) == Some((p.numerator as int, p.denominator as int)),
            Err(e) => percent_fraction(t@) is None && e is Config,
        },
{
    let n = t.unicode_len();
    if n == 0 || t.get_char(n - 1) != '%' {
        return Err(PixieError::Config(String::from_str("Invalid percentage format")));
    }
    let ghost body = t@.drop_last();
    assert(body == t@.subrange(0, n - 1));
    let negative = n - 1 > 0 && t.get_char(0) == '-';
    let signed = n - 1 > 0 && (t.get_char(0) == '-' || t.get_char(0) == '+');
    let start: usize = if signed { 1 } else { 0 };
    proof {
        if signed {
            assert(body.drop_first() == t@.subrange(1, n - 1));
        }
    }
    match parse_unsigned_decimal(t, start, n - 1) {
        Some((v, f)) => {
            proof {
                let st = scan_decimal(t@.subrange(start as int, n - 1))->0;
                lemma_scan_bounds(t@.subrange(start as int, n - 1));
                lemma_pow10_bounds(st.3 as nat);
                lemma_pow10_bounds(f as nat);
                lemma_pow10_le(f as nat, st.3 as nat);
            }
            let mut den: i64 = 100;
            let mut k: u32 = 0;
            while k < f
                invariant
                    k <= f <= MAX_PERCENT_DIGITS,
                    den == 100 * pow10(k as nat),
                    pow10(f as nat) <= 1_000_000_000,
                decreases f - k,
            {
                proof {
                    lemma_pow10_le((k + 1) as nat, f as nat);
                    assert(pow10((k + 1) as nat) == 10 * pow10(k as nat));
                    assert(den * 10 == 100 * pow10((k + 1) as nat));
                    assert(pow10((k + 1) as nat) <= 1_000_000_000);
                    assert(den * 10 <= 100_000_000_000);
                    lemma_pow10_pos(k as nat);
                }
                den = den * 10;
                k += 1;
            }
            let num = if negative { -v } else { v };
            Ok(Percentage { numerator: num, denominator: den })
        },
        None => Err(PixieError::Config(String::from_str("Invalid percentage number"))),
    }
}

/// A parsed percentage has fewer than ten digits and a denominator of at
/// least a hundred.
pub proof fn lemma_percent_fraction_bounds(t: Seq<char>)
    ensures
        percent_fraction(t) matches Some(f) ==> -1_000_000_000 < f.0 < 1_000_000_000 && f.1
            >= 100,
{
    if t.len() > 0 && t.last() == '%' {
        let b = t.drop_last();
        let u = if b.len() > 0 && (b[0] == '-' || b[0] == '+') {
            b.drop_first()
        } else {
            b
        };
        lemma_scan_bounds(u);
        if let Some(st) = scan_decimal(u) {
            lemma_pow10_bounds(st.3 as nat);
            if st.3 <= 9 {
                lemma_pow10_le(st.3 as nat, 9);
            }
            lemma_pow10_bounds(9);
            lemma_pow10_pos(st.1 as nat);
        }
    }
}

proof fn lemma_pow10_le(a: nat, b: nat)
    requires
        a <= b,
    ensures
        pow10(a) <= pow10(b),
    decreases b,
{
    if a < b {
        lemma_pow10_le(a, (b - 1) as nat);
        lemma_pow10_pos((b - 1) as nat);
    }
}

/// Parses a percentage token such as `"50%"`.
pub fn parse_percentage(s: &str) -> (r: Result<Percentage, PixieError>)
    ensures
        match r {
            Ok(p) => percent_fraction(trimmed(s@)) == Some(
                (p.numerator as int, p.denominator as int),
            ),
            Err(e) => percent_fraction(trimmed(s@)) is None && e is Config,
        },
{
    percent_from_trimmed(trim_str(s))
}

/// A logical key, independent of keyboard layout.
#[derive(Debug, Clone, Copy, PartialEq, Eq, Hash, Structural)]
pub enum KeyCode {
    KeyA,
    KeyB,
    KeyC,
    KeyD,
    KeyE,
    KeyF,
    KeyG,
    KeyH,
    KeyI,
    KeyJ,
    KeyK,
    KeyL,
    KeyM,
    KeyN,
    KeyO,
    KeyP,
    KeyQ,
    KeyR,
    KeyS,
    KeyT,
    KeyU,
    KeyV,
    KeyW,
    KeyX,
    KeyY,
    KeyZ,
    Digit0,
    Digit1,
    Digit2,
    Digit3,
    Digit4,
    Digit5,
    Digit6,
    Digit7,
    Digit8,
    Digit9,
    F1,
    F2,
    F3,
    F4,
    F5,
    F6,
    F7,
    F8,
    F9,
    F10,
    F11,
    F12,
    Space,
    Escape,
    Enter,
    Tab,
    Backspace,
    Delete,
    Insert,
    Home,
    End,
    PageUp,
    PageDown,
    ArrowLeft,
    ArrowRight,
    ArrowUp,
    ArrowDown,
    Equal,
    Minus,
    BracketLeft,
    BracketRight,
    Backslash,
    Semicolon,
    Quote,
    Comma,
    Period,
    Slash,
}

pub const MOD_SUPER: u32 = 1;
pub const MOD_ALT: u32 = 2;
pub const MOD_SHIFT: u32 = 4;
pub const MOD_CONTROL: u32 = 8;

/// A set of modifier keys, one bit each.
#[derive(Debug, Clone, Copy, PartialEq, Eq, Hash, Structural)]
pub struct Modifiers {
    pub bits: u32,
}

impl Modifiers {
    pub fn from_bits(bits: u32) -> (r: Modifiers)
        ensures
            r.bits == bits,
    {
        Modifiers { bits }
    }

    /// Every modifier of `other` is in `self`.
    pub open spec fn contains_spec(&self, other: Modifiers) -> bool {
        self.bits & other.bits == other.bits
    }

    pub fn contains(&self, other: Modifiers) -> (r: bool)
        ensures
            r == self.contains_spec(other),
    {
        self.bits & other.bits == other.bits
    }

    pub fn union(&self, other: Modifiers) -> (r: Modifiers)
        ensures
            r.bits == self.bits | other.bits,
    {
        Modifiers { bits: self.bits | other.bits }
    }
}

/// What a keybinding does.
#[derive(Debug, Clone, PartialEq, Eq)]
pub enum Action {
    FocusLeft,
    FocusRight,
    FocusUp,
    FocusDown,
    Minimize,
    Maximize,
    Fullscreen,
    Center,
    MoveMonitorLeft,
    MoveMonitorRight,
    MoveMonitorUp,
    MoveMonitorDown,
    Place(String),
    Tile,
}

/// A key combination: pressed directly with modifiers, or after the leader.
#[derive(Debug, Clone, Copy, PartialEq, Eq, Structural)]
pub enum Keybind {
    Direct { modifiers: Option<Modifiers>, code: KeyCode },
    LeaderPrefixed { code: KeyCode },
}

/// A keybinding and the action it triggers.
#[derive(Debug, Clone)]
pub struct KeybindEntry {
    pub keybind: Keybind,
    pub action: Action,
}

/// What `str::to_lowercase` returns for a string.
pub uninterp spec fn lower_of(s: Seq<char>) -> Seq<char>;

/// What `str::to_uppercase` returns for a string.
pub uninterp spec fn upper_of(s: Seq<char>) -> Seq<char>;

/// Relies on `str::to_lowercase`: the result depends on the characters alone.
#[verifier::external_body]
fn to_lowercase(s: &str) -> (r: String)
    ensures
        r@ == lower_of(s@),
{
    s.to_lowercase()
}

/// Relies on `str::to_uppercase`: the result depends on the characters alone.
#[verifier::external_body]
fn to_uppercase(s: &str) -> (r: String)
    ensures
        r@ == upper_of(s@),
{
    s.to_uppercase()
}

/// Modifier bit that a (lower-case) modifier name stands for.
pub open spec fn modifier_bits_of(s: Seq<char>) -> Option<u32> {
    if s == "cmd"@ || s == "super"@ {
        Some(MOD_SUPER)
    } else if s == "alt"@ || s == "option"@ {
        Some(MOD_ALT)
    } else if s == "shift"@ {
        Some(MOD_SHIFT)
    } else if s == "ctrl"@ || s == "control"@ {
        Some(MOD_CONTROL)
    } else {
        None
    }
}

/// Parses a modifier name.
pub fn parse_modifier(s: &str) -> (r: Result<Modifiers, PixieError>)
    ensures
        match r {
            Ok(m) => modifier_bits_of(s@) == Some(m.bits),
            Err(e) => modifier_bits_of(s@) is None && e is Config,
        },
{
    if str_eq(s, "cmd") || str_eq(s, "super") {
        Ok(Modifiers { bits: MOD_SUPER })
    } else if str_eq(s, "alt") || str_eq(s, "option") {
        Ok(Modifiers { bits: MOD_ALT })
    } else if str_eq(s, "shift") {
        Ok(Modifiers { bits: MOD_SHIFT })
    } else if str_eq(s, "ctrl") || str_eq(s, "control") {
        Ok(Modifiers { bits: MOD_CONTROL })
    } else {
        Err(PixieError::Config(String::from_str("Unknown modifier")))
    }
}

/// Key that a (lower-case) special key name stands for.
pub open spec fn special_code_of(s: Seq<char>) -> Option<KeyCode> {
    if s == "space"@ {
        Some(KeyCode::Space)
    } else if s == "escape"@ {
        Some(KeyCode::Escape)
    } else if s == "esc"@ {
        Some(KeyCode::Escape)
    } else if s == "enter"@ {
        Some(KeyCode::Enter)
    } else if s == "return"@ {
        Some(KeyCode::Enter)
    } else if s == "tab"@ {
        Some(KeyCode::Tab)
    } else if s == "backspace"@ {
        Some(KeyCode::Backspace)
    } else if s == "delete"@ {
        Some(KeyCode::Delete)
    } else if s == "insert"@ {
        Some(KeyCode::Insert)
    } else if s == "home"@ {
        Some(KeyCode::Home)
    } else if s == "end"@ {
        Some(KeyCode::End)
    } else if s == "pageup"@ {
        Some(KeyCode::PageUp)
    } else if s == "pagedown"@ {
        Some(KeyCode::PageDown)
    } else if s == "up"@ {
        Some(KeyCode::ArrowUp)
    } else if s == "down"@ {
        Some(KeyCode::ArrowDown)
    } else if s == "left"@ {
        Some(KeyCode::ArrowLeft)
    } else if s == "right"@ {
        Some(KeyCode::ArrowRight)
    } else {
        None
    }
}

/// The key a special key name stands for, in any case.
pub fn special_key_to_code(s: &str) -> (r: Option<KeyCode>)
    ensures
        r == special_code_of(lower_of(s@)),
{
    let lower = to_lowercase(s);
    let l = lower.as_str();
    if str_eq(l, "space") {
        Some(KeyCode::Space)
    } else if str_eq(l, "escape") {
        Some(KeyCode::Escape)
    } else if str_eq(l, "esc") {
        Some(KeyCode::Escape)
    } else if str_eq(l, "enter") {
        Some(KeyCode::Enter)
    } else if str_eq(l, "return") {
        Some(KeyCode::Enter)
    } else if str_eq(l, "tab") {
        Some(KeyCode::Tab)
    } else if str_eq(l, "backspace") {
        Some(KeyCode::Backspace)
    } else if str_eq(l, "delete") {
        Some(KeyCode::Delete)
    } else if str_eq(l, "insert") {
        Some(KeyCode::Insert)
    } else if str_eq(l, "home") {
        Some(KeyCode::Home)
    } else if str_eq(l, "end") {
        Some(KeyCode::End)
    } else if str_eq(l, "pageup") {
        Some(KeyCode::PageUp)
    } else if str_eq(l, "pagedown") {
        Some(KeyCode::PageDown)
    } else if str_eq(l, "up") {
        Some(KeyCode::ArrowUp)
    } else if str_eq(l, "down") {
        Some(KeyCode::ArrowDown)
    } else if str_eq(l, "left") {
        Some(KeyCode::ArrowLeft)
    } else if str_eq(l, "right") {
        Some(KeyCode::ArrowRight)
    } else {
        None
    }
}

/// Key of a lower-case letter.
pub open spec fn letter_code_of(c: char) -> Option<KeyCode> {
    if c == 'a' {
        Some(KeyCode::KeyA)
    } else if c == 'b' {
        Some(KeyCode::KeyB)
    } else if c == 'c' {
        Some(KeyCode::KeyC)
    } else if c == 'd' {
        Some(KeyCode::KeyD)
    } else if c == 'e' {
        Some(KeyCode::KeyE)
    } else if c == 'f' {
        Some(KeyCode::KeyF)
    } else if c == 'g' {
        Some(KeyCode::KeyG)
    } else if c == 'h' {
        Some(KeyCode::KeyH)
    } else if c == 'i' {
        Some(KeyCode::KeyI)
    } else if c == 'j' {
        Some(KeyCode::KeyJ)
    } else if c == 'k' {
        Some(KeyCode::KeyK)
    } else if c == 'l' {
        Some(KeyCode::KeyL)
    } else if c == 'm' {
        Some(KeyCode::KeyM)
    } else if c == 'n' {
        Some(KeyCode::KeyN)
    } else if c == 'o' {
        Some(KeyCode::KeyO)
    } else if c == 'p' {
        Some(KeyCode::KeyP)
    } else if c == 'q' {
        Some(KeyCode::KeyQ)
    } else if c == 'r' {
        Some(KeyCode::KeyR)
    } else if c == 's' {
        Some(KeyCode::KeyS)
    } else if c == 't' {
        Some(KeyCode::KeyT)
    } else if c == 'u' {
        Some(KeyCode::KeyU)
    } else if c == 'v' {
        Some(KeyCode::KeyV)
    } else if c == 'w' {
        Some(KeyCode::KeyW)
    } else if c == 'x' {
        Some(KeyCode::KeyX)
    } else if c == 'y' {
        Some(KeyCode::KeyY)
    } else if c == 'z' {
        Some(KeyCode::KeyZ)
    } else {
        None
    }
}

/// The key of a lower-case letter.
pub fn char_to_code(c: char) -> (r: Result<KeyCode, PixieError>)
    ensures
        match r {
            Ok(k) => letter_code_of(c) == Some(k),
            Err(e) => letter_code_of(c) is None && e is Config,
        },
{
    match c {
        'a' => Ok(KeyCode::KeyA),
        'b' => Ok(KeyCode::KeyB),
        'c' => Ok(KeyCode::KeyC),
        'd' => Ok(KeyCode::KeyD),
        'e' => Ok(KeyCode::KeyE),
        'f' => Ok(KeyCode::KeyF),
        'g' => Ok(KeyCode::KeyG),
        'h' => Ok(KeyCode::KeyH),
        'i' => Ok(KeyCode::KeyI),
        'j' => Ok(KeyCode::KeyJ),
        'k' => Ok(KeyCode::KeyK),
        'l' => Ok(KeyCode::KeyL),
        'm' => Ok(KeyCode::KeyM),
        'n' => Ok(KeyCode::KeyN),
        'o' => Ok(KeyCode::KeyO),
        'p' => Ok(KeyCode::KeyP),
        'q' => Ok(KeyCode::KeyQ),
        'r' => Ok(KeyCode::KeyR),
        's' => Ok(KeyCode::KeyS),
        't' => Ok(KeyCode::KeyT),
        'u' => Ok(KeyCode::KeyU),
        'v' => Ok(KeyCode::KeyV),
        'w' => Ok(KeyCode::KeyW),
        'x' => Ok(KeyCode::KeyX),
        'y' => Ok(KeyCode::KeyY),
        'z' => Ok(KeyCode::KeyZ),
        _ => Err(PixieError::Config(String::from_str("Invalid letter key"))),
    }
}

/// Key of a decimal digit.
pub open spec fn digit_code_of(c: char) -> Option<KeyCode> {
    if c == '0' {
        Some(KeyCode::Digit0)
    } else if c == '1' {
        Some(KeyCode::Digit1)
    } else if c == '2' {
        Some(KeyCode::Digit2)
    } else if c == '3' {
        Some(KeyCode::Digit3)
    } else if c == '4' {
        Some(KeyCode::Digit4)
    } else if c == '5' {
        Some(KeyCode::Digit5)
    } else if c == '6' {
        Some(KeyCode::Digit6)
    } else if c == '7' {
        Some(KeyCode::Digit7)
    } else if c == '8' {
        Some(KeyCode::Digit8)
    } else if c == '9' {
        Some(KeyCode::Digit9)
    } else {
        None
    }
}

/// The key of a decimal digit.
pub fn digit_to_code(c: char) -> (r: Result<KeyCode, PixieError>)
    ensures
        match r {
            Ok(k) => digit_code_of(c) == Some(k),
            Err(e) => digit_code_of(c) is None && e is Config,
        },
{
    match c {
        '0' => Ok(KeyCode::Digit0),
        '1' => Ok(KeyCode::Digit1),
        '2' => Ok(KeyCode::Digit2),
        '3' => Ok(KeyCode::Digit3),
        '4' => Ok(KeyCode::Digit4),
        '5' => Ok(KeyCode::Digit5),
        '6' => Ok(KeyCode::Digit6),
        '7' => Ok(KeyCode::Digit7),
        '8' => Ok(KeyCode::Digit8),
        '9' => Ok(KeyCode::Digit9),
        _ => Err(PixieError::Config(String::from_str("Invalid digit key"))),
    }
}

/// Key of an (upper-case) function key name.
pub open spec fn function_code_of(s: Seq<char>) -> Option<KeyCode> {
    if s == "F1"@ {
        Some(KeyCode::F1)
    } else if s == "F2"@ {
        Some(KeyCode::F2)
    } else if s == "F3"@ {
        Some(KeyCode::F3)
    } else if s == "F4"@ {
        Some(KeyCode::F4)
    } else if s == "F5"@ {
        Some(KeyCode::F5)
    } else if s == "F6"@ {
        Some(KeyCode::F6)
    } else if s == "F7"@ {
        Some(KeyCode::F7)
    } else if s == "F8"@ {
        Some(KeyCode::F8)
    } else if s == "F9"@ {
        Some(KeyCode::F9)
    } else if s == "F10"@ {
        Some(KeyCode::F10)
    } else if s == "F11"@ {
        Some(KeyCode::F11)
    } else if s == "F12"@ {
        Some(KeyCode::F12)
    } else {
        None
    }
}

/// The key of a function key name such as `f5`, in any case.
pub fn function_key_to_code(s: &str) -> (r: Result<KeyCode, PixieError>)
    ensures
        match r {
            Ok(k) => function_code_of(upper_of(s@)) == Some(k),
            Err(e) => function_code_of(upper_of(s@)) is None && e is Config,
        },
{
    let upper = to_uppercase(s);
    let u = upper.as_str();
    if str_eq(u, "F1") {
        Ok(KeyCode::F1)
    } else if str_eq(u, "F2") {
        Ok(KeyCode::F2)
    } else if str_eq(u, "F3") {
        Ok(KeyCode::F3)
    } else if str_eq(u, "F4") {
        Ok(KeyCode::F4)
    } else if str_eq(u, "F5") {
        Ok(KeyCode::F5)
    } else if str_eq(u, "F6") {
        Ok(KeyCode::F6)
    } else if str_eq(u, "F7") {
        Ok(KeyCode::F7)
    } else if str_eq(u, "F8") {
        Ok(KeyCode::F8)
    } else if str_eq(u, "F9") {
        Ok(KeyCode::F9)
    } else if str_eq(u, "F10") {
        Ok(KeyCode::F10)
    } else if str_eq(u, "F11") {
        Ok(KeyCode::F11)
    } else if str_eq(u, "F12") {
        Ok(KeyCode::F12)
    } else {
        Err(PixieError::Config(String::from_str("Invalid function key")))
    }
}

/// The key a key name stands for: a special name, a single lower-case
/// letter or digit, or a function key.
pub open spec fn key_code_of(s: Seq<char>) -> Option<KeyCode> {
    match special_code_of(lower_of(s)) {
        Some(k) => Some(k),
        None => if s.len() == 1 && 'a' <= s[0] <= 'z' {
            letter_code_of(s[0])
        } else if s.len() == 1 && '0' <= s[0] <= '9' {
            digit_code_of(s[0])
        } else if s.len() > 0 && (s[0] == 'f' || s[0] == 'F') {
            function_code_of(upper_of(s))
        } else {
            None
        },
    }
}

/// Parses a key name.
pub fn parse_key_code(s: &str) -> (r: Result<KeyCode, PixieError>)
    ensures
        match r {
            Ok(k) => key_code_of(s@) == Some(k),
            Err(e) => key_code_of(s@) is None && e is Config,
        },
{
    if let Some(code) = special_key_to_code(s) {
        return Ok(code);
    }
    let n = s.unicode_len();
    if n == 1 {
        let c = s.get_char(0);
        if 'a' <= c && c <= 'z' {
            return char_to_code(c);
        }
        if '0' <= c && c <= '9' {
            return digit_to_code(c);
        }
    }
    if n > 0 && (s.get_char(0) == 'f' || s.get_char(0) == 'F') {
        return function_key_to_code(s);
    }
    Err(PixieError::Config(String::from_str("Unknown key")))
}

/// Positions, below `n`, of the `+` separators of a key combination.
pub open spec fn plus_positions(s: Seq<char>, n: nat) -> Seq<usize>
    decreases n,
{
    if n == 0 {
        Seq::empty()
    } else if s[n - 1] == '+' {
        plus_positions(s, (n - 1) as nat).push((n - 1) as usize)
    } else {
        plus_positions(s, (n - 1) as nat)
    }
}

/// Part `k` of a combination split at the separators `pos`.
pub open spec fn part(s: Seq<char>, pos: Seq<usize>, k: int) -> Seq<char> {
    let start = if k == 0 {
        0
    } else {
        pos[k - 1] + 1
    };
    let end = if k < pos.len() {
        pos[k] as int
    } else {
        s.len() as int
    };
    s.subrange(start, end)
}

/// Modifier bits of the first `k` parts, combined.
pub open spec fn modifiers_of_parts(s: Seq<char>, pos: Seq<usize>, k: nat) -> u32
    decreases k,
{
    if k == 0 {
        0
    } else {
        modifiers_of_parts(s, pos, (k - 1) as nat) | modifier_bits_of(
            trimmed(part(s, pos, k - 1)),
        )->0
    }
}

/// A (lower-case) key combination: modifier names, then a key name, joined
/// by `+`; the modifiers are `None` when there are none.
pub open spec fn combination_of(l: Seq<char>) -> Option<(Option<u32>, KeyCode)> {
    let pos = plus_positions(l, l.len());
    let n = pos.len();
    if exists|j: int| 0 <= j < n && modifier_bits_of(trimmed(#[trigger] part(l, pos, j))) is None {
        None
    } else {
        match key_code_of(trimmed(part(l, pos, n as int))) {
            Some(k) => Some(
                (
                    if n > 0 {
                        Some(modifiers_of_parts(l, pos, n))
                    } else {
                        None
                    },
                    k,
                ),
            ),
            None => None,
        }
    }
}

pub open spec fn modifier_bits(m: Option<Modifiers>) -> Option<u32> {
    match m {
        Some(v) => Some(v.bits),
        None => None,
    }
}

proof fn lemma_plus_positions(s: Seq<char>, n: nat)
    requires
        n <= s.len(),
        s.len() <= usize::MAX,
    ensures
        forall|k: int|
            0 <= k < plus_positions(s, n).len() ==> (#[trigger] plus_positions(s, n)[k]) < n,
        forall|a: int, b: int|
            0 <= a < b < plus_positions(s, n).len() ==> (#[trigger] plus_positions(s, n)[a])
                < (#[trigger] plus_positions(s, n)[b]),
    decreases n,
{
    if n > 0 {
        lemma_plus_positions(s, (n - 1) as nat);
        let p = plus_positions(s, (n - 1) as nat);
        if s[n - 1] == '+' {
            assert(plus_positions(s, n) == p.push((n - 1) as usize));
            assert forall|a: int, b: int|
                0 <= a < b < plus_positions(s, n).len() implies (#[trigger] plus_positions(s, n)[a])
                < (#[trigger] plus_positions(s, n)[b]) by {
                if b == p.len() {
                    assert(p[a] < n - 1);
                }
            }
        }
    }
}

/// Parses a key combination such as `cmd+shift+a` that is already in lower case.
pub fn parse_lowered_combination(l: &str) -> (r: Result<(Option<Modifiers>, KeyCode), PixieError>)
    ensures
        match r {
            Ok(v) => combination_of(l@) == Some((modifier_bits(v.0), v.1)),
            Err(e) => combination_of(l@) is None && e is Config,
        },
{
    let len = l.unicode_len();
    let mut positions: Vec<usize> = Vec::new();
    let mut i: usize = 0;
    while i < len
        invariant
            len == l@.len(),
            i <= len,
            positions@ == plus_positions(l@, i as nat),
        decreases len - i,
    {
        if l.get_char(i) == '+' {
            positions.push(i);
        }
        i += 1;
    }
    let ghost pos = positions@;
    proof {
        lemma_plus_positions(l@, len as nat);
    }
    let n = positions.len();
    let mut bits: u32 = 0;
    let mut k: usize = 0;
    while k < n
        invariant
            n == pos.len(),
            positions@ == pos,
            pos == plus_positions(l@, l@.len()),
            len == l@.len(),
            forall|j: int| 0 <= j < pos.len() ==> (#[trigger] pos[j]) < len,
            forall|a: int, b: int| 0 <= a < b < pos.len() ==> (#[trigger] pos[a]) < (#[trigger] pos[b]),
            k <= n,
            forall|j: int| 0 <= j < k ==> modifier_bits_of(trimmed(#[trigger] part(l@, pos, j))) is Some,
            bits == modifiers_of_parts(l@, pos, k as nat),
        decreases n - k,
    {
        let start: usize = if k == 0 { 0 } else { positions[k - 1] + 1 };
        let end: usize = positions[k];
        let p = l.substring_char(start, end);
        assert(p@ == part(l@, pos, k as int));
        let m = match parse_modifier(trim_str(p)) {
            Ok(m) => m,
            Err(e) => {
                assert(modifier_bits_of(trimmed(part(l@, pos, k as int))) is None);
                assert(exists|j: int|
                    0 <= j < pos.len() && modifier_bits_of(trimmed(#[trigger] part(l@, pos, j)))
                        is None);
                return Err(e);
            },
        };
        bits = bits | m.bits;
        k += 1;
    }
    let start: usize = if n == 0 { 0 } else { positions[n - 1] + 1 };
    let last = l.substring_char(start, len);
    assert(last@ == part(l@, pos, n as int));
    let code = parse_key_code(trim_str(last))?;
    let modifiers = if n > 0 { Some(Modifiers { bits }) } else { None };
    Ok((modifiers, code))
}

/// Parses a key combination such as `cmd+shift+a`, in any case.
pub fn parse_leader_key(key: &str) -> (r: Result<(Option<Modifiers>, KeyCode), PixieError>)
    ensures
        match r {
            Ok(v) => combination_of(lower_of(key@)) == Some((modifier_bits(v.0), v.1)),
            Err(e) => combination_of(lower_of(key@)) is None && e is Config,
        },
{
    let lower = to_lowercase(key);
    parse_lowered_combination(lower.as_str())
}

/// A keybinding written as `leader+<key>` or as a key combination.
pub open spec fn keybind_of(key: Seq<char>) -> Option<Keybind> {
    keybind_of_lowered(lower_of(key))
}

/// A keybinding already in lower case.
pub open spec fn keybind_of_lowered(l: Seq<char>) -> Option<Keybind> {
    if l.len() >= 7 && l.subrange(0, 7) == "leader+"@ {
        match key_code_of(trimmed(l.subrange(7, l.len() as int))) {
            Some(code) => Some(Keybind::LeaderPrefixed { code }),
            None => None,
        }
    } else {
        match combination_of(l) {
            Some(v) => Some(
                Keybind::Direct {
                    modifiers: match v.0 {
                        Some(b) => Some(Modifiers { bits: b }),
                        None => None,
                    },
                    code: v.1,
                },
            ),
            None => None,
        }
    }
}

/// Parses a keybinding.
pub fn parse_keybind(key: &str) -> (r: Result<Keybind, PixieError>)
    ensures
        match r {
            Ok(k) => keybind_of(key@) == Some(k),
            Err(e) => keybind_of(key@) is None && e is Config,
        },
{
    let lower = to_lowercase(key);
    parse_lowered_keybind(lower.as_str())
}

/// Parses a keybinding that is already in lower case.
pub fn parse_lowered_keybind(l: &str) -> (r: Result<Keybind, PixieError>)
    ensures
        match r {
            Ok(k) => keybind_of_lowered(l@) == Some(k),
            Err(e) => keybind_of_lowered(l@) is None && e is Config,
        },
{
    let len = l.unicode_len();
    if len >= 7 && str_eq(l.substring_char(0, 7), "leader+") {
        let rest = l.substring_char(7, len);
        let code = parse_key_code(trim_str(rest))?;
        return Ok(Keybind::LeaderPrefixed { code });
    }
    let (modifiers, code) = parse_lowered_combination(l)?;
    Ok(Keybind::Direct { modifiers, code })
}

impl Action {
    /// A copy of this action.
    pub fn copy(&self) -> (r: Action)
        ensures
            r == *self,
    {
        match self {
            Action::FocusLeft => Action::FocusLeft,
            Action::FocusRight => Action::FocusRight,
            Action::FocusUp => Action::FocusUp,
            Action::FocusDown => Action::FocusDown,
            Action::Minimize => Action::Minimize,
            Action::Maximize => Action::Maximize,
            Action::Fullscreen => Action::Fullscreen,
            Action::Center => Action::Center,
            Action::MoveMonitorLeft => Action::MoveMonitorLeft,
            Action::MoveMonitorRight => Action::MoveMonitorRight,
            Action::MoveMonitorUp => Action::MoveMonitorUp,
            Action::MoveMonitorDown => Action::MoveMonitorDown,
            Action::Place(name) => Action::Place(name.clone()),
            Action::Tile => Action::Tile,
        }
    }
}

/// User settings.
#[derive(Debug)]
pub struct Config {
    /// Key combination that starts leader mode.
    pub leader_key: String,
    /// Start at login.
    pub autostart: bool,
    /// Length of a listening period, in seconds.
    pub timeout: u64,
    /// Keybindings by key text, in the order they were read.
    pub keybinds: Vec<(String, Action)>,
    /// Named placements; the first entry of a name counts.
    pub placements: Vec<(String, Placement)>,
    /// Show the menu bar item.
    pub menubar_icon: bool,
    /// Color of the menu bar item while listening, as `#rrggbb`.
    pub menubar_active_color: Option<String>,
}

pub fn default_leader_key() -> (r: String)
    ensures
        r@ == "cmd+shift+a"@,
{
    String::from_str("cmd+shift+a")
}

pub fn default_timeout() -> (r: u64)
    ensures
        r == 2,
{
    2
}

pub fn default_menubar_icon() -> (r: bool)
    ensures
        r,
{
    true
}

impl Default for Config {
    fn default() -> (r: Config)
        ensures
            r.leader_key@ == "cmd+shift+a"@,
            !r.autostart,
            r.timeout == 2,
            r.keybinds@.len() == 0,
            r.placements@.len() == 0,
            r.menubar_icon,
            r.menubar_active_color is None,
    {
        Config {
            leader_key: default_leader_key(),
            autostart: false,
            timeout: default_timeout(),
            keybinds: Vec::new(),
            placements: Vec::new(),
            menubar_icon: default_menubar_icon(),
            menubar_active_color: None,
        }
    }
}

/// The keybindings among `entries[..n]` whose key text parses, with their
/// actions, in order.
pub open spec fn parsed_entries(entries: Seq<(String, Action)>, n: nat) -> Seq<(Keybind, Action)>
    decreases n,
{
    if n == 0 {
        Seq::empty()
    } else {
        let prev = parsed_entries(entries, (n - 1) as nat);
        match keybind_of(entries[n - 1].0@) {
            Some(k) => prev.push((k, entries[n - 1].1)),
            None => prev,
        }
    }
}

/// View of a placement table: names and placements.
pub open spec fn table_view(entries: Seq<(String, Placement)>) -> Seq<
    (Seq<char>, (Option<Seq<char>>, Option<Seq<char>>, Option<Seq<char>>, Option<Seq<char>>)),
> {
    entries.map_values(|e: (String, Placement)| (e.0@, e.1@))
}

/// The first placement of a table with the given name.
pub open spec fn lookup_view(
    t: Seq<(Seq<char>, (Option<Seq<char>>, Option<Seq<char>>, Option<Seq<char>>, Option<Seq<char>>))>,
    name: Seq<char>,
) -> Option<(Option<Seq<char>>, Option<Seq<char>>, Option<Seq<char>>, Option<Seq<char>>)>
    decreases t.len(),
{
    if t.len() == 0 {
        None
    } else if t[0].0 == name {
        Some(t[0].1)
    } else {
        lookup_view(t.drop_first(), name)
    }
}

/// The built-in placements: halves, quarters and center.
pub open spec fn builtin_table() -> Seq<
    (Seq<char>, (Option<Seq<char>>, Option<Seq<char>>, Option<Seq<char>>, Option<Seq<char>>)),
> {
    seq![
        ("left"@, (None, Some("0%"@), Some("50%"@), Some("100%"@))),
        ("right"@, (None, Some("50%"@), Some("50%"@), Some("100%"@))),
        ("top"@, (Some("0%"@), None, Some("100%"@), Some("50%"@))),
        ("bottom"@, (Some("50%"@), None, Some("100%"@), Some("50%"@))),
        ("top_left"@, (Some("0%"@), Some("0%"@), Some("50%"@), Some("50%"@))),
        ("top_right"@, (Some("0%"@), Some("50%"@), Some("50%"@), Some("50%"@))),
        ("bottom_left"@, (Some("50%"@), Some("0%"@), Some("50%"@), Some("50%"@))),
        ("bottom_right"@, (Some("50%"@), Some("50%"@), Some("50%"@), Some("50%"@))),
        ("center"@, (Some("center"@), Some("center"@), None, None)),
    ]
}

fn placement_of(top: Option<&str>, left: Option<&str>, width: Option<&str>, height: Option<&str>) -> (r:
    Placement)
    ensures
        r@.0 == (match top { Some(t) => Some(t@), None => None::<Seq<char>> }),
        r@.1 == (match left { Some(t) => Some(t@), None => None::<Seq<char>> }),
        r@.2 == (match width { Some(t) => Some(t@), None => None::<Seq<char>> }),
        r@.3 == (match height { Some(t) => Some(t@), None => None::<Seq<char>> }),
{
    Placement {
        top: match top { Some(t) => Some(String::from_str(t)), None => None },
        left: match left { Some(t) => Some(String::from_str(t)), None => None },
        width: match width { Some(t) => Some(String::from_str(t)), None => None },
        height: match height { Some(t) => Some(String::from_str(t)), None => None },
    }
}

/// The built-in placements.
pub fn builtin_placements() -> (r: Vec<(String, Placement)>)
    ensures
        table_view(r@) == builtin_table(),
{
    let mut v: Vec<(String, Placement)> = Vec::new();
    v.push((String::from_str("left"), placement_of(None, Some("0%"), Some("50%"), Some("100%"))));
    v.push((String::from_str("right"), placement_of(None, Some("50%"), Some("50%"), Some("100%"))));
    v.push((String::from_str("top"), placement_of(Some("0%"), None, Some("100%"), Some("50%"))));
    v.push((String::from_str("bottom"), placement_of(Some("50%"), None, Some("100%"), Some("50%"))));
    v.push((String::from_str("top_left"), placement_of(Some("0%"), Some("0%"), Some("50%"), Some("50%"))));
    v.push((String::from_str("top_right"), placement_of(Some("0%"), Some("50%"), Some("50%"), Some("50%"))));
    v.push((String::from_str("bottom_left"), placement_of(Some("50%"), Some("0%"), Some("50%"), Some("50%"))));
    v.push((String::from_str("bottom_right"), placement_of(Some("50%"), Some("50%"), Some("50%"), Some("50%"))));
    v.push((String::from_str("center"), placement_of(Some("center"), Some("center"), None, None)));
    assert(table_view(v@) =~= builtin_table());
    v
}

proof fn lemma_lookup_concat(
    a: Seq<(Seq<char>, (Option<Seq<char>>, Option<Seq<char>>, Option<Seq<char>>, Option<Seq<char>>))>,
    b: Seq<(Seq<char>, (Option<Seq<char>>, Option<Seq<char>>, Option<Seq<char>>, Option<Seq<char>>))>,
    name: Seq<char>,
)
    ensures
        lookup_view(a + b, name) == (match lookup_view(a, name) {
            Some(p) => Some(p),
            None => lookup_view(b, name),
        }),
    decreases a.len(),
{
    if a.len() > 0 {
        assert((a + b).drop_first() =~= a.drop_first() + b);
        lemma_lookup_concat(a.drop_first(), b, name);
    } else {
        assert(a + b =~= b);
    }
}

impl Placement {
    /// A copy of this placement.
    pub fn copy(&self) -> (r: Placement)
        ensures
            r == *self,
    {
        Placement {
            top: match &self.top { Some(t) => Some(t.clone()), None => None },
            left: match &self.left { Some(t) => Some(t.clone()), None => None },
            width: match &self.width { Some(t) => Some(t.clone()), None => None },
            height: match &self.height { Some(t) => Some(t.clone()), None => None },
        }
    }
}

/// The placement named `name` in a table: its first entry of that name.
pub fn find_placement(entries: &Vec<(String, Placement)>, name: &str) -> (r: Option<Placement>)
    ensures
        match r {
            Some(p) => lookup_view(table_view(entries@), name@) == Some(p@),
            None => lookup_view(table_view(entries@), name@) is None,
        },
{
    let mut i: usize = 0;
    assert(entries@.subrange(0, entries@.len() as int) == entries@);
    while i < entries.len()
        invariant
            i <= entries@.len(),
            lookup_view(table_view(entries@), name@) == lookup_view(
                table_view(entries@.subrange(i as int, entries@.len() as int)),
                name@,
            ),
        decreases entries@.len() - i,
    {
        let ghost rest = table_view(entries@.subrange(i as int, entries@.len() as int));
        assert(rest.drop_first() =~= table_view(entries@.subrange(i + 1, entries@.len() as int)));
        if str_eq(entries[i].0.as_str(), name) {
            return Some(entries[i].1.copy());
        }
        i += 1;
    }
    assert(table_view(entries@.subrange(i as int, entries@.len() as int)) =~= Seq::empty());
    None
}

impl Config {
    /// Parses a keybinding's key text.
    pub fn parse_keybind(key: &str) -> (r: Result<Keybind, PixieError>)
        ensures
            match r {
                Ok(k) => keybind_of(key@) == Some(k),
                Err(e) => keybind_of(key@) is None && e is Config,
            },
    {
        parse_keybind(key)
    }

    /// The keybindings whose key text parses, in order; the others are left out.
    pub fn parsed_keybinds(&self) -> (r: Vec<KeybindEntry>)
        ensures
            r@.len() == parsed_entries(self.keybinds@, self.keybinds@.len()).len(),
            forall|k: int|
                0 <= k < r@.len() ==> (#[trigger] r@[k]).keybind == parsed_entries(
                    self.keybinds@,
                    self.keybinds@.len(),
                )[k].0 && r@[k].action == parsed_entries(self.keybinds@, self.keybinds@.len())[k].1,
    {
        let mut out: Vec<KeybindEntry> = Vec::new();
        let mut i: usize = 0;
        while i < self.keybinds.len()
            invariant
                i <= self.keybinds@.len(),
                out@.len() == parsed_entries(self.keybinds@, i as nat).len(),
                forall|k: int|
                    0 <= k < out@.len() ==> (#[trigger] out@[k]).keybind == parsed_entries(
                        self.keybinds@,
                        i as nat,
                    )[k].0 && out@[k].action == parsed_entries(self.keybinds@, i as nat)[k].1,
            decreases self.keybinds@.len() - i,
        {
            if let Ok(keybind) = parse_keybind(self.keybinds[i].0.as_str()) {
                out.push(KeybindEntry { keybind, action: self.keybinds[i].1.copy() });
            }
            i += 1;
        }
        out
    }

    /// Built-in placements overlaid with the user's: a name the user defines
    /// finds the user's placement.
    pub fn get_placements(&self) -> (r: Vec<(String, Placement)>)
        ensures
            forall|name: Seq<char>|
                #[trigger] lookup_view(table_view(r@), name) == (match lookup_view(
                    table_view(self.placements@),
                    name,
                ) {
                    Some(p) => Some(p),
                    None => lookup_view(builtin_table(), name),
                }),
    {
        let mut out: Vec<(String, Placement)> = Vec::new();
        let mut i: usize = 0;
        while i < self.placements.len()
            invariant
                i <= self.placements@.len(),
                out@ == self.placements@.subrange(0, i as int),
            decreases self.placements@.len() - i,
        {
            let e = &self.placements[i];
            out.push((e.0.clone(), e.1.copy()));
            assert(out@ =~= self.placements@.subrange(0, i + 1));
            i += 1;
        }
        assert(self.placements@.subrange(0, self.placements@.len() as int) == self.placements@);
        let ghost user = table_view(out@);
        let mut builtins = builtin_placements();
        out.append(&mut builtins);
        proof {
            assert(table_view(out@) =~= user + builtin_table());
            assert forall|name: Seq<char>|
                #[trigger] lookup_view(table_view(out@), name) == (match lookup_view(
                    table_view(self.placements@),
                    name,
                ) {
                    Some(p) => Some(p),
                    None => lookup_view(builtin_table(), name),
                }) by {
                lemma_lookup_concat(user, builtin_table(), name);
            }
        }
        out
    }
}

} // verus!
