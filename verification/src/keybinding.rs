//! Keybindings: the shell's own model of keys and modifiers, and the
//! parser that turns a keybinding string like `C-S-c` or `Ctrl-x` into
//! a binding.

use vstd::prelude::*;

use crate::subst::{split_at_char, split_string, str_to_chars, chars_to_string};

verus! {

/// A key, as the line editor reports it.
#[derive(Debug, PartialEq, Eq, Structural, Clone, Copy)]
pub enum KeyCode {
    Char(char),
    Backspace,
    Delete,
    Down,
    Esc,
    Enter,
    Left,
    Right,
    Tab,
    Up,
}

/// A set of key modifiers, one bit each.
#[derive(Debug, PartialEq, Eq, Structural, Clone, Copy)]
pub struct KeyModifiers {
    pub bits: u8,
}

impl KeyModifiers {
    /// No modifier.
    pub fn none() -> (r: KeyModifiers)
        ensures
            r.bits == 0,
    {
        KeyModifiers { bits: 0 }
    }

    /// The shift modifier.
    pub fn shift() -> (r: KeyModifiers)
        ensures
            r.bits == 1,
    {
        KeyModifiers { bits: 1 }
    }

    /// The alt modifier.
    pub fn alt() -> (r: KeyModifiers)
        ensures
            r.bits == 2,
    {
        KeyModifiers { bits: 2 }
    }

    /// The control modifier.
    pub fn control() -> (r: KeyModifiers)
        ensures
            r.bits == 4,
    {
        KeyModifiers { bits: 4 }
    }

    /// The super modifier.
    pub fn superkey() -> (r: KeyModifiers)
        ensures
            r.bits == 8,
    {
        KeyModifiers { bits: 8 }
    }

    /// The meta modifier.
    pub fn meta() -> (r: KeyModifiers)
        ensures
            r.bits == 16,
    {
        KeyModifiers { bits: 16 }
    }

    /// Both sets of modifiers together.
    pub fn union(self, other: KeyModifiers) -> (r: KeyModifiers)
        ensures
            r.bits == (self.bits | other.bits),
    {
        KeyModifiers { bits: self.bits | other.bits }
    }
}

/// A key press: the key and the modifiers held with it.
#[derive(Debug, PartialEq, Eq, Structural, Clone, Copy)]
pub struct KeyEvent {
    pub code: KeyCode,
    pub modifiers: KeyModifiers,
}

impl KeyEvent {
    /// A key press without modifiers, as a value.
    pub open spec fn plain_spec(code: KeyCode) -> KeyEvent {
        KeyEvent { code, modifiers: KeyModifiers { bits: 0 } }
    }

    /// A key press with the given modifiers.
    pub fn new(code: KeyCode, modifiers: KeyModifiers) -> (r: KeyEvent)
        ensures
            r.code == code,
            r.modifiers == modifiers,
    {
        KeyEvent { code, modifiers }
    }

    /// A key press without modifiers.
    pub fn plain(code: KeyCode) -> (r: KeyEvent)
        ensures
            r == KeyEvent::plain_spec(code),
    {
        KeyEvent { code, modifiers: KeyModifiers { bits: 0 } }
    }
}

/// One key with its modifiers, as bindings are stored.
pub type Binding = (KeyCode, KeyModifiers);

/// Errors from parsing a keybinding string.
#[derive(Debug, PartialEq, Eq)]
pub enum BindingFromStrError {
    UnknownKey(String),
    UnknownMod(String),
    EmptyKeybinding,
}

/// An ASCII upper-case letter lowered; any other character unchanged.
pub open spec fn lower_char(c: char) -> char {
    if c == 'A' {
        'a'
    } else if c == 'B' {
        'b'
    } else if c == 'C' {
        'c'
    } else if c == 'D' {
        'd'
    } else if c == 'E' {
        'e'
    } else if c == 'F' {
        'f'
    } else if c == 'G' {
        'g'
    } else if c == 'H' {
        'h'
    } else if c == 'I' {
        'i'
    } else if c == 'J' {
        'j'
    } else if c == 'K' {
        'k'
    } else if c == 'L' {
        'l'
    } else if c == 'M' {
        'm'
    } else if c == 'N' {
        'n'
    } else if c == 'O' {
        'o'
    } else if c == 'P' {
        'p'
    } else if c == 'Q' {
        'q'
    } else if c == 'R' {
        'r'
    } else if c == 'S' {
        's'
    } else if c == 'T' {
        't'
    } else if c == 'U' {
        'u'
    } else if c == 'V' {
        'v'
    } else if c == 'W' {
        'w'
    } else if c == 'X' {
        'x'
    } else if c == 'Y' {
        'y'
    } else if c == 'Z' {
        'z'
    } else {
        c
    }
}

/// A word with its ASCII letters lowered.
pub open spec fn lower_str(s: Seq<char>) -> Seq<char> {
    s.map_values(|c: char| lower_char(c))
}

/// The key a keycode word names, if any: a single printable character
/// stands for itself, and a few bracketed words name special keys.
pub open spec fn keycode_spec(s: Seq<char>) -> Option<KeyCode> {
    if s.len() == 1 && '!' <= s[0] && s[0] <= '~' {
        Option::Some(KeyCode::Char(s[0]))
    } else if s == "<space>"@ {
        Option::Some(KeyCode::Char(' '))
    } else if s == "<backspace>"@ {
        Option::Some(KeyCode::Backspace)
    } else if s == "<delete>"@ {
        Option::Some(KeyCode::Delete)
    } else if s == "<down>"@ {
        Option::Some(KeyCode::Down)
    } else if s == "<esc>"@ {
        Option::Some(KeyCode::Esc)
    } else if s == "<enter>"@ {
        Option::Some(KeyCode::Enter)
    } else if s == "<left>"@ {
        Option::Some(KeyCode::Left)
    } else if s == "<right>"@ {
        Option::Some(KeyCode::Right)
    } else if s == "<tab>"@ {
        Option::Some(KeyCode::Tab)
    } else if s == "<up>"@ {
        Option::Some(KeyCode::Up)
    } else {
        Option::None
    }
}

/// The modifier bit a word names, compared case-insensitively.
pub open spec fn modifier_spec(s: Seq<char>) -> Option<u8> {
    let l = lower_str(s);
    if l == "s"@ || l == "shift"@ {
        Option::Some(1)
    } else if l == "a"@ || l == "alt"@ {
        Option::Some(2)
    } else if l == "c"@ || l == "ctrl"@ {
        Option::Some(4)
    } else if l == "super"@ {
        Option::Some(8)
    } else if l == "m"@ || l == "meta"@ {
        Option::Some(16)
    } else {
        Option::None
    }
}

/// Fold the modifier words into an accumulated bit set, left to right;
/// the first unknown word is the error.
pub open spec fn mods_fold(parts: Seq<Seq<char>>, acc: u8) -> Result<u8, Seq<char>>
    decreases parts.len(),
{
    if parts.len() == 0 {
        Result::Ok(acc)
    } else {
        match modifier_spec(parts[0]) {
            Option::Some(m) => mods_fold(parts.skip(1), (acc | m) as u8),
            Option::None => Result::Err(parts[0]),
        }
    }
}

/// What parsing a keybinding string yields: the last `-`-separated
/// field is the key, the fields before it are modifiers.
pub open spec fn binding_spec(s: Seq<char>) -> Result<(KeyCode, u8), Seq<char>> {
    let parts = split_at_char(s, '-');
    match keycode_spec(parts.last()) {
        Option::None => Result::Err(parts.last()),
        Option::Some(code) => match mods_fold(parts.drop_last(), 0) {
            Result::Ok(bits) => Result::Ok((code, bits)),
            Result::Err(bad) => Result::Err(bad),
        },
    }
}

/// Lower a word's ASCII letters.
fn to_lower_string(s: &String) -> (r: String)
    ensures
        r@ == lower_str(s@),
{
    let chars = str_to_chars(s);
    let mut out: Vec<char> = Vec::new();
    let mut i: usize = 0;
    while i < chars.len()
        invariant
            i <= chars@.len(),
            out@.len() == i as int,
            forall|k: int| 0 <= k < i ==> out@[k] == lower_char(#[trigger] chars@[k]),
        decreases chars.len() - i,
    {
        let c = chars[i];
        let l: char = if c == 'A' {
            'a'
        } else if c == 'B' {
            'b'
        } else if c == 'C' {
            'c'
        } else if c == 'D' {
            'd'
        } else if c == 'E' {
            'e'
        } else if c == 'F' {
            'f'
        } else if c == 'G' {
            'g'
        } else if c == 'H' {
            'h'
        } else if c == 'I' {
            'i'
        } else if c == 'J' {
            'j'
        } else if c == 'K' {
            'k'
        } else if c == 'L' {
            'l'
        } else if c == 'M' {
            'm'
        } else if c == 'N' {
            'n'
        } else if c == 'O' {
            'o'
        } else if c == 'P' {
            'p'
        } else if c == 'Q' {
            'q'
        } else if c == 'R' {
            'r'
        } else if c == 'S' {
            's'
        } else if c == 'T' {
            't'
        } else if c == 'U' {
            'u'
        } else if c == 'V' {
            'v'
        } else if c == 'W' {
            'w'
        } else if c == 'X' {
            'x'
        } else if c == 'Y' {
            'y'
        } else if c == 'Z' {
            'z'
        } else {
            c
        };
        out.push(l);
        i += 1;
    }
    proof {
        assert(out@ =~= lower_str(chars@));
    }
    chars_to_string(&out)
}

/// Parse the modifier part of a keybinding.
pub fn parse_modifier(s: &String) -> (r: Result<KeyModifiers, BindingFromStrError>)
    ensures
        match modifier_spec(s@) {
            Option::Some(m) => r matches Ok(km) && km.bits == m,
            Option::None => r matches Err(BindingFromStrError::UnknownMod(t)) && t@ == s@,
        },
{
    let l = to_lower_string(s);
    if l.eq(&String::from_str("s")) || l.eq(&String::from_str("shift")) {
        Result::Ok(KeyModifiers::shift())
    } else if l.eq(&String::from_str("a")) || l.eq(&String::from_str("alt")) {
        Result::Ok(KeyModifiers::alt())
    } else if l.eq(&String::from_str("c")) || l.eq(&String::from_str("ctrl")) {
        Result::Ok(KeyModifiers::control())
    } else if l.eq(&String::from_str("super")) {
        Result::Ok(KeyModifiers::superkey())
    } else if l.eq(&String::from_str("m")) || l.eq(&String::from_str("meta")) {
        Result::Ok(KeyModifiers::meta())
    } else {
        Result::Err(BindingFromStrError::UnknownMod(s.clone()))
    }
}

/// Parse the keycode part of a keybinding.
pub fn parse_keycode(s: &String) -> (r: Result<KeyCode, BindingFromStrError>)
    ensures
        match keycode_spec(s@) {
            Option::Some(code) => r == Ok::<KeyCode, BindingFromStrError>(code),
            Option::None => r matches Err(BindingFromStrError::UnknownKey(t)) && t@ == s@,
        },
{
    let n = s.as_str().unicode_len();
    if n == 1 {
        let c = s.as_str().get_char(0);
        if '!' <= c && c <= '~' {
            return Result::Ok(KeyCode::Char(c));
        }
    }
    if s.eq(&String::from_str("<space>")) {
        proof {
            reveal_strlit("<space>");
        }
        Result::Ok(KeyCode::Char(' '))
    } else if s.eq(&String::from_str("<backspace>")) {
        proof {
            reveal_strlit("<backspace>");
        }
        Result::Ok(KeyCode::Backspace)
    } else if s.eq(&String::from_str("<delete>")) {
        proof {
            reveal_strlit("<delete>");
        }
        Result::Ok(KeyCode::Delete)
    } else if s.eq(&String::from_str("<down>")) {
        proof {
            reveal_strlit("<down>");
        }
        Result::Ok(KeyCode::Down)
    } else if s.eq(&String::from_str("<esc>")) {
        proof {
            reveal_strlit("<esc>");
        }
        Result::Ok(KeyCode::Esc)
    } else if s.eq(&String::from_str("<enter>")) {
        proof {
            reveal_strlit("<enter>");
        }
        Result::Ok(KeyCode::Enter)
    } else if s.eq(&String::from_str("<left>")) {
        proof {
            reveal_strlit("<left>");
        }
        Result::Ok(KeyCode::Left)
    } else if s.eq(&String::from_str("<right>")) {
        proof {
            reveal_strlit("<right>");
        }
        Result::Ok(KeyCode::Right)
    } else if s.eq(&String::from_str("<tab>")) {
        proof {
            reveal_strlit("<tab>");
        }
        Result::Ok(KeyCode::Tab)
    } else if s.eq(&String::from_str("<up>")) {
        proof {
            reveal_strlit("<up>");
        }
        Result::Ok(KeyCode::Up)
    } else {
        Result::Err(BindingFromStrError::UnknownKey(s.clone()))
    }
}

/// Parse a keybinding string: the part after the last `-` names the
/// key, the parts before it name modifiers.
pub fn parse_keybinding(s: &String) -> (r: Result<Binding, BindingFromStrError>)
    ensures
        match binding_spec(s@) {
            Result::Ok((code, bits)) => r matches Ok(b) && b.0 == code && b.1.bits == bits,
            Result::Err(bad) => (r matches Err(BindingFromStrError::UnknownKey(t)) && t@ == bad)
                || (r matches Err(BindingFromStrError::UnknownMod(t)) && t@ == bad),
        },
{
    let parts = split_string(s, '-');
    let ghost pv = crate::ast::strings_view(parts@);
    let last_index = parts.len() - 1;
    let keycode = match parse_keycode(&parts[last_index]) {
        Result::Ok(code) => code,
        Result::Err(e) => {
            proof {
                assert(pv.last() == parts@[last_index as int]@);
            }
            return Result::Err(e);
        },
    };
    proof {
        assert(pv.last() == parts@[last_index as int]@);
    }
    let mut mods = KeyModifiers::none();
    let mut i: usize = 0;
    proof {
        assert(pv.drop_last().skip(0) =~= pv.drop_last());
    }
    while i < last_index
        invariant
            i <= last_index,
            last_index == parts@.len() - 1,
            pv == crate::ast::strings_view(parts@),
            pv.len() == parts@.len(),
            pv == split_at_char(s@, '-'),
            keycode_spec(pv.last()) == Option::Some(keycode),
            mods_fold(pv.drop_last(), 0) == mods_fold(pv.drop_last().skip(i as int), mods.bits),
        decreases last_index - i,
    {
        proof {
            assert(pv.drop_last()[i as int] == parts@[i as int]@);
        }
        let m = match parse_modifier(&parts[i]) {
            Result::Ok(m) => m,
            Result::Err(e) => {
                proof {
                    let dl = pv.drop_last();
                    assert(dl.skip(i as int)[0] == dl[i as int]);
                    assert(mods_fold(dl.skip(i as int), mods.bits) == Result::<u8, Seq<char>>::Err(
                        dl[i as int],
                    ));
                }
                return Result::Err(e);
            },
        };
        mods = mods.union(m);
        i += 1;
        proof {
            assert(pv.drop_last().skip(i - 1).skip(1) =~= pv.drop_last().skip(i as int));
        }
    }
    proof {
        assert(pv.drop_last().skip(last_index as int) =~= Seq::<Seq<char>>::empty());
    }
    Result::Ok((keycode, mods))
}

} // verus!
