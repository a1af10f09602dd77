use vstd::prelude::*;

verus! {

/// The symbolic name of a key: letters, digits and punctuation.
///
/// `Space` has no spelling in the notation; it exists for hosts that report it.
#[derive(Clone, Copy, Debug, PartialEq, Eq, Structural)]
pub enum KeyName {
    A,
    B,
    C,
    D,
    E,
    F,
    G,
    H,
    I,
    J,
    K,
    L,
    M,
    N,
    O,
    P,
    Q,
    R,
    S,
    T,
    U,
    V,
    W,
    X,
    Y,
    Z,
    Number0,
    Number1,
    Number2,
    Number3,
    Number4,
    Number5,
    Number6,
    Number7,
    Number8,
    Number9,
    Bang,
    At,
    Pound,
    Dollar,
    Percent,
    Carrot,
    Ampersand,
    Star,
    ParenLeft,
    ParenRight,
    BracketLeft,
    BracketRight,
    BraceLeft,
    BraceRight,
    Backtick,
    Tilde,
    Equals,
    Underscore,
    Plus,
    ForwardSlash,
    Backslash,
    Question,
    Pipe,
    SingleQuote,
    DoubleQuote,
    Comma,
    Period,
    Colon,
    Semicolon,
    Dash,
    LessThan,
    GreaterThan,
    Space,
}

/// The three modifier flags of a key. All combinations are valid.
#[derive(Clone, Copy, Debug, PartialEq, Eq, Structural)]
pub struct Modifiers {
    pub shift: bool,
    pub control: bool,
    pub alt: bool,
}

/// A key name together with the modifiers held with it.
#[derive(Clone, Copy, Debug, PartialEq, Eq, Structural)]
pub struct Key {
    pub modifiers: Modifiers,
    pub name: KeyName,
}

/// An ordered sequence of keys, in the order they were written.
#[derive(Clone, Debug, PartialEq, Eq)]
pub struct Keys(pub Vec<Key>);

impl View for Keys {
    type V = Seq<Key>;

    open spec fn view(&self) -> Seq<Key> {
        self.0@
    }
}

/// No modifier held.
pub open spec fn no_modifiers() -> Modifiers {
    Modifiers { shift: false, control: false, alt: false }
}

impl Default for Modifiers {
    fn default() -> (r: Modifiers)
        ensures
            r == no_modifiers(),
    {
        Modifiers { shift: false, control: false, alt: false }
    }
}

impl Modifiers {
    /// Builds the modifiers from the flags that a host input system reports.
    ///
    /// The notation has no symbol for a platform ("logo", "super") modifier, so a
    /// report holding one is rejected rather than dropped.
    pub fn from_flags(shift: bool, control: bool, alt: bool, logo: bool) -> (r: Option<Modifiers>)
        ensures
            logo ==> r is None,
            !logo ==> r == Some(Modifiers { shift, control, alt }),
    {
        if logo {
            None
        } else {
            Some(Modifiers { shift, control, alt })
        }
    }
}

/// The key that a single unescaped character spells, with its implicit shift:
/// `true` for the upper-case spelling of a letter.
pub open spec fn bare_key(c: char) -> Option<(KeyName, bool)> {
    match c {
        'a' => Some((KeyName::A, false)),
        'b' => Some((KeyName::B, false)),
        'c' => Some((KeyName::C, false)),
        'd' => Some((KeyName::D, false)),
        'e' => Some((KeyName::E, false)),
        'f' => Some((KeyName::F, false)),
        'g' => Some((KeyName::G, false)),
        'h' => Some((KeyName::H, false)),
        'i' => Some((KeyName::I, false)),
        'j' => Some((KeyName::J, false)),
        'k' => Some((KeyName::K, false)),
        'l' => Some((KeyName::L, false)),
        'm' => Some((KeyName::M, false)),
        'n' => Some((KeyName::N, false)),
        'o' => Some((KeyName::O, false)),
        'p' => Some((KeyName::P, false)),
        'q' => Some((KeyName::Q, false)),
        'r' => Some((KeyName::R, false)),
        's' => Some((KeyName::S, false)),
        't' => Some((KeyName::T, false)),
        'u' => Some((KeyName::U, false)),
        'v' => Some((KeyName::V, false)),
        'w' => Some((KeyName::W, false)),
        'x' => Some((KeyName::X, false)),
        'y' => Some((KeyName::Y, false)),
        'z' => Some((KeyName::Z, false)),
        'A' => Some((KeyName::A, true)),
        'B' => Some((KeyName::B, true)),
        'C' => Some((KeyName::C, true)),
        'D' => Some((KeyName::D, true)),
        'E' => Some((KeyName::E, true)),
        'F' => Some((KeyName::F, true)),
        'G' => Some((KeyName::G, true)),
        'H' => Some((KeyName::H, true)),
        'I' => Some((KeyName::I, true)),
        'J' => Some((KeyName::J, true)),
        'K' => Some((KeyName::K, true)),
        'L' => Some((KeyName::L, true)),
        'M' => Some((KeyName::M, true)),
        'N' => Some((KeyName::N, true)),
        'O' => Some((KeyName::O, true)),
        'P' => Some((KeyName::P, true)),
        'Q' => Some((KeyName::Q, true)),
        'R' => Some((KeyName::R, true)),
        'S' => Some((KeyName::S, true)),
        'T' => Some((KeyName::T, true)),
        'U' => Some((KeyName::U, true)),
        'V' => Some((KeyName::V, true)),
        'W' => Some((KeyName::W, true)),
        'X' => Some((KeyName::X, true)),
        'Y' => Some((KeyName::Y, true)),
        'Z' => Some((KeyName::Z, true)),
        '0' => Some((KeyName::Number0, false)),
        '1' => Some((KeyName::Number1, false)),
        '2' => Some((KeyName::Number2, false)),
        '3' => Some((KeyName::Number3, false)),
        '4' => Some((KeyName::Number4, false)),
        '5' => Some((KeyName::Number5, false)),
        '6' => Some((KeyName::Number6, false)),
        '7' => Some((KeyName::Number7, false)),
        '8' => Some((KeyName::Number8, false)),
        '9' => Some((KeyName::Number9, false)),
        '!' => Some((KeyName::Bang, false)),
        '@' => Some((KeyName::At, false)),
        '#' => Some((KeyName::Pound, false)),
        '$' => Some((KeyName::Dollar, false)),
        '%' => Some((KeyName::Percent, false)),
        '^' => Some((KeyName::Carrot, false)),
        '&' => Some((KeyName::Ampersand, false)),
        '*' => Some((KeyName::Star, false)),
        '(' => Some((KeyName::ParenLeft, false)),
        ')' => Some((KeyName::ParenRight, false)),
        '[' => Some((KeyName::BracketLeft, false)),
        ']' => Some((KeyName::BracketRight, false)),
        '{' => Some((KeyName::BraceLeft, false)),
        '}' => Some((KeyName::BraceRight, false)),
        '`' => Some((KeyName::Backtick, false)),
        '~' => Some((KeyName::Tilde, false)),
        '=' => Some((KeyName::Equals, false)),
        '_' => Some((KeyName::Underscore, false)),
        '+' => Some((KeyName::Plus, false)),
        '/' => Some((KeyName::ForwardSlash, false)),
        '\\' => Some((KeyName::Backslash, false)),
        '?' => Some((KeyName::Question, false)),
        '|' => Some((KeyName::Pipe, false)),
        '\'' => Some((KeyName::SingleQuote, false)),
        '"' => Some((KeyName::DoubleQuote, false)),
        ',' => Some((KeyName::Comma, false)),
        '.' => Some((KeyName::Period, false)),
        ':' => Some((KeyName::Colon, false)),
        ';' => Some((KeyName::Semicolon, false)),
        _ => None,
    }
}

/// The key that a backslash followed by `c` spells. Only the notation's own
/// metacharacters are spelled this way.
pub open spec fn escaped_key(c: char) -> Option<(KeyName, bool)> {
    match c {
        '-' => Some((KeyName::Dash, false)),
        '<' => Some((KeyName::LessThan, false)),
        '>' => Some((KeyName::GreaterThan, false)),
        _ => None,
    }
}

/// The key that a literal spelling names, with its implicit shift, if the
/// spelling is one of the table's.
pub open spec fn literal_key(s: Seq<char>) -> Option<(KeyName, bool)> {
    if s.len() == 1 {
        bare_key(s[0])
    } else if s.len() == 2 && s[0] == '\\' {
        escaped_key(s[1])
    } else {
        None
    }
}

fn bare_key_of(c: char) -> (r: Option<(KeyName, bool)>)
    ensures
        r == bare_key(c),
{
    match c {
        'a' => Some((KeyName::A, false)),
        'b' => Some((KeyName::B, false)),
        'c' => Some((KeyName::C, false)),
        'd' => Some((KeyName::D, false)),
        'e' => Some((KeyName::E, false)),
        'f' => Some((KeyName::F, false)),
        'g' => Some((KeyName::G, false)),
        'h' => Some((KeyName::H, false)),
        'i' => Some((KeyName::I, false)),
        'j' => Some((KeyName::J, false)),
        'k' => Some((KeyName::K, false)),
        'l' => Some((KeyName::L, false)),
        'm' => Some((KeyName::M, false)),
        'n' => Some((KeyName::N, false)),
        'o' => Some((KeyName::O, false)),
        'p' => Some((KeyName::P, false)),
        'q' => Some((KeyName::Q, false)),
        'r' => Some((KeyName::R, false)),
        's' => Some((KeyName::S, false)),
        't' => Some((KeyName::T, false)),
        'u' => Some((KeyName::U, false)),
        'v' => Some((KeyName::V, false)),
        'w' => Some((KeyName::W, false)),
        'x' => Some((KeyName::X, false)),
        'y' => Some((KeyName::Y, false)),
        'z' => Some((KeyName::Z, false)),
        'A' => Some((KeyName::A, true)),
        'B' => Some((KeyName::B, true)),
        'C' => Some((KeyName::C, true)),
        'D' => Some((KeyName::D, true)),
        'E' => Some((KeyName::E, true)),
        'F' => Some((KeyName::F, true)),
        'G' => Some((KeyName::G, true)),
        'H' => Some((KeyName::H, true)),
        'I' => Some((KeyName::I, true)),
        'J' => Some((KeyName::J, true)),
        'K' => Some((KeyName::K, true)),
        'L' => Some((KeyName::L, true)),
        'M' => Some((KeyName::M, true)),
        'N' => Some((KeyName::N, true)),
        'O' => Some((KeyName::O, true)),
        'P' => Some((KeyName::P, true)),
        'Q' => Some((KeyName::Q, true)),
        'R' => Some((KeyName::R, true)),
        'S' => Some((KeyName::S, true)),
        'T' => Some((KeyName::T, true)),
        'U' => Some((KeyName::U, true)),
        'V' => Some((KeyName::V, true)),
        'W' => Some((KeyName::W, true)),
        'X' => Some((KeyName::X, true)),
        'Y' => Some((KeyName::Y, true)),
        'Z' => Some((KeyName::Z, true)),
        '0' => Some((KeyName::Number0, false)),
        '1' => Some((KeyName::Number1, false)),
        '2' => Some((KeyName::Number2, false)),
        '3' => Some((KeyName::Number3, false)),
        '4' => Some((KeyName::Number4, false)),
        '5' => Some((KeyName::Number5, false)),
        '6' => Some((KeyName::Number6, false)),
        '7' => Some((KeyName::Number7, false)),
        '8' => Some((KeyName::Number8, false)),
        '9' => Some((KeyName::Number9, false)),
        '!' => Some((KeyName::Bang, false)),
        '@' => Some((KeyName::At, false)),
        '#' => Some((KeyName::Pound, false)),
        '$' => Some((KeyName::Dollar, false)),
        '%' => Some((KeyName::Percent, false)),
        '^' => Some((KeyName::Carrot, false)),
        '&' => Some((KeyName::Ampersand, false)),
        '*' => Some((KeyName::Star, false)),
        '(' => Some((KeyName::ParenLeft, false)),
        ')' => Some((KeyName::ParenRight, false)),
        '[' => Some((KeyName::BracketLeft, false)),
        ']' => Some((KeyName::BracketRight, false)),
        '{' => Some((KeyName::BraceLeft, false)),
        '}' => Some((KeyName::BraceRight, false)),
        '`' => Some((KeyName::Backtick, false)),
        '~' => Some((KeyName::Tilde, false)),
        '=' => Some((KeyName::Equals, false)),
        '_' => Some((KeyName::Underscore, false)),
        '+' => Some((KeyName::Plus, false)),
        '/' => Some((KeyName::ForwardSlash, false)),
        '\\' => Some((KeyName::Backslash, false)),
        '?' => Some((KeyName::Question, false)),
        '|' => Some((KeyName::Pipe, false)),
        '\'' => Some((KeyName::SingleQuote, false)),
        '"' => Some((KeyName::DoubleQuote, false)),
        ',' => Some((KeyName::Comma, false)),
        '.' => Some((KeyName::Period, false)),
        ':' => Some((KeyName::Colon, false)),
        ';' => Some((KeyName::Semicolon, false)),
        _ => None,
    }
}

fn escaped_key_of(c: char) -> (r: Option<(KeyName, bool)>)
    ensures
        r == escaped_key(c),
{
    match c {
        '-' => Some((KeyName::Dash, false)),
        '<' => Some((KeyName::LessThan, false)),
        '>' => Some((KeyName::GreaterThan, false)),
        _ => None,
    }
}

impl KeyName {
    /// Looks a literal spelling up in the key table.
    ///
    /// Returns the key name and whether the spelling implies shift, or `None`
    /// for a spelling the table does not hold. No case folding takes place.
    pub fn from_str(value: &str) -> (r: Option<(KeyName, bool)>)
        ensures
            r == literal_key(value@),
    {
        let n = value.unicode_len();
        if n == 1 {
            bare_key_of(value.get_char(0))
        } else if n == 2 && value.get_char(0) == '\\' {
            escaped_key_of(value.get_char(1))
        } else {
            None
        }
    }
}

} // verus!
