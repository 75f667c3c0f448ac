//! Colours of the board and interface, read from an Omarchy `colors.toml`.
use vstd::prelude::*;
use crate::text::{chars_of, push_char};

verus! {

/// A colour by its red, green and blue components.
#[derive(Clone, Copy, Debug, PartialEq, Eq, Structural)]
pub struct Rgb {
    pub r: u8,
    pub g: u8,
    pub b: u8,
}

impl Rgb {
    pub open spec fn spec_black() -> Rgb {
        Rgb { r: 0, g: 0, b: 0 }
    }

    pub open spec fn spec_white() -> Rgb {
        Rgb { r: 255, g: 255, b: 255 }
    }

    /// Black.
    pub fn black() -> (r: Rgb)
        ensures
            r == Self::spec_black(),
    {
        Rgb { r: 0, g: 0, b: 0 }
    }

    /// White.
    pub fn white() -> (r: Rgb)
        ensures
            r == Self::spec_white(),
    {
        Rgb { r: 255, g: 255, b: 255 }
    }
}

/// The value of a hexadecimal digit character, if it is one.
pub open spec fn hex_value(c: char) -> Option<int> {
    let n = c as u32;
    if 48 <= n <= 57 {
        Some(n - 48)
    } else if 97 <= n <= 102 {
        Some(n - 87)
    } else if 65 <= n <= 70 {
        Some(n - 55)
    } else {
        None
    }
}

/// The colour written `#rrggbb` in hexadecimal digits of either case.
pub open spec fn spec_parse_color(s: Seq<char>) -> Option<Rgb> {
    if s.len() == 7 && s[0] == '#' && (forall|i: int| 1 <= i < 7 ==> #[trigger] hex_value(s[i]) is Some) {
        Some(
            Rgb {
                r: (hex_value(s[1])->0 * 16 + hex_value(s[2])->0) as u8,
                g: (hex_value(s[3])->0 * 16 + hex_value(s[4])->0) as u8,
                b: (hex_value(s[5])->0 * 16 + hex_value(s[6])->0) as u8,
            },
        )
    } else {
        None
    }
}

fn hex_digit(c: char) -> (r: Option<u8>)
    ensures
        match hex_value(c) {
            Some(v) => r == Some(v as u8) && 0 <= v < 16,
            None => r is None,
        },
{
    let n = c as u32;
    if 48 <= n && n <= 57 {
        Some((n - 48) as u8)
    } else if 97 <= n && n <= 102 {
        Some((n - 87) as u8)
    } else if 65 <= n && n <= 70 {
        Some((n - 55) as u8)
    } else {
        None
    }
}

/// Reads a colour written `#rrggbb`.
pub fn parse_color(s: &str) -> (r: Option<Rgb>)
    ensures
        r == spec_parse_color(s@),
{
    let cs = chars_of(s);
    if cs.len() != 7 || cs[0] != '#' {
        return None;
    }
    let mut d: Vec<u8> = Vec::new();
    for i in 1..7
        invariant
            cs@ == s@,
            cs@.len() == 7,
            d@.len() == i - 1,
            forall|j: int| 1 <= j < i ==> #[trigger] hex_value(cs@[j]) is Some && d@[j - 1] as nat == hex_value(cs@[j])->0 && d@[j - 1] < 16,
    {
        match hex_digit(cs[i]) {
            Some(v) => d.push(v),
            None => {
                return None;
            },
        }
    }
    Some(Rgb { r: d[0] * 16 + d[1], g: d[2] * 16 + d[3], b: d[4] * 16 + d[5] })
}

/// The lower-case hexadecimal digit of `v < 16`.
pub open spec fn hex_char(v: nat) -> char {
    if v < 10 {
        ((v + 48) as u8) as char
    } else {
        ((v + 87) as u8) as char
    }
}

/// The colour as `#rrggbb` in lower-case hexadecimal.
pub open spec fn spec_hex(c: Rgb) -> Seq<char> {
    seq![
        '#',
        hex_char(c.r as nat / 16),
        hex_char(c.r as nat % 16),
        hex_char(c.g as nat / 16),
        hex_char(c.g as nat % 16),
        hex_char(c.b as nat / 16),
        hex_char(c.b as nat % 16),
    ]
}

fn hex_char_of(v: u8) -> (c: char)
    requires
        v < 16,
    ensures
        c == hex_char(v as nat),
{
    if v < 10 {
        (v + 48) as char
    } else {
        (v + 87) as char
    }
}

impl Rgb {
    /// The colour as `#rrggbb` in lower-case hexadecimal.
    pub fn hex(self) -> (r: String)
        ensures
            r@ == spec_hex(self),
    {
        let mut s = String::new();
        push_char(&mut s, '#');
        push_char(&mut s, hex_char_of(self.r / 16));
        push_char(&mut s, hex_char_of(self.r % 16));
        push_char(&mut s, hex_char_of(self.g / 16));
        push_char(&mut s, hex_char_of(self.g % 16));
        push_char(&mut s, hex_char_of(self.b / 16));
        push_char(&mut s, hex_char_of(self.b % 16));
        assert(s@ =~= spec_hex(self));
        s
    }
}

/// Reading a colour back from its hexadecimal text gives the colour.
pub proof fn lemma_hex_round_trip(c: Rgb)
    ensures
        spec_parse_color(spec_hex(c)) == Some(c),
{
    let s = spec_hex(c);
    assert forall|v: nat| v < 16 implies #[trigger] hex_value(hex_char(v)) == Some(v as int) by {
        if v < 10 {
            assert((hex_char(v) as u32) == v + 48);
        } else {
            assert((hex_char(v) as u32) == v + 87);
        }
    }
    assert(hex_value(s[1]) == Some((c.r as nat / 16) as int));
    assert(hex_value(s[2]) == Some((c.r as nat % 16) as int));
    assert(hex_value(s[3]) == Some((c.g as nat / 16) as int));
    assert(hex_value(s[4]) == Some((c.g as nat % 16) as int));
    assert(hex_value(s[5]) == Some((c.b as nat / 16) as int));
    assert(hex_value(s[6]) == Some((c.b as nat % 16) as int));
    assert forall|i: int| 1 <= i < 7 implies #[trigger] hex_value(s[i]) is Some by {}
}

/// What the `toml` crate makes of `text` as a table: `None` when it is not
/// one, else the string value of `key` (`None` when absent or not a string).
pub uninterp spec fn toml_string(text: Seq<char>, key: Seq<char>) -> Option<Option<Seq<char>>>;

/// `text.parse::<toml::Table>()`, then `Table::get(key)` and `Value::as_str`,
/// copied into a `String`. The result is named `toml_string`.
#[verifier::external_body]
fn toml_lookup(text: &str, key: &str) -> (r: Option<Option<String>>)
    ensures
        match r {
            None => toml_string(text@, key@) is None,
            Some(v) => toml_string(text@, key@) == Some(crate::chess::opt_view(v)),
        },
{
    match text.parse::<toml::Table>() {
        Err(_) => None,
        Ok(t) => Some(match t.get(key) {
            Some(v) => match v.as_str() {
                Some(s) => Some(s.to_string()),
                None => None,
            },
            None => None,
        }),
    }
}

/// `std::str::from_utf8` of `bytes`, copied into a `String`: std documents
/// that it succeeds exactly on valid UTF-8, whose decoding the text then holds.
#[verifier::external_body]
fn utf8_text(bytes: &[u8]) -> (r: Option<String>)
    ensures
        r is Some <==> vstd::utf8::valid_utf8(bytes@),
        r matches Some(t) ==> t@ == vstd::utf8::decode_utf8(bytes@),
{
    match std::str::from_utf8(bytes) {
        Ok(t) => Some(t.to_string()),
        Err(_) => None,
    }
}

/// The colour that `key` sets in the TOML `text`, if it is one.
pub open spec fn toml_color(text: Seq<char>, key: Seq<char>) -> Option<Rgb> {
    match toml_string(text, key) {
        Some(Some(v)) => spec_parse_color(v),
        _ => None,
    }
}

/// The background, foreground and accent colours.
#[derive(Clone, Copy, Debug, PartialEq, Eq, Structural)]
pub struct Theme {
    pub background: Rgb,
    pub foreground: Rgb,
    pub accent: Rgb,
}

pub open spec fn default_theme() -> Theme {
    Theme {
        background: Rgb { r: 23, g: 28, b: 26 },
        foreground: Rgb { r: 228, g: 232, b: 223 },
        accent: Rgb { r: 179, g: 203, b: 146 },
    }
}

impl Default for Theme {
    fn default() -> (r: Theme)
        ensures
            r == default_theme(),
    {
        Theme {
            background: Rgb { r: 23, g: 28, b: 26 },
            foreground: Rgb { r: 228, g: 232, b: 223 },
            accent: Rgb { r: 179, g: 203, b: 146 },
        }
    }
}

/// The colour of `key` in the TOML `text`, else `fallback`.
fn color_or(text: &str, key: &str, fallback: Rgb) -> (r: Rgb)
    ensures
        r == match toml_color(text@, key@) {
            Some(c) => c,
            None => fallback,
        },
{
    match toml_lookup(text, key) {
        Some(Some(v)) => match parse_color(v.as_str()) {
            Some(c) => c,
            None => fallback,
        },
        _ => fallback,
    }
}

impl Theme {
    pub open spec fn spec_parse(text: Seq<char>) -> Theme {
        let d = default_theme();
        Theme {
            background: match toml_color(text, "background"@) {
                Some(c) => c,
                None => d.background,
            },
            foreground: match toml_color(text, "foreground"@) {
                Some(c) => c,
                None => d.foreground,
            },
            accent: match toml_color(text, "accent"@) {
                Some(c) => c,
                None => d.accent,
            },
        }
    }

    /// The default colours, each replaced by a valid `#rrggbb` string of the
    /// same key in the TOML `text`.
    pub fn parse(text: &str) -> (r: Theme)
        ensures
            r == Self::spec_parse(text@),
    {
        let d = Theme::default();
        Theme {
            background: color_or(text, "background", d.background),
            foreground: color_or(text, "foreground", d.foreground),
            accent: color_or(text, "accent", d.accent),
        }
    }

    pub open spec fn spec_from_file(bytes: Seq<u8>) -> Option<Theme> {
        if !vstd::utf8::valid_utf8(bytes) {
            None
        } else {
            let text = vstd::utf8::decode_utf8(bytes);
            if toml_color(text, "background"@) is Some && toml_color(text, "foreground"@) is Some {
                Some(Self::spec_parse(text))
            } else {
                None
            }
        }
    }

    /// The theme of a `colors.toml` file's contents: they must be UTF-8 TOML
    /// with valid background and foreground colours.
    pub fn from_file(bytes: &[u8]) -> (r: Option<Theme>)
        ensures
            r == Self::spec_from_file(bytes@),
    {
        let text = match utf8_text(bytes) {
            Some(t) => t,
            None => {
                return None;
            },
        };
        let bg = match toml_lookup(text.as_str(), "background") {
            Some(Some(v)) => parse_color(v.as_str()),
            _ => None,
        };
        let fg = match toml_lookup(text.as_str(), "foreground") {
            Some(Some(v)) => parse_color(v.as_str()),
            _ => None,
        };
        if bg.is_none() || fg.is_none() {
            return None;
        }
        Some(Theme::parse(text.as_str()))
    }

    /// Whether the background is light.
    pub fn light(&self) -> (r: bool)
        ensures
            r == (self.background.r + self.background.g + self.background.b > 420),
    {
        self.background.r as u32 + self.background.g as u32 + self.background.b as u32 > 420
    }

    /// Black or white text, whichever reads on the accent colour.
    pub fn accent_text(&self) -> (r: Rgb)
        ensures
            r == if self.accent.r * 299 + self.accent.g * 587 + self.accent.b * 114 > 140000 {
                Rgb::spec_black()
            } else {
                Rgb::spec_white()
            },
    {
        if self.accent.r as u32 * 299 + self.accent.g as u32 * 587 + self.accent.b as u32 * 114
            > 140000 {
            Rgb::black()
        } else {
            Rgb::white()
        }
    }

    /// The colour of a dark or light board square: the accent scaled by 35%
    /// over 45, or by 12% over 195, rounded down.
    pub fn square(&self, dark: bool) -> (r: Rgb)
        ensures
            r == if dark {
                Rgb {
                    r: (self.accent.r * 35 / 100 + 45) as u8,
                    g: (self.accent.g * 35 / 100 + 45) as u8,
                    b: (self.accent.b * 35 / 100 + 45) as u8,
                }
            } else {
                Rgb {
                    r: (self.accent.r * 12 / 100 + 195) as u8,
                    g: (self.accent.g * 12 / 100 + 195) as u8,
                    b: (self.accent.b * 12 / 100 + 195) as u8,
                }
            },
    {
        let (num, base): (u32, u32) = if dark { (35, 45) } else { (12, 195) };
        Rgb {
            r: (self.accent.r as u32 * num / 100 + base) as u8,
            g: (self.accent.g as u32 * num / 100 + base) as u8,
            b: (self.accent.b as u32 * num / 100 + base) as u8,
        }
    }
}

/// Each colour of a parsed theme is the valid `#rrggbb` value of its own key
/// in the TOML text, and the default colour only when that key has none.
pub proof fn lemma_parse_takes_each_key(text: Seq<char>)
    ensures
        Theme::spec_parse(text).background == match toml_color(text, "background"@) {
            Some(c) => c,
            None => Rgb { r: 23, g: 28, b: 26 },
        },
        Theme::spec_parse(text).foreground == match toml_color(text, "foreground"@) {
            Some(c) => c,
            None => Rgb { r: 228, g: 232, b: 223 },
        },
        Theme::spec_parse(text).accent == match toml_color(text, "accent"@) {
            Some(c) => c,
            None => Rgb { r: 179, g: 203, b: 146 },
        },
        toml_color(text, "foreground"@) matches Some(c) ==> Theme::spec_parse(text).foreground == c,
        toml_color(text, "background"@) matches Some(c) ==> Theme::spec_parse(text).background == c,
        toml_color(text, "accent"@) matches Some(c) ==> Theme::spec_parse(text).accent == c,
{
}

} // verus!
