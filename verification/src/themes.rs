//! Themes: a palette of colours written as `#RRGGBB`, and a style tag.
//!
//! A colour string that is not well formed stands for white; each colour of
//! a theme is read on its own.

use vstd::prelude::*;
use crate::listing::{is_sorted, texts, theme_names, theme_stems};
use crate::paths::{join_path, joined, with_ending};
use crate::text::chars_of;

verus! {

/// A colour of a theme.
#[derive(Clone, Copy, Debug, PartialEq, Eq, Structural)]
pub enum Color {
    /// The terminal's white, which stands in for what cannot be read.
    White,
    /// A 24-bit colour.
    TrueColor { r: u8, g: u8, b: u8 },
}

impl Color {
    /// The red, green and blue parts of the colour.
    pub open spec fn rgb(self) -> (u8, u8, u8) {
        match self {
            Color::White => (255u8, 255u8, 255u8),
            Color::TrueColor { r, g, b } => (r, g, b),
        }
    }

    /// The red, green and blue parts of the colour.
    pub fn to_rgb(&self) -> (parts: (u8, u8, u8))
        ensures
            parts == self.rgb(),
    {
        match *self {
            Color::White => (255, 255, 255),
            Color::TrueColor { r, g, b } => (r, g, b),
        }
    }
}

/// The value of a hexadecimal digit, in either case.
pub open spec fn hex_digit(c: char) -> Option<nat> {
    if '0' <= c <= '9' {
        Some((c as nat - '0' as nat) as nat)
    } else if 'a' <= c <= 'f' {
        Some((c as nat - 'a' as nat + 10) as nat)
    } else if 'A' <= c <= 'F' {
        Some((c as nat - 'A' as nat + 10) as nat)
    } else {
        None
    }
}

/// `s` without the `#` at its start, if it has one.
pub open spec fn without_hash(s: Seq<char>) -> Seq<char> {
    if s.len() > 0 && s[0] == '#' {
        s.skip(1)
    } else {
        s
    }
}

/// `s` is six hexadecimal digits, with or without a `#` before them.
pub open spec fn is_hex_color(s: Seq<char>) -> bool {
    let digits = without_hash(s);
    &&& digits.len() == 6
    &&& forall|i: int| 0 <= i < 6 ==> (#[trigger] hex_digit(digits[i])) is Some
}

/// The number that two hexadecimal digits write.
pub open spec fn hex_pair(high: char, low: char) -> nat {
    16 * hex_digit(high).unwrap() + hex_digit(low).unwrap()
}

/// The colour that `s` stands for: the one it writes as `#RRGGBB`, or white.
pub open spec fn color_of_hex(s: Seq<char>) -> Color {
    if is_hex_color(s) {
        let digits = without_hash(s);
        Color::TrueColor {
            r: hex_pair(digits[0], digits[1]) as u8,
            g: hex_pair(digits[2], digits[3]) as u8,
            b: hex_pair(digits[4], digits[5]) as u8,
        }
    } else {
        Color::White
    }
}

/// Reads one hexadecimal digit.
fn digit_value(c: char) -> (value: Option<u8>)
    ensures
        value is Some == hex_digit(c) is Some,
        value matches Some(v) ==> v as nat == hex_digit(c).unwrap() && v < 16,
{
    if '0' <= c && c <= '9' {
        Some((c as u32 - '0' as u32) as u8)
    } else if 'a' <= c && c <= 'f' {
        Some((c as u32 - 'a' as u32 + 10) as u8)
    } else if 'A' <= c && c <= 'F' {
        Some((c as u32 - 'A' as u32 + 10) as u8)
    } else {
        None
    }
}

/// Reads two hexadecimal digits as one number.
fn pair_value(high: char, low: char) -> (value: Option<u8>)
    ensures
        value is Some == (hex_digit(high) is Some && hex_digit(low) is Some),
        value matches Some(v) ==> v as nat == hex_pair(high, low),
{
    match (digit_value(high), digit_value(low)) {
        (Some(h), Some(l)) => Some(16 * h + l),
        _ => None,
    }
}

/// The colour that `hex` stands for. What is not six hexadecimal digits
/// after an optional `#` gives white.
pub fn hex_to_color(hex: &str) -> (color: Color)
    ensures
        color == color_of_hex(hex@),
{
    let chars = chars_of(hex);
    let start: usize = if chars.len() > 0 && chars[0] == '#' {
        1
    } else {
        0
    };
    if chars.len() - start != 6 {
        return Color::White;
    }
    let ghost digits = without_hash(hex@);
    assert(digits =~= chars@.skip(start as int));
    assert(forall|i: int| 0 <= i < 6 ==> digits[i] == chars@[start + i]);
    let r = pair_value(chars[start], chars[start + 1]);
    let g = pair_value(chars[start + 2], chars[start + 3]);
    let b = pair_value(chars[start + 4], chars[start + 5]);
    match (r, g, b) {
        (Some(r), Some(g), Some(b)) => {
            assert(is_hex_color(hex@)) by {
                assert forall|i: int| 0 <= i < 6 implies (#[trigger] hex_digit(
                    digits[i],
                )) is Some by {
                    assert(i == 0 || i == 1 || i == 2 || i == 3 || i == 4 || i == 5);
                }
            }
            Color::TrueColor { r, g, b }
        },
        _ => {
            assert(!is_hex_color(hex@)) by {
                if is_hex_color(hex@) {
                    assert(hex_digit(digits[0]) is Some);
                    assert(hex_digit(digits[1]) is Some);
                    assert(hex_digit(digits[2]) is Some);
                    assert(hex_digit(digits[3]) is Some);
                    assert(hex_digit(digits[4]) is Some);
                    assert(hex_digit(digits[5]) is Some);
                }
            }
            Color::White
        },
    }
}

/// The style tag of a theme that names none: `normal`, which is neither
/// `bold` nor `italic` and so selects the foreground colour and no
/// emphasis.
pub fn default_ascii_art_style() -> (style: String)
    ensures
        style@ == "normal"@,
        style@ != "bold"@,
        style@ != "italic"@,
{
    proof {
        reveal_strlit("normal");
        reveal_strlit("bold");
        reveal_strlit("italic");
        assert("bold"@.len() == 4);
        assert("normal"@[0] == 'n' && "italic"@[0] == 'i');
    }
    "normal".to_owned()
}

/// A named palette and the style in which banners are drawn.
#[derive(Clone, Debug)]
pub struct Theme {
    pub name: String,
    pub description: String,
    pub foreground: String,
    pub background: String,
    pub accent: String,
    pub strong: String,
    pub dim: String,
    pub ascii_art_style: String,
}

impl Theme {
    /// The colour of ordinary text.
    pub fn get_foreground_color(&self) -> (color: Color)
        ensures
            color == color_of_hex(self.foreground@),
    {
        hex_to_color(self.foreground.as_str())
    }

    /// The colour of accented text.
    pub fn get_accent_color(&self) -> (color: Color)
        ensures
            color == color_of_hex(self.accent@),
    {
        hex_to_color(self.accent.as_str())
    }

    /// The colour of strong text.
    pub fn get_strong_color(&self) -> (color: Color)
        ensures
            color == color_of_hex(self.strong@),
    {
        hex_to_color(self.strong.as_str())
    }
}

/// Why a theme cannot be had.
#[derive(Clone, Copy, Debug, PartialEq, Eq, Structural)]
pub enum ThemeError {
    /// The directory of the themes does not exist.
    DirectoryMissing,
    /// The name would lead out of the directory of the themes.
    InvalidName,
}

impl ThemeError {
    /// The error in words, for the directory or the name that it is about.
    pub open spec fn words(self, subject: Seq<char>) -> Seq<char> {
        match self {
            ThemeError::DirectoryMissing => "Themes directory does not exist: "@ + subject
                + ". Run 'greetme -c' to create it."@,
            ThemeError::InvalidName => "Invalid theme name: "@ + subject,
        }
    }

    /// The error in words. `subject` is the directory of the themes where
    /// that is missing, and the name of the theme where that is refused.
    pub fn message(&self, subject: &str) -> (words: String)
        ensures
            words@ == self.words(subject@),
    {
        match self {
            ThemeError::DirectoryMissing => {
                let start = with_ending("Themes directory does not exist: ", subject);
                with_ending(start.as_str(), ". Run 'greetme -c' to create it.")
            },
            ThemeError::InvalidName => with_ending("Invalid theme name: ", subject),
        }
    }
}

/// `name` can be the name of a theme: it holds no `/`, no `\` and no two
/// dots in a row.
pub open spec fn is_theme_name(name: Seq<char>) -> bool {
    &&& forall|i: int| 0 <= i < name.len() ==> name[i] != '/' && name[i] != '\\'
    &&& forall|i: int|
        0 <= i < name.len() - 1 ==> !((#[trigger] name[i]) == '.' && name[i + 1] == '.')
}

/// The file in which the theme `name` is kept below `dir`.
pub open spec fn theme_file(dir: Seq<char>, name: Seq<char>) -> Seq<char> {
    joined(dir, name + ".toml"@)
}

/// Finds themes in a directory.
pub struct ThemeManager {
    themes_dir: String,
}

impl ThemeManager {
    /// The directory of the themes.
    pub closed spec fn dir(self) -> Seq<char> {
        self.themes_dir@
    }

    /// A manager for the themes in `themes_dir`, given whether that
    /// directory exists: without the directory there is no manager.
    pub fn new(themes_dir: String, present: bool) -> (manager: Result<ThemeManager, ThemeError>)
        ensures
            present ==> (manager matches Ok(m) && m.dir() == themes_dir@),
            !present ==> manager == Err::<ThemeManager, ThemeError>(ThemeError::DirectoryMissing),
    {
        if !present {
            return Err(ThemeError::DirectoryMissing);
        }
        Ok(ThemeManager { themes_dir })
    }

    /// The directory of the themes.
    pub fn themes_dir(&self) -> (dir: &str)
        ensures
            dir@ == self.dir(),
    {
        self.themes_dir.as_str()
    }

    /// The names of the themes in the directory, sorted, given the names
    /// of the files in it.
    pub fn list_themes(&self, files: &Vec<String>) -> (names: Vec<String>)
        ensures
            is_sorted(texts(names@)),
            texts(names@).to_multiset() == theme_stems(texts(files@)).to_multiset(),
    {
        theme_names(files)
    }

    /// The file of the theme `name`, unless the name is refused.
    pub fn theme_path(&self, name: &str) -> (path: Result<String, ThemeError>)
        ensures
            is_theme_name(name@) ==> (path matches Ok(p) && p@ == theme_file(self.dir(), name@)),
            !is_theme_name(name@) ==> path == Err::<String, ThemeError>(ThemeError::InvalidName),
    {
        if !is_valid_theme_name(name) {
            return Err(ThemeError::InvalidName);
        }
        let file = with_ending(name, ".toml");
        Ok(join_path(self.themes_dir.as_str(), file.as_str()))
    }
}

/// Tells whether `name` can be the name of a theme.
pub fn is_valid_theme_name(name: &str) -> (valid: bool)
    ensures
        valid == is_theme_name(name@),
{
    let chars = chars_of(name);
    let mut i: usize = 0;
    while i < chars.len()
        invariant
            i <= chars.len(),
            chars@ == name@,
            forall|k: int| 0 <= k < i ==> chars@[k] != '/' && chars@[k] != '\\',
            forall|k: int|
                0 <= k < i - 1 ==> !((#[trigger] chars@[k]) == '.' && chars@[k + 1] == '.'),
        decreases chars.len() - i,
    {
        let c = chars[i];
        if c == '/' || c == '\\' {
            return false;
        }
        if c == '.' && i > 0 && chars[i - 1] == '.' {
            assert(chars@[i - 1] == '.' && chars@[(i - 1) + 1] == '.');
            return false;
        }
        i += 1;
    }
    true
}

/// A string that is not six hexadecimal digits after an optional `#`,
/// because its length is another or because one of its characters is no
/// hexadecimal digit, stands for white, whose parts are 255, 255 and 255.
pub proof fn law_malformed_hex_is_white(s: Seq<char>)
    requires
        without_hash(s).len() != 6 || exists|i: int|
            0 <= i < 6 && (#[trigger] hex_digit(without_hash(s)[i])) is None,
    ensures
        color_of_hex(s) == Color::White,
        color_of_hex(s).rgb() == (255u8, 255u8, 255u8),
{
}

/// A string `#RRGGBB` of six hexadecimal digits stands for the true colour
/// whose red, green and blue parts are the numbers that `RR`, `GG` and `BB`
/// write, each sixteen times its first digit plus its second.
pub proof fn law_well_formed_hex_is_exact(s: Seq<char>)
    requires
        s.len() == 7,
        s[0] == '#',
        forall|i: int| 1 <= i < 7 ==> (#[trigger] hex_digit(s[i])) is Some,
    ensures
        color_of_hex(s) == (Color::TrueColor {
            r: hex_pair(s[1], s[2]) as u8,
            g: hex_pair(s[3], s[4]) as u8,
            b: hex_pair(s[5], s[6]) as u8,
        }),
        color_of_hex(s).rgb().0 == 16 * hex_digit(s[1]).unwrap() + hex_digit(s[2]).unwrap(),
        color_of_hex(s).rgb().1 == 16 * hex_digit(s[3]).unwrap() + hex_digit(s[4]).unwrap(),
        color_of_hex(s).rgb().2 == 16 * hex_digit(s[5]).unwrap() + hex_digit(s[6]).unwrap(),
{
    let digits = without_hash(s);
    assert(digits =~= s.skip(1));
    assert forall|i: int| 0 <= i < 6 implies (#[trigger] hex_digit(digits[i])) is Some by {
        assert(digits[i] == s[i + 1]);
    }
    assert(hex_digit(s[1]).unwrap() < 16 && hex_digit(s[2]).unwrap() < 16);
    assert(hex_digit(s[3]).unwrap() < 16 && hex_digit(s[4]).unwrap() < 16);
    assert(hex_digit(s[5]).unwrap() < 16 && hex_digit(s[6]).unwrap() < 16);
}

} // verus!
