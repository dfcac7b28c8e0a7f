//! Block-letter fonts.
//!
//! A font maps character codes to glyphs. A glyph is a column of rows of
//! characters, and a figure is drawn row by row: in each row the glyphs of
//! the text stand side by side, and a line feed ends the row. The fonts
//! themselves, and the drawing, belong to `figlet_rs`; what this module
//! states of them is trusted.

use vstd::prelude::*;
use figlet_rs::FIGfont;
use crate::text::same_text;

verus! {

/// A `figlet_rs` font. Nothing of it is read here but through the names
/// and functions below.
#[verifier::external_type_specification]
#[verifier::external_body]
pub struct ExFIGfont(FIGfont);

/// The glyphs that `font` holds: for each character code that it can draw,
/// the rows of that character's glyph, top row first.
pub uninterp spec fn font_glyphs(font: FIGfont) -> Map<u32, Seq<Seq<char>>>;

/// The number of rows that `font` gives to a figure: the height of its
/// header line, taken as an unsigned number of 32 bits.
pub uninterp spec fn font_height(font: FIGfont) -> nat;

/// The characters of `text` that have a glyph, in their order.
pub open spec fn drawn_chars(glyphs: Map<u32, Seq<Seq<char>>>, text: Seq<char>) -> Seq<char> {
    text.filter(|c: char| glyphs.contains_key(c as u32))
}

/// Row `row` of a glyph, or nothing where the glyph has no such row.
pub open spec fn glyph_row(glyph: Seq<Seq<char>>, row: int) -> Seq<char> {
    if 0 <= row < glyph.len() {
        glyph[row]
    } else {
        Seq::empty()
    }
}

/// Row `row` of the figure of `chars`: that row of each glyph, side by side.
pub open spec fn figure_row(glyphs: Map<u32, Seq<Seq<char>>>, chars: Seq<char>, row: int) -> Seq<
    char,
>
    decreases chars.len(),
{
    if chars.len() == 0 {
        Seq::empty()
    } else {
        figure_row(glyphs, chars.drop_last(), row) + glyph_row(glyphs[chars.last() as u32], row)
    }
}

/// The first `height` rows of the figure of `chars`, a line feed after each.
pub open spec fn figure_rows(glyphs: Map<u32, Seq<Seq<char>>>, chars: Seq<char>, height: nat) -> Seq<
    char,
>
    decreases height,
{
    if height == 0 {
        Seq::empty()
    } else {
        figure_rows(glyphs, chars, (height - 1) as nat) + figure_row(glyphs, chars, height - 1)
            + seq!['\n']
    }
}

/// The figure of `text` as one string, or `None` where no character of
/// `text` has a glyph.
pub open spec fn figure_text(glyphs: Map<u32, Seq<Seq<char>>>, height: nat, text: Seq<char>) -> Option<
    Seq<char>,
> {
    let chars = drawn_chars(glyphs, text);
    if chars.len() == 0 {
        None
    } else {
        Some(figure_rows(glyphs, chars, height))
    }
}

/// What drawing `text` with `font` gives: the figure, or `text` itself
/// where there is no figure.
pub open spec fn drawn_with(font: FIGfont, text: Seq<char>) -> Seq<char> {
    match figure_text(font_glyphs(font), font_height(font), text) {
        Some(figure) => figure,
        None => text,
    }
}

/// Loads the font that `figlet_rs` carries with it. Trusted: this is
/// `FIGfont::standard`, which reads a font file that is part of the crate
/// as it was built. That file is a font that can be read, so the result is
/// a font; the crate's own tests hold it to that.
#[verifier::external_body]
pub(crate) fn standard_font() -> (font: Result<FIGfont, String>)
    ensures
        font is Ok,
{
    FIGfont::standard()
}

/// Asks `figlet_rs` for the font of an empty font file. Trusted: this is
/// `FIGfont::from_content` on the empty string; nothing is claimed of
/// whether it succeeds.
#[verifier::external_body]
pub(crate) fn minimal_font() -> (font: Result<FIGfont, String>) {
    FIGfont::from_content("")
}

/// Draws `text` with `font`. Trusted: this is `FIGfont::convert` and the
/// `to_string` of the figure it gives. `convert` keeps the characters of
/// `text` whose code the font holds and gives no figure where none is
/// kept; `to_string` writes as many rows as the font's header says, each
/// made of that row of every kept glyph that has it, with a line feed
/// after each row.
#[verifier::external_body]
pub(crate) fn convert(font: &FIGfont, text: &str) -> (figure: Option<String>)
    ensures
        match figure {
            Some(drawn) => figure_text(font_glyphs(*font), font_height(*font), text@) == Some(
                drawn@,
            ),
            None => figure_text(font_glyphs(*font), font_height(*font), text@) is None,
        },
{
    match font.convert(text) {
        Some(figure) => Some(figure.to_string()),
        None => None,
    }
}

/// The fonts that a banner can ask for by name.
#[derive(Clone, Copy, Debug, PartialEq, Eq, Structural)]
pub enum FontChoice {
    Standard,
    Small,
    Big,
    Banner,
    Block,
}

/// The font that a name stands for. A name that is none of the known ones
/// stands for the standard font.
pub open spec fn font_choice_of(name: Seq<char>) -> FontChoice {
    if name =~= "small"@ {
        FontChoice::Small
    } else if name =~= "big"@ {
        FontChoice::Big
    } else if name =~= "banner"@ {
        FontChoice::Banner
    } else if name =~= "block"@ {
        FontChoice::Block
    } else {
        FontChoice::Standard
    }
}

/// Resolves a font name.
pub fn resolve_font(name: &str) -> (choice: FontChoice)
    ensures
        choice == font_choice_of(name@),
{
    if same_text(name, "small") {
        FontChoice::Small
    } else if same_text(name, "big") {
        FontChoice::Big
    } else if same_text(name, "banner") {
        FontChoice::Banner
    } else if same_text(name, "block") {
        FontChoice::Block
    } else {
        FontChoice::Standard
    }
}

/// The fonts that were loaded ahead of rendering, by the name each is
/// asked for with. The standard font is not among them: it is loaded when
/// it is needed.
pub struct FontAssets {
    pub small: Option<FIGfont>,
    pub big: Option<FIGfont>,
    pub banner: Option<FIGfont>,
    pub block: Option<FIGfont>,
}

impl FontAssets {
    /// The loaded font for `choice`, if there is one.
    pub open spec fn get(self, choice: FontChoice) -> Option<FIGfont> {
        match choice {
            FontChoice::Standard => None,
            FontChoice::Small => self.small,
            FontChoice::Big => self.big,
            FontChoice::Banner => self.banner,
            FontChoice::Block => self.block,
        }
    }

    /// No font loaded.
    pub fn none() -> (assets: FontAssets)
        ensures
            forall|choice: FontChoice| assets.get(choice) is None,
    {
        FontAssets { small: None, big: None, banner: None, block: None }
    }

    /// The loaded font for `choice`, if there is one.
    pub fn lookup(&self, choice: FontChoice) -> (font: Option<&FIGfont>)
        ensures
            font is Some == self.get(choice) is Some,
            font matches Some(found) ==> Some(*found) == self.get(choice),
    {
        match choice {
            FontChoice::Standard => None,
            FontChoice::Small => self.small.as_ref(),
            FontChoice::Big => self.big.as_ref(),
            FontChoice::Banner => self.banner.as_ref(),
            FontChoice::Block => self.block.as_ref(),
        }
    }
}

/// The built-in font to draw with, given what loading the standard font
/// and loading the minimal font gave: the standard font where it loaded,
/// else the minimal font where that loaded. Only where neither loaded is
/// there no font.
pub fn builtin_font(standard: Result<FIGfont, String>, minimal: Result<FIGfont, String>) -> (font:
    Option<FIGfont>)
    ensures
        font == match (standard, minimal) {
            (Ok(first), _) => Some(first),
            (Err(_), Ok(second)) => Some(second),
            (Err(_), Err(_)) => None::<FIGfont>,
        },
{
    match standard {
        Ok(first) => Some(first),
        Err(_) => match minimal {
            Ok(second) => Some(second),
            Err(_) => None,
        },
    }
}

/// Draws `text` with `font`; where the font gives no figure, for an empty
/// text or one of which it knows no character, the text itself comes back.
pub fn draw(font: &FIGfont, text: &str) -> (drawn: String)
    ensures
        drawn@ == drawn_with(*font, text@),
{
    match convert(font, text) {
        Some(figure) => figure,
        None => text.to_owned(),
    }
}

/// A name that is none of `small`, `big`, `banner` and `block` stands for
/// the standard font.
pub proof fn law_unknown_font_is_standard(name: Seq<char>)
    requires
        name != "small"@,
        name != "big"@,
        name != "banner"@,
        name != "block"@,
    ensures
        font_choice_of(name) == FontChoice::Standard,
{
}

/// No font gives a figure for the empty text, so drawing it gives the
/// empty text back.
pub proof fn law_empty_text_is_drawn_plain(font: FIGfont)
    ensures
        drawn_with(font, Seq::<char>::empty()) == Seq::<char>::empty(),
{
    let glyphs = font_glyphs(font);
    assert(drawn_chars(glyphs, Seq::<char>::empty()) =~= Seq::<char>::empty()) by {
        Seq::<char>::empty().lemma_filter_len(|c: char| glyphs.contains_key(c as u32));
    }
}

} // verus!
