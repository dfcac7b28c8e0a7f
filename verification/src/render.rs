//! Static rendering: text to banner, banner to scaled banner, scaled
//! banner to styled text.
//!
//! The colours and the emphasis of the styled text are decided here. The
//! escape sequences that carry them to a terminal are written by `colored`,
//! which first finds out whether colours are wanted where the process runs,
//! and whether the terminal is known to show 24-bit colours. What it hands
//! back is the text as it is, or the text between a style sequence and the
//! reset sequence; which of the two is not decided here.

use vstd::prelude::*;
use figlet_rs::FIGfont;
use crate::font::{
    builtin_font,
    draw,
    drawn_with,
    font_choice_of,
    minimal_font,
    resolve_font,
    standard_font,
    FontAssets,
};
use crate::scale::{scale_text, scaled_text, ScaleFactor};
use crate::text::same_text;
use crate::themes::{color_of_hex, Color, Theme};

verus! {

/// How strongly styled text is set.
#[derive(Clone, Copy, Debug, PartialEq, Eq, Structural)]
pub enum Emphasis {
    Bold,
    Italic,
    Plain,
}

/// A text with the colour and the emphasis in which to show it.
#[derive(Clone, Debug)]
pub struct StyledText {
    pub text: String,
    pub color: Color,
    pub emphasis: Emphasis,
}

/// Why a banner could not be rendered.
#[derive(Clone, Copy, Debug, PartialEq, Eq, Structural)]
pub enum RenderError {
    /// No font could be loaded, not even a built-in one.
    FontLoad,
}

impl RenderError {
    /// The error in words.
    pub fn message(&self) -> (words: String)
        ensures
            words@ == "Failed to load any font"@,
    {
        "Failed to load any font".to_owned()
    }
}

/// The colour that a theme's style tag selects: the strong colour for
/// `bold`, the accent colour for `italic`, the foreground colour for any
/// other tag.
pub open spec fn style_color(theme: Theme) -> Color {
    if theme.ascii_art_style@ =~= "bold"@ {
        color_of_hex(theme.strong@)
    } else if theme.ascii_art_style@ =~= "italic"@ {
        color_of_hex(theme.accent@)
    } else {
        color_of_hex(theme.foreground@)
    }
}

/// The emphasis that a theme's style tag selects: bold for `bold`, italic
/// for `italic`, none for any other tag.
pub open spec fn style_emphasis(theme: Theme) -> Emphasis {
    if theme.ascii_art_style@ =~= "bold"@ {
        Emphasis::Bold
    } else if theme.ascii_art_style@ =~= "italic"@ {
        Emphasis::Italic
    } else {
        Emphasis::Plain
    }
}

/// The style tag `bold` selects the strong colour and bold emphasis, the
/// tag `italic` the accent colour and italic emphasis, and any other tag
/// the foreground colour and no emphasis.
pub proof fn law_style_follows_tag(theme: Theme)
    ensures
        theme.ascii_art_style@ == "bold"@ ==> style_color(theme) == color_of_hex(theme.strong@)
            && style_emphasis(theme) == Emphasis::Bold,
        theme.ascii_art_style@ == "italic"@ ==> style_color(theme) == color_of_hex(theme.accent@)
            && style_emphasis(theme) == Emphasis::Italic,
        theme.ascii_art_style@ != "bold"@ && theme.ascii_art_style@ != "italic"@ ==> style_color(
            theme,
        ) == color_of_hex(theme.foreground@) && style_emphasis(theme) == Emphasis::Plain,
{
    reveal_strlit("bold");
    reveal_strlit("italic");
    assert("bold"@.len() == 4);
    assert("italic"@.len() == 6);
}

/// Gives `text` the colour and the emphasis that `theme` selects.
pub fn colorize(text: String, theme: &Theme) -> (styled: StyledText)
    ensures
        styled.text@ == text@,
        styled.color == style_color(*theme),
        styled.emphasis == style_emphasis(*theme),
{
    let tag = theme.ascii_art_style.as_str();
    if same_text(tag, "bold") {
        StyledText { text, color: theme.get_strong_color(), emphasis: Emphasis::Bold }
    } else if same_text(tag, "italic") {
        StyledText { text, color: theme.get_accent_color(), emphasis: Emphasis::Italic }
    } else {
        StyledText { text, color: theme.get_foreground_color(), emphasis: Emphasis::Plain }
    }
}

/// The character with which escape sequences begin.
pub open spec fn escape() -> char {
    '\u{1b}'
}

/// The sequence that sets colour and emphasis back.
pub open spec fn reset_sequence() -> Seq<char> {
    seq![escape(), '[', '0', 'm']
}

/// The digit that writes `value`, for a value below ten.
pub open spec fn digit(value: nat) -> char {
    seq!['0', '1', '2', '3', '4', '5', '6', '7', '8', '9'][value as int]
}

/// `value` written in decimal digits.
pub open spec fn decimal(value: nat) -> Seq<char>
    decreases value,
{
    if value < 10 {
        seq![digit(value)]
    } else {
        decimal(value / 10).push(digit(value % 10))
    }
}

/// The codes that set an emphasis, with the `;` that parts them from the
/// codes of the colour.
pub open spec fn emphasis_codes(emphasis: Emphasis) -> Seq<char> {
    match emphasis {
        Emphasis::Bold => seq!['1', ';'],
        Emphasis::Italic => seq!['3', ';'],
        Emphasis::Plain => Seq::empty(),
    }
}

/// The codes that set a 24-bit foreground colour.
pub open spec fn true_color_codes(r: u8, g: u8, b: u8) -> Seq<char> {
    seq!['3', '8', ';', '2', ';'] + decimal(r as nat) + seq![';'] + decimal(g as nat) + seq![';']
        + decimal(b as nat)
}

/// `codes` set one of the sixteen named foreground colours: 30 to 37, or
/// 90 to 97.
pub open spec fn is_named_color_code(codes: Seq<char>) -> bool {
    &&& codes.len() == 2
    &&& codes[0] == '3' || codes[0] == '9'
    &&& '0' <= codes[1] <= '7'
}

/// `codes` may be written to set `color` as the foreground colour. White
/// is colour 37. A 24-bit colour is set as it is, or, where the terminal is
/// not known to show such colours, as one of the named colours in its
/// stead.
pub open spec fn is_color_code(color: Color, codes: Seq<char>) -> bool {
    match color {
        Color::White => codes == seq!['3', '7'],
        Color::TrueColor { r, g, b } => codes == true_color_codes(r, g, b) || is_named_color_code(
            codes,
        ),
    }
}

/// The sequence that sets `emphasis` and the colour of `color_codes`.
pub open spec fn style_sequence(emphasis: Emphasis, color_codes: Seq<char>) -> Seq<char> {
    seq![escape(), '['] + emphasis_codes(emphasis) + color_codes + seq!['m']
}

/// `text` begins with the reset sequence.
pub open spec fn begins_with_reset(text: Seq<char>) -> bool {
    text.len() >= 4 && text.take(4) =~= reset_sequence()
}

/// `text` with `style` put behind each reset sequence that it holds, so
/// that the style goes on after it.
pub open spec fn restyled(text: Seq<char>, style: Seq<char>) -> Seq<char>
    decreases text.len(),
{
    if text.len() == 0 {
        Seq::empty()
    } else if begins_with_reset(text) {
        reset_sequence() + style + restyled(text.skip(4), style)
    } else {
        seq![text[0]] + restyled(text.skip(1), style)
    }
}

/// `text` in `style`: the style sequence, the text with the style kept up
/// throughout, and the reset sequence.
pub open spec fn in_style(text: Seq<char>, style: Seq<char>) -> Seq<char> {
    style + restyled(text, style) + reset_sequence()
}

/// `out` is `text` as a terminal is given it in `color` and `emphasis`:
/// the text as it is, where colours are not wanted, or the text in the
/// style of that emphasis and of codes for that colour.
pub open spec fn is_painted(out: Seq<char>, text: Seq<char>, color: Color, emphasis: Emphasis) -> bool {
    out == text || exists|codes: Seq<char>|
        is_color_code(color, codes) && out == #[trigger] in_style(
            text,
            style_sequence(emphasis, codes),
        )
}

/// A text that holds no escape character holds no reset sequence, and so
/// it stands in a style unchanged, between the style sequence and the reset
/// sequence.
pub proof fn law_text_without_escape_is_kept(text: Seq<char>, style: Seq<char>)
    requires
        forall|i: int| 0 <= i < text.len() ==> text[i] != escape(),
    ensures
        restyled(text, style) == text,
        in_style(text, style) == style + text + reset_sequence(),
    decreases text.len(),
{
    if text.len() > 0 {
        let rest = text.skip(1);
        assert(!begins_with_reset(text)) by {
            if begins_with_reset(text) {
                assert(text.take(4)[0] == text[0]);
                assert(reset_sequence()[0] == escape());
            }
        }
        assert forall|i: int| 0 <= i < rest.len() implies rest[i] != escape() by {
            assert(rest[i] == text[i + 1]);
        }
        law_text_without_escape_is_kept(rest, style);
        assert(seq![text[0]] + rest =~= text);
    } else {
        assert(text =~= Seq::<char>::empty());
    }
}

/// Writes `text` in a foreground colour. Trusted: this is `Colorize::color`
/// of `colored` and the `to_string` of what it gives. By the source of
/// `colored`, `to_string` writes the text as it is where colours are not
/// wanted. Else it writes the escape character, `[`, the code of the
/// colour and `m`; then the text, with that sequence again behind each
/// reset sequence in it; then the reset sequence. The code of white is 37;
/// that of a 24-bit colour is `38;2;` and its three parts in decimal, with
/// `;` between them, or the code of a named colour where the terminal is
/// not known to show 24-bit colours.
#[verifier::external_body]
fn paint_plain(text: &str, color: Color) -> (out: String)
    ensures
        is_painted(out@, text@, color, Emphasis::Plain),
{
    let foreground = match color {
        Color::White => colored::Color::White,
        Color::TrueColor { r, g, b } => colored::Color::TrueColor { r, g, b },
    };
    colored::Colorize::color(text, foreground).to_string()
}

/// Writes `text` in a foreground colour and bold. Trusted: this is
/// `Colorize::color` and `Colorize::bold` of `colored` and the `to_string`
/// of what they give, which writes as for a colour alone, with the code 1
/// and `;` before the code of the colour.
#[verifier::external_body]
fn paint_bold(text: &str, color: Color) -> (out: String)
    ensures
        is_painted(out@, text@, color, Emphasis::Bold),
{
    let foreground = match color {
        Color::White => colored::Color::White,
        Color::TrueColor { r, g, b } => colored::Color::TrueColor { r, g, b },
    };
    colored::Colorize::bold(colored::Colorize::color(text, foreground)).to_string()
}

/// Writes `text` in a foreground colour and italic. Trusted: this is
/// `Colorize::color` and `Colorize::italic` of `colored` and the
/// `to_string` of what they give, which writes as for a colour alone, with
/// the code 3 and `;` before the code of the colour.
#[verifier::external_body]
fn paint_italic(text: &str, color: Color) -> (out: String)
    ensures
        is_painted(out@, text@, color, Emphasis::Italic),
{
    let foreground = match color {
        Color::White => colored::Color::White,
        Color::TrueColor { r, g, b } => colored::Color::TrueColor { r, g, b },
    };
    colored::Colorize::italic(colored::Colorize::color(text, foreground)).to_string()
}

impl StyledText {
    /// The text as a terminal is given it in its colour and emphasis: as
    /// it is where colours are not wanted, else between the style sequence
    /// of its emphasis and colour and the reset sequence.
    pub fn to_ansi(&self) -> (out: String)
        ensures
            is_painted(out@, self.text@, self.color, self.emphasis),
    {
        match self.emphasis {
            Emphasis::Bold => paint_bold(self.text.as_str(), self.color),
            Emphasis::Italic => paint_italic(self.text.as_str(), self.color),
            Emphasis::Plain => paint_plain(self.text.as_str(), self.color),
        }
    }
}

/// Renders text as a banner in a theme's colours.
pub struct Renderer {
    theme: Theme,
    font_name: String,
    size: ScaleFactor,
    fonts: FontAssets,
}

impl Renderer {
    /// The theme of the renderer.
    pub closed spec fn theme_spec(self) -> Theme {
        self.theme
    }

    /// The font name of the renderer.
    pub closed spec fn font_name_spec(self) -> Seq<char> {
        self.font_name@
    }

    /// The scale factor of the renderer.
    pub closed spec fn size_spec(self) -> ScaleFactor {
        self.size
    }

    /// The loaded fonts of the renderer.
    pub closed spec fn fonts_spec(self) -> FontAssets {
        self.fonts
    }

    /// The loaded font that the renderer's font name selects, if any.
    pub open spec fn selected_font(self) -> Option<FIGfont> {
        self.fonts_spec().get(font_choice_of(self.font_name_spec()))
    }

    /// What `text` becomes once it is drawn with `font` and scaled.
    pub open spec fn banner_with(self, font: FIGfont, text: Seq<char>) -> Seq<char> {
        scaled_text(drawn_with(font, text), self.size_spec())
    }

    /// A renderer with no font loaded ahead: every banner is drawn with a
    /// built-in font.
    pub fn new(theme: Theme, font_name: &str, size: ScaleFactor) -> (renderer: Renderer)
        ensures
            renderer.theme_spec() == theme,
            renderer.font_name_spec() == font_name@,
            renderer.size_spec() == size,
            renderer.selected_font() is None,
    {
        Renderer { theme, font_name: font_name.to_owned(), size, fonts: FontAssets::none() }
    }

    /// A renderer with fonts loaded ahead.
    pub fn with_fonts(theme: Theme, font_name: &str, size: ScaleFactor, fonts: FontAssets) -> (renderer:
        Renderer)
        ensures
            renderer.theme_spec() == theme,
            renderer.font_name_spec() == font_name@,
            renderer.size_spec() == size,
            renderer.fonts_spec() == fonts,
    {
        Renderer { theme, font_name: font_name.to_owned(), size, fonts }
    }

    /// The font name of the renderer.
    pub fn font_name(&self) -> (name: &str)
        ensures
            name@ == self.font_name_spec(),
    {
        self.font_name.as_str()
    }

    /// The scale factor of the renderer.
    pub fn size(&self) -> (size: ScaleFactor)
        ensures
            size == self.size_spec(),
    {
        self.size
    }

    /// The theme of the renderer.
    pub fn theme(&self) -> (theme: &Theme)
        ensures
            *theme == self.theme_spec(),
    {
        &self.theme
    }

    /// Scales `text` by `scale`.
    pub fn scale_text(&self, text: &str, scale: ScaleFactor) -> (out: String)
        ensures
            out@ == scaled_text(text@, scale),
    {
        scale_text(text, scale)
    }

    /// Draws `text` as a banner, for any font name and any text. With a
    /// loaded font for the renderer's font name the banner is drawn with
    /// it. Without one, which is so for the standard font and for every
    /// name that is not known, it is drawn with a built-in font: the
    /// standard one, or the minimal one where the standard one does not
    /// load. The standard font loads, so there is always a banner.
    pub fn render_figlet(&self, text: &str) -> (out: Result<String, RenderError>)
        ensures
            out is Ok,
            match self.selected_font() {
                Some(font) => out matches Ok(drawn) && drawn@ == drawn_with(font, text@),
                None => out matches Ok(drawn) && exists|font: FIGfont|
                    drawn@ == #[trigger] drawn_with(font, text@),
            },
            text@.len() == 0 ==> (out matches Ok(drawn) && drawn@ == text@),
    {
        proof {
            assert forall|font: FIGfont| text@.len() == 0 implies #[trigger] drawn_with(
                font,
                text@,
            ) == text@ by {
                crate::font::law_empty_text_is_drawn_plain(font);
                assert(text@ =~= Seq::<char>::empty());
            }
        }
        let choice = resolve_font(self.font_name.as_str());
        match self.fonts.lookup(choice) {
            Some(font) => Ok(draw(font, text)),
            None => match builtin_font(standard_font(), minimal_font()) {
                Some(font) => Ok(draw(&font, text)),
                None => Err(RenderError::FontLoad),
            },
        }
    }

    /// Renders `text` up to its colour: the banner, scaled, with the colour
    /// and the emphasis that the theme selects. There is always a result.
    pub fn compose(&self, text: &str) -> (out: Result<StyledText, RenderError>)
        ensures
            out is Ok,
            match self.selected_font() {
                Some(font) => out matches Ok(styled) && styled.text@ == self.banner_with(
                    font,
                    text@,
                ),
                None => out matches Ok(styled) && exists|font: FIGfont|
                    styled.text@ == #[trigger] self.banner_with(font, text@),
            },
            out matches Ok(styled) && styled.color == style_color(self.theme_spec())
                && styled.emphasis == style_emphasis(self.theme_spec()),
    {
        let drawn = match self.render_figlet(text) {
            Ok(drawn) => drawn,
            Err(e) => {
                return Err(e);
            },
        };
        let scaled = if !self.size.is_exactly_one() {
            self.scale_text(drawn.as_str(), self.size)
        } else {
            proof {
                crate::scale::lemma_one_is_at_most_one(self.size);
            }
            drawn
        };
        proof {
            if self.selected_font() is None {
                let font = choose|font: FIGfont| drawn@ == #[trigger] drawn_with(font, text@);
                assert(scaled@ == self.banner_with(font, text@));
            }
        }
        Ok(colorize(scaled, &self.theme))
    }

    /// Renders `text` as the string to print: the banner, scaled, as a
    /// terminal is given it in the colour and the emphasis that the theme
    /// selects. With a loaded font for the renderer's font name the banner
    /// is drawn with it; without one it is drawn with a built-in font.
    /// There is always a result.
    pub fn render(&self, text: &str) -> (out: Result<String, RenderError>)
        ensures
            out is Ok,
            match self.selected_font() {
                Some(font) => out matches Ok(shown) && is_painted(
                    shown@,
                    self.banner_with(font, text@),
                    style_color(self.theme_spec()),
                    style_emphasis(self.theme_spec()),
                ),
                None => out matches Ok(shown) && exists|font: FIGfont|
                    is_painted(
                        shown@,
                        #[trigger] self.banner_with(font, text@),
                        style_color(self.theme_spec()),
                        style_emphasis(self.theme_spec()),
                    ),
            },
    {
        match self.compose(text) {
            Ok(styled) => {
                let shown = styled.to_ansi();
                proof {
                    if self.selected_font() is None {
                        let font = choose|font: FIGfont|
                            styled.text@ == #[trigger] self.banner_with(font, text@);
                        assert(is_painted(
                            shown@,
                            self.banner_with(font, text@),
                            style_color(self.theme_spec()),
                            style_emphasis(self.theme_spec()),
                        ));
                    }
                }
                Ok(shown)
            },
            Err(e) => Err(e),
        }
    }
}

} // verus!
