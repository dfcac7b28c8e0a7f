use figlet_rs::FIGfont;
use greetme::font::{builtin_font, draw, resolve_font, FontAssets, FontChoice};
use greetme::render::{colorize, Emphasis, RenderError, Renderer, StyledText};
use greetme::scale::ScaleFactor;
use greetme::themes::{Color, Theme};

fn create_test_theme() -> Theme {
    Theme {
        name: "test".to_string(),
        description: "Test theme".to_string(),
        foreground: "#ffffff".to_string(),
        background: "#000000".to_string(),
        accent: "#ff0000".to_string(),
        strong: "#00ff00".to_string(),
        dim: "#0000ff".to_string(),
        ascii_art_style: "bold".to_string(),
    }
}

fn theme_with_style(style: &str) -> Theme {
    let mut theme = create_test_theme();
    theme.strong = "#ff0000".to_string();
    theme.accent = "#00ff00".to_string();
    theme.foreground = "#0000ff".to_string();
    theme.ascii_art_style = style.to_string();
    theme
}

fn factor(value: f32) -> ScaleFactor {
    ScaleFactor::from_bits(value.to_bits())
}

fn standard(text: &str) -> String {
    FIGfont::standard().unwrap().convert(text).unwrap().to_string()
}

/// A font of two rows in which the glyph of each character is the
/// character twice, over two dots.
fn tiny_font() -> FIGfont {
    let mut content = String::from("flf2a$ 2 1 4 0 0\n");
    let codes: Vec<u32> = (32u32..127).chain([196, 214, 220, 228, 246, 252, 223]).collect();
    for code in codes {
        let c = char::from_u32(code).unwrap();
        let shown = if c == '@' || !c.is_ascii() { '?' } else { c };
        content.push_str(&format!("{}{}@\n..@@\n", shown, shown));
    }
    FIGfont::from_content(&content).unwrap()
}

#[test]
fn test_renderer_creation() {
    let theme = create_test_theme();
    let renderer = Renderer::new(theme, "standard", factor(1.0));
    assert_eq!(renderer.font_name(), "standard");
}

#[test]
fn test_render_figlet() {
    let theme = create_test_theme();
    let renderer = Renderer::new(theme, "standard", factor(1.0));
    let result = renderer.render_figlet("TEST");
    assert!(result.is_ok());
    let output = result.unwrap();
    assert!(!output.is_empty());
}

#[test]
fn renderer_keeps_what_it_was_given() {
    let renderer = Renderer::new(create_test_theme(), "big", factor(2.5));
    assert_eq!(renderer.font_name(), "big");
    assert_eq!(renderer.size(), factor(2.5));
    assert_eq!(renderer.theme().name, "test");
    assert_eq!(renderer.theme().strong, "#00ff00");
}

#[test]
fn banner_is_the_figure_of_the_standard_font() {
    let renderer = Renderer::new(create_test_theme(), "standard", factor(1.0));
    let banner = renderer.render_figlet("HI").unwrap();
    assert_eq!(banner, standard("HI"));
    assert_ne!(banner, "HI");
    assert_eq!(banner.lines().count(), 6);
    assert!(banner.ends_with('\n'));
}

#[test]
fn unknown_font_name_falls_back_to_standard() {
    let expected = standard("Hello");
    for name in ["nonexistent", "", "Standard", "small ", "comic sans"] {
        let renderer = Renderer::new(create_test_theme(), name, factor(1.0));
        assert_eq!(renderer.render_figlet("Hello"), Ok(expected.clone()), "font {:?}", name);
    }
}

#[test]
fn known_font_that_is_not_loaded_falls_back_to_standard() {
    let expected = standard("Hello");
    for name in ["small", "big", "banner", "block"] {
        let renderer = Renderer::new(create_test_theme(), name, factor(1.0));
        assert_eq!(renderer.render_figlet("Hello"), Ok(expected.clone()), "font {:?}", name);
    }
}

#[test]
fn font_names_are_resolved() {
    assert_eq!(resolve_font("standard"), FontChoice::Standard);
    assert_eq!(resolve_font("small"), FontChoice::Small);
    assert_eq!(resolve_font("big"), FontChoice::Big);
    assert_eq!(resolve_font("banner"), FontChoice::Banner);
    assert_eq!(resolve_font("block"), FontChoice::Block);
    assert_eq!(resolve_font("Block"), FontChoice::Standard);
    assert_eq!(resolve_font(""), FontChoice::Standard);
    assert_eq!(resolve_font("anything"), FontChoice::Standard);
}

#[test]
fn loaded_font_is_used_for_its_name() {
    let mut fonts = FontAssets::none();
    fonts.small = Some(tiny_font());
    let renderer = Renderer::with_fonts(create_test_theme(), "small", factor(1.0), fonts);
    assert_eq!(renderer.render_figlet("ab"), Ok("aabb\n....\n".to_string()));
    assert_eq!(renderer.render_figlet("a b"), Ok("aa  bb\n......\n".to_string()));

    let mut fonts = FontAssets::none();
    fonts.small = Some(tiny_font());
    let renderer = Renderer::with_fonts(create_test_theme(), "big", factor(1.0), fonts);
    assert_eq!(renderer.render_figlet("ab"), Ok(standard("ab")));

    let mut fonts = FontAssets::none();
    fonts.small = Some(tiny_font());
    let renderer = Renderer::with_fonts(create_test_theme(), "standard", factor(1.0), fonts);
    assert_eq!(renderer.render_figlet("ab"), Ok(standard("ab")));
}

#[test]
fn each_loaded_font_has_its_own_name() {
    for name in ["small", "big", "banner", "block"] {
        let mut fonts = FontAssets::none();
        match name {
            "small" => fonts.small = Some(tiny_font()),
            "big" => fonts.big = Some(tiny_font()),
            "banner" => fonts.banner = Some(tiny_font()),
            _ => fonts.block = Some(tiny_font()),
        }
        assert!(fonts.lookup(resolve_font(name)).is_some());
        assert!(fonts.lookup(FontChoice::Standard).is_none());
        let renderer = Renderer::with_fonts(create_test_theme(), name, factor(1.0), fonts);
        assert_eq!(renderer.render_figlet("x"), Ok("xx\n..\n".to_string()));
    }
}

#[test]
fn characters_without_a_glyph_are_left_out() {
    let font = tiny_font();
    assert_eq!(draw(&font, "a\u{4e16}b"), "aabb\n....\n");
    assert_eq!(draw(&font, "\u{4e16}a"), "aa\n..\n");
}

#[test]
fn text_without_a_figure_comes_back_plain() {
    let font = tiny_font();
    assert_eq!(draw(&font, ""), "");
    assert_eq!(draw(&font, "\u{4e16}\u{754c}"), "\u{4e16}\u{754c}");
    let renderer = Renderer::new(create_test_theme(), "standard", factor(1.0));
    assert_eq!(renderer.render_figlet(""), Ok(String::new()));
    assert_eq!(renderer.render_figlet("\u{4e16}"), Ok("\u{4e16}".to_string()));
}

#[test]
fn bold_selects_strong_colour_and_bold() {
    let styled = colorize("x".to_string(), &theme_with_style("bold"));
    assert_eq!(styled.text, "x");
    assert_eq!(styled.color, Color::TrueColor { r: 255, g: 0, b: 0 });
    assert_eq!(styled.emphasis, Emphasis::Bold);
}

#[test]
fn italic_selects_accent_colour_and_italic() {
    let styled = colorize("x".to_string(), &theme_with_style("italic"));
    assert_eq!(styled.color, Color::TrueColor { r: 0, g: 255, b: 0 });
    assert_eq!(styled.emphasis, Emphasis::Italic);
}

#[test]
fn any_other_style_selects_foreground_and_no_emphasis() {
    for style in ["normal", "", "Bold", "BOLD", "italics", "underline", " bold"] {
        let styled = colorize("x".to_string(), &theme_with_style(style));
        assert_eq!(styled.color, Color::TrueColor { r: 0, g: 0, b: 255 }, "style {:?}", style);
        assert_eq!(styled.emphasis, Emphasis::Plain, "style {:?}", style);
    }
}

#[test]
fn unreadable_colour_of_the_style_is_white() {
    let mut theme = theme_with_style("bold");
    theme.strong = "#12345".to_string();
    let styled = colorize("x".to_string(), &theme);
    assert_eq!(styled.color, Color::White);
    assert_eq!(styled.emphasis, Emphasis::Bold);
}

#[test]
fn end_to_end_banner_is_red_and_bold() {
    let renderer = Renderer::new(theme_with_style("bold"), "standard", factor(1.0));
    let styled = renderer.compose("HI").unwrap();
    assert_eq!(styled.color, Color::TrueColor { r: 255, g: 0, b: 0 });
    assert_eq!(styled.emphasis, Emphasis::Bold);
    assert_eq!(styled.text, standard("HI"));
    let height = FIGfont::standard().unwrap().header_line.height as usize;
    assert_eq!(height, 6);
    assert_eq!(styled.text.lines().count(), height);
}

#[test]
fn composed_banner_is_scaled() {
    let plain = standard("HI");
    let renderer = Renderer::new(theme_with_style("normal"), "standard", factor(2.0));
    let styled = renderer.compose("HI").unwrap();
    let lines: Vec<&str> = styled.text.lines().collect();
    let source: Vec<&str> = plain.lines().collect();
    assert_eq!(lines.len(), 12);
    for (j, line) in lines.iter().enumerate() {
        assert_eq!(line.chars().count(), 2 * source[j / 2].chars().count());
    }
    assert_eq!(styled.emphasis, Emphasis::Plain);

    let renderer = Renderer::new(theme_with_style("normal"), "standard", factor(1.5));
    let styled = renderer.compose("HI").unwrap();
    let lines: Vec<&str> = styled.text.lines().collect();
    assert_eq!(lines.len(), 12);
    for (j, line) in lines.iter().enumerate() {
        assert_eq!(*line, source[j / 2]);
    }

    let renderer = Renderer::new(theme_with_style("normal"), "standard", factor(0.5));
    assert_eq!(renderer.compose("HI").unwrap().text, plain);
}

#[test]
fn renderer_scales_text() {
    let renderer = Renderer::new(create_test_theme(), "standard", factor(1.0));
    assert_eq!(renderer.scale_text("ab\ncd", factor(2.0)), "aabb\naabb\nccdd\nccdd");
    assert_eq!(renderer.scale_text("ab\ncd\n", factor(1.0)), "ab\ncd\n");
}

#[test]
fn escape_sequences_carry_colour_and_emphasis() {
    colored::control::set_override(true);
    let bold = StyledText {
        text: "HI".to_string(),
        color: Color::TrueColor { r: 255, g: 0, b: 0 },
        emphasis: Emphasis::Bold,
    };
    let out = bold.to_ansi();
    assert_ne!(out, "HI");
    assert!(out.starts_with("\u{1b}[1;"));
    assert!(out.ends_with("HI\u{1b}[0m"));

    let italic = StyledText { text: "HI".to_string(), color: Color::White, emphasis: Emphasis::Italic };
    assert_eq!(italic.to_ansi(), "\u{1b}[3;37mHI\u{1b}[0m");

    let plain = StyledText { text: "HI".to_string(), color: Color::White, emphasis: Emphasis::Plain };
    assert_eq!(plain.to_ansi(), "\u{1b}[37mHI\u{1b}[0m");
}

#[test]
fn no_escape_sequences_where_colours_are_off() {
    colored::control::set_override(false);
    let bold = StyledText {
        text: "HI".to_string(),
        color: Color::TrueColor { r: 255, g: 0, b: 0 },
        emphasis: Emphasis::Bold,
    };
    assert_eq!(bold.to_ansi(), "HI");
    let renderer = Renderer::new(theme_with_style("bold"), "standard", factor(1.0));
    assert_eq!(renderer.render("HI"), Ok(standard("HI")));
}

#[test]
fn rendered_banner_holds_the_figure() {
    colored::control::set_override(true);
    let renderer = Renderer::new(theme_with_style("bold"), "unknown", factor(1.0));
    let out = renderer.render("HI").unwrap();
    assert!(out.starts_with("\u{1b}[1;"));
    assert!(out.contains(&standard("HI")));
    assert!(out.ends_with("\u{1b}[0m"));
}

#[test]
fn font_load_error_has_words() {
    assert_eq!(RenderError::FontLoad.message(), "Failed to load any font");
}

/// The figure of `text` put together from the glyphs of `font`: row by
/// row, the glyphs of the characters that the font knows side by side, and
/// a line feed after each row.
fn figure_from_glyphs(font: &FIGfont, text: &str) -> Option<String> {
    let known: Vec<char> =
        text.chars().filter(|c| font.fonts.contains_key(&(*c as u32))).collect();
    if known.is_empty() {
        return None;
    }
    let mut out = String::new();
    for row in 0..font.header_line.height as u32 {
        for c in &known {
            if let Some(line) = font.fonts[&(*c as u32)].characters.get(row as usize) {
                out.push_str(line);
            }
        }
        out.push('\n');
    }
    Some(out)
}

#[test]
fn figure_is_the_glyphs_side_by_side() {
    let standard_font = FIGfont::standard().unwrap();
    let tiny = tiny_font();
    let texts = [
        "",
        "A",
        "HI",
        "Hello, world!",
        "a\u{4e16}b",
        "\u{4e16}",
        "\u{e4}\u{f6}\u{fc}\u{df}",
        "tab\there",
        "line\nfeed",
        " ",
        "~!@#$%^&*()_+",
    ];
    for text in texts {
        for font in [&standard_font, &tiny] {
            let expected = figure_from_glyphs(font, text).unwrap_or_else(|| text.to_string());
            assert_eq!(draw(font, text), expected, "text {:?}", text);
        }
    }
}

/// `text` with `style` behind each reset sequence in it.
fn restyled(text: &str, style: &str) -> String {
    text.replace("\u{1b}[0m", &format!("\u{1b}[0m{}", style))
}

/// What a painted text may be: the text itself, or the text in the style
/// of the emphasis and of one of the codes that the colour may have.
fn paintings(text: &str, color: Color, emphasis: Emphasis) -> Vec<String> {
    let lead = match emphasis {
        Emphasis::Bold => "1;",
        Emphasis::Italic => "3;",
        Emphasis::Plain => "",
    };
    let mut codes = Vec::new();
    match color {
        Color::White => codes.push("37".to_string()),
        Color::TrueColor { r, g, b } => {
            codes.push(format!("38;2;{};{};{}", r, g, b));
            for tens in ["3", "9"] {
                for unit in 0..8 {
                    codes.push(format!("{}{}", tens, unit));
                }
            }
        }
    }
    let mut all = vec![text.to_string()];
    for code in codes {
        let style = format!("\u{1b}[{}{}m", lead, code);
        all.push(format!("{}{}\u{1b}[0m", style, restyled(text, &style)));
    }
    all
}

fn painted_texts_are_as_stated(colours_on: bool) {
    colored::control::set_override(colours_on);
    let texts = [
        "",
        "HI",
        "two\nlines\n",
        "a\u{1b}[0mb",
        "\u{1b}[0m",
        "\u{1b}[0m\u{1b}[0mx\u{1b}[0m",
        "\u{1b}[0",
        "\u{1b}\u{1b}[0m",
        "\u{1b}[31mred\u{1b}[0m plain",
        "h\u{e9}llo \u{4e16}\u{754c}",
    ];
    let colors = [
        Color::White,
        Color::TrueColor { r: 255, g: 0, b: 0 },
        Color::TrueColor { r: 0, g: 0, b: 0 },
        Color::TrueColor { r: 7, g: 42, b: 100 },
        Color::TrueColor { r: 255, g: 255, b: 255 },
        Color::TrueColor { r: 10, g: 200, b: 9 },
    ];
    for text in texts {
        for color in colors {
            for emphasis in [Emphasis::Bold, Emphasis::Italic, Emphasis::Plain] {
                let styled = StyledText { text: text.to_string(), color, emphasis };
                let out = styled.to_ansi();
                assert!(
                    paintings(text, color, emphasis).contains(&out),
                    "{:?} for {:?} in {:?} and {:?}",
                    out,
                    text,
                    color,
                    emphasis
                );
                if colours_on {
                    assert_ne!(out, text);
                } else {
                    assert_eq!(out, text);
                }
            }
        }
    }
}

#[test]
fn painted_texts_are_as_stated_with_colours() {
    painted_texts_are_as_stated(true);
}

#[test]
fn painted_texts_are_as_stated_without_colours() {
    painted_texts_are_as_stated(false);
}

#[test]
fn style_goes_on_behind_a_reset_in_the_text() {
    colored::control::set_override(true);
    let styled = StyledText {
        text: "a\u{1b}[0mb".to_string(),
        color: Color::White,
        emphasis: Emphasis::Bold,
    };
    assert_eq!(styled.to_ansi(), "\u{1b}[1;37ma\u{1b}[0m\u{1b}[1;37mb\u{1b}[0m");
}

#[test]
fn true_colour_is_written_whole_or_as_a_named_colour() {
    colored::control::set_override(true);
    let styled = StyledText {
        text: "HI".to_string(),
        color: Color::TrueColor { r: 255, g: 0, b: 0 },
        emphasis: Emphasis::Bold,
    };
    let out = styled.to_ansi();
    assert!(
        out == "\u{1b}[1;38;2;255;0;0mHI\u{1b}[0m" || out == "\u{1b}[1;91mHI\u{1b}[0m",
        "{:?}",
        out
    );
}

#[test]
fn rendered_banner_is_the_painted_figure() {
    for colours_on in [true, false] {
        colored::control::set_override(colours_on);
        let renderer = Renderer::new(theme_with_style("italic"), "standard", factor(2.0));
        let banner = renderer.compose("HI").unwrap().text;
        let out = renderer.render("HI").unwrap();
        let color = Color::TrueColor { r: 0, g: 255, b: 0 };
        assert!(paintings(&banner, color, Emphasis::Italic).contains(&out));
        assert_eq!(out == banner, !colours_on);
    }
}

#[test]
fn there_is_always_a_banner_without_loaded_fonts() {
    colored::control::set_override(false);
    for name in ["standard", "small", "big", "banner", "block", "no-such-font", "", "Standard"] {
        for style in ["bold", "italic", "normal", ""] {
            let renderer = Renderer::new(theme_with_style(style), name, factor(1.0));
            assert_eq!(renderer.render_figlet("HI"), Ok(standard("HI")));
            assert!(renderer.compose("HI").is_ok());
            assert_eq!(renderer.render("HI"), Ok(standard("HI")));
        }
    }
}

#[test]
fn built_in_fonts_are_tried_in_order() {
    let first = builtin_font(Ok(tiny_font()), Ok(FIGfont::standard().unwrap())).unwrap();
    assert_eq!(first.header_line.height, 2);
    let first = builtin_font(Ok(FIGfont::standard().unwrap()), Err("none".to_string())).unwrap();
    assert_eq!(first.header_line.height, 6);
    let second = builtin_font(Err("none".to_string()), Ok(tiny_font())).unwrap();
    assert_eq!(second.header_line.height, 2);
    assert!(builtin_font(Err("one".to_string()), Err("two".to_string())).is_none());
    assert!(FIGfont::standard().is_ok());
    assert!(FIGfont::from_content("").is_err());
}
