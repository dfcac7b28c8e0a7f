use greetme::themes::{
    default_ascii_art_style, hex_to_color, is_valid_theme_name, Color, Theme, ThemeError,
    ThemeManager,
};

fn create_test_theme() -> Theme {
    Theme {
        name: "test".to_string(),
        description: "Test theme".to_string(),
        foreground: "#ffffff".to_string(),
        background: "#000000".to_string(),
        accent: "#ff0000".to_string(),
        strong: "#00ff00".to_string(),
        dim: "#0000ff".to_string(),
        ascii_art_style: "bold".to_string(),
    }
}

#[test]
fn test_hex_to_color() {
    let color = hex_to_color("#ff0000");
    match color {
        Color::TrueColor { r, g, b } => {
            assert_eq!(r, 255);
            assert_eq!(g, 0);
            assert_eq!(b, 0);
        }
        _ => panic!("Expected TrueColor"),
    }
}

#[test]
fn test_path_traversal_prevention() {
    let manager = ThemeManager::new("themes".to_string(), true).unwrap();

    // Should fail on path traversal attempts
    assert!(manager.theme_path("../evil").is_err());
    assert!(manager.theme_path("subdir/theme").is_err());
}

#[test]
fn well_formed_hex_is_read_exactly() {
    assert_eq!(hex_to_color("#000000"), Color::TrueColor { r: 0, g: 0, b: 0 });
    assert_eq!(hex_to_color("#ffffff"), Color::TrueColor { r: 255, g: 255, b: 255 });
    assert_eq!(hex_to_color("#1a2B3c"), Color::TrueColor { r: 0x1a, g: 0x2b, b: 0x3c });
    assert_eq!(hex_to_color("#ABCDEF"), Color::TrueColor { r: 0xab, g: 0xcd, b: 0xef });
    assert_eq!(hex_to_color("#09af9F"), Color::TrueColor { r: 0x09, g: 0xaf, b: 0x9f });
    assert_eq!(hex_to_color("4b0082"), Color::TrueColor { r: 75, g: 0, b: 130 });
}

#[test]
fn malformed_hex_is_white() {
    let malformed = [
        "",
        "#",
        "#fff",
        "#ff00",
        "#ff00000",
        "ff00000",
        "#gg0000",
        "#ff00zz",
        "#ff 000",
        "#+f0000",
        "#-10000",
        "##ff0000",
        "#ff0000#",
        "red",
        "#ff00\u{e9}0",
        "#\u{ff11}\u{ff11}0000",
    ];
    for hex in malformed {
        assert_eq!(hex_to_color(hex), Color::White, "colour of {:?}", hex);
        assert_eq!(hex_to_color(hex).to_rgb(), (255, 255, 255));
    }
}

#[test]
fn colours_have_their_parts() {
    assert_eq!(Color::White.to_rgb(), (255, 255, 255));
    assert_eq!(Color::TrueColor { r: 1, g: 2, b: 3 }.to_rgb(), (1, 2, 3));
}

#[test]
fn each_colour_of_a_theme_is_read_on_its_own() {
    let mut theme = create_test_theme();
    assert_eq!(theme.get_foreground_color(), Color::TrueColor { r: 255, g: 255, b: 255 });
    assert_eq!(theme.get_accent_color(), Color::TrueColor { r: 255, g: 0, b: 0 });
    assert_eq!(theme.get_strong_color(), Color::TrueColor { r: 0, g: 255, b: 0 });
    theme.accent = "nonsense".to_string();
    assert_eq!(theme.get_foreground_color(), Color::TrueColor { r: 255, g: 255, b: 255 });
    assert_eq!(theme.get_accent_color(), Color::White);
    assert_eq!(theme.get_strong_color(), Color::TrueColor { r: 0, g: 255, b: 0 });
}

#[test]
fn default_style_is_normal() {
    assert_eq!(default_ascii_art_style(), "normal");
}

#[test]
fn theme_errors_have_words() {
    assert_eq!(
        ThemeError::DirectoryMissing.message("/c/themes"),
        "Themes directory does not exist: /c/themes. Run 'greetme -c' to create it."
    );
    assert_eq!(ThemeError::InvalidName.message("../evil"), "Invalid theme name: ../evil");
}

#[test]
fn theme_names_are_checked() {
    assert!(is_valid_theme_name("onedark"));
    assert!(is_valid_theme_name("catppuccin-latte"));
    assert!(is_valid_theme_name("a.b"));
    assert!(is_valid_theme_name(""));
    assert!(is_valid_theme_name("."));
    assert!(!is_valid_theme_name(".."));
    assert!(!is_valid_theme_name("a..b"));
    assert!(!is_valid_theme_name("../evil"));
    assert!(!is_valid_theme_name("subdir/theme"));
    assert!(!is_valid_theme_name("sub\\theme"));
    assert!(!is_valid_theme_name("/"));
}

#[test]
fn theme_files_lie_in_the_themes_directory() {
    let manager = ThemeManager::new("/home/u/.config/greetme/themes".to_string(), true).unwrap();
    assert_eq!(manager.themes_dir(), "/home/u/.config/greetme/themes");
    assert_eq!(
        manager.theme_path("dracula"),
        Ok("/home/u/.config/greetme/themes/dracula.toml".to_string())
    );
    assert_eq!(manager.theme_path("../evil"), Err(ThemeError::InvalidName));
    assert_eq!(manager.theme_path("a\\b"), Err(ThemeError::InvalidName));
}

#[test]
fn no_manager_without_the_directory() {
    match ThemeManager::new("themes".to_string(), false) {
        Err(e) => assert_eq!(e, ThemeError::DirectoryMissing),
        Ok(_) => panic!("expected an error"),
    }
}
