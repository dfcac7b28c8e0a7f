use greetme::listing::{comes_before, stem_of, theme_names};
use greetme::themes::ThemeManager;

fn chars(text: &str) -> Vec<char> {
    text.chars().collect()
}

fn names(files: &[&str]) -> Vec<String> {
    theme_names(&files.iter().map(|f| f.to_string()).collect())
}

#[test]
fn theme_files_end_in_toml() {
    assert_eq!(stem_of(&chars("dracula.toml")), Some(chars("dracula")));
    assert_eq!(stem_of(&chars("a.b.toml")), Some(chars("a.b")));
    assert_eq!(stem_of(&chars("..toml")), Some(chars(".")));
    assert_eq!(stem_of(&chars(".toml")), None);
    assert_eq!(stem_of(&chars("toml")), None);
    assert_eq!(stem_of(&chars("dracula.TOML")), None);
    assert_eq!(stem_of(&chars("dracula.toml.bak")), None);
    assert_eq!(stem_of(&chars("dracula.tom")), None);
    assert_eq!(stem_of(&chars("dracula.tomll")), None);
    assert_eq!(stem_of(&chars("dracula.")), None);
    assert_eq!(stem_of(&chars("dracula")), None);
    assert_eq!(stem_of(&chars("")), None);
}

#[test]
fn stems_agree_with_the_standard_library() {
    for file in ["dracula.toml", "a.b.toml", "..toml", ".toml", "toml", "x.TOML", "x.toml.bak", "x."] {
        let path = std::path::Path::new(file);
        let expected = match path.extension() {
            Some(ext) if ext == "toml" => {
                path.file_stem().map(|s| s.to_string_lossy().chars().collect::<Vec<char>>())
            }
            _ => None,
        };
        assert_eq!(stem_of(&chars(file)), expected, "file {:?}", file);
    }
}

#[test]
fn texts_are_ordered_by_their_characters() {
    let samples = ["", "a", "ab", "b", "B", "a-b", "aa", "\u{e9}", "z", "catppuccin-latte", "catppuccin-mocha"];
    for a in samples {
        for b in samples {
            assert_eq!(comes_before(&chars(a), &chars(b)), a <= b, "{:?} and {:?}", a, b);
        }
    }
}

#[test]
fn theme_names_are_sorted() {
    assert_eq!(
        names(&["solarized.toml", "readme.md", "onedark.toml", "dracula.toml", ".toml", "notes"]),
        vec!["dracula", "onedark", "solarized"]
    );
    assert_eq!(names(&[]), Vec::<String>::new());
    assert_eq!(names(&["b.toml", "a.toml", "b.toml"]), vec!["a", "b", "b"]);
    assert_eq!(names(&["Z.toml", "a.toml", "B.toml"]), vec!["B", "Z", "a"]);
}

#[test]
fn theme_names_are_sorted_as_the_standard_library_sorts() {
    let files = [
        "monokai.toml",
        "gruvbox.toml",
        "catppuccin-mocha.toml",
        "catppuccin-latte.toml",
        "onedark.toml",
        "catppuccin-frappe.toml",
        "dracula.toml",
        "solarized.toml",
        "catppuccin-macchiato.toml",
    ];
    let mut expected: Vec<String> =
        files.iter().map(|f| f.trim_end_matches(".toml").to_string()).collect();
    expected.sort();
    assert_eq!(names(&files), expected);
}

#[test]
fn manager_lists_the_themes() {
    let manager = ThemeManager::new("themes".to_string(), true).unwrap();
    let files = vec!["b.toml".to_string(), "a.toml".to_string(), "c.txt".to_string()];
    assert_eq!(manager.list_themes(&files), vec!["a", "b"]);
}
