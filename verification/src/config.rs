//! Where the configuration lives, and what a fresh configuration holds.
//!
//! Nothing here touches a file. The paths are computed, and setting up a
//! fresh configuration is given as a plan of directories and files for the
//! caller to create.

use vstd::prelude::*;
use crate::paths::{join_path, joined, with_ending};
use crate::scale::ScaleFactor;

verus! {

/// Why the configuration directory cannot be found.
#[derive(Clone, Copy, Debug, PartialEq, Eq, Structural)]
pub enum ConfigError {
    /// Neither a configuration home nor a home directory is known.
    NoHomeDirectory,
}

impl ConfigError {
    /// The error in words.
    pub fn message(&self) -> (words: String)
        ensures
            words@ == "Could not determine home directory"@,
    {
        "Could not determine home directory".to_owned()
    }
}

/// The configuration directory for a given configuration home, or else
/// for a given home directory.
pub open spec fn config_dir_of(config_home: Option<Seq<char>>, home: Option<Seq<char>>) -> Option<
    Seq<char>,
> {
    match (config_home, home) {
        (Some(base), _) => Some(joined(base, "greetme"@)),
        (None, Some(base)) => Some(joined(joined(base, ".config"@), "greetme"@)),
        (None, None) => None,
    }
}

/// The view of an optional string.
pub open spec fn text_of(s: Option<String>) -> Option<Seq<char>> {
    match s {
        Some(s) => Some(s@),
        None => None,
    }
}

/// The names of the themes that a fresh configuration holds, in the order
/// in which they are written.
pub open spec fn default_theme_names() -> Seq<Seq<char>> {
    seq![
        "onedark"@,
        "solarized"@,
        "dracula"@,
        "gruvbox"@,
        "monokai"@,
        "catppuccin-latte"@,
        "catppuccin-frappe"@,
        "catppuccin-macchiato"@,
        "catppuccin-mocha"@,
    ]
}

/// The fonts that a fresh configuration holds, each with the line that
/// describes it, in the order in which they are written.
pub open spec fn default_fonts() -> Seq<(Seq<char>, Seq<char>)> {
    seq![
        ("standard"@, "Standard FIGlet font"@),
        ("big"@, "Big FIGlet font"@),
        ("small"@, "Small FIGlet font"@),
        ("banner"@, "Banner FIGlet font"@),
        ("block"@, "Block FIGlet font"@),
    ]
}

/// One file of a theme to write.
#[derive(Clone, Debug)]
pub struct ThemeFile {
    /// The name of the theme, by which its content is found.
    pub name: String,
    /// Where to write it.
    pub path: String,
}

/// One file of a font to write.
#[derive(Clone, Debug)]
pub struct FontFile {
    /// Where to write it.
    pub path: String,
    /// What to write in it.
    pub description: String,
}

/// What to create for a fresh configuration, in this order: the
/// directories, for their owner alone; the configuration file; the theme
/// files and the font files, each for its owner alone.
#[derive(Clone, Debug)]
pub struct SetupPlan {
    pub directories: Vec<String>,
    pub config_file: String,
    pub theme_files: Vec<ThemeFile>,
    pub font_files: Vec<FontFile>,
}

impl SetupPlan {
    /// The plan for a fresh configuration in `dir`.
    pub open spec fn is_for(self, dir: Seq<char>) -> bool {
        &&& self.directories@.len() == 3
        &&& self.directories@[0]@ == dir
        &&& self.directories@[1]@ == joined(dir, "themes"@)
        &&& self.directories@[2]@ == joined(dir, "fonts"@)
        &&& self.config_file@ == joined(dir, "config.toml"@)
        &&& self.theme_files@.len() == default_theme_names().len()
        &&& forall|i: int|
            0 <= i < self.theme_files@.len() ==> {
                &&& (#[trigger] self.theme_files@[i]).name@ == default_theme_names()[i]
                &&& self.theme_files@[i].path@ == joined(
                    joined(dir, "themes"@),
                    default_theme_names()[i] + ".toml"@,
                )
            }
        &&& self.font_files@.len() == default_fonts().len()
        &&& forall|i: int|
            0 <= i < self.font_files@.len() ==> {
                &&& (#[trigger] self.font_files@[i]).path@ == joined(
                    joined(dir, "fonts"@),
                    default_fonts()[i].0 + ".txt"@,
                )
                &&& self.font_files@[i].description@ == default_fonts()[i].1
            }
    }
}

/// A moment: seconds and nanoseconds since the start of 1970, universal
/// time.
#[derive(Clone, Copy, Debug, PartialEq, Eq, Structural)]
pub struct Timestamp {
    pub seconds: i64,
    pub nanos: u32,
}

/// The font size of a configuration that names none: 1.
pub fn default_font_size() -> (size: ScaleFactor)
    ensures
        size.is_one(),
        size.bits == 0x3F80_0000,
{
    ScaleFactor::one()
}

/// What the configuration file holds.
#[derive(Clone, Debug)]
pub struct Config {
    pub version: String,
    pub default_text: String,
    pub default_theme: String,
    pub default_font: String,
    pub font_size: ScaleFactor,
    pub last_shown: Option<String>,
    pub last_updated: Option<Timestamp>,
}

impl Config {
    /// The configuration of a fresh installation, made at `now`.
    pub fn default_at(now: Timestamp) -> (config: Config)
        ensures
            config.version@ == "1.0"@,
            config.default_text@ == "Hello, world!"@,
            config.default_theme@ == "onedark"@,
            config.default_font@ == "standard"@,
            config.font_size.is_one(),
            text_of(config.last_shown) == Some("Hello, world!"@),
            config.last_updated == Some(now),
    {
        Config {
            version: "1.0".to_owned(),
            default_text: "Hello, world!".to_owned(),
            default_theme: "onedark".to_owned(),
            default_font: "standard".to_owned(),
            font_size: default_font_size(),
            last_shown: Some("Hello, world!".to_owned()),
            last_updated: Some(now),
        }
    }

    /// Makes `theme` the theme in use.
    pub fn set_theme(&mut self, theme: &str)
        ensures
            final(self).default_theme@ == theme@,
            final(self).version == old(self).version,
            final(self).default_text == old(self).default_text,
            final(self).default_font == old(self).default_font,
            final(self).font_size == old(self).font_size,
            final(self).last_shown == old(self).last_shown,
            final(self).last_updated == old(self).last_updated,
    {
        self.default_theme = theme.to_owned();
    }

    /// Keeps what was shown: the text, the moment, the size, and the font
    /// if one was asked for.
    pub fn record_shown(&mut self, text: &str, now: Timestamp, size: ScaleFactor, font: Option<
        String,
    >)
        ensures
            text_of(final(self).last_shown) == Some(text@),
            final(self).last_updated == Some(now),
            final(self).font_size == size,
            final(self).default_font@ == match font {
                Some(name) => name@,
                None => old(self).default_font@,
            },
            final(self).version == old(self).version,
            final(self).default_text == old(self).default_text,
            final(self).default_theme == old(self).default_theme,
    {
        self.last_shown = Some(text.to_owned());
        self.last_updated = Some(now);
        self.font_size = size;
        match font {
            Some(name) => {
                self.default_font = name;
            },
            None => {},
        }
    }
}

/// Knows where the configuration is kept.
pub struct ConfigManager {
    config_dir: String,
}

impl ConfigManager {
    /// The configuration directory.
    pub closed spec fn dir(self) -> Seq<char> {
        self.config_dir@
    }

    /// The manager for the configuration below `config_home` if that is
    /// given, else below `.config` in `home`; without either there is none.
    pub fn new(config_home: Option<String>, home: Option<String>) -> (manager: Result<
        ConfigManager,
        ConfigError,
    >)
        ensures
            match config_dir_of(text_of(config_home), text_of(home)) {
                Some(dir) => manager matches Ok(m) && m.dir() == dir,
                None => manager == Err::<ConfigManager, ConfigError>(ConfigError::NoHomeDirectory),
            },
    {
        match config_home {
            Some(base) => Ok(ConfigManager { config_dir: join_path(base.as_str(), "greetme") }),
            None => match home {
                Some(base) => {
                    let dot_config = join_path(base.as_str(), ".config");
                    Ok(ConfigManager { config_dir: join_path(dot_config.as_str(), "greetme") })
                },
                None => Err(ConfigError::NoHomeDirectory),
            },
        }
    }

    /// The manager for the configuration in `config_dir`.
    pub fn in_dir(config_dir: String) -> (manager: ConfigManager)
        ensures
            manager.dir() == config_dir@,
    {
        ConfigManager { config_dir }
    }

    /// The configuration directory.
    pub fn config_dir(&self) -> (dir: &str)
        ensures
            dir@ == self.dir(),
    {
        self.config_dir.as_str()
    }

    /// The configuration file.
    pub fn config_path(&self) -> (path: String)
        ensures
            path@ == joined(self.dir(), "config.toml"@),
    {
        join_path(self.config_dir.as_str(), "config.toml")
    }

    /// The directory of the themes.
    pub fn themes_dir(&self) -> (path: String)
        ensures
            path@ == joined(self.dir(), "themes"@),
    {
        join_path(self.config_dir.as_str(), "themes")
    }

    /// The directory of the fonts.
    pub fn fonts_dir(&self) -> (path: String)
        ensures
            path@ == joined(self.dir(), "fonts"@),
    {
        join_path(self.config_dir.as_str(), "fonts")
    }

    /// The plan for a fresh configuration.
    pub fn create_default_config(&self) -> (plan: SetupPlan)
        ensures
            plan.is_for(self.dir()),
    {
        let themes_dir = self.themes_dir();
        let fonts_dir = self.fonts_dir();
        let mut directories: Vec<String> = Vec::new();
        directories.push(self.config_dir.clone());
        directories.push(themes_dir.clone());
        directories.push(fonts_dir.clone());

        let mut theme_files: Vec<ThemeFile> = Vec::new();
        theme_files.push(theme_file_in(themes_dir.as_str(), "onedark"));
        theme_files.push(theme_file_in(themes_dir.as_str(), "solarized"));
        theme_files.push(theme_file_in(themes_dir.as_str(), "dracula"));
        theme_files.push(theme_file_in(themes_dir.as_str(), "gruvbox"));
        theme_files.push(theme_file_in(themes_dir.as_str(), "monokai"));
        theme_files.push(theme_file_in(themes_dir.as_str(), "catppuccin-latte"));
        theme_files.push(theme_file_in(themes_dir.as_str(), "catppuccin-frappe"));
        theme_files.push(theme_file_in(themes_dir.as_str(), "catppuccin-macchiato"));
        theme_files.push(theme_file_in(themes_dir.as_str(), "catppuccin-mocha"));

        let mut font_files: Vec<FontFile> = Vec::new();
        font_files.push(font_file_in(fonts_dir.as_str(), "standard", "Standard FIGlet font"));
        font_files.push(font_file_in(fonts_dir.as_str(), "big", "Big FIGlet font"));
        font_files.push(font_file_in(fonts_dir.as_str(), "small", "Small FIGlet font"));
        font_files.push(font_file_in(fonts_dir.as_str(), "banner", "Banner FIGlet font"));
        font_files.push(font_file_in(fonts_dir.as_str(), "block", "Block FIGlet font"));

        SetupPlan { directories, config_file: self.config_path(), theme_files, font_files }
    }
}

/// The file of the theme `name` in `dir`.
fn theme_file_in(dir: &str, name: &str) -> (file: ThemeFile)
    ensures
        file.name@ == name@,
        file.path@ == joined(dir@, name@ + ".toml"@),
{
    let leaf = with_ending(name, ".toml");
    ThemeFile { name: name.to_owned(), path: join_path(dir, leaf.as_str()) }
}

/// The file of the font `name` in `dir`, which holds `description`.
fn font_file_in(dir: &str, name: &str, description: &str) -> (file: FontFile)
    ensures
        file.path@ == joined(dir@, name@ + ".txt"@),
        file.description@ == description@,
{
    let leaf = with_ending(name, ".txt");
    FontFile { path: join_path(dir, leaf.as_str()), description: description.to_owned() }
}

} // verus!
