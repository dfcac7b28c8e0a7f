//! What a command line asks for, and the rules that its commands obey.
//!
//! Reading the arguments, the files and the terminal is left to the
//! caller; the decisions are taken here.

use vstd::prelude::*;
use crate::config::Config;
use crate::paths::with_ending;
use crate::scale::ScaleFactor;
use crate::text::same_text;

verus! {

/// The options of the command line.
#[derive(Clone, Debug)]
pub struct Args {
    /// Text to display as greeting.
    pub text: Option<String>,
    /// Read and display the stored greeting.
    pub read: bool,
    /// Create the default configuration and themes.
    pub create_config: bool,
    /// Set the active theme.
    pub set_theme: Option<String>,
    /// List the available themes.
    pub list_themes: bool,
    /// Use this font for this run.
    pub font: Option<String>,
    /// The font size multiplier.
    pub size: ScaleFactor,
    /// Save the current settings.
    pub save: bool,
    /// Preview a theme.
    pub preview_theme: Option<String>,
    /// Go on even where the output is no terminal.
    pub force: bool,
    /// Say more.
    pub verbose: bool,
}

/// What to do.
#[derive(Clone, Debug)]
pub enum Command {
    CreateConfig { force: bool },
    ListThemes,
    PreviewTheme { theme: String },
    SetTheme { theme: String },
    DisplayText { text: String, font: Option<String>, size: ScaleFactor, save: bool, force: bool },
    Read { size: ScaleFactor, force: bool },
    /// No command was given.
    Nothing,
}

/// Why a command is refused.
#[derive(Clone, Copy, Debug, PartialEq, Eq, Structural)]
pub enum CliError {
    /// There is a configuration already, and it was not asked to be
    /// overwritten.
    ConfigExists,
    /// The output is no terminal, and it was not asked to print anyway.
    NotATerminal,
    /// The font size is no number, at most 0 or greater than 10.
    SizeOutOfRange,
    /// The configuration holds no greeting.
    NoGreeting,
}

impl CliError {
    /// The error in words, for a configuration file at `config_path`.
    pub open spec fn words(self, config_path: Seq<char>) -> Seq<char> {
        match self {
            CliError::ConfigExists => "Config already exists at "@ + config_path
                + ". Use --force to overwrite."@,
            CliError::NotATerminal => "Output is not a terminal. Use --force to print anyway."@,
            CliError::SizeOutOfRange => "Font size must be between 0.1 and 10.0"@,
            CliError::NoGreeting =>
                "No greeting stored in config. Use 'greetme -t \"Your text\" --save' to store one."@,
        }
    }

    /// The error in words. `config_path` is where the configuration file
    /// is kept.
    pub fn message(&self, config_path: &str) -> (words: String)
        ensures
            words@ == self.words(config_path@),
    {
        match self {
            CliError::ConfigExists => {
                let start = with_ending("Config already exists at ", config_path);
                with_ending(start.as_str(), ". Use --force to overwrite.")
            },
            CliError::NotATerminal => "Output is not a terminal. Use --force to print anyway."
                .to_owned(),
            CliError::SizeOutOfRange => "Font size must be between 0.1 and 10.0".to_owned(),
            CliError::NoGreeting =>
                "No greeting stored in config. Use 'greetme -t \"Your text\" --save' to store one."
                .to_owned(),
        }
    }
}

/// The command that `args` ask for. Where they ask for several, the first
/// of these wins: creating the configuration, listing the themes,
/// previewing a theme, setting the theme, displaying a text, reading the
/// stored greeting.
pub open spec fn command_of(args: Args) -> Command {
    if args.create_config {
        Command::CreateConfig { force: args.force }
    } else if args.list_themes {
        Command::ListThemes
    } else if args.preview_theme is Some {
        Command::PreviewTheme { theme: args.preview_theme->0 }
    } else if args.set_theme is Some {
        Command::SetTheme { theme: args.set_theme->0 }
    } else if args.text is Some {
        Command::DisplayText {
            text: args.text->0,
            font: args.font,
            size: args.size,
            save: args.save,
            force: args.force,
        }
    } else if args.read {
        Command::Read { size: args.size, force: args.force }
    } else {
        Command::Nothing
    }
}

/// Decides what to do for `args`.
pub fn execute(args: Args) -> (command: Command)
    ensures
        command == command_of(args),
{
    if args.create_config {
        return Command::CreateConfig { force: args.force };
    }
    if args.list_themes {
        return Command::ListThemes;
    }
    if let Some(theme) = args.preview_theme {
        return Command::PreviewTheme { theme };
    }
    if let Some(theme) = args.set_theme {
        return Command::SetTheme { theme };
    }
    if let Some(text) = args.text {
        return Command::DisplayText {
            text,
            font: args.font,
            size: args.size,
            save: args.save,
            force: args.force,
        };
    }
    if args.read {
        return Command::Read { size: args.size, force: args.force };
    }
    Command::Nothing
}

/// A configuration may be created where there is none, or where it was
/// asked to overwrite the one there is.
pub fn check_create_config(present: bool, force: bool) -> (allowed: Result<(), CliError>)
    ensures
        allowed is Err == (present && !force),
        allowed is Err ==> allowed == Err::<(), CliError>(CliError::ConfigExists),
{
    if present && !force {
        Err(CliError::ConfigExists)
    } else {
        Ok(())
    }
}

/// A banner may be printed to a terminal, or anywhere where it was asked
/// to print anyway.
pub fn check_terminal(force: bool, is_terminal: bool) -> (allowed: Result<(), CliError>)
    ensures
        allowed is Err == (!force && !is_terminal),
        allowed is Err ==> allowed == Err::<(), CliError>(CliError::NotATerminal),
{
    if !force && !is_terminal {
        Err(CliError::NotATerminal)
    } else {
        Ok(())
    }
}

/// A font size is accepted where it is a number above 0 and up to 10,
/// and refused where it is no number, at most 0 or greater than 10.
pub fn check_size(size: ScaleFactor) -> (allowed: Result<(), CliError>)
    ensures
        allowed is Err == (size.is_nan() || size.at_most_zero() || size.above_ten()),
        allowed is Err ==> allowed == Err::<(), CliError>(CliError::SizeOutOfRange),
{
    if size.is_not_a_number() || size.is_at_most_zero() || size.is_above_ten() {
        Err(CliError::SizeOutOfRange)
    } else {
        Ok(())
    }
}

/// The font with which a text is displayed: the one asked for, or else the
/// one of the configuration.
pub fn display_font<'a>(font: &'a Option<String>, config: &'a Config) -> (name: &'a str)
    ensures
        name@ == match *font {
            Some(asked) => asked@,
            None => config.default_font@,
        },
{
    match font {
        Some(asked) => asked.as_str(),
        None => config.default_font.as_str(),
    }
}

/// The greeting that the configuration holds.
pub fn stored_greeting(config: &Config) -> (greeting: Result<&str, CliError>)
    ensures
        match config.last_shown {
            Some(text) => greeting matches Ok(found) && found@ == text@,
            None => greeting == Err::<&str, CliError>(CliError::NoGreeting),
        },
{
    match &config.last_shown {
        Some(text) => Ok(text.as_str()),
        None => Err(CliError::NoGreeting),
    }
}

/// The size at which the stored greeting is displayed: the one asked for,
/// unless that is exactly 1, in which case it is the one of the
/// configuration.
pub fn read_size(size: ScaleFactor, config: &Config) -> (chosen: ScaleFactor)
    ensures
        chosen == if size.is_one() {
            config.font_size
        } else {
            size
        },
{
    if !size.is_exactly_one() {
        size
    } else {
        config.font_size
    }
}

/// The line that lists the theme `name` where `active` is the theme in use.
pub open spec fn theme_line_of(name: Seq<char>, active: Seq<char>) -> Seq<char> {
    if name == active {
        "  * "@ + name + " (active)"@
    } else {
        "    "@ + name
    }
}

/// The line that lists the theme `name`.
pub fn theme_line(name: &str, active: &str) -> (line: String)
    ensures
        line@ == theme_line_of(name@, active@),
{
    if same_text(name, active) {
        let marked = with_ending("  * ", name);
        with_ending(marked.as_str(), " (active)")
    } else {
        with_ending("    ", name)
    }
}

} // verus!
