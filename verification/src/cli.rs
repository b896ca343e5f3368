//! The command surface of LionClip.
//!
//! Parsing is pure and runs before anything touches the display, so
//! `--help`, `--version` and invalid arguments never open a display, never
//! register the application on the bus and never start a clipboard monitor.
use vstd::prelude::*;

use crate::text::str_equal;

verus! {

/// The final application ID. It is also the base name of the desktop entry,
/// the autostart entry, the metainfo file and the installed icon.
pub const APPLICATION_ID: &'static str = "io.github.Pianisuto.LionClip";

pub const VERSION: &'static str = "0.1.0";

pub const HELP: &'static str = "\
LionClip — clipboard history for GNOME/Zorin

Usage:
  lionclip          start the resident instance without showing the popup
  lionclip show     show the clipboard history popup
  lionclip hide     hide the popup and keep the instance resident
  lionclip toggle   show the popup when it is hidden, hide it when it is visible
  lionclip settings open the preferences window

Options:
  -h, --help        print this help
  -V, --version     print the version

Every invocation is delivered to the single resident instance, which owns the
only clipboard monitor. `toggle` is the command to bind to Super+V.
";

pub const USAGE: &'static str = "usage: lionclip [show | hide | toggle | settings] [--help] [--version]";

/// The exit code of an invocation with invalid arguments.
pub const INVALID_ARGUMENTS: u8 = 2;

/// What the caller asked the resident instance to do.
#[derive(Clone, Copy, Debug, Eq, PartialEq, Structural)]
pub enum Command {
    /// Start the resident instance and leave the popup alone. This is what
    /// autostart runs at login.
    Run,
    Show,
    Hide,
    Toggle,
    /// Opens (or focuses, if already open) the preferences window. It does
    /// not affect the popup.
    Settings,
}

/// A command line that the invoked process answers by itself, without a
/// display, an application instance or a clipboard monitor.
#[derive(Clone, Debug, Eq, PartialEq)]
pub enum Answer {
    Help,
    Version,
    Invalid(String),
}

/// The mathematical value of an [`Answer`].
pub enum AnswerView {
    Help,
    Version,
    Invalid(Seq<char>),
}

impl View for Answer {
    type V = AnswerView;

    open spec fn view(&self) -> AnswerView {
        match self {
            Answer::Help => AnswerView::Help,
            Answer::Version => AnswerView::Version,
            Answer::Invalid(message) => AnswerView::Invalid(message@),
        }
    }
}

/// One argument after the program name: text, or the lossy rendering of
/// one that was not valid Unicode.
#[derive(Clone, Debug, Eq, PartialEq)]
pub enum Argument {
    Text(String),
    NotUnicode(String),
}

/// The mathematical value of an [`Argument`].
pub enum ArgumentView {
    Text(Seq<char>),
    NotUnicode(Seq<char>),
}

impl View for Argument {
    type V = ArgumentView;

    open spec fn view(&self) -> ArgumentView {
        match self {
            Argument::Text(text) => ArgumentView::Text(text@),
            Argument::NotUnicode(lossy) => ArgumentView::NotUnicode(lossy@),
        }
    }
}

/// The text an argument shows in a message.
pub open spec fn shown(argument: ArgumentView) -> Seq<char> {
    match argument {
        ArgumentView::Text(text) => text,
        ArgumentView::NotUnicode(lossy) => lossy,
    }
}

pub open spec fn answer_text(answer: AnswerView) -> Seq<char> {
    match answer {
        AnswerView::Help => HELP@,
        AnswerView::Version => "lionclip "@ + VERSION@ + "\n"@,
        AnswerView::Invalid(message) => "lionclip: "@ + message + "\n"@ + USAGE@ + "\n"@,
    }
}

impl Answer {
    /// What the process prints: help and version to standard output, an
    /// invalid command line's message with the usage line to standard error.
    pub fn text(&self) -> (text: String)
        ensures
            text@ == answer_text(self@),
    {
        match self {
            Answer::Help => String::from_str(HELP),
            Answer::Version => {
                let mut text = String::from_str("lionclip ");
                text.append(VERSION);
                text.append("\n");
                text
            },
            Answer::Invalid(message) => {
                let mut text = String::from_str("lionclip: ");
                text.append(message.as_str());
                text.append("\n");
                text.append(USAGE);
                text.append("\n");
                text
            },
        }
    }

    pub fn is_error(&self) -> (error: bool)
        ensures
            error == (self@ is Invalid),
    {
        matches!(self, Answer::Invalid(_))
    }

    pub fn exit_code(&self) -> (code: u8)
        ensures
            code == if self@ is Invalid {
                INVALID_ARGUMENTS
            } else {
                0
            },
    {
        if self.is_error() {
            INVALID_ARGUMENTS
        } else {
            0
        }
    }
}

/// What the popup should do about a command, given whether it is on screen.
#[derive(Clone, Copy, Debug, Eq, PartialEq, Structural)]
pub enum PopupIntent {
    Show,
    Hide,
    /// Leave the popup exactly as it is, visible or not.
    Leave,
}

pub open spec fn command_intent(command: Command, popup_visible: bool) -> PopupIntent {
    match command {
        Command::Run => PopupIntent::Leave,
        Command::Show => PopupIntent::Show,
        Command::Hide => PopupIntent::Hide,
        Command::Toggle => if popup_visible {
            PopupIntent::Hide
        } else {
            PopupIntent::Show
        },
        Command::Settings => PopupIntent::Leave,
    }
}

impl Command {
    /// A visible popup is hidden by `toggle`, never hidden and shown again:
    /// showing it again would re-place a window the compositor already
    /// mapped. `settings` never touches the popup.
    pub fn intent(self, popup_visible: bool) -> (intent: PopupIntent)
        ensures
            intent == command_intent(self, popup_visible),
    {
        match self {
            Command::Run => PopupIntent::Leave,
            Command::Show => PopupIntent::Show,
            Command::Hide => PopupIntent::Hide,
            Command::Toggle => if popup_visible {
                PopupIntent::Hide
            } else {
                PopupIntent::Show
            },
            Command::Settings => PopupIntent::Leave,
        }
    }
}

/// The command named by the first argument, or the answer it gets.
pub open spec fn first_word(word: Seq<char>) -> Result<Command, AnswerView> {
    if word == "-h"@ || word == "--help"@ {
        Err(AnswerView::Help)
    } else if word == "-V"@ || word == "--version"@ {
        Err(AnswerView::Version)
    } else if word == "show"@ {
        Ok(Command::Show)
    } else if word == "hide"@ {
        Ok(Command::Hide)
    } else if word == "toggle"@ {
        Ok(Command::Toggle)
    } else if word == "settings"@ {
        Ok(Command::Settings)
    } else {
        Err(AnswerView::Invalid("unknown command '"@ + word + "'"@))
    }
}

/// How a command line is understood: nothing starts the resident instance;
/// one known word is its command; help and version are answered; anything
/// else, a second argument included, is invalid.
pub open spec fn parse_arguments(arguments: Seq<ArgumentView>) -> Result<Command, AnswerView> {
    if arguments.len() == 0 {
        Ok(Command::Run)
    } else {
        match arguments[0] {
            ArgumentView::NotUnicode(_) => Err(
                AnswerView::Invalid("arguments must be valid UTF-8"@),
            ),
            ArgumentView::Text(word) => match first_word(word) {
                Ok(command) => if arguments.len() == 1 {
                    Ok(command)
                } else {
                    Err(
                        AnswerView::Invalid(
                            "unexpected argument '"@ + shown(arguments[1]) + "'"@,
                        ),
                    )
                },
                Err(answer) => Err(answer),
            },
        }
    }
}

pub open spec fn parsed_view(parsed: Result<Command, Answer>) -> Result<Command, AnswerView> {
    match parsed {
        Ok(command) => Ok(command),
        Err(answer) => Err(answer@),
    }
}

fn quoted(prefix: &str, word: &str) -> (text: String)
    ensures
        text@ == prefix@ + word@ + "'"@,
{
    let mut text = String::from_str(prefix);
    text.append(word);
    text.append("'");
    text
}

fn parse_first(word: &str) -> (parsed: Result<Command, Answer>)
    ensures
        parsed_view(parsed) == first_word(word@),
{
    if str_equal(word, "-h") || str_equal(word, "--help") {
        Err(Answer::Help)
    } else if str_equal(word, "-V") || str_equal(word, "--version") {
        Err(Answer::Version)
    } else if str_equal(word, "show") {
        Ok(Command::Show)
    } else if str_equal(word, "hide") {
        Ok(Command::Hide)
    } else if str_equal(word, "toggle") {
        Ok(Command::Toggle)
    } else if str_equal(word, "settings") {
        Ok(Command::Settings)
    } else {
        Err(Answer::Invalid(quoted("unknown command '", word)))
    }
}

/// Parses the arguments after the program name.
pub fn parse(arguments: &[Argument]) -> (parsed: Result<Command, Answer>)
    ensures
        parsed_view(parsed) == parse_arguments(arguments@.map_values(|a: Argument| a@)),
{
    let ghost views = arguments@.map_values(|a: Argument| a@);
    if arguments.len() == 0 {
        return Ok(Command::Run);
    }
    let first = match &arguments[0] {
        Argument::NotUnicode(_) => {
            return Err(Answer::Invalid(String::from_str("arguments must be valid UTF-8")));
        },
        Argument::Text(word) => word,
    };
    assert(views[0] == ArgumentView::Text(first@));
    match parse_first(first.as_str()) {
        Ok(command) => {
            if arguments.len() == 1 {
                Ok(command)
            } else {
                let extra = match &arguments[1] {
                    Argument::Text(text) => text,
                    Argument::NotUnicode(lossy) => lossy,
                };
                assert(shown(views[1]) == extra@);
                Err(Answer::Invalid(quoted("unexpected argument '", extra.as_str())))
            }
        },
        Err(answer) => Err(answer),
    }
}

/// Toggling twice from either state brings the popup back: a visible popup
/// is hidden and then shown, a hidden one shown and then hidden.
pub proof fn law_toggle_flips_visibility(popup_visible: bool)
    ensures
        command_intent(Command::Toggle, popup_visible) == (if popup_visible {
            PopupIntent::Hide
        } else {
            PopupIntent::Show
        }),
        command_intent(Command::Toggle, !popup_visible) != command_intent(
            Command::Toggle,
            popup_visible,
        ),
{
}

/// Only an invalid command line fails the process.
pub proof fn law_only_invalid_answers_fail(answer: AnswerView)
    ensures
        (answer is Invalid) <==> (if answer is Invalid {
            INVALID_ARGUMENTS
        } else {
            0u8
        }) != 0,
{
}

} // verus!
