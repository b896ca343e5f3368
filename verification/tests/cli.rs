use lionclip::cli::{parse, Answer, Argument, Command, PopupIntent, USAGE, VERSION};

fn parse_args(arguments: &[&str]) -> Result<Command, Answer> {
    let arguments: Vec<Argument> = arguments
        .iter()
        .map(|argument| Argument::Text((*argument).to_owned()))
        .collect();
    parse(&arguments)
}

#[test]
fn no_arguments_start_the_resident_instance() {
    assert_eq!(parse_args(&[]), Ok(Command::Run));
}

#[test]
fn the_three_popup_commands_are_recognized() {
    assert_eq!(parse_args(&["show"]), Ok(Command::Show));
    assert_eq!(parse_args(&["hide"]), Ok(Command::Hide));
    assert_eq!(parse_args(&["toggle"]), Ok(Command::Toggle));
}

#[test]
fn settings_command_is_recognized_and_never_touches_the_popup() {
    assert_eq!(parse_args(&["settings"]), Ok(Command::Settings));
    assert_eq!(Command::Settings.intent(false), PopupIntent::Leave);
    assert_eq!(Command::Settings.intent(true), PopupIntent::Leave);
}

#[test]
fn help_and_version_are_answered_without_a_command() {
    assert_eq!(parse_args(&["--help"]), Err(Answer::Help));
    assert_eq!(parse_args(&["-h"]), Err(Answer::Help));
    assert_eq!(parse_args(&["--version"]), Err(Answer::Version));
    assert_eq!(parse_args(&["-V"]), Err(Answer::Version));
    assert_eq!(Answer::Help.exit_code(), 0);
    assert_eq!(Answer::Version.text(), format!("lionclip {VERSION}\n"));
}

#[test]
fn unknown_and_surplus_arguments_are_rejected() {
    assert_eq!(
        parse_args(&["start"]),
        Err(Answer::Invalid("unknown command 'start'".to_owned()))
    );
    assert_eq!(
        parse_args(&["--quiet"]),
        Err(Answer::Invalid("unknown command '--quiet'".to_owned()))
    );
    assert_eq!(
        parse_args(&["toggle", "now"]),
        Err(Answer::Invalid("unexpected argument 'now'".to_owned()))
    );
}

#[test]
fn invalid_arguments_report_a_short_message_and_a_non_zero_exit_code() {
    let answer = parse_args(&["nope"]).expect_err("an unknown command is not a command");
    assert!(answer.is_error());
    assert_eq!(answer.exit_code(), 2);
    assert_eq!(
        answer.text(),
        format!("lionclip: unknown command 'nope'\n{USAGE}\n")
    );
}

#[test]
fn toggle_hides_a_visible_popup_and_shows_a_hidden_one() {
    assert_eq!(Command::Toggle.intent(true), PopupIntent::Hide);
    assert_eq!(Command::Toggle.intent(false), PopupIntent::Show);
}

#[test]
fn show_and_hide_do_not_depend_on_each_other() {
    assert_eq!(Command::Show.intent(false), PopupIntent::Show);
    assert_eq!(Command::Show.intent(true), PopupIntent::Show);
    assert_eq!(Command::Hide.intent(true), PopupIntent::Hide);
    assert_eq!(Command::Hide.intent(false), PopupIntent::Hide);
}

#[test]
fn starting_the_resident_instance_never_opens_the_popup() {
    assert_eq!(Command::Run.intent(false), PopupIntent::Leave);
    assert_eq!(Command::Run.intent(true), PopupIntent::Leave);
}

#[test]
fn a_first_argument_that_is_not_unicode_is_invalid() {
    let arguments = vec![Argument::NotUnicode("\u{fffd}".to_owned())];
    let answer = parse(&arguments).expect_err("not a command");
    assert_eq!(
        answer,
        Answer::Invalid("arguments must be valid UTF-8".to_owned())
    );
    assert_eq!(answer.exit_code(), 2);
}

#[test]
fn a_surplus_argument_that_is_not_unicode_is_shown_lossily() {
    let arguments = vec![
        Argument::Text("show".to_owned()),
        Argument::NotUnicode("ab\u{fffd}".to_owned()),
    ];
    assert_eq!(
        parse(&arguments),
        Err(Answer::Invalid("unexpected argument 'ab\u{fffd}'".to_owned()))
    );
}

#[test]
fn help_text_is_printed_as_is_and_succeeds() {
    let text = Answer::Help.text();
    assert!(text.starts_with("LionClip"));
    assert!(text.contains("lionclip toggle"));
    assert!(!Answer::Help.is_error());
    assert_eq!(Answer::Version.exit_code(), 0);
}
