use racer::error::Error;
use racer::extractors::security::is_premium_default;
use racer::shared::read_env::{read_env, EnvVarCause};
use racer::telegram::command::{answer, CommandReply, RacerCommand, Sender, MINI_APP_URL, OPEN_APP_LABEL};

const TAIL: &str = "! This is Purr.fund Mini-app!\n\nClick \"Open app\" below, then earn more Purr Points.\n\nInvite your frens and earn a 15% point cashback through your referral system.\n\nEarn more Points to unlock power\n\nLet's go ⬇️";

fn greeting(reply: CommandReply) -> String {
    match reply {
        CommandReply::LaunchApp { text } => text,
        other => panic!("unexpected {:?}", other),
    }
}

#[test]
fn help_lists_the_commands() {
    assert!(matches!(answer(RacerCommand::Help, None), CommandReply::CommandList));
}

#[test]
fn start_greets_by_username() {
    let sender = Sender { username: Some("ann".to_string()), full_name: "Ann Lee".to_string() };
    assert_eq!(greeting(answer(RacerCommand::Start, Some(sender))), format!("Hi, @ann{}", TAIL));
}

#[test]
fn start_falls_back_to_full_name() {
    let sender = Sender { username: None, full_name: "Ann Lee".to_string() };
    assert_eq!(greeting(answer(RacerCommand::Start, Some(sender))), format!("Hi, @Ann Lee{}", TAIL));
    assert_eq!(greeting(answer(RacerCommand::Start, None)), format!("Hi, @{}", TAIL));
}

#[test]
fn button_opens_the_mini_app() {
    assert_eq!(OPEN_APP_LABEL, "Open app");
    assert_eq!(MINI_APP_URL, "https://mini-app-purr.vercel.app/");
}

#[test]
fn users_are_not_premium_by_default() {
    assert!(!is_premium_default());
}

#[test]
fn present_variable_is_read() {
    assert_eq!(read_env("TELOXIDE_TOKEN", Ok("abc".to_string())).unwrap(), "abc");
}

#[test]
fn missing_variable_is_named() {
    match read_env("TELOXIDE_TOKEN", Err(EnvVarCause::NotPresent)) {
        Err(Error::Env(m)) => assert_eq!(m, "missing env::TELOXIDE_TOKEN"),
        other => panic!("unexpected {:?}", other),
    }
}

#[test]
fn unusable_variable_keeps_its_reason() {
    let reason = "environment variable was not valid unicode: \"\\xFF\"".to_string();
    match read_env("X", Err(EnvVarCause::Invalid(reason.clone()))) {
        Err(Error::Env(m)) => assert_eq!(m, reason),
        other => panic!("unexpected {:?}", other),
    }
}
