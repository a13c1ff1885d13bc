use vstd::prelude::*;

verus! {

/// The commands the bot answers.
#[derive(Debug, Clone, Copy, PartialEq, Eq, Structural)]
pub enum RacerCommand {
    Help,
    Start,
}

/// Who sent a command: the Telegram username if there is one, and the
/// full name otherwise shown.
#[derive(Debug, Clone)]
pub struct Sender {
    pub username: Option<String>,
    pub full_name: String,
}

/// How the bot answers a command.
#[derive(Debug, Clone)]
pub enum CommandReply {
    /// The list of commands with their descriptions.
    CommandList,
    /// A greeting with a button that opens the mini app.
    LaunchApp { text: String },
}

/// The label of the button that opens the mini app.
pub const OPEN_APP_LABEL: &'static str = "Open app";

/// Where the mini app lives.
pub const MINI_APP_URL: &'static str = "https://mini-app-purr.vercel.app/";

/// The name the greeting uses: the sender's username, else their full
/// name, and nothing when the sender is unknown.
pub open spec fn display_name(sender: Option<Sender>) -> Seq<char> {
    match sender {
        None => Seq::empty(),
        Some(s) => match s.username {
            Some(u) => u@,
            None => s.full_name@,
        },
    }
}

/// The greeting for `/start`.
pub open spec fn start_text(name: Seq<char>) -> Seq<char> {
    "Hi, @"@ + name + "! This is Purr.fund Mini-app!\n\nClick \"Open app\" below, then earn more Purr Points.\n\nInvite your frens and earn a 15% point cashback through your referral system.\n\nEarn more Points to unlock power\n\nLet's go ⬇️"@
}

/// The reply to a command: the command list for `/help`, the greeting
/// with the mini-app button for `/start`.
pub fn answer(cmd: RacerCommand, sender: Option<Sender>) -> (reply: CommandReply)
    ensures
        cmd is Help ==> reply is CommandList,
        cmd is Start ==> (reply matches CommandReply::LaunchApp { text } && text@ == start_text(display_name(sender))),
{
    match cmd {
        RacerCommand::Help => CommandReply::CommandList,
        RacerCommand::Start => {
            let name = match sender {
                Some(s) => match s.username {
                    Some(u) => u,
                    None => s.full_name,
                },
                None => String::new(),
            };
            let mut text = String::from_str("Hi, @");
            text.append(name.as_str());
            text.append("! This is Purr.fund Mini-app!\n\nClick \"Open app\" below, then earn more Purr Points.\n\nInvite your frens and earn a 15% point cashback through your referral system.\n\nEarn more Points to unlock power\n\nLet's go ⬇️");
            CommandReply::LaunchApp { text }
        },
    }
}

} // verus!
