use vstd::prelude::*;
use crate::command::{Command, CommandView, ParsedCommand, ParsedView};
use crate::parse::{parse_spec, parse_text_command};

verus! {

/// What a transport does with one incoming message.
#[derive(Debug)]
pub enum MessageAction {
    /// Send this command down the channel.
    Enqueue(Command),
    /// Answer the identity query out of band with the sender's id.
    ReplyUserId(u64),
    /// Nothing: the message is not a command.
    Ignore,
}

pub enum MessageActionView {
    Enqueue(CommandView),
    ReplyUserId(u64),
    Ignore,
}

impl View for MessageAction {
    type V = MessageActionView;

    open spec fn view(&self) -> MessageActionView {
        match self {
            MessageAction::Enqueue(c) => MessageActionView::Enqueue(c@),
            MessageAction::ReplyUserId(id) => MessageActionView::ReplyUserId(*id),
            MessageAction::Ignore => MessageActionView::Ignore,
        }
    }
}

/// What a message with text `text` from the user `sender` calls for: a parsed
/// command is enqueued, an identity query is answered when the sender is
/// known, and everything else, including a message without text, is ignored.
pub open spec fn message_action_spec(text: Option<Seq<char>>, sender: Option<u64>) -> MessageActionView {
    match text {
        None => MessageActionView::Ignore,
        Some(t) => match parse_spec(t) {
            Some(ParsedView::App(c)) => MessageActionView::Enqueue(c),
            Some(ParsedView::WhoAmI) => match sender {
                Some(id) => MessageActionView::ReplyUserId(id),
                None => MessageActionView::Ignore,
            },
            None => MessageActionView::Ignore,
        },
    }
}

/// Decides what to do with one incoming message.
pub fn message_action(text: Option<&str>, sender: Option<u64>) -> (r: MessageAction)
    ensures
        r@ == message_action_spec(
            match text {
                Some(t) => Some(t@),
                None => None,
            },
            sender,
        ),
{
    match text {
        None => MessageAction::Ignore,
        Some(t) => match parse_text_command(t) {
            Some(ParsedCommand::App(c)) => MessageAction::Enqueue(c),
            Some(ParsedCommand::WhoAmI) => match sender {
                Some(id) => MessageAction::ReplyUserId(id),
                None => MessageAction::Ignore,
            },
            None => MessageAction::Ignore,
        },
    }
}

} // verus!
