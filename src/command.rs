use vstd::prelude::*;

verus! {

/// A control-plane command emitted by a transport.
#[derive(Debug, Clone)]
pub enum Command {
    Start,
    AddTorrent { url: String },
}

/// The mathematical value of a `Command`.
pub enum CommandView {
    Start,
    AddTorrent { url: Seq<char> },
}

impl View for Command {
    type V = CommandView;

    open spec fn view(&self) -> CommandView {
        match self {
            Command::Start => CommandView::Start,
            Command::AddTorrent { url } => CommandView::AddTorrent { url: url@ },
        }
    }
}

impl PartialEq for Command {
    fn eq(&self, other: &Command) -> (r: bool)
        ensures
            r == (self@ == other@),
    {
        match (self, other) {
            (Command::Start, Command::Start) => true,
            (Command::AddTorrent { url: a }, Command::AddTorrent { url: b }) => a.eq(b),
            _ => false,
        }
    }
}

impl vstd::std_specs::cmp::PartialEqSpecImpl for Command {
    open spec fn obeys_eq_spec() -> bool {
        true
    }

    open spec fn eq_spec(&self, other: &Command) -> bool {
        self@ == other@
    }
}

impl Eq for Command {}

/// The text that asks for `c`: its keyword, then its argument after one space.
pub open spec fn encode_spec(c: CommandView) -> Seq<char> {
    match c {
        CommandView::Start => "/start"@,
        CommandView::AddTorrent { url } => "/add "@ + url,
    }
}

impl Command {
    /// The text form of this command.
    pub fn to_text(&self) -> (r: String)
        ensures
            r@ == encode_spec(self@),
    {
        match self {
            Command::Start => String::from_str("/start"),
            Command::AddTorrent { url } => {
                let mut s = String::from_str("/add ");
                s.append(url.as_str());
                s
            },
        }
    }
}

/// What one line of text asks for: a command for the pipeline, or an
/// identity query that is answered out of band.
#[derive(Debug, Clone)]
pub enum ParsedCommand {
    App(Command),
    WhoAmI,
}

pub enum ParsedView {
    App(CommandView),
    WhoAmI,
}

impl View for ParsedCommand {
    type V = ParsedView;

    open spec fn view(&self) -> ParsedView {
        match self {
            ParsedCommand::App(c) => ParsedView::App(c@),
            ParsedCommand::WhoAmI => ParsedView::WhoAmI,
        }
    }
}

impl PartialEq for ParsedCommand {
    fn eq(&self, other: &ParsedCommand) -> (r: bool)
        ensures
            r == (self@ == other@),
    {
        match (self, other) {
            (ParsedCommand::App(a), ParsedCommand::App(b)) => a.eq(b),
            (ParsedCommand::WhoAmI, ParsedCommand::WhoAmI) => true,
            _ => false,
        }
    }
}

impl vstd::std_specs::cmp::PartialEqSpecImpl for ParsedCommand {
    open spec fn obeys_eq_spec() -> bool {
        true
    }

    open spec fn eq_spec(&self, other: &ParsedCommand) -> bool {
        self@ == other@
    }
}

impl Eq for ParsedCommand {}

/// The view of an optional parse result.
pub open spec fn parsed_view(p: Option<ParsedCommand>) -> Option<ParsedView> {
    match p {
        Some(c) => Some(c@),
        None => None,
    }
}

} // verus!
