use routerbot::command::{Command, ParsedCommand};
use routerbot::parse::{is_whitespace, parse_text_command};
use routerbot::source::{message_action, MessageAction};

#[test]
fn parses_start_command() {
    assert!(matches!(
        parse_text_command("/start"),
        Some(ParsedCommand::App(Command::Start))
    ));
}

#[test]
fn parses_add_command() {
    assert!(matches!(
        parse_text_command("/add http://example.com/torrent"),
        Some(ParsedCommand::App(Command::AddTorrent { .. }))
    ));
}

#[test]
fn parses_whoami_command() {
    assert!(matches!(parse_text_command("/whoami"), Some(ParsedCommand::WhoAmI)));
}

#[test]
fn ignores_unknown_command() {
    assert_eq!(parse_text_command("/ping"), None);
}

#[test]
fn add_carries_its_url() {
    assert_eq!(
        parse_text_command("/add http://x/y"),
        Some(ParsedCommand::App(Command::AddTorrent { url: "http://x/y".to_string() }))
    );
}

#[test]
fn add_without_url_is_ignored() {
    assert_eq!(parse_text_command("/add"), None);
    assert_eq!(parse_text_command("/add   "), None);
}

#[test]
fn unknown_and_empty_input_is_ignored() {
    assert_eq!(parse_text_command("/unknown"), None);
    assert_eq!(parse_text_command(""), None);
    assert_eq!(parse_text_command("   \t\n"), None);
    assert_eq!(parse_text_command("hello /start"), None);
}

#[test]
fn keywords_are_case_sensitive() {
    assert_eq!(parse_text_command("/START"), None);
    assert_eq!(parse_text_command("/Add http://x/y"), None);
    assert_eq!(parse_text_command("/WhoAmI"), None);
}

#[test]
fn keyword_must_be_a_whole_token() {
    assert_eq!(parse_text_command("/startnow"), None);
    assert_eq!(parse_text_command("/add_x http://x/y"), None);
}

#[test]
fn extra_whitespace_separates_tokens() {
    assert_eq!(
        parse_text_command("  /start  "),
        Some(ParsedCommand::App(Command::Start))
    );
    assert_eq!(
        parse_text_command("\t/add \t http://x/y   extra"),
        Some(ParsedCommand::App(Command::AddTorrent { url: "http://x/y".to_string() }))
    );
    assert_eq!(
        parse_text_command("/add\u{3000}http://x/y"),
        Some(ParsedCommand::App(Command::AddTorrent { url: "http://x/y".to_string() }))
    );
    assert_eq!(parse_text_command("/start extra words"), Some(ParsedCommand::App(Command::Start)));
}

#[test]
fn non_ascii_url_is_kept_whole() {
    assert_eq!(
        parse_text_command("/add http://ex\u{e9}mple/\u{1f600}"),
        Some(ParsedCommand::App(Command::AddTorrent { url: "http://ex\u{e9}mple/\u{1f600}".to_string() }))
    );
}

#[test]
fn whitespace_matches_std() {
    for c in ['\t', '\n', '\u{b}', '\u{c}', '\r', ' ', '\u{85}', '\u{a0}', '\u{1680}', '\u{2000}',
        '\u{200a}', '\u{2028}', '\u{2029}', '\u{202f}', '\u{205f}', '\u{3000}', 'a', '/', '\u{200b}',
        '\u{180e}', '\u{feff}', '\u{1f600}']
    {
        assert_eq!(is_whitespace(c), c.is_whitespace(), "{:?}", c);
    }
    for u in 0u32..0x4000 {
        if let Some(c) = char::from_u32(u) {
            assert_eq!(is_whitespace(c), c.is_whitespace(), "{:?}", c);
        }
    }
}

#[test]
fn text_form_reads_back() {
    let commands = vec![
        Command::Start,
        Command::AddTorrent { url: "http://x/y".to_string() },
        Command::AddTorrent { url: "magnet:?xt=urn:btih:abc".to_string() },
    ];
    for c in commands {
        let text = c.to_text();
        assert_eq!(parse_text_command(&text), Some(ParsedCommand::App(c)));
    }
}

#[test]
fn text_form_is_exact() {
    assert_eq!(Command::Start.to_text(), "/start");
    assert_eq!(Command::AddTorrent { url: "http://x/y".to_string() }.to_text(), "/add http://x/y");
}

#[test]
fn message_actions() {
    assert!(matches!(
        message_action(Some("/start"), Some(7)),
        MessageAction::Enqueue(Command::Start)
    ));
    assert!(matches!(
        message_action(Some("/add http://x/y"), None),
        MessageAction::Enqueue(Command::AddTorrent { url }) if url == "http://x/y"
    ));
    assert!(matches!(message_action(Some("/whoami"), Some(42)), MessageAction::ReplyUserId(42)));
    assert!(matches!(message_action(Some("/whoami"), None), MessageAction::Ignore));
    assert!(matches!(message_action(Some("/ping"), Some(1)), MessageAction::Ignore));
    assert!(matches!(message_action(None, Some(1)), MessageAction::Ignore));
}
