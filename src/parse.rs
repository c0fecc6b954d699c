use vstd::prelude::*;
use crate::command::{Command, CommandView, ParsedCommand, ParsedView, encode_spec, parsed_view};

verus! {

/// Unicode's White_Space property, the separator between tokens.
pub open spec fn is_ws(c: char) -> bool {
    let u = c as u32;
    (0x9 <= u && u <= 0xd) || u == 0x20 || u == 0x85 || u == 0xa0 || u == 0x1680 || (0x2000
        <= u && u <= 0x200a) || u == 0x2028 || u == 0x2029 || u == 0x202f || u == 0x205f || u
        == 0x3000
}

/// The first position at or after `i` that does not hold whitespace.
pub open spec fn skip_ws(s: Seq<char>, i: int) -> int
    decreases s.len() - i,
{
    if 0 <= i < s.len() && is_ws(s[i]) {
        skip_ws(s, i + 1)
    } else {
        i
    }
}

/// The first position at or after `i` that holds whitespace, or the end.
pub open spec fn token_end(s: Seq<char>, i: int) -> int
    decreases s.len() - i,
{
    if 0 <= i < s.len() && !is_ws(s[i]) {
        token_end(s, i + 1)
    } else {
        i
    }
}

/// The start of the first token at or after `i`.
pub open spec fn token_start(s: Seq<char>, i: int) -> int {
    skip_ws(s, i)
}

/// The first token of `s` at or after position `i` (empty if none is left).
pub open spec fn token_at(s: Seq<char>, i: int) -> Seq<char> {
    s.subrange(token_start(s, i), token_end(s, token_start(s, i)))
}

/// Where the token found at or after `i` ends.
pub open spec fn after_token(s: Seq<char>, i: int) -> int {
    token_end(s, token_start(s, i))
}

/// What a line of text means: its first whitespace-delimited token picks the
/// keyword, exactly and case-sensitively; `/add` takes the next token as its URL.
pub open spec fn parse_spec(s: Seq<char>) -> Option<ParsedView> {
    let first = token_at(s, 0);
    if first.len() == 0 {
        None
    } else if first == "/start"@ {
        Some(ParsedView::App(CommandView::Start))
    } else if first == "/add"@ {
        let url = token_at(s, after_token(s, 0));
        if url.len() == 0 {
            None
        } else {
            Some(ParsedView::App(CommandView::AddTorrent { url }))
        }
    } else if first == "/whoami"@ {
        Some(ParsedView::WhoAmI)
    } else {
        None
    }
}

proof fn lemma_skip_ws_run(s: Seq<char>, i: int, j: int)
    requires
        0 <= i <= j <= s.len(),
        forall|k: int| i <= k < j ==> is_ws(s[k]),
        j == s.len() || !is_ws(s[j]),
    ensures
        skip_ws(s, i) == j,
    decreases j - i,
{
    if i < j {
        lemma_skip_ws_run(s, i + 1, j);
    }
}

proof fn lemma_token_end_run(s: Seq<char>, i: int, j: int)
    requires
        0 <= i <= j <= s.len(),
        forall|k: int| i <= k < j ==> !is_ws(s[k]),
        j == s.len() || is_ws(s[j]),
    ensures
        token_end(s, i) == j,
    decreases j - i,
{
    if i < j {
        lemma_token_end_run(s, i + 1, j);
    }
}

/// A URL that the text form carries unchanged: present and free of whitespace.
pub open spec fn is_plain_token(t: Seq<char>) -> bool {
    t.len() > 0 && forall|k: int| 0 <= k < t.len() ==> !is_ws(#[trigger] t[k])
}

/// A command whose text form reads back as the same command.
pub open spec fn encodable(c: CommandView) -> bool {
    match c {
        CommandView::Start => true,
        CommandView::AddTorrent { url } => is_plain_token(url),
    }
}

/// Reading the text form of a command gives back that command, for every
/// command whose URL is a single token.
pub proof fn lemma_round_trip(c: CommandView)
    requires
        encodable(c),
    ensures
        parse_spec(encode_spec(c)) == Some(ParsedView::App(c)),
{
    reveal_strlit("/start");
    reveal_strlit("/add");
    reveal_strlit("/add ");
    reveal_strlit("/whoami");
    match c {
        CommandView::Start => {
            let s = encode_spec(c);
            lemma_skip_ws_run(s, 0, 0);
            lemma_token_end_run(s, 0, 6);
            assert(token_at(s, 0) =~= "/start"@);
        },
        CommandView::AddTorrent { url } => {
            let s = encode_spec(c);
            let n = s.len() as int;
            assert(s[4] == ' ');
            assert forall|k: int| 5 <= k < n implies !is_ws(s[k]) by {
                assert(s[k] == url[k - 5]);
            }
            lemma_skip_ws_run(s, 0, 0);
            lemma_token_end_run(s, 0, 4);
            assert(token_at(s, 0) =~= "/add"@);
            assert(after_token(s, 0) == 4);
            lemma_skip_ws_run(s, 4, 5);
            lemma_token_end_run(s, 5, n);
            assert(token_at(s, 4) =~= url);
        },
    }
}

/// Whether `c` is whitespace.
pub fn is_whitespace(c: char) -> (r: bool)
    ensures
        r == is_ws(c),
{
    let u = c as u32;
    (0x9 <= u && u <= 0xd) || u == 0x20 || u == 0x85 || u == 0xa0 || u == 0x1680 || (0x2000
        <= u && u <= 0x200a) || u == 0x2028 || u == 0x2029 || u == 0x202f || u == 0x205f || u
        == 0x3000
}

fn skip_whitespace(text: &str, from: usize, len: usize) -> (r: usize)
    requires
        len == text@.len(),
        from <= len,
    ensures
        r == skip_ws(text@, from as int),
        from <= r <= len,
{
    let mut i: usize = from;
    while i < len && is_whitespace(text.get_char(i))
        invariant
            len == text@.len(),
            from <= i <= len,
            skip_ws(text@, i as int) == skip_ws(text@, from as int),
        decreases len - i,
    {
        i = i + 1;
    }
    i
}

fn find_token_end(text: &str, from: usize, len: usize) -> (r: usize)
    requires
        len == text@.len(),
        from <= len,
    ensures
        r == token_end(text@, from as int),
        from <= r <= len,
{
    let mut i: usize = from;
    while i < len && !is_whitespace(text.get_char(i))
        invariant
            len == text@.len(),
            from <= i <= len,
            token_end(text@, i as int) == token_end(text@, from as int),
        decreases len - i,
    {
        i = i + 1;
    }
    i
}

/// Whether the characters of `text` in `[start, end)` are exactly `word`.
fn span_is(text: &str, start: usize, end: usize, word: &str) -> (r: bool)
    requires
        start <= end <= text@.len(),
    ensures
        r == (text@.subrange(start as int, end as int) == word@),
{
    let n = word.unicode_len();
    if end - start != n {
        return false;
    }
    let mut k: usize = 0;
    while k < n
        invariant
            start <= end <= text@.len(),
            n == word@.len(),
            end - start == n,
            0 <= k <= n,
            forall|j: int| 0 <= j < k ==> text@[start + j] == word@[j],
        decreases n - k,
    {
        if text.get_char(start + k) != word.get_char(k) {
            assert(text@.subrange(start as int, end as int)[k as int] != word@[k as int]);
            return false;
        }
        k = k + 1;
    }
    assert(text@.subrange(start as int, end as int) =~= word@);
    true
}

/// Reads one line of text as a command.
pub fn parse_text_command(text: &str) -> (r: Option<ParsedCommand>)
    ensures
        parsed_view(r) == parse_spec(text@),
{
    let len = text.unicode_len();
    let start = skip_whitespace(text, 0, len);
    let end = find_token_end(text, start, len);
    if start == end {
        return None;
    }
    if span_is(text, start, end, "/start") {
        Some(ParsedCommand::App(Command::Start))
    } else if span_is(text, start, end, "/add") {
        let url_start = skip_whitespace(text, end, len);
        let url_end = find_token_end(text, url_start, len);
        if url_start == url_end {
            None
        } else {
            let url = String::from_str(text.substring_char(url_start, url_end));
            Some(ParsedCommand::App(Command::AddTorrent { url }))
        }
    } else if span_is(text, start, end, "/whoami") {
        Some(ParsedCommand::WhoAmI)
    } else {
        None
    }
}

} // verus!
