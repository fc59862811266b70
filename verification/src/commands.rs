//! Chat commands addressed to the bot.
use vstd::prelude::*;

use crate::models::{parse_language, BookLanguage, CommandKind};
use crate::text::{
    chars_eq, chars_of, concat, has_prefix, split_whitespace, starts_with, string_of,
    strip_prefix, strip_prefix_seq, trim, trim_seq, views, words,
};

verus! {

broadcast use vstd::string::group_string_axioms;

/// A message the bot understood.
#[derive(Debug, Clone, PartialEq, Eq)]
pub enum ParsedCommand {
    Init(BookLanguage),
    UnsupportedInitLanguage(String),
    Status,
    Authoring(String),
}

/// The mathematical form of a parsed command.
pub enum ParsedCommandView {
    Init(BookLanguage),
    UnsupportedInitLanguage(Seq<char>),
    Status,
    Authoring(Seq<char>),
}

impl View for ParsedCommand {
    type V = ParsedCommandView;

    open spec fn view(&self) -> ParsedCommandView {
        match self {
            ParsedCommand::Init(l) => ParsedCommandView::Init(*l),
            ParsedCommand::UnsupportedInitLanguage(s) => ParsedCommandView::UnsupportedInitLanguage(
                s@,
            ),
            ParsedCommand::Status => ParsedCommandView::Status,
            ParsedCommand::Authoring(s) => ParsedCommandView::Authoring(s@),
        }
    }
}

/// The view of an optional parsed command.
pub open spec fn command_view(c: Option<ParsedCommand>) -> Option<ParsedCommandView> {
    match c {
        Some(c) => Some(c@),
        None => None,
    }
}

/// `s` with every leading copy of the non-empty pattern `p` removed (`str::trim_start_matches`).
pub open spec fn trim_start_matches_seq(s: Seq<char>, p: Seq<char>) -> Seq<char>
    decreases s.len(),
{
    if p.len() > 0 && has_prefix(s, p) {
        trim_start_matches_seq(s.skip(p.len() as int), p)
    } else {
        s
    }
}

/// The text after a leading bot address (`@bot`, `/bookbot` or `/bot`), trimmed; the whole
/// trimmed text when it carries no address.
pub open spec fn command_body(text: Seq<char>, bot_name: Seq<char>) -> Seq<char> {
    let trimmed = trim_seq(text);
    match strip_prefix_seq(trimmed, seq!['@'] + bot_name) {
        Some(rest) => trim_seq(rest),
        None => match strip_prefix_seq(trimmed, "/bookbot"@) {
            Some(rest) => trim_seq(rest),
            None => match strip_prefix_seq(trimmed, seq!['/'] + bot_name) {
                Some(rest) => trim_seq(rest),
                None => trimmed,
            },
        },
    }
}

/// What a message means to the bot.
pub open spec fn parse_command_spec(text: Seq<char>, mentions_bot: bool, bot_name: Seq<char>) -> Option<
    ParsedCommandView,
> {
    if !mentions_bot {
        None
    } else {
        let body = command_body(text, bot_name);
        let parts = words(body);
        if parts.len() == 0 {
            None
        } else if parts[0] == "init"@ {
            if parts.len() > 2 {
                Some(
                    ParsedCommandView::UnsupportedInitLanguage(
                        trim_seq(trim_start_matches_seq(body, "init"@)),
                    ),
                )
            } else if parts.len() == 1 {
                Some(ParsedCommandView::Init(BookLanguage::English))
            } else {
                match parse_language(parts[1]) {
                    Some(l) => Some(ParsedCommandView::Init(l)),
                    None => Some(ParsedCommandView::UnsupportedInitLanguage(parts[1])),
                }
            }
        } else if parts[0] == "status"@ && parts.len() == 1 {
            Some(ParsedCommandView::Status)
        } else {
            Some(ParsedCommandView::Authoring(body))
        }
    }
}

/// The kind of job a command starts.
pub open spec fn command_kind(c: ParsedCommandView) -> CommandKind {
    match c {
        ParsedCommandView::Init(_) | ParsedCommandView::UnsupportedInitLanguage(_) => CommandKind::Init,
        ParsedCommandView::Status => CommandKind::Status,
        ParsedCommandView::Authoring(_) => CommandKind::Authoring,
    }
}

fn trim_start_matches(s: &[char], p: &[char]) -> (r: Vec<char>)
    requires
        p.len() > 0,
    ensures
        r@ == trim_start_matches_seq(s@, p@),
{
    let mut cur: Vec<char> = slice_all(s);
    while starts_with(cur.as_slice(), p)
        invariant
            p.len() > 0,
            trim_start_matches_seq(s@, p@) == trim_start_matches_seq(cur@, p@),
        decreases cur.len(),
    {
        let next = match strip_prefix(cur.as_slice(), p) {
            Some(v) => v,
            None => cur,
        };
        cur = next;
    }
    cur
}

fn slice_all(s: &[char]) -> (r: Vec<char>)
    ensures
        r@ == s@,
{
    let r = crate::text::slice_range(s, 0, s.len());
    assert(s@.subrange(0, s@.len() as int) =~= s@);
    r
}

fn command_body_of(text: &str, bot_name: &str) -> (r: Vec<char>)
    ensures
        r@ == command_body(text@, bot_name@),
{
    let tv = chars_of(text);
    let trimmed = trim(tv.as_slice());
    let bot = chars_of(bot_name);
    let at = concat(&['@'], bot.as_slice());
    let slash = concat(&['/'], bot.as_slice());
    let bookbot = chars_of("/bookbot");
    assert((&['@'])@ == seq!['@']);
    assert((&['/'])@ == seq!['/']);
    match strip_prefix(trimmed.as_slice(), at.as_slice()) {
        Some(rest) => trim(rest.as_slice()),
        None => match strip_prefix(trimmed.as_slice(), bookbot.as_slice()) {
            Some(rest) => trim(rest.as_slice()),
            None => match strip_prefix(trimmed.as_slice(), slash.as_slice()) {
                Some(rest) => trim(rest.as_slice()),
                None => trimmed,
            },
        },
    }
}

/// Reads a chat message as a bot command, if it is one.
///
/// A message that does not mention the bot is never a command. After the bot address is
/// removed, `init` with at most one argument selects the book language (English by
/// default), `status` alone asks for status, and any other text is an authoring request.
pub fn parse_command(text: &str, mentions_bot: bool, bot_name: &str) -> (r: Option<ParsedCommand>)
    ensures
        command_view(r) == parse_command_spec(text@, mentions_bot, bot_name@),
{
    if !mentions_bot {
        return None;
    }
    let body = command_body_of(text, bot_name);
    let parts = split_whitespace(body.as_slice());
    assert(views(parts@).len() == parts@.len());
    if parts.len() == 0 {
        return None;
    }
    let init = chars_of("init");
    let status = chars_of("status");
    assert(views(parts@)[0] == parts@[0]@);
    if chars_eq(parts[0].as_slice(), init.as_slice()) {
        if parts.len() > 2 {
            proof {
                reveal_strlit("init");
            }
            let rest = trim_start_matches(body.as_slice(), init.as_slice());
            let t = trim(rest.as_slice());
            return Some(ParsedCommand::UnsupportedInitLanguage(string_of(t.as_slice())));
        }
        if parts.len() == 1 {
            return Some(ParsedCommand::Init(BookLanguage::English));
        }
        assert(views(parts@)[1] == parts@[1]@);
        let value = string_of(parts[1].as_slice());
        match BookLanguage::parse(value.as_str()) {
            Some(l) => Some(ParsedCommand::Init(l)),
            None => Some(ParsedCommand::UnsupportedInitLanguage(value)),
        }
    } else if chars_eq(parts[0].as_slice(), status.as_slice()) && parts.len() == 1 {
        Some(ParsedCommand::Status)
    } else {
        Some(ParsedCommand::Authoring(string_of(body.as_slice())))
    }
}

impl ParsedCommand {
    /// The kind of job the command starts.
    pub fn kind(&self) -> (r: CommandKind)
        ensures
            r == command_kind(self@),
    {
        match self {
            ParsedCommand::Init(_) | ParsedCommand::UnsupportedInitLanguage(_) => CommandKind::Init,
            ParsedCommand::Status => CommandKind::Status,
            ParsedCommand::Authoring(_) => CommandKind::Authoring,
        }
    }
}

/// A message that does not mention the bot is never read as a command.
pub proof fn law_unaddressed_messages_are_ignored(text: Seq<char>, bot_name: Seq<char>)
    ensures
        parse_command_spec(text, false, bot_name) is None,
{
}

/// An authoring request carries the whole message body after the bot address, and the body
/// is never empty.
pub proof fn law_authoring_keeps_body(text: Seq<char>, bot_name: Seq<char>)
    ensures
        parse_command_spec(text, true, bot_name) matches Some(ParsedCommandView::Authoring(b))
            ==> b == command_body(text, bot_name) && words(b).len() > 0,
{
}

/// The address a message opens with is taken off its body: the bot's `@` name first; else
/// the generic `/bookbot`, whatever the bot is called; else the bot's `/` name; the rest,
/// trimmed, is the body, and a message with none of them is its own body, trimmed. So
/// `/bookbot init` asks for an English workspace under every bot name.
pub proof fn law_generic_address_is_stripped(text: Seq<char>, bot_name: Seq<char>)
    ensures
        has_prefix(trim_seq(text), "/bookbot"@) ==> command_body(text, bot_name) == trim_seq(
            trim_seq(text).skip(8),
        ),
        has_prefix(trim_seq(text), seq!['@'] + bot_name) ==> command_body(text, bot_name)
            == trim_seq(trim_seq(text).skip(bot_name.len() as int + 1)),
        has_prefix(trim_seq(text), seq!['/'] + bot_name) && !has_prefix(trim_seq(text), "/bookbot"@)
            ==> command_body(text, bot_name) == trim_seq(trim_seq(text).skip(bot_name.len() as int + 1)),
        !has_prefix(trim_seq(text), seq!['@'] + bot_name) && !has_prefix(trim_seq(text), "/bookbot"@)
            && !has_prefix(trim_seq(text), seq!['/'] + bot_name) ==> command_body(text, bot_name)
            == trim_seq(text),
        parse_command_spec("/bookbot init"@, true, bot_name) == Some(
            ParsedCommandView::Init(BookLanguage::English),
        ),
{
    reveal_strlit("/bookbot");
    reveal_strlit("/bookbot init");
    reveal_strlit("init");
    let t = trim_seq(text);
    if has_prefix(t, "/bookbot"@) {
        assert(t.take(8)[0] == t[0]);
        assert(t[0] == '/');
        assert((seq!['@'] + bot_name)[0] == '@');
        assert(strip_prefix_seq(t, seq!['@'] + bot_name) is None);
    }
    let g = "/bookbot init"@;
    let gt = trim_seq(g);
    assert(crate::text::trim_start_seq(g) == g);
    assert(g.last() == 't');
    assert(crate::text::trim_end_seq(g) == g);
    assert(gt == g);
    assert(g.take(8) =~= "/bookbot"@);
    assert(strip_prefix_seq(gt, seq!['@'] + bot_name) is None) by {
        assert((seq!['@'] + bot_name)[0] == '@');
    }
    let rest = g.skip(8);
    assert(rest[0] == ' ');
    assert(rest.drop_first() =~= "init"@);
    assert(crate::text::trim_start_seq(rest.drop_first()) == "init"@);
    assert(crate::text::trim_start_seq(rest) == "init"@);
    assert(crate::text::trim_end_seq("init"@) == "init"@);
    let body = command_body(g, bot_name);
    assert(body == "init"@);
    reveal_with_fuel(words, 5);
    assert("init"@.drop_last() =~= seq!['i', 'n', 'i']);
    assert(seq!['i', 'n', 'i'].drop_last() =~= seq!['i', 'n']);
    assert(seq!['i', 'n'].drop_last() =~= seq!['i']);
    assert(seq!['i'].drop_last() =~= Seq::<char>::empty());
    assert(words(seq!['i']) =~= seq![seq!['i']]);
    assert(!crate::text::is_ws('i') && !crate::text::is_ws('n') && !crate::text::is_ws('t'));
    assert(seq!['i'].push('n') =~= seq!['i', 'n']);
    assert(words(seq!['i', 'n']) =~~= seq![seq!['i', 'n']]);
    assert(seq!['i', 'n'].push('i') =~= seq!['i', 'n', 'i']);
    assert(words(seq!['i', 'n', 'i']) =~~= seq![seq!['i', 'n', 'i']]);
    assert(seq!['i', 'n', 'i'].push('t') =~= "init"@);
    assert(words("init"@) =~~= seq!["init"@]);
}

} // verus!
