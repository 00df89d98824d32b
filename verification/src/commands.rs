//! The command layer's decisions: recognizing a `/`-prefixed command,
//! parsing the `/start` duration argument, and the replies to `/score`
//! and `/help`.
//!
//! The dispatch table itself (which callback runs for which prefix) and
//! the delivery of the replies live outside the library; everything here
//! is a pure decision on the message text and the engine state.

use vstd::prelude::*;
use vstd::string::StringExecFns;

use crate::anagram::start_transition;
use crate::anagram::Anagram;
use crate::anagram::StartOutcome;
use crate::score::total_of;
use crate::score::ScoreLedger;
use crate::server_message::chat_json;
use crate::server_message::ServerMessage;
use crate::text::all_digits;
use crate::text::chars_vec;
use crate::text::copy_range;
use crate::text::dec_str;
use crate::text::dec_val;
use crate::text::find_token_end;
use crate::text::find_ws_end;
use crate::text::parse_u32;
use crate::text::string_of_chars;
use crate::text::token_end;
use crate::text::ws_end;

verus! {

/// The first whitespace-separated token of a message.
pub open spec fn first_token(s: Seq<char>) -> Seq<char> {
    s.subrange(ws_end(s, 0), token_end(s, ws_end(s, 0)))
}

/// The second whitespace-separated token of a message, if any.
pub open spec fn second_token(s: Seq<char>) -> Option<Seq<char>> {
    let e1 = token_end(s, ws_end(s, 0));
    let a2 = ws_end(s, e1);
    if a2 < s.len() {
        Some(s.subrange(a2, token_end(s, a2)))
    } else {
        None
    }
}

/// Whether a message is a command for one of the given prefixes: it
/// starts with `/` and its first token is one of them.
pub fn is_valid_command(commands: &Vec<String>, message: &str) -> (r: bool)
    ensures
        r == (message@.len() > 0 && message@[0] == '/' && (exists|i: int|
            0 <= i < commands@.len() && commands@[i]@ == first_token(message@))),
{
    let chars = chars_vec(message);
    if chars.len() == 0 {
        return false;
    }
    let head: char = chars[0];
    if head != '/' {
        return false;
    }
    let a: usize = find_ws_end(&chars, 0);
    let e: usize = find_token_end(&chars, a);
    let token_chars = copy_range(&chars, a, e);
    let token: String = string_of_chars(&token_chars);
    let mut i: usize = 0;
    while i < commands.len()
        invariant
            i <= commands@.len(),
            message@.len() > 0,
            message@[0] == '/',
            token@ == first_token(message@),
            forall|k: int| 0 <= k < i ==> commands@[k]@ != first_token(message@),
        decreases commands@.len() - i,
    {
        if commands[i].eq(&token) {
            proof {
                assert(commands@[i as int]@ == first_token(message@));
            }
            return true;
        }
        i = i + 1;
    }
    false
}

/// What the duration argument of a `/start` message parses to: the given
/// default when there is no second token, its value when the second token
/// is a number a `u32` can hold, and the offending token otherwise.
pub enum ParsedDuration {
    Value(u32),
    Bad(Seq<char>),
}

/// The parse of a `/start` message's duration argument.
pub open spec fn parsed_duration(s: Seq<char>, default: u32) -> ParsedDuration {
    match second_token(s) {
        Option::None => ParsedDuration::Value(default),
        Option::Some(tok) => if tok.len() > 0 && all_digits(tok) && dec_val(tok) <= u32::MAX {
            ParsedDuration::Value(dec_val(tok) as u32)
        } else {
            ParsedDuration::Bad(tok)
        },
    }
}

/// The chat line rejecting a duration argument that is not a number.
pub open spec fn parse_fail_text(author: Seq<char>, token: Seq<char>) -> Seq<char> {
    "@"@ + author + ": Failed to parse \""@ + token + "\" as integer."@
}

/// The reply to `/score`.
pub open spec fn score_text(author: Seq<char>, score: u32) -> Seq<char> {
    "@"@ + author + ": Your score is "@ + dec_str(score as nat) + "."@
}

/// The reply to `/help`.
pub open spec fn help_text(author: Seq<char>) -> Seq<char> {
    "@"@ + author
        + ": \nCommands:\n\n- /help\nSends this message.\n- /start (timeout_seconds, defaults to 30s)\nStarts an anagram game.\n- /score\nShows your score (currently arbitrary).\n"@
}

fn make_parse_fail(author: &str, token: &str) -> (r: String)
    ensures
        r@ == chat_json(parse_fail_text(author@, token@)),
{
    let mut t = String::from_str("@");
    t.append(author);
    t.append(": Failed to parse \"");
    t.append(token);
    t.append("\" as integer.");
    proof {
        assert(t@ =~= parse_fail_text(author@, token@));
    }
    ServerMessage::ChatMessage(t).encode()
}

/// The reply to a `/score` command: a chat line naming the author's
/// current total, zero included.
pub fn handle_score(ledger: &ScoreLedger, author: &str) -> (r: String)
    ensures
        r@ == chat_json(score_text(author@, total_of(ledger@, author@))),
{
    let score: u32 = ledger.get(author);
    let mut t = String::from_str("@");
    t.append(author);
    t.append(": Your score is ");
    let num = crate::text::u64_string(score as u64);
    t.append(num.as_str());
    t.append(".");
    proof {
        assert(t@ =~= score_text(author@, score));
    }
    ServerMessage::ChatMessage(t).encode()
}

/// The reply to a `/help` command: a chat line listing the commands.
pub fn handle_help(author: &str) -> (r: String)
    ensures
        r@ == chat_json(help_text(author@)),
{
    let mut t = String::from_str("@");
    t.append(author);
    t.append(
        ": \nCommands:\n\n- /help\nSends this message.\n- /start (timeout_seconds, defaults to 30s)\nStarts an anagram game.\n- /score\nShows your score (currently arbitrary).\n",
    );
    proof {
        assert(t@ =~= help_text(author@));
    }
    ServerMessage::ChatMessage(t).encode()
}

/// A `/start` command against the engine, at instant `now`.
///
/// Parses the optional duration argument (defaulting to thirty seconds);
/// a malformed argument is softly rejected with a chat line naming the
/// offending token and the engine is left untouched; otherwise the round
/// engine's `start` runs with the parsed duration.
pub fn handle_start(anagram: &mut Anagram, author: &str, message: &str, now: u64) -> (r:
    StartOutcome)
    requires
        old(anagram).words@.len() > 0,
        old(anagram).round_counter < u64::MAX,
        now + u32::MAX as u64 * 1000 <= u64::MAX,
    ensures
        match parsed_duration(message@, 30u32) {
            ParsedDuration::Value(d) => start_transition(*old(anagram), *final(anagram), d, now, r),
            ParsedDuration::Bad(tok) => {
                &&& *final(anagram) == *old(anagram)
                &&& !r.started
                &&& r.deadline is None
                &&& r.messages@.len() == 1
                &&& r.messages@[0]@ == chat_json(parse_fail_text(author@, tok))
            },
        },
{
    let chars = chars_vec(message);
    let a1: usize = find_ws_end(&chars, 0);
    let e1: usize = find_token_end(&chars, a1);
    let a2: usize = find_ws_end(&chars, e1);
    if a2 >= chars.len() {
        return anagram.start(30, now);
    }
    let e2: usize = find_token_end(&chars, a2);
    let token_chars = copy_range(&chars, a2, e2);
    match parse_u32(&token_chars) {
        Option::Some(duration) => anagram.start(duration, now),
        Option::None => {
            let token: String = string_of_chars(&token_chars);
            let mut messages: Vec<String> = Vec::new();
            messages.push(make_parse_fail(author, token.as_str()));
            StartOutcome { started: false, messages, deadline: None }
        },
    }
}

} // verus!
