//! The typed events that the engine publishes to every connected observer,
//! and their wire encoding.
//!
//! An event goes out as a JSON object `{"type": ..., "content": ...}`; text
//! carried inside a string literal is escaped the usual JSON way (quote,
//! backslash, and control characters). Timestamps are absolute milliseconds
//! on the engine clock, so that latency never corrupts a client countdown.

use vstd::prelude::*;
use vstd::string::StrSliceExecFns;
use vstd::string::StringExecFns;

use crate::text::dec_str;
use crate::text::push_char;
use crate::text::u64_string;

verus! {

/// One event delivered to observers; exactly one case per message.
pub enum ServerMessage {
    /// Free-form chat line.
    ChatMessage(String),
    /// A round is running: the scrambled word and the absolute finish time.
    OngoingRoundInfo { word_to_guess: String, round_finish_time: u64 },
    /// Marks the round boundary for client state reset.
    FinishedGame,
    /// Reveals the answer once a round is over.
    FinishedRoundInfo { word_answer: String, to_next_round_time: u64 },
}

/// The hexadecimal digit character for a value below sixteen.
pub open spec fn hex_digit(d: nat) -> char {
    if d < 10 {
        crate::text::dec_digit(d)
    } else if d == 10 {
        'a'
    } else if d == 11 {
        'b'
    } else if d == 12 {
        'c'
    } else if d == 13 {
        'd'
    } else if d == 14 {
        'e'
    } else {
        'f'
    }
}

/// The JSON escape of one character inside a string literal.
pub open spec fn esc_char(c: char) -> Seq<char> {
    if c == '"' {
        seq!['\\', '"']
    } else if c == '\\' {
        seq!['\\', '\\']
    } else if c == '\u{8}' {
        seq!['\\', 'b']
    } else if c == '\u{c}' {
        seq!['\\', 'f']
    } else if c == '\n' {
        seq!['\\', 'n']
    } else if c == '\r' {
        seq!['\\', 'r']
    } else if c == '\t' {
        seq!['\\', 't']
    } else if (c as u32) < 32 {
        seq!['\\', 'u', '0', '0', hex_digit(((c as u32) / 16) as nat), hex_digit(
            ((c as u32) % 16) as nat,
        )]
    } else {
        seq![c]
    }
}

/// The JSON escape of a whole string.
pub open spec fn esc(s: Seq<char>) -> Seq<char>
    decreases s.len(),
{
    if s.len() == 0 {
        Seq::empty()
    } else {
        esc_char(s[0]) + esc(s.drop_first())
    }
}

pub proof fn lemma_esc_push(s: Seq<char>, c: char)
    ensures
        esc(s.push(c)) == esc(s) + esc_char(c),
    decreases s.len(),
{
    if s.len() == 0 {
        assert(esc(Seq::<char>::empty()) =~= Seq::<char>::empty());
        assert(s =~= Seq::<char>::empty());
        assert(s.push(c).drop_first() =~= Seq::<char>::empty());
        assert(esc(s.push(c)) == esc_char(c) + esc(Seq::<char>::empty()));
        assert(esc(s.push(c)) =~= esc(s) + esc_char(c));
    } else {
        lemma_esc_push(s.drop_first(), c);
        assert(s.push(c).drop_first() =~= s.drop_first().push(c));
        assert(s.push(c)[0] == s[0]);
        assert(esc(s.push(c)) == esc_char(s[0]) + esc(s.drop_first().push(c)));
        assert(esc(s) == esc_char(s[0]) + esc(s.drop_first()));
        assert(esc(s.push(c)) =~= esc(s) + esc_char(c));
    }
}

/// The encoding of a chat event carrying the given text.
pub open spec fn chat_json(text: Seq<char>) -> Seq<char> {
    "{\"type\":\"ChatMessage\",\"content\":\""@ + esc(text) + "\"}"@
}

/// The encoding of the "round is running" event.
pub open spec fn ongoing_json(word: Seq<char>, finish_time: nat) -> Seq<char> {
    "{\"type\":\"OngoingRoundInfo\",\"content\":{\"word_to_guess\":\""@ + esc(word)
        + "\",\"round_finish_time\":"@ + dec_str(finish_time) + "}}"@
}

/// The encoding of the round-boundary event.
pub open spec fn finish_json() -> Seq<char> {
    "{\"type\":\"FinishedGame\"}"@
}

/// The encoding of the answer-reveal event.
pub open spec fn next_json(answer: Seq<char>, next_time: nat) -> Seq<char> {
    "{\"type\":\"FinishedRoundInfo\",\"content\":{\"word_answer\":\""@ + esc(answer)
        + "\",\"to_next_round_time\":"@ + dec_str(next_time) + "}}"@
}

/// The encoding of any event.
pub open spec fn encoded(m: ServerMessage) -> Seq<char> {
    match m {
        ServerMessage::ChatMessage(text) => chat_json(text@),
        ServerMessage::OngoingRoundInfo { word_to_guess, round_finish_time } => ongoing_json(
            word_to_guess@,
            round_finish_time as nat,
        ),
        ServerMessage::FinishedGame => finish_json(),
        ServerMessage::FinishedRoundInfo { word_answer, to_next_round_time } => next_json(
            word_answer@,
            to_next_round_time as nat,
        ),
    }
}

fn hex_digit_exec(d: u32) -> (c: char)
    requires
        d < 16,
    ensures
        c == hex_digit(d as nat),
{
    if d == 0 {
        '0'
    } else if d == 1 {
        '1'
    } else if d == 2 {
        '2'
    } else if d == 3 {
        '3'
    } else if d == 4 {
        '4'
    } else if d == 5 {
        '5'
    } else if d == 6 {
        '6'
    } else if d == 7 {
        '7'
    } else if d == 8 {
        '8'
    } else if d == 9 {
        '9'
    } else if d == 10 {
        'a'
    } else if d == 11 {
        'b'
    } else if d == 12 {
        'c'
    } else if d == 13 {
        'd'
    } else if d == 14 {
        'e'
    } else {
        'f'
    }
}

fn push_escaped(s: &mut String, c: char)
    ensures
        final(s)@ == old(s)@ + esc_char(c),
{
    if c == '"' {
        push_char(s, '\\');
        push_char(s, '"');
        proof {
            assert(s@ =~= old(s)@ + esc_char(c));
        }
    } else if c == '\\' {
        push_char(s, '\\');
        push_char(s, '\\');
        proof {
            assert(s@ =~= old(s)@ + esc_char(c));
        }
    } else if c == '\u{8}' {
        push_char(s, '\\');
        push_char(s, 'b');
        proof {
            assert(s@ =~= old(s)@ + esc_char(c));
        }
    } else if c == '\u{c}' {
        push_char(s, '\\');
        push_char(s, 'f');
        proof {
            assert(s@ =~= old(s)@ + esc_char(c));
        }
    } else if c == '\n' {
        push_char(s, '\\');
        push_char(s, 'n');
        proof {
            assert(s@ =~= old(s)@ + esc_char(c));
        }
    } else if c == '\r' {
        push_char(s, '\\');
        push_char(s, 'r');
        proof {
            assert(s@ =~= old(s)@ + esc_char(c));
        }
    } else if c == '\t' {
        push_char(s, '\\');
        push_char(s, 't');
        proof {
            assert(s@ =~= old(s)@ + esc_char(c));
        }
    } else if (c as u32) < 32 {
        let u: u32 = c as u32;
        push_char(s, '\\');
        push_char(s, 'u');
        push_char(s, '0');
        push_char(s, '0');
        push_char(s, hex_digit_exec(u / 16));
        push_char(s, hex_digit_exec(u % 16));
        proof {
            assert(s@ =~= old(s)@ + esc_char(c));
        }
    } else {
        push_char(s, c);
        proof {
            assert(s@ =~= old(s)@ + esc_char(c));
        }
    }
}

/// Appends the JSON escape of `t` to `s`.
fn append_escaped(s: &mut String, t: &str)
    ensures
        final(s)@ == old(s)@ + esc(t@),
{
    let n: usize = t.unicode_len();
    let mut i: usize = 0;
    while i < n
        invariant
            i <= n,
            n == t@.len(),
            s@ == old(s)@ + esc(t@.take(i as int)),
        decreases n - i,
    {
        push_escaped(s, t.get_char(i));
        proof {
            assert(t@.take(i as int + 1) =~= t@.take(i as int).push(t@[i as int]));
            lemma_esc_push(t@.take(i as int), t@[i as int]);
            assert(s@ =~= old(s)@ + esc(t@.take(i as int + 1)));
        }
        i = i + 1;
    }
    proof {
        assert(t@.take(n as int) =~= t@);
    }
}

impl ServerMessage {
    /// The wire form of this event.
    pub fn encode(&self) -> (r: String)
        ensures
            r@ == encoded(*self),
    {
        match self {
            ServerMessage::ChatMessage(text) => {
                let mut s = String::from_str("{\"type\":\"ChatMessage\",\"content\":\"");
                append_escaped(&mut s, text.as_str());
                s.append("\"}");
                proof {
                    assert(s@ =~= encoded(*self));
                }
                s
            },
            ServerMessage::OngoingRoundInfo { word_to_guess, round_finish_time } => {
                let mut s = String::from_str(
                    "{\"type\":\"OngoingRoundInfo\",\"content\":{\"word_to_guess\":\"",
                );
                append_escaped(&mut s, word_to_guess.as_str());
                s.append("\",\"round_finish_time\":");
                let num = u64_string(*round_finish_time);
                s.append(num.as_str());
                s.append("}}");
                proof {
                    assert(s@ =~= encoded(*self));
                }
                s
            },
            ServerMessage::FinishedGame => {
                let s = String::from_str("{\"type\":\"FinishedGame\"}");
                s
            },
            ServerMessage::FinishedRoundInfo { word_answer, to_next_round_time } => {
                let mut s = String::from_str(
                    "{\"type\":\"FinishedRoundInfo\",\"content\":{\"word_answer\":\"",
                );
                append_escaped(&mut s, word_answer.as_str());
                s.append("\",\"to_next_round_time\":");
                let num = u64_string(*to_next_round_time);
                s.append(num.as_str());
                s.append("}}");
                proof {
                    assert(s@ =~= encoded(*self));
                }
                s
            },
        }
    }
}

} // verus!
