//! The round engine: a single round slot, the start/guess/timeout
//! transitions, and the word scrambler.
//!
//! The caller serializes `start`, `guess` and `timeout` under exclusive
//! access, publishes the messages each returns, and arms the deadline task
//! a successful `start` asks for. A deadline task hands the generation it
//! was armed with back to `timeout`, which re-checks that the same round is
//! still running before finalizing anything, so a stale deadline can never
//! end a newer round and a finalized round is never announced twice.

use vstd::hash_set::StringHashSet;
use vstd::pervasive::VecAdditionalExecFns;
use vstd::prelude::*;
use vstd::string::StringExecFns;

use crate::score::credited;
use crate::score::sat_add;
use crate::score::total_of;
use crate::score::ScoreLedger;
use crate::server_message::chat_json;
use crate::server_message::finish_json;
use crate::server_message::next_json;
use crate::server_message::ongoing_json;
use crate::server_message::ServerMessage;
use crate::text::chars_eq_str;
use crate::text::chars_vec;
use crate::text::dec_str;
use crate::text::lower_of;
use crate::text::lowercase;
use crate::text::string_of_chars;
use crate::text::u64_string;

verus! {

/// One candidate from the word pool: the word and the points it is worth.
pub struct DatamuseRes {
    pub word: String,
    pub score: u32,
}

impl DatamuseRes {
    pub fn new(word: String, score: u32) -> (r: DatamuseRes)
        ensures
            r.word == word,
            r.score == score,
    {
        DatamuseRes { word, score }
    }
}

/// The immutable description of an active round. Timestamps are absolute
/// milliseconds on the engine clock; `generation` identifies this round
/// instance, so a deadline armed for it can never touch a later round.
pub struct RoundInfo {
    pub answer: String,
    pub shuffled: String,
    pub score: u32,
    pub ends_at: u64,
    pub starts_at: u64,
    pub generation: u64,
}

/// The single process-wide round slot.
pub enum RoundStatus {
    Idle,
    Ongoing(RoundInfo),
}

/// The round engine: the word pool, the connected players, the single
/// round slot, the score ledger, and the generation counter that ties each
/// armed deadline to the round it was armed for.
pub struct Anagram {
    pub words: Vec<DatamuseRes>,
    pub players: StringHashSet,
    pub round_status: RoundStatus,
    pub player_to_points: ScoreLedger,
    pub round_counter: u64,
}

/// Whether the characters hold two different values somewhere: the words
/// for which a differing permutation exists at all.
pub open spec fn two_distinct(s: Seq<char>) -> bool {
    exists|i: int, j: int| 0 <= i < s.len() && 0 <= j < s.len() && s[i] != s[j]
}

/// Relies on rand's `Rng::gen_range` over `0..n`: the sample lies below
/// `n`; the range must be nonempty.
#[verifier::external_body]
fn random_below(n: usize) -> (r: usize)
    requires
        n > 0,
    ensures
        r < n,
{
    rand::Rng::gen_range(&mut rand::thread_rng(), 0..n)
}

/// Relies on rand's `SliceRandom::shuffle`: an in-place Fisher-Yates pass
/// built from swaps alone, so the result is a permutation of the input.
#[verifier::external_body]
fn shuffle_chars(v: &mut Vec<char>)
    ensures
        final(v)@.to_multiset() == old(v)@.to_multiset(),
        final(v)@.len() == old(v)@.len(),
{
    rand::seq::SliceRandom::shuffle(v.as_mut_slice(), &mut rand::thread_rng())
}

proof fn lemma_swap_keeps_multiset(s: Seq<char>, j: int)
    requires
        0 < j < s.len(),
    ensures
        s.update(0, s[j]).update(j, s[0]).to_multiset() == s.to_multiset(),
{
    broadcast use vstd::seq_lib::group_to_multiset_ensures;
    broadcast use vstd::multiset::group_multiset_axioms;

    let a = s[0];
    let b = s[j];
    let u1 = s.update(0, b);
    let u2 = u1.update(j, a);
    assert(u1 =~= s.remove(0).insert(0, b));
    vstd::seq_lib::to_multiset_remove(s, 0);
    vstd::seq_lib::to_multiset_insert(s.remove(0), 0, b);
    assert(u1.to_multiset() == s.to_multiset().remove(a).insert(b));
    assert(u2 =~= u1.remove(j).insert(j, a));
    vstd::seq_lib::to_multiset_remove(u1, j);
    vstd::seq_lib::to_multiset_insert(u1.remove(j), j, a);
    assert(u1[j] == b);
    assert(u2.to_multiset() == u1.to_multiset().remove(b).insert(a));
    assert(s.contains(a));
    assert(s.to_multiset().count(a) > 0);
    assert(u2.to_multiset() =~= s.to_multiset());
}

/// Whole seconds between two instants on the engine clock, zero when the
/// first does not lie after the second.
pub open spec fn secs_between(later: u64, earlier: u64) -> nat {
    if later >= earlier {
        (((later - earlier) as nat) / 1000) as nat
    } else {
        0
    }
}

/// The chat line published when a round starts.
pub open spec fn started_text() -> Seq<char> {
    "Game started!"@
}

/// The chat line published when a start is rejected because a round is
/// already running, naming the remaining whole seconds.
pub open spec fn reject_text(secs: nat) -> Seq<char> {
    "Please wait until the current game ends. Time left: "@ + dec_str(secs) + "s."@
}

/// The chat line congratulating the winning player.
pub open spec fn congrats_text(player: Seq<char>, secs: nat, total: u32, reward: u32) -> Seq<
    char,
> {
    "@"@ + player + ": You guessed it in "@ + dec_str(secs) + "s! Your score: "@ + dec_str(
        total as nat,
    ) + " (+"@ + dec_str(reward as nat) + ")."@
}

/// The chat line revealing the answer after a winning guess.
pub open spec fn reveal_text(answer: Seq<char>) -> Seq<char> {
    "Answer was \""@ + answer + ".\""@
}

/// The chat line published when a round times out with no winner.
pub open spec fn timeout_text(answer: Seq<char>) -> Seq<char> {
    "No one has guessed the answer. Answer: "@ + answer + "."@
}

/// Whether a guess wins against the round slot: some round is running and
/// the text equals its answer after case folding.
pub open spec fn guess_matches(st: RoundStatus, text: Seq<char>) -> bool {
    match st {
        RoundStatus::Ongoing(info) => lower_of(text) == lower_of(info.answer@),
        RoundStatus::Idle => false,
    }
}

/// The round slot after a guess: a winning guess finalizes the round,
/// anything else leaves the slot alone.
pub open spec fn round_after_guess(st: RoundStatus, text: Seq<char>) -> RoundStatus {
    if guess_matches(st, text) {
        RoundStatus::Idle
    } else {
        st
    }
}

/// The ledger after a guess: only a winning guess credits, and it credits
/// the guessing player with the running round's reward.
pub open spec fn points_after_guess(
    st: RoundStatus,
    m: Map<Seq<char>, u32>,
    player: Seq<char>,
    text: Seq<char>,
) -> Map<Seq<char>, u32> {
    match st {
        RoundStatus::Ongoing(info) => if lower_of(text) == lower_of(info.answer@) {
            credited(m, player, info.score)
        } else {
            m
        },
        RoundStatus::Idle => m,
    }
}

/// Whether a deadline fire is still relevant: the slot holds a round of
/// the very generation the deadline was armed for.
pub open spec fn timeout_fires(st: RoundStatus, generation: u64) -> bool {
    match st {
        RoundStatus::Ongoing(info) => info.generation == generation,
        RoundStatus::Idle => false,
    }
}

/// The round slot after a deadline fire: a relevant fire finalizes the
/// round, a stale one changes nothing.
pub open spec fn round_after_timeout(st: RoundStatus, generation: u64) -> RoundStatus {
    if timeout_fires(st, generation) {
        RoundStatus::Idle
    } else {
        st
    }
}

/// What a guess came to: it won the running round, it missed, or there was
/// no round to win. The caller echoes the guess text as ordinary chat (and
/// may acknowledge it) only when the guess did not win.
#[derive(PartialEq, Eq, Structural, Debug, Clone, Copy)]
pub enum GuessReply {
    Correct,
    Incorrect,
    NoActiveRound,
}

/// The reply a guess earns against the round slot.
pub open spec fn reply_for(st: RoundStatus, text: Seq<char>) -> GuessReply {
    match st {
        RoundStatus::Idle => GuessReply::NoActiveRound,
        RoundStatus::Ongoing(info) => if lower_of(text) == lower_of(info.answer@) {
            GuessReply::Correct
        } else {
            GuessReply::Incorrect
        },
    }
}

/// What `guess` reports: the reply, and the events to publish.
pub struct GuessOutcome {
    pub reply: GuessReply,
    pub messages: Vec<String>,
}

/// A deadline to arm: fire at `at` for the round of this `generation`.
pub struct DeadlineArm {
    pub at: u64,
    pub generation: u64,
}

/// What `start` reports: whether a round began, the events to publish, and
/// the deadline to arm for the new round.
pub struct StartOutcome {
    pub started: bool,
    pub messages: Vec<String>,
    pub deadline: Option<DeadlineArm>,
}

/// What `timeout` reports: whether the deadline was still relevant, and
/// the events to publish.
pub struct TimeoutOutcome {
    pub fired: bool,
    pub messages: Vec<String>,
}

/// Everything `start` promises: how the post-state and the outcome relate
/// to the pre-state for a start of `duration` seconds at instant `now`.
pub open spec fn start_transition(
    pre: Anagram,
    post: Anagram,
    duration: u32,
    now: u64,
    r: StartOutcome,
) -> bool {
    &&& post.words == pre.words
    &&& post.players == pre.players
    &&& post.player_to_points == pre.player_to_points
    &&& r.started == (pre.round_status is Idle)
    &&& (pre.round_status is Ongoing ==> {
        &&& post == pre
        &&& r.deadline is None
        &&& r.messages@.len() == 1
        &&& match pre.round_status {
            RoundStatus::Ongoing(info) => r.messages@[0]@ == chat_json(
                reject_text(secs_between(info.ends_at, now)),
            ),
            RoundStatus::Idle => false,
        }
    })
    &&& (pre.round_status is Idle ==> {
        &&& post.round_counter == pre.round_counter + 1
        &&& match post.round_status {
            RoundStatus::Ongoing(info) => {
                &&& (exists|i: int|
                    0 <= i < pre.words@.len() && info.answer == pre.words@[i].word && info.score
                        == pre.words@[i].score)
                &&& info.shuffled@.to_multiset() == info.answer@.to_multiset()
                &&& info.shuffled@.len() == info.answer@.len()
                &&& info.answer@.len() > 3 && two_distinct(info.answer@) ==> info.shuffled@
                    != info.answer@
                &&& info.starts_at == now
                &&& info.ends_at == now + duration as u64 * 1000
                &&& info.generation == pre.round_counter + 1
                &&& r.messages@.len() == 2
                &&& r.messages@[0]@ == chat_json(started_text())
                &&& r.messages@[1]@ == ongoing_json(info.shuffled@, info.ends_at as nat)
                &&& r.deadline == Some(
                    DeadlineArm { at: info.ends_at, generation: info.generation },
                )
            },
            RoundStatus::Idle => false,
        }
    })
}

fn make_started() -> (r: String)
    ensures
        r@ == chat_json(started_text()),
{
    let t = String::from_str("Game started!");
    ServerMessage::ChatMessage(t).encode()
}

fn make_reject(secs: u64) -> (r: String)
    ensures
        r@ == chat_json(reject_text(secs as nat)),
{
    let mut t = String::from_str("Please wait until the current game ends. Time left: ");
    let num = u64_string(secs);
    t.append(num.as_str());
    t.append("s.");
    proof {
        assert(t@ =~= reject_text(secs as nat));
    }
    ServerMessage::ChatMessage(t).encode()
}

fn make_congrats(player: &str, secs: u64, total: u32, reward: u32) -> (r: String)
    ensures
        r@ == chat_json(congrats_text(player@, secs as nat, total, reward)),
{
    let mut t = String::from_str("@");
    t.append(player);
    t.append(": You guessed it in ");
    let n1 = u64_string(secs);
    t.append(n1.as_str());
    t.append("s! Your score: ");
    let n2 = u64_string(total as u64);
    t.append(n2.as_str());
    t.append(" (+");
    let n3 = u64_string(reward as u64);
    t.append(n3.as_str());
    t.append(").");
    proof {
        assert(t@ =~= congrats_text(player@, secs as nat, total, reward));
    }
    ServerMessage::ChatMessage(t).encode()
}

fn make_reveal(answer: &str) -> (r: String)
    ensures
        r@ == chat_json(reveal_text(answer@)),
{
    let mut t = String::from_str("Answer was \"");
    t.append(answer);
    t.append(".\"");
    proof {
        assert(t@ =~= reveal_text(answer@));
    }
    ServerMessage::ChatMessage(t).encode()
}

fn make_timeout_chat(answer: &str) -> (r: String)
    ensures
        r@ == chat_json(timeout_text(answer@)),
{
    let mut t = String::from_str("No one has guessed the answer. Answer: ");
    t.append(answer);
    t.append(".");
    proof {
        assert(t@ =~= timeout_text(answer@));
    }
    ServerMessage::ChatMessage(t).encode()
}

impl Anagram {
    /// Scrambles a word: permutes its letters, retrying a bounded number of
    /// times so that, whenever the word is longer than three letters and a
    /// differing permutation exists, the result differs from the word; if
    /// the random passes keep returning the word itself, two differing
    /// letters are swapped outright. Words of three letters or fewer accept
    /// any permutation, the identity included.
    pub fn shuffle_word(word: &str) -> (r: String)
        ensures
            r@.to_multiset() == word@.to_multiset(),
            r@.len() == word@.len(),
            word@.len() > 3 && two_distinct(word@) ==> r@ != word@,
    {
        let mut chars = chars_vec(word);
        let n: usize = chars.len();
        if n <= 3 {
            shuffle_chars(&mut chars);
            return string_of_chars(&chars);
        }
        let mut tries: usize = 0;
        while tries < 16
            invariant
                n == word@.len(),
                n > 3,
                chars@.to_multiset() == word@.to_multiset(),
                chars@.len() == word@.len(),
                tries > 0 ==> chars@ == word@,
            decreases 16 - tries,
        {
            shuffle_chars(&mut chars);
            if !chars_eq_str(&chars, word) {
                return string_of_chars(&chars);
            }
            tries = tries + 1;
        }
        // Every pass returned the word itself; force a difference if one
        // is possible at all.
        let c0: char = chars[0];
        let mut j: usize = 1;
        while j < n && chars[j] == c0
            invariant
                1 <= j <= n,
                n == chars@.len(),
                forall|k: int| 0 <= k < j ==> #[trigger] chars@[k] == chars@[0],
                c0 == chars@[0],
            decreases n - j,
        {
            j = j + 1;
        }
        if j == n {
            proof {
                assert(forall|k: int| 0 <= k < chars@.len() ==> #[trigger] chars@[k] == chars@[0]);
                assert(!two_distinct(word@));
            }
            return string_of_chars(&chars);
        }
        let cj: char = chars[j];
        proof {
            lemma_swap_keeps_multiset(chars@, j as int);
        }
        let ghost pre = chars@;
        chars.set(0, cj);
        chars.set(j, c0);
        proof {
            assert(chars@ =~= pre.update(0, cj).update(j as int, c0));
            assert(chars@[0] == cj);
            assert(cj != c0);
            assert(chars@ != word@);
        }
        string_of_chars(&chars)
    }

    /// A fresh engine: empty pool, no players, no round, empty ledger.
    pub fn new() -> (r: Anagram)
        ensures
            r.words@.len() == 0,
            r.players@ == Set::<Seq<char>>::empty(),
            r.round_status is Idle,
            r.player_to_points@ == Map::<Seq<char>, u32>::empty(),
            r.round_counter == 0,
    {
        Anagram {
            words: Vec::new(),
            players: StringHashSet::new(),
            round_status: RoundStatus::Idle,
            player_to_points: ScoreLedger::new(),
            round_counter: 0,
        }
    }

    /// Installs the candidate pool handed over by the word provider.
    pub fn populate_words(&mut self, words: Vec<DatamuseRes>)
        ensures
            final(self).words == words,
            final(self).players == old(self).players,
            final(self).round_status == old(self).round_status,
            final(self).player_to_points == old(self).player_to_points,
            final(self).round_counter == old(self).round_counter,
    {
        self.words = words;
    }

    /// Registers a player name; reports false when the name is taken.
    pub fn insert_player(&mut self, name: &str) -> (r: bool)
        ensures
            r == !old(self).players@.contains(name@),
            final(self).players@ == old(self).players@.insert(name@),
            final(self).words == old(self).words,
            final(self).round_status == old(self).round_status,
            final(self).player_to_points == old(self).player_to_points,
            final(self).round_counter == old(self).round_counter,
    {
        if self.players.contains(name) {
            proof {
                assert(old(self).players@.insert(name@) =~= old(self).players@);
            }
            return false;
        }
        let newly_added: bool = self.players.insert(name.to_owned());
        proof {
            assert(newly_added);
        }
        true
    }

    /// Unregisters a player name.
    pub fn remove_player(&mut self, name: &str)
        ensures
            final(self).players@ == old(self).players@.remove(name@),
            final(self).words == old(self).words,
            final(self).round_status == old(self).round_status,
            final(self).player_to_points == old(self).player_to_points,
            final(self).round_counter == old(self).round_counter,
    {
        let _was_present: bool = self.players.remove(name);
    }

    /// A guess by a player, at instant `now` on the engine clock.
    ///
    /// Case-insensitively compares the text against the running round's
    /// answer. A winning guess credits the round's reward to the player,
    /// finalizes the round, and returns the congratulation, the answer
    /// reveal, and the round-boundary event to publish; the caller then
    /// best-effort-cancels the armed deadline. A miss, or a guess against
    /// an idle slot, changes nothing; the reply tells the two apart.
    pub fn guess(&mut self, player: &str, text: &str, now: u64) -> (r: GuessOutcome)
        ensures
            final(self).words == old(self).words,
            final(self).players == old(self).players,
            final(self).round_counter == old(self).round_counter,
            final(self).round_status == round_after_guess(old(self).round_status, text@),
            final(self).player_to_points@ == points_after_guess(
                old(self).round_status,
                old(self).player_to_points@,
                player@,
                text@,
            ),
            r.reply == reply_for(old(self).round_status, text@),
            r.reply != GuessReply::Correct ==> r.messages@.len() == 0,
            r.reply == GuessReply::Correct ==> match old(self).round_status {
                RoundStatus::Ongoing(info) => {
                    let total = sat_add(total_of(old(self).player_to_points@, player@), info.score);
                    &&& r.messages@.len() == 3
                    &&& r.messages@[0]@ == chat_json(
                        congrats_text(player@, secs_between(now, info.starts_at), total, info.score),
                    )
                    &&& r.messages@[1]@ == chat_json(reveal_text(info.answer@))
                    &&& r.messages@[2]@ == finish_json()
                },
                RoundStatus::Idle => false,
            },
    {
        let (answer, reward, starts_at) = match &self.round_status {
            RoundStatus::Idle => {
                return GuessOutcome { reply: GuessReply::NoActiveRound, messages: Vec::new() };
            },
            RoundStatus::Ongoing(info) => {
                let folded_guess = lowercase(text);
                let folded_answer = lowercase(info.answer.as_str());
                if !folded_guess.eq(&folded_answer) {
                    return GuessOutcome { reply: GuessReply::Incorrect, messages: Vec::new() };
                }
                (info.answer.clone(), info.score, info.starts_at)
            },
        };
        self.player_to_points.credit(player, reward);
        let total: u32 = self.player_to_points.get(player);
        self.round_status = RoundStatus::Idle;
        let elapsed_ms: u64 = if now >= starts_at {
            now - starts_at
        } else {
            0
        };
        let mut messages: Vec<String> = Vec::new();
        messages.push(make_congrats(player, elapsed_ms / 1000, total, reward));
        messages.push(make_reveal(answer.as_str()));
        messages.push(ServerMessage::FinishedGame.encode());
        GuessOutcome { reply: GuessReply::Correct, messages }
    }

    /// Starts a round of `duration` seconds at instant `now`.
    ///
    /// While a round is ongoing the call is a soft rejection: nothing
    /// changes and the only event is a chat line naming the remaining
    /// time. Otherwise one candidate is drawn from the pool, its word is
    /// scrambled, the slot transitions to ongoing, and the caller is asked
    /// to publish the two start events and to arm the returned deadline.
    pub fn start(&mut self, duration: u32, now: u64) -> (r: StartOutcome)
        requires
            old(self).words@.len() > 0,
            old(self).round_counter < u64::MAX,
            now + duration as u64 * 1000 <= u64::MAX,
        ensures
            start_transition(*old(self), *final(self), duration, now, r),
    {
        match &self.round_status {
            RoundStatus::Ongoing(info) => {
                let remaining_ms: u64 = if info.ends_at >= now {
                    info.ends_at - now
                } else {
                    0
                };
                let mut messages: Vec<String> = Vec::new();
                messages.push(make_reject(remaining_ms / 1000));
                return StartOutcome { started: false, messages, deadline: None };
            },
            RoundStatus::Idle => {},
        }
        let idx: usize = random_below(self.words.len());
        let answer: String = self.words[idx].word.clone();
        let reward: u32 = self.words[idx].score;
        let shuffled: String = Anagram::shuffle_word(answer.as_str());
        let ends_at: u64 = now + (duration as u64) * 1000;
        let generation: u64 = self.round_counter + 1;
        self.round_counter = generation;
        let mut messages: Vec<String> = Vec::new();
        messages.push(make_started());
        let ongoing = ServerMessage::OngoingRoundInfo {
            word_to_guess: shuffled.clone(),
            round_finish_time: ends_at,
        };
        messages.push(ongoing.encode());
        self.round_status = RoundStatus::Ongoing(
            RoundInfo { answer, shuffled, score: reward, ends_at, starts_at: now, generation },
        );
        StartOutcome {
            started: true,
            messages,
            deadline: Some(DeadlineArm { at: ends_at, generation }),
        }
    }

    /// A deadline fire for the round of the given generation.
    ///
    /// Re-checks, under the same exclusive access as `start` and `guess`,
    /// that the slot still holds the very round the deadline was armed
    /// for. Only then does it finalize the round and return the
    /// round-boundary event, the answer reveal, and a chat line to
    /// publish; a stale fire changes nothing and publishes nothing, so a
    /// missed best-effort cancellation is harmless.
    pub fn timeout(&mut self, generation: u64) -> (r: TimeoutOutcome)
        ensures
            final(self).words == old(self).words,
            final(self).players == old(self).players,
            final(self).player_to_points == old(self).player_to_points,
            final(self).round_counter == old(self).round_counter,
            final(self).round_status == round_after_timeout(old(self).round_status, generation),
            r.fired == timeout_fires(old(self).round_status, generation),
            !r.fired ==> *final(self) == *old(self) && r.messages@.len() == 0,
            r.fired ==> match old(self).round_status {
                RoundStatus::Ongoing(info) => {
                    &&& r.messages@.len() == 3
                    &&& r.messages@[0]@ == finish_json()
                    &&& r.messages@[1]@ == next_json(info.answer@, info.ends_at as nat)
                    &&& r.messages@[2]@ == chat_json(timeout_text(info.answer@))
                },
                RoundStatus::Idle => false,
            },
    {
        let (answer, ends_at) = match &self.round_status {
            RoundStatus::Idle => {
                return TimeoutOutcome { fired: false, messages: Vec::new() };
            },
            RoundStatus::Ongoing(info) => {
                if info.generation != generation {
                    return TimeoutOutcome { fired: false, messages: Vec::new() };
                }
                (info.answer.clone(), info.ends_at)
            },
        };
        self.round_status = RoundStatus::Idle;
        let mut messages: Vec<String> = Vec::new();
        messages.push(ServerMessage::FinishedGame.encode());
        let reveal = ServerMessage::FinishedRoundInfo {
            word_answer: answer.clone(),
            to_next_round_time: ends_at,
        };
        messages.push(reveal.encode());
        messages.push(make_timeout_chat(answer.as_str()));
        TimeoutOutcome { fired: true, messages }
    }
}

/// One serialized transition of the round slot: exclusive access orders
/// every `start`, `guess` and deadline fire into such a sequence. A start
/// event carries the round it would install, a guess event the folded
/// text, a fire event the generation it was armed for.
pub enum RoundEvent {
    StartRound(RoundInfo),
    GuessWord(Seq<char>),
    TimeoutFire(u64),
}

/// The round slot after one serialized event.
pub open spec fn round_after_event(st: RoundStatus, ev: RoundEvent) -> RoundStatus {
    match ev {
        RoundEvent::StartRound(info) => if st is Ongoing {
            st
        } else {
            RoundStatus::Ongoing(info)
        },
        RoundEvent::GuessWord(text) => round_after_guess(st, text),
        RoundEvent::TimeoutFire(generation) => round_after_timeout(st, generation),
    }
}

/// The round slot after a whole sequence of serialized events.
pub open spec fn round_after_events(st: RoundStatus, evs: Seq<RoundEvent>) -> RoundStatus
    decreases evs.len(),
{
    if evs.len() == 0 {
        st
    } else {
        round_after_events(round_after_event(st, evs[0]), evs.drop_first())
    }
}

/// How many rounds a slot holds: never more than one.
pub open spec fn ongoing_count(st: RoundStatus) -> nat {
    match st {
        RoundStatus::Idle => 0,
        RoundStatus::Ongoing(info) => 1,
    }
}

/// At most one ongoing round, at every observed instant: under the
/// serialization that exclusive access imposes, each instant observes the
/// state after some prefix of start/guess/fire events, and every such
/// state holds at most one ongoing round -- a start that observes an
/// ongoing round never installs a second one.
pub proof fn lemma_at_most_one_ongoing(st: RoundStatus, evs: Seq<RoundEvent>)
    ensures
        ongoing_count(round_after_events(st, evs)) <= 1,
    decreases evs.len(),
{
    if evs.len() > 0 {
        lemma_at_most_one_ongoing(round_after_event(st, evs[0]), evs.drop_first());
    }
}

/// Every transition that `start`'s contract allows is one `StartRound`
/// event of the trace model, so the at-most-one-ongoing invariant covers
/// every state the engine can reach through `start`; `guess` and `timeout`
/// are events of the model by their contracts directly.
pub proof fn lemma_start_is_one_event(
    pre: Anagram,
    post: Anagram,
    duration: u32,
    now: u64,
    r: StartOutcome,
)
    requires
        start_transition(pre, post, duration, now, r),
    ensures
        exists|info: RoundInfo|
            post.round_status == round_after_event(
                pre.round_status,
                RoundEvent::StartRound(info),
            ),
{
    match post.round_status {
        RoundStatus::Ongoing(info) => {
            assert(post.round_status == round_after_event(
                pre.round_status,
                RoundEvent::StartRound(info),
            ));
        },
        RoundStatus::Idle => {
            assert(false);
        },
    }
}

/// `start` is idempotent while a round is ongoing: any sequence of further
/// start events, whatever rounds they would install, leaves the active
/// round -- its answer, shuffled form and deadline -- unchanged.
pub proof fn lemma_start_idempotent_while_ongoing(st: RoundStatus, starts: Seq<RoundInfo>)
    requires
        st is Ongoing,
    ensures
        round_after_events(
            st,
            starts.map_values(|info: RoundInfo| RoundEvent::StartRound(info)),
        ) == st,
    decreases starts.len(),
{
    let evs = starts.map_values(|info: RoundInfo| RoundEvent::StartRound(info));
    if starts.len() > 0 {
        lemma_start_idempotent_while_ongoing(st, starts.drop_first());
        assert(evs.drop_first() =~= starts.drop_first().map_values(
            |info: RoundInfo| RoundEvent::StartRound(info),
        ));
        assert(round_after_event(st, evs[0]) == st);
    }
}

/// Exactly-once crediting: when two winning guesses for the same round are
/// serialized, the first finalizes the round and is credited the reward;
/// the second then observes an idle slot, wins nothing, and changes
/// neither the slot nor the ledger.
pub proof fn lemma_exactly_once_crediting(
    st: RoundStatus,
    points: Map<Seq<char>, u32>,
    p1: Seq<char>,
    t1: Seq<char>,
    p2: Seq<char>,
    t2: Seq<char>,
)
    requires
        guess_matches(st, t1),
    ensures
        ({
            let st1 = round_after_guess(st, t1);
            let m1 = points_after_guess(st, points, p1, t1);
            let st2 = round_after_guess(st1, t2);
            let m2 = points_after_guess(st1, m1, p2, t2);
            &&& st1 is Idle
            &&& !guess_matches(st1, t2)
            &&& st2 is Idle
            &&& match st {
                RoundStatus::Ongoing(info) => m1 == credited(points, p1, info.score),
                RoundStatus::Idle => false,
            }
            &&& m2 == m1
            &&& p2 != p1 ==> total_of(m2, p2) == total_of(points, p2)
        }),
{
}

/// No duplicate termination: once a winning guess has finalized a round,
/// the deadline armed for that round is stale -- it does not fire, does
/// not transition the slot, and (by the contract of `timeout`) publishes
/// nothing.
pub proof fn lemma_no_duplicate_termination(st: RoundStatus, text: Seq<char>, generation: u64)
    requires
        guess_matches(st, text),
    ensures
        !timeout_fires(round_after_guess(st, text), generation),
        round_after_timeout(round_after_guess(st, text), generation) == round_after_guess(
            st,
            text,
        ),
{
}

} // verus!
