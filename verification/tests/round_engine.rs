use wordgames::anagram::Anagram;
use wordgames::anagram::DatamuseRes;
use wordgames::anagram::GuessReply;
use wordgames::anagram::RoundStatus;

fn engine_with(pool: Vec<(&str, u32)>) -> Anagram {
    let mut a = Anagram::new();
    let words: Vec<DatamuseRes> = pool
        .into_iter()
        .map(|(w, s)| DatamuseRes::new(String::from(w), s))
        .collect();
    a.populate_words(words);
    a
}

fn sorted_chars(s: &str) -> Vec<char> {
    let mut v: Vec<char> = s.chars().collect();
    v.sort();
    v
}

#[test]
fn scenario_a_deadline_fires_with_no_guess() {
    let mut a = engine_with(vec![("apple", 10)]);
    let started = a.start(5, 0);
    assert!(started.started);
    assert_eq!(started.messages.len(), 2);
    assert_eq!(
        started.messages[0],
        "{\"type\":\"ChatMessage\",\"content\":\"Game started!\"}"
    );
    let (answer, shuffled, ends_at, generation) = match &a.round_status {
        RoundStatus::Ongoing(info) => (
            info.answer.clone(),
            info.shuffled.clone(),
            info.ends_at,
            info.generation,
        ),
        RoundStatus::Idle => panic!("round should be ongoing"),
    };
    assert_eq!(answer, "apple");
    assert_eq!(sorted_chars(&shuffled), sorted_chars("apple"));
    assert_ne!(shuffled, "apple");
    assert_eq!(ends_at, 5000);
    let expected_ongoing = format!(
        "{{\"type\":\"OngoingRoundInfo\",\"content\":{{\"word_to_guess\":\"{}\",\"round_finish_time\":5000}}}}",
        shuffled
    );
    assert_eq!(started.messages[1], expected_ongoing);
    let arm = started.deadline.expect("a deadline must be armed");
    assert_eq!(arm.at, 5000);
    assert_eq!(arm.generation, generation);

    let fired = a.timeout(generation);
    assert!(fired.fired);
    assert_eq!(fired.messages.len(), 3);
    assert_eq!(fired.messages[0], "{\"type\":\"FinishedGame\"}");
    assert_eq!(
        fired.messages[1],
        "{\"type\":\"FinishedRoundInfo\",\"content\":{\"word_answer\":\"apple\",\"to_next_round_time\":5000}}"
    );
    assert_eq!(
        fired.messages[2],
        "{\"type\":\"ChatMessage\",\"content\":\"No one has guessed the answer. Answer: apple.\"}"
    );
    assert!(matches!(a.round_status, RoundStatus::Idle));
    assert_eq!(a.player_to_points.get("bob"), 0);
}

#[test]
fn scenario_b_case_insensitive_win() {
    let mut a = engine_with(vec![("apple", 10)]);
    let started = a.start(5, 0);
    let generation = started.deadline.expect("armed").generation;

    let won = a.guess("bob", "APPLE", 2000);
    assert_eq!(won.reply, GuessReply::Correct);
    assert_eq!(a.player_to_points.get("bob"), 10);
    assert_eq!(won.messages.len(), 3);
    assert_eq!(
        won.messages[0],
        "{\"type\":\"ChatMessage\",\"content\":\"@bob: You guessed it in 2s! Your score: 10 (+10).\"}"
    );
    assert_eq!(
        won.messages[1],
        "{\"type\":\"ChatMessage\",\"content\":\"Answer was \\\"apple.\\\"\"}"
    );
    assert_eq!(won.messages[2], "{\"type\":\"FinishedGame\"}");
    assert!(matches!(a.round_status, RoundStatus::Idle));

    // The deadline armed at five seconds still fires in real time, but its
    // round is gone: nothing is published at the five-second mark.
    let stale = a.timeout(generation);
    assert!(!stale.fired);
    assert!(stale.messages.is_empty());
}

#[test]
fn scenario_c_second_start_rejected() {
    let mut a = engine_with(vec![("apple", 10)]);
    let first = a.start(30, 0);
    assert!(first.started);
    let (answer_before, ends_before) = match &a.round_status {
        RoundStatus::Ongoing(info) => (info.answer.clone(), info.ends_at),
        RoundStatus::Idle => panic!("round should be ongoing"),
    };

    let second = a.start(10, 1000);
    assert!(!second.started);
    assert!(second.deadline.is_none());
    assert_eq!(second.messages.len(), 1);
    assert_eq!(
        second.messages[0],
        "{\"type\":\"ChatMessage\",\"content\":\"Please wait until the current game ends. Time left: 29s.\"}"
    );
    match &a.round_status {
        RoundStatus::Ongoing(info) => {
            assert_eq!(info.answer, answer_before);
            assert_eq!(info.ends_at, ends_before);
        }
        RoundStatus::Idle => panic!("round must still be ongoing"),
    }
}

#[test]
fn guess_without_round_is_ignored() {
    let mut a = engine_with(vec![("apple", 10)]);
    let r = a.guess("bob", "apple", 0);
    assert_eq!(r.reply, GuessReply::NoActiveRound);
    assert!(r.messages.is_empty());
    assert_eq!(a.player_to_points.get("bob"), 0);
}

#[test]
fn wrong_guess_changes_nothing() {
    let mut a = engine_with(vec![("apple", 10)]);
    a.start(5, 0);
    let r = a.guess("bob", "pear", 1000);
    assert_eq!(r.reply, GuessReply::Incorrect);
    assert!(r.messages.is_empty());
    assert!(matches!(a.round_status, RoundStatus::Ongoing(_)));
    assert_eq!(a.player_to_points.get("bob"), 0);
}

#[test]
fn second_winning_guess_finds_no_round() {
    let mut a = engine_with(vec![("apple", 10)]);
    a.start(5, 0);
    let first = a.guess("bob", "apple", 1000);
    assert_eq!(first.reply, GuessReply::Correct);
    let second = a.guess("eve", "apple", 1000);
    assert_eq!(second.reply, GuessReply::NoActiveRound);
    assert!(second.messages.is_empty());
    assert_eq!(a.player_to_points.get("bob"), 10);
    assert_eq!(a.player_to_points.get("eve"), 0);
}

#[test]
fn timeout_with_wrong_generation_is_stale() {
    let mut a = engine_with(vec![("apple", 10)]);
    let started = a.start(5, 0);
    let generation = started.deadline.expect("armed").generation;
    let stale = a.timeout(generation + 1);
    assert!(!stale.fired);
    assert!(stale.messages.is_empty());
    assert!(matches!(a.round_status, RoundStatus::Ongoing(_)));
}

#[test]
fn stale_deadline_of_a_finished_round_cannot_touch_the_next() {
    let mut a = engine_with(vec![("apple", 10)]);
    let first = a.start(5, 0);
    let first_generation = first.deadline.expect("armed").generation;
    assert_eq!(a.guess("bob", "apple", 1000).reply, GuessReply::Correct);

    let second = a.start(5, 6000);
    let second_generation = second.deadline.expect("armed").generation;
    assert_ne!(first_generation, second_generation);

    // The first round's deadline fires late (its cancellation raced); the
    // generation re-check keeps it away from the newer round.
    let stale = a.timeout(first_generation);
    assert!(!stale.fired);
    assert!(stale.messages.is_empty());
    assert!(matches!(a.round_status, RoundStatus::Ongoing(_)));

    let live = a.timeout(second_generation);
    assert!(live.fired);
    assert!(matches!(a.round_status, RoundStatus::Idle));
}

#[test]
fn rewards_accumulate_across_rounds() {
    let mut a = engine_with(vec![("apple", 10)]);
    a.start(5, 0);
    assert_eq!(a.guess("bob", "apple", 1000).reply, GuessReply::Correct);
    a.populate_words(vec![DatamuseRes::new(String::from("pear"), 7)]);
    a.start(5, 10_000);
    assert_eq!(a.guess("bob", "pear", 11_000).reply, GuessReply::Correct);
    assert_eq!(a.player_to_points.get("bob"), 17);
}

#[test]
fn scramble_long_word_differs() {
    for _ in 0..50 {
        let shuffled = Anagram::shuffle_word("banana");
        assert_ne!(shuffled, "banana");
        assert_eq!(sorted_chars(&shuffled), sorted_chars("banana"));
    }
}

#[test]
fn scramble_short_word_is_any_permutation() {
    for _ in 0..20 {
        let shuffled = Anagram::shuffle_word("cat");
        assert_eq!(sorted_chars(&shuffled), sorted_chars("cat"));
    }
}

#[test]
fn scramble_uniform_word_stays_itself() {
    let shuffled = Anagram::shuffle_word("aaaa");
    assert_eq!(shuffled, "aaaa");
}

#[test]
fn winner_name_is_escaped_in_the_congratulation() {
    let mut a = engine_with(vec![("apple", 10)]);
    a.start(5, 0);
    let won = a.guess("bo\"b", "apple", 0);
    assert_eq!(won.reply, GuessReply::Correct);
    assert_eq!(
        won.messages[0],
        "{\"type\":\"ChatMessage\",\"content\":\"@bo\\\"b: You guessed it in 0s! Your score: 10 (+10).\"}"
    );
    assert_eq!(a.player_to_points.get("bo\"b"), 10);
}

#[test]
fn player_registry_rejects_taken_names() {
    let mut a = engine_with(vec![("apple", 10)]);
    assert!(a.insert_player("bob"));
    assert!(!a.insert_player("bob"));
    a.remove_player("bob");
    assert!(a.insert_player("bob"));
}
