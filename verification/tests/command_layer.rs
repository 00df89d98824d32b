use wordgames::anagram::Anagram;
use wordgames::anagram::DatamuseRes;
use wordgames::anagram::GuessReply;
use wordgames::anagram::RoundStatus;
use wordgames::commands::handle_help;
use wordgames::commands::handle_score;
use wordgames::commands::handle_start;
use wordgames::commands::is_valid_command;

fn known_commands() -> Vec<String> {
    vec![
        String::from("/start"),
        String::from("/score"),
        String::from("/help"),
    ]
}

fn engine() -> Anagram {
    let mut a = Anagram::new();
    a.populate_words(vec![DatamuseRes::new(String::from("apple"), 10)]);
    a
}

#[test]
fn commands_are_recognized_by_first_token() {
    let cmds = known_commands();
    assert!(is_valid_command(&cmds, "/start 30"));
    assert!(is_valid_command(&cmds, "/score"));
    assert!(is_valid_command(&cmds, "/help extra words"));
    assert!(!is_valid_command(&cmds, "start"));
    assert!(!is_valid_command(&cmds, "/st"));
    assert!(!is_valid_command(&cmds, "/starting"));
    assert!(!is_valid_command(&cmds, ""));
    assert!(!is_valid_command(&cmds, " /start"));
    assert!(is_valid_command(&cmds, "/start\t30"));
}

#[test]
fn start_command_defaults_to_thirty_seconds() {
    let mut a = engine();
    let r = handle_start(&mut a, "bob", "/start", 0);
    assert!(r.started);
    match &a.round_status {
        RoundStatus::Ongoing(info) => assert_eq!(info.ends_at, 30_000),
        RoundStatus::Idle => panic!("round should be ongoing"),
    }
}

#[test]
fn start_command_takes_the_given_duration() {
    let mut a = engine();
    let r = handle_start(&mut a, "bob", "/start 10", 0);
    assert!(r.started);
    match &a.round_status {
        RoundStatus::Ongoing(info) => assert_eq!(info.ends_at, 10_000),
        RoundStatus::Idle => panic!("round should be ongoing"),
    }
}

#[test]
fn start_command_reads_only_the_second_token() {
    let mut a = engine();
    let r = handle_start(&mut a, "bob", "/start   10  20", 0);
    assert!(r.started);
    match &a.round_status {
        RoundStatus::Ongoing(info) => assert_eq!(info.ends_at, 10_000),
        RoundStatus::Idle => panic!("round should be ongoing"),
    }
}

#[test]
fn start_command_rejects_a_malformed_duration() {
    let mut a = engine();
    let r = handle_start(&mut a, "bob", "/start abc", 0);
    assert!(!r.started);
    assert!(r.deadline.is_none());
    assert_eq!(r.messages.len(), 1);
    assert_eq!(
        r.messages[0],
        "{\"type\":\"ChatMessage\",\"content\":\"@bob: Failed to parse \\\"abc\\\" as integer.\"}"
    );
    assert!(matches!(a.round_status, RoundStatus::Idle));
}

#[test]
fn score_reply_names_the_author_and_total() {
    let mut a = engine();
    assert_eq!(
        handle_score(&a.player_to_points, "bob"),
        "{\"type\":\"ChatMessage\",\"content\":\"@bob: Your score is 0.\"}"
    );
    a.start(5, 0);
    assert_eq!(a.guess("bob", "apple", 1000).reply, GuessReply::Correct);
    assert_eq!(
        handle_score(&a.player_to_points, "bob"),
        "{\"type\":\"ChatMessage\",\"content\":\"@bob: Your score is 10.\"}"
    );
}

#[test]
fn help_reply_lists_the_commands() {
    assert_eq!(
        handle_help("bob"),
        "{\"type\":\"ChatMessage\",\"content\":\"@bob: \\nCommands:\\n\\n- /help\\nSends this message.\\n- /start (timeout_seconds, defaults to 30s)\\nStarts an anagram game.\\n- /score\\nShows your score (currently arbitrary).\\n\"}"
    );
}
