use wordgames::server_message::ServerMessage;
use wordgames::text::parse_u32;
use wordgames::text::u64_string;

#[test]
fn chat_message_escapes_quotes_and_backslashes() {
    let m = ServerMessage::ChatMessage(String::from("he said \"hi\" \\ bye"));
    assert_eq!(
        m.encode(),
        "{\"type\":\"ChatMessage\",\"content\":\"he said \\\"hi\\\" \\\\ bye\"}"
    );
}

#[test]
fn chat_message_escapes_control_characters() {
    let m = ServerMessage::ChatMessage(String::from("a\nb\tc\rd\u{8}e\u{c}f\u{1}g"));
    assert_eq!(
        m.encode(),
        "{\"type\":\"ChatMessage\",\"content\":\"a\\nb\\tc\\rd\\be\\ff\\u0001g\"}"
    );
}

#[test]
fn plain_chat_message_is_untouched() {
    let m = ServerMessage::ChatMessage(String::from("Game started!"));
    assert_eq!(
        m.encode(),
        "{\"type\":\"ChatMessage\",\"content\":\"Game started!\"}"
    );
}

#[test]
fn ongoing_round_encoding_is_exact() {
    let m = ServerMessage::OngoingRoundInfo {
        word_to_guess: String::from("pplea"),
        round_finish_time: 1234567890123,
    };
    assert_eq!(
        m.encode(),
        "{\"type\":\"OngoingRoundInfo\",\"content\":{\"word_to_guess\":\"pplea\",\"round_finish_time\":1234567890123}}"
    );
}

#[test]
fn finished_game_encoding_is_exact() {
    assert_eq!(ServerMessage::FinishedGame.encode(), "{\"type\":\"FinishedGame\"}");
}

#[test]
fn finished_round_info_encoding_is_exact() {
    let m = ServerMessage::FinishedRoundInfo {
        word_answer: String::from("apple"),
        to_next_round_time: 0,
    };
    assert_eq!(
        m.encode(),
        "{\"type\":\"FinishedRoundInfo\",\"content\":{\"word_answer\":\"apple\",\"to_next_round_time\":0}}"
    );
}

#[test]
fn non_ascii_text_passes_through_unescaped() {
    let m = ServerMessage::ChatMessage(String::from("café ☕"));
    assert_eq!(
        m.encode(),
        "{\"type\":\"ChatMessage\",\"content\":\"café ☕\"}"
    );
}

#[test]
fn decimal_rendering_is_exact() {
    assert_eq!(u64_string(0), "0");
    assert_eq!(u64_string(7), "7");
    assert_eq!(u64_string(230), "230");
    assert_eq!(u64_string(1000), "1000");
    assert_eq!(u64_string(u64::MAX), "18446744073709551615");
}

#[test]
fn decimal_parsing_accepts_exactly_u32_numbers() {
    assert_eq!(parse_u32(&"30".chars().collect()), Some(30));
    assert_eq!(parse_u32(&"0".chars().collect()), Some(0));
    assert_eq!(parse_u32(&"4294967295".chars().collect()), Some(u32::MAX));
    assert_eq!(parse_u32(&"4294967296".chars().collect()), None);
    assert_eq!(parse_u32(&"".chars().collect()), None);
    assert_eq!(parse_u32(&"12a".chars().collect()), None);
    assert_eq!(parse_u32(&"-5".chars().collect()), None);
}
