use fundamentals::game::{parse_guess, transition, Feedback, Game, GameEvent, Phase};

#[test]
fn parse_accepts_plain_numbers() {
    assert_eq!(parse_guess(b"42"), Some(42));
    assert_eq!(parse_guess(b"0"), Some(0));
    assert_eq!(parse_guess(b"007"), Some(7));
    assert_eq!(parse_guess(b"4294967295"), Some(u32::MAX));
}

#[test]
fn parse_trims_whitespace() {
    assert_eq!(parse_guess(b"  42\n"), Some(42));
    assert_eq!(parse_guess(b"\t42\r\n"), Some(42));
    assert_eq!(parse_guess(b"42  "), Some(42));
}

#[test]
fn parse_accepts_one_leading_plus() {
    assert_eq!(parse_guess(b"+42"), Some(42));
    assert_eq!(parse_guess(b" +42 "), Some(42));
    assert_eq!(parse_guess(b"++42"), None);
    assert_eq!(parse_guess(b"+"), None);
}

#[test]
fn parse_rejects_what_is_not_a_number() {
    assert_eq!(parse_guess(b""), None);
    assert_eq!(parse_guess(b"   "), None);
    assert_eq!(parse_guess(b"abc"), None);
    assert_eq!(parse_guess(b"4a2"), None);
    assert_eq!(parse_guess(b"-42"), None);
    assert_eq!(parse_guess(b"4 2"), None);
}

#[test]
fn parse_rejects_values_that_do_not_fit() {
    assert_eq!(parse_guess(b"4294967296"), None);
    assert_eq!(parse_guess(b"99999999999999999999"), None);
}

#[test]
fn feedback_brackets_the_secret() {
    let mut game = Game::with_secret(42);
    assert_eq!(game.process_line(b"10\n"), Feedback::TooLow);
    assert!(!game.won);
    assert_eq!(game.process_line(b"90\n"), Feedback::TooHigh);
    assert!(!game.won);
    assert_eq!(game.process_line(b"oops\n"), Feedback::Invalid);
    assert!(!game.won);
    assert_eq!(game.process_line(b"42\n"), Feedback::Correct);
    assert!(game.won);
}

#[test]
fn the_game_ends_exactly_on_the_secret() {
    let mut game = Game::with_secret(7);
    for wrong in ["1", "99", "8", "6", "nonsense", ""] {
        assert_ne!(game.process_line(wrong.as_bytes()), Feedback::Correct);
        assert!(!game.won);
    }
    assert_eq!(game.process_line(b"7"), Feedback::Correct);
    assert!(game.won);
}

#[test]
fn a_won_game_stays_won() {
    let mut game = Game::with_secret(50);
    assert_eq!(game.process_line(b"50"), Feedback::Correct);
    assert!(game.won);
    assert_eq!(game.process_line(b"10"), Feedback::TooLow);
    assert!(game.won);
}

#[test]
fn fresh_games_draw_from_the_advertised_range() {
    for _ in 0..200 {
        let game = Game::new();
        assert!((1..100).contains(&game.secret));
        assert!(!game.won);
    }
}

#[test]
fn the_loop_follows_the_transition_map() {
    assert_eq!(
        transition(Phase::AwaitingInput, GameEvent::LineRead),
        Phase::Validating
    );
    assert_eq!(
        transition(Phase::Validating, GameEvent::ParseFailed),
        Phase::AwaitingInput
    );
    assert_eq!(
        transition(Phase::Validating, GameEvent::ParseSucceeded),
        Phase::Comparing
    );
    assert_eq!(
        transition(Phase::Comparing, GameEvent::GuessMismatch),
        Phase::AwaitingInput
    );
    assert_eq!(
        transition(Phase::Comparing, GameEvent::GuessMatch),
        Phase::Won
    );
}

#[test]
fn the_won_phase_is_terminal() {
    for ev in [
        GameEvent::LineRead,
        GameEvent::ParseFailed,
        GameEvent::ParseSucceeded,
        GameEvent::GuessMismatch,
        GameEvent::GuessMatch,
    ] {
        assert_eq!(transition(Phase::Won, ev), Phase::Won);
    }
}

#[test]
fn an_event_without_meaning_keeps_the_phase() {
    assert_eq!(
        transition(Phase::AwaitingInput, GameEvent::GuessMatch),
        Phase::AwaitingInput
    );
    assert_eq!(
        transition(Phase::Validating, GameEvent::LineRead),
        Phase::Validating
    );
    assert_eq!(
        transition(Phase::Comparing, GameEvent::LineRead),
        Phase::Comparing
    );
}
