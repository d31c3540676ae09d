use hangman::session::{
    parse_choice, parse_guess, pick_random_word, validate_word, wants_replay, Choice, GameManager,
    TurnResult, WordError, STEPS,
};

#[test]
fn new_session_is_fresh() {
    let gm = GameManager::new();
    assert_eq!(gm.word.len(), 0);
    assert_eq!(gm.already_guessed.len(), 0);
    assert_eq!(gm.steps_left, STEPS);
}

#[test]
fn flush_resets_everything() {
    let mut gm = GameManager::new();
    gm.init_word("cat");
    gm.play_turn('z');
    gm.play_turn('c');
    gm.flush();
    assert_eq!(gm.word.len(), 0);
    assert_eq!(gm.already_guessed.len(), 0);
    assert_eq!(gm.steps_left, STEPS);
}

#[test]
fn reveal_all_after_init_restores_word() {
    let mut gm = GameManager::new();
    gm.init_word("WorD");
    assert_eq!(gm.print_word(true), "WorD");
}

#[test]
fn masked_word_starts_hidden() {
    let mut gm = GameManager::new();
    gm.init_word("cat");
    assert_eq!(gm.print_word(false), "___");
}

#[test]
fn spaces_are_pre_revealed() {
    let mut gm = GameManager::new();
    gm.init_word("a b");
    assert_eq!(gm.print_word(false), "_ _");
}

#[test]
fn absent_letter_misses_and_reveals_nothing() {
    let mut gm = GameManager::new();
    gm.init_word("cat");
    let hit = gm.check_letter('z');
    assert!(!hit);
    assert_eq!(gm.print_word(false), "___");
}

#[test]
fn present_letter_hits_and_reveals_all_matches() {
    let mut gm = GameManager::new();
    gm.init_word("Cacao");
    let hit = gm.check_letter('c');
    assert!(hit);
    assert_eq!(gm.print_word(false), "C_c__");
}

#[test]
fn hit_is_case_insensitive_and_preserves_case() {
    let mut gm = GameManager::new();
    gm.init_word("Cat");
    assert!(gm.check_letter('C'));
    assert_eq!(gm.print_word(false), "C__");
    assert!(gm.check_letter('A'));
    assert_eq!(gm.print_word(false), "Ca_");
}

#[test]
fn hit_records_letter_once_per_match() {
    let mut gm = GameManager::new();
    gm.init_word("aha");
    assert!(gm.check_letter('A'));
    assert_eq!(gm.already_guessed, vec!['a', 'a']);
}

#[test]
fn won_iff_mask_has_no_underscore() {
    let mut gm = GameManager::new();
    gm.init_word("cat");
    assert!(!gm.check_win());
    assert!(gm.print_word(false).contains('_'));
    gm.check_letter('c');
    gm.check_letter('a');
    assert!(!gm.check_win());
    assert!(gm.print_word(false).contains('_'));
    gm.check_letter('t');
    assert!(gm.check_win());
    assert!(!gm.print_word(false).contains('_'));
}

#[test]
fn repeated_miss_costs_only_one_attempt() {
    let mut gm = GameManager::new();
    gm.init_word("cat");
    assert_eq!(gm.play_turn('z'), TurnResult::Continue);
    assert_eq!(gm.steps_left, STEPS - 1);
    assert_eq!(gm.play_turn('z'), TurnResult::AlreadyGuessed);
    assert_eq!(gm.steps_left, STEPS - 1);
}

#[test]
fn repeated_hit_is_rejected_without_penalty() {
    let mut gm = GameManager::new();
    gm.init_word("cat");
    assert_eq!(gm.play_turn('c'), TurnResult::Continue);
    assert_eq!(gm.play_turn('C'), TurnResult::AlreadyGuessed);
    assert_eq!(gm.steps_left, STEPS);
    assert_eq!(gm.print_word(false), "c__");
}

#[test]
fn non_letter_guess_is_invalid_and_free() {
    let mut gm = GameManager::new();
    gm.init_word("cat");
    assert_eq!(gm.play_turn('4'), TurnResult::Invalid);
    assert_eq!(gm.play_turn(' '), TurnResult::Invalid);
    assert_eq!(gm.play_turn('!'), TurnResult::Invalid);
    assert_eq!(gm.steps_left, STEPS);
    assert_eq!(gm.already_guessed.len(), 0);
}

#[test]
fn winning_game_keeps_full_budget() {
    let mut gm = GameManager::new();
    gm.init_word("cat");
    assert_eq!(gm.play_turn('c'), TurnResult::Continue);
    assert_eq!(gm.print_word(false), "c__");
    assert_eq!(gm.steps_left, 7);
    assert_eq!(gm.play_turn('a'), TurnResult::Continue);
    assert_eq!(gm.print_word(false), "ca_");
    assert_eq!(gm.steps_left, 7);
    assert_eq!(gm.play_turn('t'), TurnResult::Won);
    assert_eq!(gm.print_word(false), "cat");
    assert_eq!(gm.steps_left, 7);
}

#[test]
fn seven_misses_lose_and_budget_stops_at_zero() {
    let mut gm = GameManager::new();
    gm.init_word("cat");
    let misses = ['z', 'x', 'q', 'w', 'e', 'r', 'y'];
    for (k, c) in misses.iter().enumerate() {
        let r = gm.play_turn(*c);
        assert_eq!(gm.steps_left, 7 - (k as i32 + 1));
        if k < 6 {
            assert_eq!(r, TurnResult::Continue);
        } else {
            assert_eq!(r, TurnResult::Lost);
        }
    }
    assert_eq!(gm.steps_left, 0);
}

#[test]
fn validate_word_accepts_plain_words() {
    assert_eq!(validate_word("cat"), Ok(()));
    assert_eq!(validate_word("Avocado"), Ok(()));
    assert_eq!(validate_word("abcdefghijklmnopqrstuvwxy"), Ok(()));
}

#[test]
fn validate_word_rejects_bad_lengths() {
    assert_eq!(validate_word("ab"), Err(WordError::BadLength));
    assert_eq!(validate_word(""), Err(WordError::BadLength));
    assert_eq!(validate_word("abcdefghijklmnopqrstuvwxyz"), Err(WordError::BadLength));
}

#[test]
fn validate_word_rejects_bad_characters() {
    assert_eq!(validate_word("c4t"), Err(WordError::BadCharacter));
    assert_eq!(validate_word("c t"), Err(WordError::BadCharacter));
    assert_eq!(validate_word("cat!"), Err(WordError::BadCharacter));
}

#[test]
fn length_is_checked_before_characters() {
    assert_eq!(validate_word("a!"), Err(WordError::BadLength));
}

#[test]
fn dictionary_choice_answers() {
    assert_eq!(parse_choice(""), Choice::UseDictionary);
    assert_eq!(parse_choice("y"), Choice::UseDictionary);
    assert_eq!(parse_choice("Y"), Choice::UseDictionary);
    assert_eq!(parse_choice("n"), Choice::EnterWord);
    assert_eq!(parse_choice("N"), Choice::EnterWord);
    assert_eq!(parse_choice("x"), Choice::Unrecognized);
    assert_eq!(parse_choice("yes"), Choice::Unrecognized);
}

#[test]
fn guess_must_be_a_single_character() {
    assert_eq!(parse_guess("a"), Some('a'));
    assert_eq!(parse_guess("Z"), Some('Z'));
    assert_eq!(parse_guess("4"), Some('4'));
    assert_eq!(parse_guess(""), None);
    assert_eq!(parse_guess("ab"), None);
}

#[test]
fn replay_only_on_y() {
    assert!(wants_replay("y"));
    assert!(wants_replay("Y"));
    assert!(!wants_replay(""));
    assert!(!wants_replay("n"));
    assert!(!wants_replay("yes"));
}

#[test]
fn pick_from_empty_dictionary_is_none() {
    let words: Vec<String> = Vec::new();
    assert_eq!(pick_random_word(&words), None);
}

#[test]
fn pick_from_singleton_returns_the_word() {
    let words = vec![String::from("avocado")];
    assert_eq!(pick_random_word(&words), Some(String::from("avocado")));
}

#[test]
fn pick_returns_a_member() {
    let words = vec![String::from("cat"), String::from("dog"), String::from("fox")];
    let picked = pick_random_word(&words).unwrap();
    assert!(words.contains(&picked));
}
