use cheating_detector::command::{
    interactive_move, parse_i32, parse_input, separate_spaces, split_words, InputError,
};
use cheating_detector::engine::{
    game_is_over, move_is_allowed, perform_flips, play_move, record_round, resolve_guess,
};
use cheating_detector::state::{PermanentState, RoundState, ValidMove, STARTING_COIN_FLIPS};
use cheating_detector::strategies::{guess_for_draw, random_guess};
use cheating_detector::suspect::{
    coin_of_draw, get_next_suspect, suspect_for_draws, CoinFlip, Suspect, PROBABILITY_SCALE,
};

fn cheating(p: u32) -> Suspect {
    Suspect::Cheating { probability_of_heads: p }
}

fn state_with(remaining: i32) -> PermanentState {
    PermanentState { remaining_coin_flips: remaining, ..PermanentState::new() }
}

#[test]
fn test_1() {
    let mut state = PermanentState::new();
    let mut all_moves_made: Vec<Vec<ValidMove>> = Vec::new();
    let mut rounds = 0;
    while !game_is_over(&state) {
        rounds += 1;
        assert!(rounds < 100_000);
        let suspect = get_next_suspect();
        let mut round = RoundState::new();
        let mut moves = Vec::new();
        loop {
            let mv = random_guess(&mut state, suspect, &mut round, &moves);
            assert!(move_is_allowed(&state, &round, mv));
            if play_move(&mut state, &mut round, suspect, &mut moves, mv).0 {
                break;
            }
        }
        record_round(&mut all_moves_made, moves);
    }
    assert!(state.remaining_coin_flips <= 0);
    assert_eq!(state.score as usize, all_moves_made.len());
    assert_eq!(state.correct_guesses_so_far + state.incorrect_guesses_so_far, state.score);
    assert_eq!(
        state.amount_of_honest_suspects_so_far + state.amount_of_cheating_suspects_so_far,
        state.score
    );
    assert_eq!(
        state.remaining_coin_flips,
        100 + 15 * state.correct_guesses_so_far - 30 * state.incorrect_guesses_so_far
    );
    for round in &all_moves_made {
        assert_eq!(round.len(), 1);
        assert!(matches!(round[0], ValidMove::Guess(_)));
    }
}

#[test]
fn scenario_honest_flip_then_right_guess() {
    let mut state = PermanentState::new();
    let mut round = RoundState::new();
    let mut moves = Vec::new();
    let suspect = Suspect::Honest;
    assert!(!play_move(&mut state, &mut round, suspect, &mut moves, ValidMove::Flip(10)).0);
    assert_eq!(round.total_flips(), 10);
    assert_eq!(state.remaining_coin_flips, 90);
    assert!(play_move(&mut state, &mut round, suspect, &mut moves, ValidMove::Guess(Suspect::Honest)).0);
    assert_eq!(state.correct_guesses_so_far, 1);
    assert_eq!(state.incorrect_guesses_so_far, 0);
    assert_eq!(state.remaining_coin_flips, 105);
    assert_eq!(state.score, 1);
    assert_eq!(state.amount_of_honest_suspects_so_far, 1);
    assert_eq!(state.amount_of_cheating_suspects_so_far, 0);
    assert_eq!(moves, vec![ValidMove::Flip(10), ValidMove::Guess(Suspect::Honest)]);
}

#[test]
fn scenario_cheating_wrong_guess() {
    let mut state = PermanentState::new();
    let mut round = RoundState::new();
    let mut moves = Vec::new();
    let suspect = cheating(900_000);
    assert!(play_move(&mut state, &mut round, suspect, &mut moves, ValidMove::Guess(Suspect::Honest)).0);
    assert_eq!(state.incorrect_guesses_so_far, 1);
    assert_eq!(state.correct_guesses_so_far, 0);
    assert_eq!(state.remaining_coin_flips, 70);
    assert_eq!(state.score, 1);
    assert_eq!(state.amount_of_cheating_suspects_so_far, 1);
    assert_eq!(state.amount_of_honest_suspects_so_far, 0);
}

#[test]
fn scenario_invalid_guess_word_is_try_again() {
    let state = PermanentState::new();
    let suspect = Suspect::Honest;
    assert_eq!(parse_input("g x", suspect, &state), Err(InputError::InvalidGuess));
    let mv = interactive_move("g x", suspect, &state);
    assert_eq!(mv, ValidMove::TryAgain);
    let mut after = state;
    let mut round = RoundState::new();
    let mut moves = Vec::new();
    assert!(!play_move(&mut after, &mut round, suspect, &mut moves, mv).0);
    assert_eq!(after, state);
    assert_eq!(round, RoundState::new());
}

#[test]
fn scenario_zero_flips_is_try_again() {
    let state = PermanentState::new();
    let suspect = cheating(700_000);
    assert_eq!(parse_input("f 0", suspect, &state), Err(InputError::FlipCountNotPositive(0)));
    let mv = interactive_move("f 0", suspect, &state);
    assert_eq!(mv, ValidMove::TryAgain);
    let mut after = state;
    let mut round = RoundState::new();
    let mut moves = Vec::new();
    assert!(!play_move(&mut after, &mut round, suspect, &mut moves, mv).0);
    assert_eq!(after, state);
    assert_eq!(round, RoundState::new());
    assert_eq!(moves, vec![ValidMove::TryAgain]);
}

#[test]
fn repeated_try_again_changes_nothing() {
    let state = state_with(42);
    let mut after = state;
    let mut round = RoundState { amount_of_heads_flipped: 3, amount_of_tails_flipped: 4 };
    let mut moves = Vec::new();
    for _ in 0..5 {
        assert!(!play_move(&mut after, &mut round, Suspect::Honest, &mut moves, ValidMove::TryAgain).0);
    }
    assert_eq!(after, state);
    assert_eq!(round, RoundState { amount_of_heads_flipped: 3, amount_of_tails_flipped: 4 });
    assert_eq!(moves.len(), 5);
}

#[test]
fn parses_flip_commands() {
    let state = PermanentState::new();
    let s = Suspect::Honest;
    assert_eq!(parse_input("flip 10", s, &state), Ok(ValidMove::Flip(10)));
    assert_eq!(parse_input("  F\t5 extra words\n", s, &state), Ok(ValidMove::Flip(5)));
    assert_eq!(parse_input("FLIP +7", s, &state), Ok(ValidMove::Flip(7)));
    assert_eq!(parse_input("f 100", s, &state), Ok(ValidMove::Flip(100)));
    assert_eq!(parse_input("f 007", s, &state), Ok(ValidMove::Flip(7)));
}

#[test]
fn reports_each_input_error() {
    let state = PermanentState::new();
    let s = Suspect::Honest;
    assert_eq!(parse_input("", s, &state), Err(InputError::Empty));
    assert_eq!(parse_input(" \t \n", s, &state), Err(InputError::Empty));
    assert_eq!(parse_input("look 3", s, &state), Err(InputError::UnknownCommand));
    assert_eq!(parse_input("flips 3", s, &state), Err(InputError::UnknownCommand));
    assert_eq!(parse_input("f", s, &state), Err(InputError::MissingFlipCount));
    assert_eq!(parse_input("f abc", s, &state), Err(InputError::FlipCountNotANumber));
    assert_eq!(parse_input("f 1x", s, &state), Err(InputError::FlipCountNotANumber));
    assert_eq!(parse_input("f -", s, &state), Err(InputError::FlipCountNotANumber));
    assert_eq!(parse_input("f 2147483648", s, &state), Err(InputError::FlipCountNotANumber));
    assert_eq!(parse_input("f -3", s, &state), Err(InputError::FlipCountNotPositive(-3)));
    assert_eq!(
        parse_input("f -2147483648", s, &state),
        Err(InputError::FlipCountNotPositive(i32::MIN))
    );
    assert_eq!(parse_input("f 101", s, &state), Err(InputError::FlipCountOverBudget(101)));
    assert_eq!(
        parse_input("f 2147483647", s, &state),
        Err(InputError::FlipCountOverBudget(i32::MAX))
    );
    assert_eq!(parse_input("g", s, &state), Err(InputError::MissingGuess));
    assert_eq!(parse_input("guess maybe", s, &state), Err(InputError::InvalidGuess));
}

#[test]
fn parses_guess_commands() {
    let state = PermanentState::new();
    let c = cheating(900_000);
    assert_eq!(parse_input("g c", c, &state), Ok(ValidMove::Guess(c)));
    assert_eq!(parse_input("GUESS Cheater", c, &state), Ok(ValidMove::Guess(c)));
    assert_eq!(parse_input("g h", c, &state), Ok(ValidMove::Guess(Suspect::Honest)));
    assert_eq!(parse_input("guess honest", c, &state), Ok(ValidMove::Guess(Suspect::Honest)));
    assert_eq!(
        parse_input("g cheater", Suspect::Honest, &state),
        Ok(ValidMove::Guess(cheating(500_000)))
    );
}

#[test]
fn reads_signed_integers() {
    assert_eq!(parse_i32(&b"0".to_vec()), Some(0));
    assert_eq!(parse_i32(&b"-0".to_vec()), Some(0));
    assert_eq!(parse_i32(&b"2147483647".to_vec()), Some(i32::MAX));
    assert_eq!(parse_i32(&b"-2147483648".to_vec()), Some(i32::MIN));
    assert_eq!(parse_i32(&b"-2147483649".to_vec()), None);
    assert_eq!(parse_i32(&b"99999999999999999999".to_vec()), None);
    assert_eq!(parse_i32(&b"+".to_vec()), None);
    assert_eq!(parse_i32(&b"".to_vec()), None);
    assert_eq!(parse_i32(&b"1-2".to_vec()), None);
}

#[test]
fn splits_and_lowers_words() {
    let w = split_words(b"  Guess\tHONEST  now ");
    assert_eq!(w, vec![b"guess".to_vec(), b"honest".to_vec(), b"now".to_vec()]);
    assert!(split_words(b" \r\n").is_empty());
}

#[test]
fn right_and_wrong_guesses_score() {
    let mut state = state_with(20);
    assert!(resolve_guess(&mut state, Suspect::Honest, Suspect::Honest));
    assert_eq!(state.remaining_coin_flips, 35);
    assert!(!resolve_guess(&mut state, cheating(600_000), cheating(600_001)));
    assert_eq!(state.remaining_coin_flips, 5);
    assert!(!resolve_guess(&mut state, Suspect::Honest, cheating(500_000)));
    assert_eq!(state.remaining_coin_flips, -25);
    assert!(resolve_guess(&mut state, cheating(600_000), cheating(600_000)));
    assert_eq!(state.remaining_coin_flips, -10);
    assert_eq!(state.score, 4);
    assert_eq!(state.correct_guesses_so_far, 2);
    assert_eq!(state.incorrect_guesses_so_far, 2);
    assert_eq!(state.amount_of_honest_suspects_so_far, 2);
    assert_eq!(state.amount_of_cheating_suspects_so_far, 2);
    assert!(game_is_over(&state));
}

#[test]
fn flips_spend_the_budget_exactly() {
    let mut state = state_with(50);
    let mut round = RoundState { amount_of_heads_flipped: 2, amount_of_tails_flipped: 1 };
    let outcomes = perform_flips(&mut state, &mut round, cheating(700_000), 50);
    assert_eq!(outcomes.len(), 50);
    let heads = outcomes.iter().filter(|f| **f == CoinFlip::Heads).count() as i32;
    assert_eq!(round.amount_of_heads_flipped, 2 + heads);
    assert_eq!(round.amount_of_tails_flipped, 1 + 50 - heads);
    assert_eq!(state.remaining_coin_flips, 0);
    assert_eq!(round.total_flips(), 53);
    assert!(round.amount_of_heads_flipped >= 2 && round.amount_of_tails_flipped >= 1);
    assert!(game_is_over(&state));
}

#[test]
fn certain_coin_gives_only_heads() {
    let mut state = PermanentState::new();
    let mut round = RoundState::new();
    let outcomes = perform_flips(&mut state, &mut round, cheating(PROBABILITY_SCALE), 30);
    assert_eq!(outcomes, vec![CoinFlip::Heads; 30]);
    assert_eq!(round.amount_of_heads_flipped, 30);
    assert_eq!(round.amount_of_tails_flipped, 0);
    assert_eq!(cheating(PROBABILITY_SCALE).flip_coin(), CoinFlip::Heads);
}

#[test]
fn fair_coin_gives_both_sides() {
    let mut state = state_with(1000);
    let mut round = RoundState::new();
    perform_flips(&mut state, &mut round, Suspect::Honest, 1000);
    assert_eq!(round.total_flips(), 1000);
    assert!(round.amount_of_heads_flipped > 0 && round.amount_of_tails_flipped > 0);
}

#[test]
fn flip_moves_are_checked() {
    let state = PermanentState::new();
    let round = RoundState::new();
    assert!(!move_is_allowed(&state, &round, ValidMove::Flip(0)));
    assert!(!move_is_allowed(&state, &round, ValidMove::Flip(-1)));
    assert!(!move_is_allowed(&state, &round, ValidMove::Flip(101)));
    assert!(move_is_allowed(&state, &round, ValidMove::Flip(100)));
    assert!(move_is_allowed(&state, &round, ValidMove::TryAgain));
    assert!(move_is_allowed(&state, &round, ValidMove::Guess(Suspect::Honest)));
    let full = PermanentState { score: i32::MAX, ..state };
    assert!(!move_is_allowed(&full, &round, ValidMove::Guess(Suspect::Honest)));
}

#[test]
fn new_game_and_round_start_empty() {
    let state = PermanentState::new();
    assert_eq!(state.remaining_coin_flips, STARTING_COIN_FLIPS);
    assert_eq!(state.remaining_coin_flips, 100);
    assert_eq!(state.score, 0);
    assert!(!game_is_over(&state));
    assert!(game_is_over(&state_with(0)));
    assert!(!game_is_over(&state_with(1)));
    assert_eq!(RoundState::new().total_flips(), 0);
}

#[test]
fn suspects_have_valid_bias() {
    let mut varied = false;
    let mut honest = 0;
    for _ in 0..400 {
        match get_next_suspect() {
            Suspect::Honest => {
                honest += 1;
                assert_eq!(Suspect::Honest.get_probability(), 500_000);
            }
            s @ Suspect::Cheating { probability_of_heads } => {
                assert!((500_000..=1_000_000).contains(&probability_of_heads));
                assert_eq!(s.get_probability(), probability_of_heads);
                if probability_of_heads != 500_000 {
                    varied = true;
                }
            }
        }
    }
    assert!(varied);
    assert!(honest > 0 && honest < 400);
}

#[test]
fn random_guess_guesses_at_once() {
    let mut state = PermanentState::new();
    let mut round = RoundState::new();
    let suspect = cheating(800_000);
    let mut saw_honest = false;
    let mut saw_cheating = false;
    for _ in 0..200 {
        match random_guess(&mut state, suspect, &mut round, &[]) {
            ValidMove::Guess(Suspect::Honest) => saw_honest = true,
            ValidMove::Guess(g) => {
                assert_eq!(g, suspect);
                saw_cheating = true;
            }
            other => panic!("unexpected move {:?}", other),
        }
    }
    assert!(saw_honest && saw_cheating);
    assert_eq!(state, PermanentState::new());
    assert_eq!(round, RoundState::new());
}

#[test]
fn flip_move_reports_its_outcomes() {
    let mut state = PermanentState::new();
    let mut round = RoundState::new();
    let mut moves = Vec::new();
    let (finished, outcomes) =
        play_move(&mut state, &mut round, cheating(PROBABILITY_SCALE), &mut moves, ValidMove::Flip(4));
    assert!(!finished);
    assert_eq!(outcomes, vec![CoinFlip::Heads; 4]);
    let (finished, outcomes) =
        play_move(&mut state, &mut round, Suspect::Honest, &mut moves, ValidMove::TryAgain);
    assert!(!finished && outcomes.is_empty());
}

#[test]
fn unicode_whitespace_separates_words() {
    let state = PermanentState::new();
    let s = Suspect::Honest;
    assert_eq!(parse_input("f\u{a0}5", s, &state), Ok(ValidMove::Flip(5)));
    assert_eq!(parse_input("\u{3000}g\u{2003}h\u{85}", s, &state), Ok(ValidMove::Guess(Suspect::Honest)));
    assert_eq!(parse_input("\u{2028}\u{1680}\u{205f}\u{202f}\u{2029}", s, &state), Err(InputError::Empty));
    assert_eq!(parse_input("f\u{200a}12", s, &state), Ok(ValidMove::Flip(12)));
    assert_eq!(parse_input("f\u{200b}12", s, &state), Err(InputError::UnknownCommand));
    assert_eq!(separate_spaces("a\u{a0}b\u{e9}".as_bytes()), b"a b\xc3\xa9".to_vec());
    let w = split_words("F\u{2009}10".as_bytes());
    assert_eq!(w, vec![b"f".to_vec(), b"10".to_vec()]);
}

#[test]
fn draws_decide_suspect_guess_and_coin() {
    assert_eq!(suspect_for_draws(true, 0), Suspect::Honest);
    assert_eq!(suspect_for_draws(false, 730_000), cheating(730_000));
    assert_eq!(guess_for_draw(true, cheating(610_000)), ValidMove::Guess(Suspect::Honest));
    assert_eq!(guess_for_draw(false, cheating(610_000)), ValidMove::Guess(cheating(610_000)));
    assert_eq!(guess_for_draw(false, Suspect::Honest), ValidMove::Guess(cheating(500_000)));
    assert_eq!(coin_of_draw(true), CoinFlip::Heads);
    assert_eq!(coin_of_draw(false), CoinFlip::Tails);
}
