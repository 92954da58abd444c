use yacht::category::ScoreType;
use yacht::command::Command;
use yacht::dice::{DiceNum, Roll};
use yacht::game::{Game, GameStates};
use yacht::ledger::ScoreTable;

fn game_with(state: GameStates, dice: (u8, u8, u8, u8, u8)) -> Game {
    Game {
        game_state: state,
        current_roll: Roll::_new_fake(dice),
        score_table: ScoreTable::new(),
        msg: String::new(),
    }
}

#[test]
fn new_game_starts_at_first_roll() {
    let g = Game::new();
    assert_eq!(g.game_state, GameStates::FirstRoll);
    assert_eq!(g.score_table.recorded(), 0);
    assert_eq!(g.current_roll.holds, [false; 5]);
    assert!(g.current_roll.dice.iter().all(|&d| (1..=6).contains(&d)));
    assert_eq!(g.msg, "");
}

#[test]
fn roll_advances_through_three_rolls() {
    let mut g = game_with(GameStates::FirstRoll, (1, 2, 3, 4, 5));
    g.current_roll.hold(&DiceNum::Second);
    assert_eq!(g.apply_with_draws(&Command::Roll, [6, 6, 6, 6, 6]), "Onto next roll");
    assert_eq!(g.game_state, GameStates::SecondRoll);
    assert_eq!(g.current_roll.dice, [6, 2, 6, 6, 6]);
    g.apply_with_draws(&Command::Roll, [5, 5, 5, 5, 5]);
    assert_eq!(g.game_state, GameStates::ThirdRoll);
    assert_eq!(g.current_roll.dice, [5, 2, 5, 5, 5]);
}

#[test]
fn roll_on_third_roll_changes_nothing() {
    let mut g = game_with(GameStates::ThirdRoll, (1, 2, 3, 4, 5));
    let m = g.apply_with_draws(&Command::Roll, [6, 6, 6, 6, 6]);
    assert_eq!(m, "No more rolls available this round, try 'score'");
    assert_eq!(g.msg, m);
    assert_eq!(g.game_state, GameStates::ThirdRoll);
    assert_eq!(g.current_roll.dice, [1, 2, 3, 4, 5]);
    let m = g.attempt_command(&Command::Roll);
    assert_eq!(m, "No more rolls available this round, try 'score'");
    assert_eq!(g.current_roll.dice, [1, 2, 3, 4, 5]);
}

#[test]
fn hold_and_sort_messages() {
    let mut g = game_with(GameStates::ThirdRoll, (4, 2, 5, 1, 3));
    assert_eq!(g.apply_with_draws(&Command::Hold(DiceNum::Fifth), [1; 5]), "Held dice number 5");
    assert_eq!(g.current_roll.holds, [false, false, false, false, true]);
    assert_eq!(g.apply_with_draws(&Command::Hold(DiceNum::Fifth), [1; 5]), "Unheld dice number 5");
    g.apply_with_draws(&Command::Hold(DiceNum::First), [1; 5]);
    assert_eq!(g.apply_with_draws(&Command::Sort, [1; 5]), "Dice Sorted!");
    assert_eq!(g.current_roll.dice, [1, 2, 3, 4, 5]);
    assert_eq!(g.current_roll.holds, [false; 5]);
    assert_eq!(g.game_state, GameStates::ThirdRoll);
}

#[test]
fn score_then_same_category_refused() {
    let mut g = game_with(GameStates::SecondRoll, (3, 3, 3, 2, 2));
    let m = g.apply_with_draws(&Command::Score(ScoreType::FullHouse), [1, 2, 3, 4, 6]);
    assert_eq!(m, "Score submitted!");
    assert_eq!(g.game_state, GameStates::FirstRoll);
    assert_eq!(g.score_table.score(&ScoreType::FullHouse), Some(25));
    assert_eq!(g.current_roll.dice, [1, 2, 3, 4, 6]);
    assert_eq!(g.current_roll.holds, [false; 5]);
    g.apply_with_draws(&Command::Roll, [3, 3, 3, 2, 2]);
    assert_eq!(g.game_state, GameStates::SecondRoll);
    let m = g.apply_with_draws(&Command::Score(ScoreType::FullHouse), [6; 5]);
    assert_eq!(m, "That score type was already used!");
    assert_eq!(g.game_state, GameStates::SecondRoll);
    assert_eq!(g.current_roll.dice, [3, 3, 3, 2, 2]);
    assert_eq!(g.score_table.table_total(), 25);
}

#[test]
fn twelve_scores_end_the_game_and_anything_then_starts_anew() {
    let mut g = Game::new();
    let order = [11u8, 0, 5, 3, 7, 1, 9, 2, 10, 4, 8, 6];
    for (k, &i) in order.iter().enumerate() {
        assert_ne!(g.game_state, GameStates::GameOver);
        let m = g.attempt_command(&Command::Score(ScoreType::from_u8(i)));
        if k < 11 {
            assert_eq!(m, "Score submitted!");
            assert_eq!(g.game_state, GameStates::FirstRoll);
        } else {
            assert_eq!(m, "Game Over! Type 'new' to start a new game!");
        }
    }
    assert_eq!(g.game_state, GameStates::GameOver);
    assert!(g.score_table.is_full());
    assert_eq!(g.resolve_command(Command::Roll), Command::New);
    assert_eq!(g.resolve_command(Command::Quit), Command::Quit);
    assert!(g.handle_command(Command::Roll));
    assert_eq!(g.game_state, GameStates::FirstRoll);
    assert_eq!(g.score_table.recorded(), 0);
    assert_eq!(g.score_table.table_total(), 0);
    assert_eq!(g.current_roll.holds, [false; 5]);
    assert_eq!(g.msg, "New Game Started");
}

#[test]
fn new_command_resets_everything() {
    let mut g = game_with(GameStates::ThirdRoll, (6, 6, 6, 6, 6));
    g.apply_with_draws(&Command::Score(ScoreType::Yacht), [1, 1, 2, 2, 3]);
    g.current_roll.hold(&DiceNum::Third);
    assert_eq!(g.apply_with_draws(&Command::New, [2, 2, 2, 5, 5]), "New Game Started");
    assert_eq!(g.game_state, GameStates::FirstRoll);
    assert_eq!(g.score_table.recorded(), 0);
    assert_eq!(g.current_roll.dice, [2, 2, 2, 5, 5]);
    assert_eq!(g.current_roll.holds, [false; 5]);
}

#[test]
fn advance_steps_the_turn() {
    let mut g = game_with(GameStates::FirstRoll, (1, 1, 1, 1, 1));
    g.advance_gamestate();
    assert_eq!(g.game_state, GameStates::SecondRoll);
    g.advance_gamestate();
    assert_eq!(g.game_state, GameStates::ThirdRoll);
}

#[test]
fn handle_shows_help_and_quits() {
    let mut g = game_with(GameStates::SecondRoll, (1, 2, 3, 4, 5));
    assert!(g.handle_command(Command::Help("text".to_string())));
    assert_eq!(g.msg, "text");
    assert!(g.handle_command(Command::NotRecognised("bad".to_string())));
    assert_eq!(g.msg, "bad");
    assert_eq!(g.game_state, GameStates::SecondRoll);
    assert!(g.handle_command(Command::Sort));
    assert_eq!(g.msg, "Dice Sorted!");
    assert!(!g.handle_command(Command::Quit));
    assert_eq!(g.msg, "Dice Sorted!");
}
