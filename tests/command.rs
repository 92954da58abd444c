use yacht::category::ScoreType;
use yacht::command::{parse_command_from_input, Command};
use yacht::dice::DiceNum;
use yacht::text::{parse_u8, same_text};

fn classify(line: &str) -> Command {
    parse_command_from_input(line.split_whitespace().collect())
}

fn unrecognised(s: &str) -> Command {
    Command::NotRecognised(s.to_string())
}

#[test]
fn simple_commands() {
    assert_eq!(classify("r"), Command::Roll);
    assert_eq!(classify("roll"), Command::Roll);
    assert_eq!(classify("s"), Command::Sort);
    assert_eq!(classify("sort extra"), Command::Sort);
    assert_eq!(classify("new"), Command::New);
    for q in ["q", "quit", "exit", "e"] {
        assert_eq!(classify(q), Command::Quit);
    }
}

#[test]
fn empty_and_unknown_input() {
    assert_eq!(classify("   "), unrecognised("No input found"));
    assert_eq!(
        classify("ROLL"),
        unrecognised("Invalid command, try 'help' for list of commands")
    );
}

#[test]
fn hold_arguments() {
    assert_eq!(classify("h 1"), Command::Hold(DiceNum::First));
    assert_eq!(classify("hold 5"), Command::Hold(DiceNum::Fifth));
    assert_eq!(classify("hold +3"), Command::Hold(DiceNum::Third));
    assert_eq!(classify("hold"), unrecognised("Couldn't find command args"));
    assert_eq!(classify("hold 0"), unrecognised("Invalid Dice Number, should be (1-5)"));
    assert_eq!(classify("hold 6"), unrecognised("Invalid Dice Number, should be (1-5)"));
    assert_eq!(
        classify("hold x"),
        unrecognised("Unable to parse dice number (did you enter a number?)")
    );
    assert_eq!(
        classify("hold 256"),
        unrecognised("Unable to parse dice number (did you enter a number?)")
    );
}

#[test]
fn score_arguments() {
    assert_eq!(classify("sc 1"), Command::Score(ScoreType::Aces));
    assert_eq!(classify("score fullhouse"), Command::Score(ScoreType::FullHouse));
    assert_eq!(classify("score 10"), Command::Score(ScoreType::BigStraight));
    assert_eq!(classify("score chance"), Command::Score(ScoreType::Chance));
    assert_eq!(classify("score 12"), Command::Score(ScoreType::Chance));
    assert_eq!(classify("score 13"), unrecognised("Invalid score type"));
    assert_eq!(classify("score Yacht"), unrecognised("Invalid score type"));
    assert_eq!(classify("score"), unrecognised("No score tpye found"));
}

#[test]
fn help_topics() {
    assert_eq!(
        classify("help"),
        Command::Help(
            "commands: roll, sort, hold <dice>, score <type>, new, quit, help <command>"
                .to_string()
        )
    );
    assert_eq!(classify("help q"), Command::Help("quit: quits the game".to_string()));
    assert_eq!(
        classify("help new"),
        Command::Help("new: starts a new game, refreshing the scores".to_string())
    );
    assert_eq!(
        classify("help h"),
        Command::Help("hold <dice>: holds dice number <dice> exluding it from next rolls".to_string())
    );
    assert_eq!(classify("help zzz"), unrecognised("No help found for that"));
}

#[test]
fn decimal_byte_reading() {
    assert_eq!(parse_u8("0"), Some(0));
    assert_eq!(parse_u8("007"), Some(7));
    assert_eq!(parse_u8("+12"), Some(12));
    assert_eq!(parse_u8("255"), Some(255));
    assert_eq!(parse_u8("256"), None);
    assert_eq!(parse_u8(""), None);
    assert_eq!(parse_u8("+"), None);
    assert_eq!(parse_u8("-1"), None);
    assert_eq!(parse_u8("1a"), None);
    assert_eq!(parse_u8("é"), None);
}

#[test]
fn text_equality() {
    assert!(same_text("roll", "roll"));
    assert!(!same_text("roll", "rol"));
    assert!(!same_text("roll", "rolL"));
    assert!(same_text("", ""));
}
