use vstd::prelude::*;

use crate::category::ScoreType;
use crate::dice::DiceNum;
use crate::text::{parse_u8, parse_u8_spec, same_text};

verus! {

/// What a line of input asks for.
#[derive(PartialEq, Eq, Debug)]
pub enum Command {
    Roll,
    Sort,
    Score(ScoreType),
    Hold(DiceNum),
    New,
    Quit,
    Help(String),
    NotRecognised(String),
}

/// A command with its texts seen as character sequences.
pub enum CommandView {
    Roll,
    Sort,
    Score(ScoreType),
    Hold(DiceNum),
    New,
    Quit,
    Help(Seq<char>),
    NotRecognised(Seq<char>),
}

impl View for Command {
    type V = CommandView;

    open spec fn view(&self) -> CommandView {
        match self {
            Command::Roll => CommandView::Roll,
            Command::Sort => CommandView::Sort,
            Command::Score(c) => CommandView::Score(*c),
            Command::Hold(d) => CommandView::Hold(*d),
            Command::New => CommandView::New,
            Command::Quit => CommandView::Quit,
            Command::Help(s) => CommandView::Help(s@),
            Command::NotRecognised(s) => CommandView::NotRecognised(s@),
        }
    }
}

/// The die that a player numbers `n`, counting from 1.
pub open spec fn die_numbered(n: u8) -> DiceNum {
    if n == 1 {
        DiceNum::First
    } else if n == 2 {
        DiceNum::Second
    } else if n == 3 {
        DiceNum::Third
    } else if n == 4 {
        DiceNum::Fourth
    } else {
        DiceNum::Fifth
    }
}

/// The category that a word names, by its number from 1 to 12 or its name.
pub open spec fn score_alias(w: Seq<char>) -> Option<ScoreType> {
    if w == "1"@ || w == "aces"@ {
        Some(ScoreType::Aces)
    } else if w == "2"@ || w == "twos"@ {
        Some(ScoreType::Twos)
    } else if w == "3"@ || w == "threes"@ {
        Some(ScoreType::Threes)
    } else if w == "4"@ || w == "fours"@ {
        Some(ScoreType::Fours)
    } else if w == "5"@ || w == "fives"@ {
        Some(ScoreType::Fives)
    } else if w == "6"@ || w == "sixes"@ {
        Some(ScoreType::Sixes)
    } else if w == "7"@ || w == "fourofakind"@ {
        Some(ScoreType::FourOfKind)
    } else if w == "8"@ || w == "fullhouse"@ {
        Some(ScoreType::FullHouse)
    } else if w == "9"@ || w == "littlestraight"@ {
        Some(ScoreType::LittleStraight)
    } else if w == "10"@ || w == "bigstraight"@ {
        Some(ScoreType::BigStraight)
    } else if w == "11"@ || w == "yacht"@ {
        Some(ScoreType::Yacht)
    } else if w == "12"@ || w == "chance"@ {
        Some(ScoreType::Chance)
    } else {
        None
    }
}

/// The help text on the command that a word names.
pub open spec fn help_topic(w: Seq<char>) -> CommandView {
    if w == "roll"@ || w == "r"@ {
        CommandView::Help("roll: rolls the dice that aren't held. Counts as a roll!"@)
    } else if w == "sort"@ || w == "s"@ {
        CommandView::Help("sort: sorts the dice lowest to highest. Clears held dice"@)
    } else if w == "hold"@ || w == "h"@ {
        CommandView::Help("hold <dice>: holds dice number <dice> exluding it from next rolls"@)
    } else if w == "score"@ || w == "sc"@ {
        CommandView::Help(
            "score <type>: submits dice to score where <type> is the number of that score type"@,
        )
    } else if w == "new"@ {
        CommandView::Help("new: starts a new game, refreshing the scores"@)
    } else if w == "quit"@ || w == "q"@ || w == "exit"@ || w == "e"@ {
        CommandView::Help("quit: quits the game"@)
    } else if w == "help"@ {
        CommandView::Help(
            "help <command>: shows possible commands or help for <command> (but you know that...)"@,
        )
    } else {
        CommandView::NotRecognised("No help found for that"@)
    }
}

/// The command that a line's words ask for.
pub open spec fn classify(t: Seq<Seq<char>>) -> CommandView {
    if t.len() == 0 {
        CommandView::NotRecognised("No input found"@)
    } else {
        let w = t[0];
        if w == "r"@ || w == "roll"@ {
            CommandView::Roll
        } else if w == "s"@ || w == "sort"@ {
            CommandView::Sort
        } else if w == "h"@ || w == "hold"@ {
            if t.len() < 2 {
                CommandView::NotRecognised("Couldn't find command args"@)
            } else {
                match parse_u8_spec(t[1]) {
                    Some(n) => if 1 <= n <= 5 {
                        CommandView::Hold(die_numbered(n))
                    } else {
                        CommandView::NotRecognised("Invalid Dice Number, should be (1-5)"@)
                    },
                    None => CommandView::NotRecognised(
                        "Unable to parse dice number (did you enter a number?)"@,
                    ),
                }
            }
        } else if w == "sc"@ || w == "score"@ {
            if t.len() < 2 {
                CommandView::NotRecognised("No score tpye found"@)
            } else {
                match score_alias(t[1]) {
                    Some(c) => CommandView::Score(c),
                    None => CommandView::NotRecognised("Invalid score type"@),
                }
            }
        } else if w == "help"@ {
            if t.len() < 2 {
                CommandView::Help(
                    "commands: roll, sort, hold <dice>, score <type>, new, quit, help <command>"@,
                )
            } else {
                help_topic(t[1])
            }
        } else if w == "new"@ {
            CommandView::New
        } else if w == "quit"@ || w == "q"@ || w == "exit"@ || w == "e"@ {
            CommandView::Quit
        } else {
            CommandView::NotRecognised("Invalid command, try 'help' for list of commands"@)
        }
    }
}

/// The words of a line as character sequences.
pub open spec fn words(input: Seq<&str>) -> Seq<Seq<char>> {
    input.map_values(|s: &str| s@)
}

/// A word is one of two aliases.
fn either(w: &str, a: &str, b: &str) -> (r: bool)
    ensures
        r == (w@ == a@ || w@ == b@),
{
    same_text(w, a) || same_text(w, b)
}

/// The category that a word names, by its number or its name.
fn parse_score_type(w: &str) -> (r: Option<ScoreType>)
    ensures
        r == score_alias(w@),
{
    if either(w, "1", "aces") {
        Some(ScoreType::Aces)
    } else if either(w, "2", "twos") {
        Some(ScoreType::Twos)
    } else if either(w, "3", "threes") {
        Some(ScoreType::Threes)
    } else if either(w, "4", "fours") {
        Some(ScoreType::Fours)
    } else if either(w, "5", "fives") {
        Some(ScoreType::Fives)
    } else if either(w, "6", "sixes") {
        Some(ScoreType::Sixes)
    } else if either(w, "7", "fourofakind") {
        Some(ScoreType::FourOfKind)
    } else if either(w, "8", "fullhouse") {
        Some(ScoreType::FullHouse)
    } else if either(w, "9", "littlestraight") {
        Some(ScoreType::LittleStraight)
    } else if either(w, "10", "bigstraight") {
        Some(ScoreType::BigStraight)
    } else if either(w, "11", "yacht") {
        Some(ScoreType::Yacht)
    } else if either(w, "12", "chance") {
        Some(ScoreType::Chance)
    } else {
        None
    }
}

/// A word is one of the aliases of quitting.
fn is_quit(w: &str) -> (r: bool)
    ensures
        r == (w@ == "quit"@ || w@ == "q"@ || w@ == "exit"@ || w@ == "e"@),
{
    either(w, "quit", "q") || either(w, "exit", "e")
}

/// The help text on the command that a word names.
fn help_on(w: &str) -> (r: Command)
    ensures
        r@ == help_topic(w@),
{
    if either(w, "roll", "r") {
        Command::Help("roll: rolls the dice that aren't held. Counts as a roll!".to_string())
    } else if either(w, "sort", "s") {
        Command::Help("sort: sorts the dice lowest to highest. Clears held dice".to_string())
    } else if either(w, "hold", "h") {
        Command::Help(
            "hold <dice>: holds dice number <dice> exluding it from next rolls".to_string(),
        )
    } else if either(w, "score", "sc") {
        Command::Help(
            "score <type>: submits dice to score where <type> is the number of that score type".to_string(),
        )
    } else if same_text(w, "new") {
        Command::Help("new: starts a new game, refreshing the scores".to_string())
    } else if is_quit(w) {
        Command::Help("quit: quits the game".to_string())
    } else if same_text(w, "help") {
        Command::Help(
            "help <command>: shows possible commands or help for <command> (but you know that...)".to_string(),
        )
    } else {
        Command::NotRecognised("No help found for that".to_string())
    }
}

/// The die that a word numbers from 1 to 5.
fn parse_hold(w: &str) -> (r: Command)
    ensures
        r@ == (match parse_u8_spec(w@) {
            Some(n) => if 1 <= n <= 5 {
                CommandView::Hold(die_numbered(n))
            } else {
                CommandView::NotRecognised("Invalid Dice Number, should be (1-5)"@)
            },
            None => CommandView::NotRecognised(
                "Unable to parse dice number (did you enter a number?)"@,
            ),
        }),
{
    match parse_u8(w) {
        Some(n) => {
            if n == 1 {
                Command::Hold(DiceNum::First)
            } else if n == 2 {
                Command::Hold(DiceNum::Second)
            } else if n == 3 {
                Command::Hold(DiceNum::Third)
            } else if n == 4 {
                Command::Hold(DiceNum::Fourth)
            } else if n == 5 {
                Command::Hold(DiceNum::Fifth)
            } else {
                Command::NotRecognised("Invalid Dice Number, should be (1-5)".to_string())
            }
        },
        None => Command::NotRecognised(
            "Unable to parse dice number (did you enter a number?)".to_string(),
        ),
    }
}

/// Classifies a line given as its whitespace-separated words. Every input
/// gives a command: one that cannot be read is `NotRecognised`, with the
/// reason.
pub fn parse_command_from_input(input: Vec<&str>) -> (r: Command)
    ensures
        r@ == classify(words(input@)),
{
    let ghost t = words(input@);
    if input.len() == 0 {
        return Command::NotRecognised("No input found".to_string());
    }
    let first = input[0];
    assert(t[0] == first@);
    if either(first, "r", "roll") {
        Command::Roll
    } else if either(first, "s", "sort") {
        Command::Sort
    } else if either(first, "h", "hold") {
        if input.len() < 2 {
            Command::NotRecognised("Couldn't find command args".to_string())
        } else {
            assert(t[1] == input@[1]@);
            parse_hold(input[1])
        }
    } else if either(first, "sc", "score") {
        if input.len() < 2 {
            Command::NotRecognised("No score tpye found".to_string())
        } else {
            assert(t[1] == input@[1]@);
            match parse_score_type(input[1]) {
                Some(c) => Command::Score(c),
                None => Command::NotRecognised("Invalid score type".to_string()),
            }
        }
    } else if same_text(first, "help") {
        if input.len() < 2 {
            Command::Help(
                "commands: roll, sort, hold <dice>, score <type>, new, quit, help <command>".to_string(),
            )
        } else {
            assert(t[1] == input@[1]@);
            help_on(input[1])
        }
    } else if same_text(first, "new") {
        Command::New
    } else if is_quit(first) {
        Command::Quit
    } else {
        Command::NotRecognised("Invalid command, try 'help' for list of commands".to_string())
    }
}

} // verus!
