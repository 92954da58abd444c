use vstd::prelude::*;
use vstd::string::StringExecFns;

use crate::category::{ScoreType, CATEGORY_COUNT};
use crate::command::{Command, CommandView};
use crate::dice::{all_faces, is_sorted, rerolled, toggled, DiceNum, Roll};
use crate::ledger::{empty_table, record, recorded_count, ScoreTable};
use crate::text::{digit_char, digit_text};

verus! {

/// Where a game stands: which roll of the turn comes next, or over.
#[derive(PartialEq, Eq, Structural, Clone, Copy, Debug)]
pub enum GameStates {
    FirstRoll,
    SecondRoll,
    ThirdRoll,
    GameOver,
}

/// The state after one more roll in the turn.
pub open spec fn after_roll(s: GameStates) -> GameStates {
    match s {
        GameStates::FirstRoll => GameStates::SecondRoll,
        GameStates::SecondRoll => GameStates::ThirdRoll,
        _ => s,
    }
}

/// The commands that act on the game itself.
pub open spec fn is_game_action(c: Command) -> bool {
    c is Roll || c is Sort || c is Score || c is Hold || c is New
}

/// The message that reports a hold flag flipped to `held` on die `d`.
pub open spec fn hold_message(held: bool, d: DiceNum) -> Seq<char> {
    (if held {
        "Held dice number "@
    } else {
        "Unheld dice number "@
    }) + seq![digit_char((d.index() + 1) as nat)]
}

/// A roll that shows `draws` with nothing held.
pub open spec fn fresh_roll(r: Roll, draws: Seq<u8>) -> bool {
    r.dice@ == draws && r.none_held()
}

/// Applying `cmd` to the game `pre`, with `draws` as the faces of any dice
/// thrown, gives the game `post`.
pub open spec fn applied(pre: Game, cmd: Command, draws: Seq<u8>, post: Game) -> bool {
    match cmd {
        Command::Roll => if pre.game_state is ThirdRoll {
            &&& post.game_state == pre.game_state
            &&& post.current_roll == pre.current_roll
            &&& post.score_table.table@ == pre.score_table.table@
            &&& post.msg@ == "No more rolls available this round, try 'score'"@
        } else {
            &&& post.game_state == after_roll(pre.game_state)
            &&& post.current_roll.dice@ == rerolled(
                pre.current_roll.dice@,
                pre.current_roll.holds@,
                draws,
            )
            &&& post.current_roll.holds == pre.current_roll.holds
            &&& post.score_table.table@ == pre.score_table.table@
            &&& post.msg@ == "Onto next roll"@
        },
        Command::Sort => {
            &&& post.game_state == pre.game_state
            &&& is_sorted(post.current_roll.dice@)
            &&& post.current_roll.dice@.to_multiset() == pre.current_roll.dice@.to_multiset()
            &&& post.current_roll.none_held()
            &&& post.score_table.table@ == pre.score_table.table@
            &&& post.msg@ == "Dice Sorted!"@
        },
        Command::Score(c) => {
            let (ok, t) = record(pre.score_table.table@, c, pre.current_roll.dice@);
            if !ok {
                &&& post.game_state == pre.game_state
                &&& post.current_roll == pre.current_roll
                &&& post.score_table.table@ == pre.score_table.table@
                &&& post.msg@ == "That score type was already used!"@
            } else if recorded_count(t) == CATEGORY_COUNT {
                &&& post.game_state == GameStates::GameOver
                &&& post.current_roll == pre.current_roll
                &&& post.score_table.table@ == t
                &&& post.msg@ == "Game Over! Type 'new' to start a new game!"@
            } else {
                &&& post.game_state == GameStates::FirstRoll
                &&& fresh_roll(post.current_roll, draws)
                &&& post.score_table.table@ == t
                &&& post.msg@ == "Score submitted!"@
            }
        },
        Command::Hold(d) => {
            &&& post.game_state == pre.game_state
            &&& post.current_roll.dice == pre.current_roll.dice
            &&& post.current_roll.holds@ == toggled(pre.current_roll.holds@, d.index())
            &&& post.score_table.table@ == pre.score_table.table@
            &&& post.msg@ == hold_message(post.current_roll.holds@[d.index()], d)
        },
        Command::New => {
            &&& post.game_state == GameStates::FirstRoll
            &&& fresh_roll(post.current_roll, draws)
            &&& post.score_table.table@ == empty_table()
            &&& post.msg@ == "New Game Started"@
        },
        _ => false,
    }
}

/// Asking for a roll when the turn's three rolls are used up changes
/// neither the dice nor the state, whatever would have been drawn.
pub proof fn lemma_roll_after_third_is_inert(pre: Game, draws: Seq<u8>, post: Game)
    requires
        pre.game_state is ThirdRoll,
        applied(pre, Command::Roll, draws, post),
    ensures
        post.current_roll.dice == pre.current_roll.dice,
        post.current_roll.holds == pre.current_roll.holds,
        post.game_state == pre.game_state,
        post.score_table.table@ == pre.score_table.table@,
{
}

/// The dice, the ledger, the turn state and the last outcome message.
pub struct Game {
    pub game_state: GameStates,
    pub current_roll: Roll,
    pub score_table: ScoreTable,
    pub msg: String,
}

impl Game {
    /// The dice show faces, and the game is over exactly when every category
    /// has a score.
    pub open spec fn wf(&self) -> bool {
        &&& self.current_roll.wf()
        &&& self.score_table.wf()
        &&& (self.game_state is GameOver <==> recorded_count(self.score_table.table@)
            == CATEGORY_COUNT)
    }

    /// A new game: a fresh roll, an empty ledger, the first roll of a turn.
    pub fn new() -> (r: Self)
        ensures
            r.wf(),
            r.game_state == GameStates::FirstRoll,
            r.current_roll.none_held(),
            r.score_table.table@ == empty_table(),
            r.msg@ == ""@,
    {
        let g = Game {
            game_state: GameStates::FirstRoll,
            current_roll: Roll::new(),
            score_table: ScoreTable::new(),
            msg: String::from_str(""),
        };
        proof {
            crate::ledger::lemma_empty_count();
        }
        g
    }

    /// Moves on to the next roll of the turn.
    pub fn advance_gamestate(&mut self)
        requires
            old(self).game_state is FirstRoll || old(self).game_state is SecondRoll,
        ensures
            final(self).game_state == after_roll(old(self).game_state),
            final(self).current_roll == old(self).current_roll,
            final(self).score_table == old(self).score_table,
            final(self).msg == old(self).msg,
    {
        match self.game_state {
            GameStates::FirstRoll => self.game_state = GameStates::SecondRoll,
            _ => self.game_state = GameStates::ThirdRoll,
        }
    }

    /// The message for a hold flag flipped to `held` on die `d`.
    fn hold_text(held: bool, d: &DiceNum) -> (r: String)
        ensures
            r@ == hold_message(held, *d),
    {
        let mut s = if held {
            String::from_str("Held dice number ")
        } else {
            String::from_str("Unheld dice number ")
        };
        s.append(digit_text((d.to_index() + 1) as u8));
        s
    }

    /// Applies a game command, with `draws` as the faces of any dice thrown,
    /// records the outcome message and returns it.
    pub fn apply_with_draws(&mut self, command: &Command, draws: [u8; 5]) -> (r: String)
        requires
            old(self).wf(),
            all_faces(draws@),
            is_game_action(*command),
            command is Roll ==> !(old(self).game_state is GameOver),
        ensures
            final(self).wf(),
            applied(*old(self), *command, draws@, *final(self)),
            r@ == final(self).msg@,
    {
        let ghost pre_count = recorded_count(self.score_table.table@);
        match command {
            Command::Roll => {
                if self.game_state == GameStates::ThirdRoll {
                    self.msg = String::from_str("No more rolls available this round, try 'score'");
                } else {
                    self.current_roll.reroll_unheld(draws);
                    self.advance_gamestate();
                    self.msg = String::from_str("Onto next roll");
                }
            },
            Command::Sort => {
                self.current_roll.sort_ascending();
                self.msg = String::from_str("Dice Sorted!");
            },
            Command::Score(score_type) => {
                if self.score_table.score_on_table(score_type, &self.current_roll) {
                    proof {
                        crate::ledger::lemma_count_fill(
                            old(self).score_table.table@,
                            score_type.index() as int,
                            self.score_table.table@[score_type.index() as int]->0,
                        );
                        assert(self.score_table.table@ == old(self).score_table.table@.update(
                            score_type.index() as int,
                            Some(self.score_table.table@[score_type.index() as int]->0),
                        ));
                    }
                    if self.score_table.is_full() {
                        self.game_state = GameStates::GameOver;
                        self.msg = String::from_str("Game Over! Type 'new' to start a new game!");
                    } else {
                        self.game_state = GameStates::FirstRoll;
                        self.current_roll = Roll {
                            dice: draws,
                            holds: [false, false, false, false, false],
                        };
                        self.msg = String::from_str("Score submitted!");
                    }
                } else {
                    self.msg = String::from_str("That score type was already used!");
                }
            },
            Command::Hold(hold_num) => {
                let held = self.current_roll.hold(hold_num);
                self.msg = Game::hold_text(held, hold_num);
            },
            Command::New => {
                self.score_table.reset_scores();
                self.current_roll = Roll {
                    dice: draws,
                    holds: [false, false, false, false, false],
                };
                self.game_state = GameStates::FirstRoll;
                self.msg = String::from_str("New Game Started");
                proof {
                    crate::ledger::lemma_empty_count();
                }
            },
            _ => {},
        }
        self.msg.clone()
    }
    /// Applies a game command, throwing dice where it calls for them; records
    /// the outcome message and returns it.
    pub fn attempt_command(&mut self, command: &Command) -> (r: String)
        requires
            old(self).wf(),
            is_game_action(*command),
            command is Roll ==> !(old(self).game_state is GameOver),
        ensures
            final(self).wf(),
            exists|draws: Seq<u8>|
                draws.len() == 5 && all_faces(draws) && #[trigger] applied(
                    *old(self),
                    *command,
                    draws,
                    *final(self),
                ),
            r@ == final(self).msg@,
    {
        let draws = Roll::gen_roll();
        let r = self.apply_with_draws(command, draws);
        assert(applied(*old(self), *command, draws@, *self));
        r
    }

    /// The command that the game acts on for `command`: once the game is
    /// over, anything but quitting starts a new game.
    pub fn resolve_command(&self, command: Command) -> (r: Command)
        ensures
            r@ == (if command is Quit || !(self.game_state is GameOver) {
                command@
            } else {
                CommandView::New
            }),
    {
        match command {
            Command::Quit => Command::Quit,
            _ => {
                if self.game_state == GameStates::GameOver {
                    Command::New
                } else {
                    command
                }
            },
        }
    }

    /// Handles one classified line of input: returns false on quitting and
    /// leaves the game as it is; shows the text of help or of an unreadable
    /// line; else applies the command, which becomes a new game once the game
    /// is over.
    pub fn handle_command(&mut self, command: Command) -> (keep_going: bool)
        requires
            old(self).wf(),
        ensures
            final(self).wf(),
            keep_going == !(command is Quit),
            command is Quit ==> *final(self) == *old(self),
            !(command is Quit) && old(self).game_state is GameOver ==> exists|draws: Seq<u8>|
                draws.len() == 5 && all_faces(draws) && #[trigger] applied(
                    *old(self),
                    Command::New,
                    draws,
                    *final(self),
                ),
            !(old(self).game_state is GameOver) ==> match command {
                Command::Quit => true,
                Command::Help(s) => {
                    &&& final(self).msg@ == s@
                    &&& final(self).game_state == old(self).game_state
                    &&& final(self).current_roll == old(self).current_roll
                    &&& final(self).score_table == old(self).score_table
                },
                Command::NotRecognised(s) => {
                    &&& final(self).msg@ == s@
                    &&& final(self).game_state == old(self).game_state
                    &&& final(self).current_roll == old(self).current_roll
                    &&& final(self).score_table == old(self).score_table
                },
                _ => exists|draws: Seq<u8>|
                    draws.len() == 5 && all_faces(draws) && #[trigger] applied(
                        *old(self),
                        command,
                        draws,
                        *final(self),
                    ),
            },
    {
        let command = self.resolve_command(command);
        match command {
            Command::Quit => false,
            Command::Help(s) => {
                self.msg = s;
                true
            },
            Command::NotRecognised(s) => {
                self.msg = s;
                true
            },
            _ => {
                self.attempt_command(&command);
                true
            },
        }
    }
}

} // verus!
