//! Rules engine for a five-dice game of the Yacht family: dice with holds,
//! twelve single-use scoring categories, a score ledger, a turn state machine
//! and the classifier that turns typed words into commands.

pub mod category;
pub mod dice;
pub mod scoring;
pub mod ledger;
pub mod text;
pub mod command;
pub mod game;
