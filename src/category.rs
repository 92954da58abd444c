use vstd::prelude::*;

verus! {

/// The number of scoring categories in a game.
pub const CATEGORY_COUNT: usize = 12;

/// One of the twelve single-use scoring slots.
#[derive(PartialEq, Eq, Structural, Hash, Clone, Copy, Debug)]
pub enum ScoreType {
    Aces,
    Twos,
    Threes,
    Fours,
    Fives,
    Sixes,
    FourOfKind,
    FullHouse,
    LittleStraight,
    BigStraight,
    Yacht,
    Chance,
}

impl ScoreType {
    /// Position of the category in the score table, from 0 to 11.
    pub open spec fn index(self) -> nat {
        match self {
            ScoreType::Aces => 0,
            ScoreType::Twos => 1,
            ScoreType::Threes => 2,
            ScoreType::Fours => 3,
            ScoreType::Fives => 4,
            ScoreType::Sixes => 5,
            ScoreType::FourOfKind => 6,
            ScoreType::FullHouse => 7,
            ScoreType::LittleStraight => 8,
            ScoreType::BigStraight => 9,
            ScoreType::Yacht => 10,
            ScoreType::Chance => 11,
        }
    }

    /// The category at a table position.
    pub open spec fn spec_from_index(i: nat) -> ScoreType
        recommends
            i < 12,
    {
        if i == 0 {
            ScoreType::Aces
        } else if i == 1 {
            ScoreType::Twos
        } else if i == 2 {
            ScoreType::Threes
        } else if i == 3 {
            ScoreType::Fours
        } else if i == 4 {
            ScoreType::Fives
        } else if i == 5 {
            ScoreType::Sixes
        } else if i == 6 {
            ScoreType::FourOfKind
        } else if i == 7 {
            ScoreType::FullHouse
        } else if i == 8 {
            ScoreType::LittleStraight
        } else if i == 9 {
            ScoreType::BigStraight
        } else if i == 10 {
            ScoreType::Yacht
        } else {
            ScoreType::Chance
        }
    }

    /// Table positions and categories correspond one to one.
    pub proof fn lemma_index_round_trip(self)
        ensures
            self.index() < 12,
            Self::spec_from_index(self.index()) == self,
    {
    }

    /// Table positions and categories correspond one to one.
    pub proof fn lemma_from_index_round_trip(i: nat)
        requires
            i < 12,
        ensures
            Self::spec_from_index(i).index() == i,
    {
    }

    /// The category at table position `num`, counted from 0.
    pub fn from_u8(num: u8) -> (r: ScoreType)
        requires
            num < 12,
        ensures
            r.index() == num,
            r == Self::spec_from_index(num as nat),
    {
        match num {
            0 => ScoreType::Aces,
            1 => ScoreType::Twos,
            2 => ScoreType::Threes,
            3 => ScoreType::Fours,
            4 => ScoreType::Fives,
            5 => ScoreType::Sixes,
            6 => ScoreType::FourOfKind,
            7 => ScoreType::FullHouse,
            8 => ScoreType::LittleStraight,
            9 => ScoreType::BigStraight,
            10 => ScoreType::Yacht,
            _ => ScoreType::Chance,
        }
    }

    /// Position of the category in the score table, from 0 to 11.
    pub fn to_index(&self) -> (r: usize)
        ensures
            r == self.index(),
            r < CATEGORY_COUNT,
    {
        match self {
            ScoreType::Aces => 0,
            ScoreType::Twos => 1,
            ScoreType::Threes => 2,
            ScoreType::Fours => 3,
            ScoreType::Fives => 4,
            ScoreType::Sixes => 5,
            ScoreType::FourOfKind => 6,
            ScoreType::FullHouse => 7,
            ScoreType::LittleStraight => 8,
            ScoreType::BigStraight => 9,
            ScoreType::Yacht => 10,
            ScoreType::Chance => 11,
        }
    }
}

} // verus!
