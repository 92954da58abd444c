use rand::Rng;
use vstd::prelude::*;

verus! {

broadcast use vstd::multiset::group_multiset_axioms;

/// A value that a die can show.
pub open spec fn is_face(v: u8) -> bool {
    1 <= v <= 6
}

/// Every value of `s` is a die face.
pub open spec fn all_faces(s: Seq<u8>) -> bool {
    forall|i: int| 0 <= i < s.len() ==> is_face(#[trigger] s[i])
}

/// `s` is in non-decreasing order.
pub open spec fn is_sorted(s: Seq<u8>) -> bool {
    forall|i: int, j: int| 0 <= i < j < s.len() ==> s[i] <= s[j]
}

/// The hold flags after flipping the one at `i`.
pub open spec fn toggled(holds: Seq<bool>, i: int) -> Seq<bool> {
    holds.update(i, !holds[i])
}

/// The dice after a reroll: a held die keeps its value, any other takes the
/// matching draw.
pub open spec fn rerolled(dice: Seq<u8>, holds: Seq<bool>, draws: Seq<u8>) -> Seq<u8> {
    Seq::new(dice.len(), |i: int| if holds[i] { dice[i] } else { draws[i] })
}

/// Flipping the same hold flag twice gives back the flags one started with.
pub proof fn lemma_toggle_twice(holds: Seq<bool>, i: int)
    requires
        0 <= i < holds.len(),
    ensures
        toggled(toggled(holds, i), i) == holds,
{
    assert(toggled(toggled(holds, i), i) =~= holds);
}

/// Reordering dice keeps every value a face.
pub proof fn lemma_reordered_faces(a: Seq<u8>, b: Seq<u8>)
    requires
        all_faces(a),
        a.to_multiset() == b.to_multiset(),
    ensures
        all_faces(b),
{
    assert forall|i: int| 0 <= i < b.len() implies is_face(#[trigger] b[i]) by {
        vstd::seq_lib::to_multiset_contains(b, b[i]);
        assert(b.contains(b[i]));
        vstd::seq_lib::to_multiset_contains(a, b[i]);
    }
}

/// One of the five dice, by position.
#[derive(PartialEq, Eq, Structural, Clone, Copy, Debug)]
pub enum DiceNum {
    First,
    Second,
    Third,
    Fourth,
    Fifth,
}

impl DiceNum {
    /// Position of the die, from 0 to 4.
    pub open spec fn index(self) -> int {
        match self {
            DiceNum::First => 0,
            DiceNum::Second => 1,
            DiceNum::Third => 2,
            DiceNum::Fourth => 3,
            DiceNum::Fifth => 4,
        }
    }

    /// Position of the die, from 0 to 4.
    pub fn to_index(&self) -> (r: usize)
        ensures
            r == self.index(),
            r < 5,
    {
        match self {
            DiceNum::First => 0,
            DiceNum::Second => 1,
            DiceNum::Third => 2,
            DiceNum::Fourth => 3,
            DiceNum::Fifth => 4,
        }
    }
}

/// Relies on rand::thread_rng and Rng::gen_range: a draw from `1..=6` lies in
/// that range.
#[verifier::external_body]
fn draw_face() -> (r: u8)
    ensures
        is_face(r),
{
    rand::thread_rng().gen_range(1..=6)
}

/// Five dice and, for each, whether it is held out of the next reroll.
pub struct Roll {
    pub dice: [u8; 5],
    pub holds: [bool; 5],
}

impl Roll {
    /// Every die shows a face.
    pub open spec fn wf(&self) -> bool {
        all_faces(self.dice@)
    }

    /// No die is held.
    pub open spec fn none_held(&self) -> bool {
        forall|i: int| 0 <= i < 5 ==> !#[trigger] self.holds@[i]
    }

    /// A fresh roll: five drawn faces, nothing held.
    pub fn new() -> (r: Roll)
        ensures
            r.wf(),
            r.none_held(),
    {
        Roll { dice: Roll::gen_roll(), holds: [false, false, false, false, false] }
    }

    /// A roll that shows the given faces in the given order, nothing held.
    pub fn _new_fake(roll_tuple: (u8, u8, u8, u8, u8)) -> (r: Roll)
        requires
            is_face(roll_tuple.0),
            is_face(roll_tuple.1),
            is_face(roll_tuple.2),
            is_face(roll_tuple.3),
            is_face(roll_tuple.4),
        ensures
            r.wf(),
            r.none_held(),
            r.dice@ == seq![roll_tuple.0, roll_tuple.1, roll_tuple.2, roll_tuple.3, roll_tuple.4],
    {
        let r = Roll {
            dice: [roll_tuple.0, roll_tuple.1, roll_tuple.2, roll_tuple.3, roll_tuple.4],
            holds: [false, false, false, false, false],
        };
        assert(r.dice@ =~= seq![roll_tuple.0, roll_tuple.1, roll_tuple.2, roll_tuple.3, roll_tuple.4]);
        r
    }

    /// Five independently drawn faces.
    pub fn gen_roll() -> (r: [u8; 5])
        ensures
            all_faces(r@),
    {
        let a = draw_face();
        let b = draw_face();
        let c = draw_face();
        let d = draw_face();
        let e = draw_face();
        [a, b, c, d, e]
    }

    /// Puts the dice in non-decreasing order; the holds stay as they are.
    pub fn sort(&mut self)
        ensures
            is_sorted(final(self).dice@),
            final(self).dice@.to_multiset() == old(self).dice@.to_multiset(),
            final(self).holds == old(self).holds,
    {
        let mut i: usize = 1;
        while i < 5
            invariant
                1 <= i <= 5,
                forall|a: int, b: int| 0 <= a < b < i ==> self.dice@[a] <= self.dice@[b],
                self.dice@.to_multiset() == old(self).dice@.to_multiset(),
                self.holds == old(self).holds,
            decreases 5 - i,
        {
            let mut j: usize = i;
            while j > 0 && self.dice[j - 1] > self.dice[j]
                invariant
                    1 <= i < 5,
                    j <= i,
                    forall|a: int, b: int|
                        0 <= a < b <= i && b != j ==> self.dice@[a] <= self.dice@[b],
                    self.dice@.to_multiset() == old(self).dice@.to_multiset(),
                    self.holds == old(self).holds,
                decreases j,
            {
                let ghost before = self.dice@;
                let t = self.dice[j - 1];
                self.dice[j - 1] = self.dice[j];
                self.dice[j] = t;
                proof {
                    let x = before[j as int];
                    let y = before[j - 1];
                    let mid = before.update(j - 1, x);
                    vstd::seq_lib::to_multiset_update(before, j - 1, x);
                    vstd::seq_lib::to_multiset_update(mid, j as int, y);
                    assert(mid.to_multiset() == before.to_multiset().insert(x).remove(y));
                    assert(self.dice@ == mid.update(j as int, y));
                    assert(self.dice@.to_multiset() == mid.to_multiset().insert(y).remove(x));
                    assert(before.contains(y)) by {
                        assert(before[j - 1] == y);
                    }
                    vstd::seq_lib::to_multiset_contains(before, y);
                    assert(self.dice@.to_multiset() =~= before.to_multiset());
                }
                j = j - 1;
            }
            i = i + 1;
        }
    }

    /// Clears every hold flag; the dice stay as they are.
    pub fn reset_holds(&mut self)
        ensures
            final(self).none_held(),
            final(self).dice == old(self).dice,
    {
        self.holds = [false, false, false, false, false];
    }
    /// Sorts the dice into non-decreasing order and clears every hold, as a
    /// hold names a position that no longer means anything after reordering.
    pub fn sort_ascending(&mut self)
        ensures
            is_sorted(final(self).dice@),
            final(self).dice@.to_multiset() == old(self).dice@.to_multiset(),
            final(self).none_held(),
            old(self).wf() ==> final(self).wf(),
    {
        self.sort();
        self.reset_holds();
        proof {
            if old(self).wf() {
                lemma_reordered_faces(old(self).dice@, self.dice@);
            }
        }
    }

    /// Replaces each die that is not held by the draw at its position.
    pub fn reroll_unheld(&mut self, draws: [u8; 5])
        ensures
            final(self).dice@ == rerolled(old(self).dice@, old(self).holds@, draws@),
            final(self).holds == old(self).holds,
    {
        let mut i: usize = 0;
        while i < 5
            invariant
                i <= 5,
                self.holds == old(self).holds,
                forall|k: int|
                    0 <= k < i ==> self.dice@[k] == (if self.holds@[k] {
                        old(self).dice@[k]
                    } else {
                        draws@[k]
                    }),
                forall|k: int| i <= k < 5 ==> self.dice@[k] == old(self).dice@[k],
            decreases 5 - i,
        {
            if !self.holds[i] {
                self.dice[i] = draws[i];
            }
            i = i + 1;
        }
        assert(self.dice@ =~= rerolled(old(self).dice@, old(self).holds@, draws@));
    }

    /// Rerolls every die that is not held; held dice keep their values.
    pub fn roll_with_holds(&mut self)
        requires
            old(self).wf(),
        ensures
            final(self).wf(),
            final(self).holds == old(self).holds,
            forall|i: int| 0 <= i < 5 && old(self).holds@[i] ==> final(self).dice@[i] == old(self).dice@[i],
            exists|d: Seq<u8>|
                d.len() == 5 && all_faces(d) && final(self).dice@ == #[trigger] rerolled(
                    old(self).dice@,
                    old(self).holds@,
                    d,
                ),
    {
        let draws = Roll::gen_roll();
        self.reroll_unheld(draws);
        assert(self.dice@ == rerolled(old(self).dice@, old(self).holds@, draws@));
    }

    /// Flips the hold flag of one die and returns the new flag: true when the
    /// die is now held.
    pub fn hold(&mut self, num: &DiceNum) -> (r: bool)
        ensures
            final(self).holds@ == toggled(old(self).holds@, num.index()),
            r == final(self).holds@[num.index()],
            r == !old(self).holds@[num.index()],
            final(self).dice == old(self).dice,
    {
        let i = num.to_index();
        if self.holds[i] {
            self.holds[i] = false;
            false
        } else {
            self.holds[i] = true;
            true
        }
    }
}

} // verus!
