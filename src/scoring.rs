use vstd::prelude::*;

use crate::category::ScoreType;
use crate::dice::{all_faces, is_face, Roll};

verus! {

/// How many of the dice in `s` show `v`.
pub open spec fn count_of(s: Seq<u8>, v: u8) -> nat
    decreases s.len(),
{
    if s.len() == 0 {
        0
    } else {
        count_of(s.drop_last(), v) + if s.last() == v {
            1nat
        } else {
            0nat
        }
    }
}

/// The sum of the values in `s`.
pub open spec fn sum_of(s: Seq<u8>) -> nat
    decreases s.len(),
{
    if s.len() == 0 {
        0
    } else {
        sum_of(s.drop_last()) + s.last() as nat
    }
}

/// Score of an upper category: the face value times the dice that show it.
pub open spec fn upper_score(s: Seq<u8>, v: u8) -> nat {
    v as nat * count_of(s, v)
}

/// Some face shows on at least four dice.
pub open spec fn has_four_of_kind(s: Seq<u8>) -> bool {
    exists|v: u8| is_face(v) && count_of(s, v) >= 4
}

/// Four times the face that shows on at least four dice, or 0 when none does.
pub open spec fn four_of_kind_score(s: Seq<u8>) -> nat {
    if has_four_of_kind(s) {
        4 * (choose|v: u8| is_face(v) && count_of(s, v) >= 4) as nat
    } else {
        0
    }
}

/// One face shows on exactly three dice and another on exactly two.
pub open spec fn is_full_house(s: Seq<u8>) -> bool {
    exists|v: u8, w: u8|
        is_face(v) && is_face(w) && #[trigger] count_of(s, v) == 3 && #[trigger] count_of(s, w)
            == 2
}

/// All dice show the same value.
pub open spec fn all_same(s: Seq<u8>) -> bool {
    forall|i: int| 0 <= i < s.len() ==> #[trigger] s[i] == s[0]
}

/// The points that the dice `s`, in their order, are worth in category `c`.
pub open spec fn score_of(s: Seq<u8>, c: ScoreType) -> nat {
    match c {
        ScoreType::Aces => upper_score(s, 1),
        ScoreType::Twos => upper_score(s, 2),
        ScoreType::Threes => upper_score(s, 3),
        ScoreType::Fours => upper_score(s, 4),
        ScoreType::Fives => upper_score(s, 5),
        ScoreType::Sixes => upper_score(s, 6),
        ScoreType::FourOfKind => four_of_kind_score(s),
        ScoreType::FullHouse => if is_full_house(s) {
            25
        } else {
            0
        },
        ScoreType::LittleStraight => if s == seq![1u8, 2, 3, 4, 5] {
            30
        } else {
            0
        },
        ScoreType::BigStraight => if s == seq![2u8, 3, 4, 5, 6] {
            30
        } else {
            0
        },
        ScoreType::Yacht => if all_same(s) {
            50
        } else {
            0
        },
        ScoreType::Chance => sum_of(s),
    }
}

/// The most that five dice can be worth in category `c`.
pub open spec fn max_score(c: ScoreType) -> nat {
    match c {
        ScoreType::Aces => 5,
        ScoreType::Twos => 10,
        ScoreType::Threes => 15,
        ScoreType::Fours => 20,
        ScoreType::Fives => 25,
        ScoreType::Sixes => 30,
        ScoreType::FourOfKind => 24,
        ScoreType::FullHouse => 25,
        ScoreType::LittleStraight => 30,
        ScoreType::BigStraight => 30,
        ScoreType::Yacht => 50,
        ScoreType::Chance => 30,
    }
}

/// No value shows on more dice than there are.
pub proof fn lemma_count_le_len(s: Seq<u8>, v: u8)
    ensures
        count_of(s, v) <= s.len(),
    decreases s.len(),
{
    if s.len() > 0 {
        lemma_count_le_len(s.drop_last(), v);
    }
}

/// Dice that show faces sum to at most six per die.
pub proof fn lemma_sum_le_six_each(s: Seq<u8>)
    requires
        all_faces(s),
    ensures
        sum_of(s) <= 6 * s.len(),
    decreases s.len(),
{
    if s.len() > 0 {
        assert(all_faces(s.drop_last())) by {
            assert forall|i: int| 0 <= i < s.drop_last().len() implies is_face(
                #[trigger] s.drop_last()[i],
            ) by {
                assert(s.drop_last()[i] == s[i]);
            }
        }
        lemma_sum_le_six_each(s.drop_last());
        assert(is_face(s[s.len() - 1]));
    }
}

/// Five dice that show faces are never worth more than the category's
/// maximum.
pub proof fn lemma_score_at_most_max(s: Seq<u8>, c: ScoreType)
    requires
        s.len() == 5,
        all_faces(s),
    ensures
        score_of(s, c) <= max_score(c),
{
    match c {
        ScoreType::Chance => lemma_sum_le_six_each(s),
        ScoreType::FourOfKind => {
            if has_four_of_kind(s) {
                let v = choose|v: u8| is_face(v) && count_of(s, v) >= 4;
                assert(is_face(v));
            }
        },
        ScoreType::FullHouse | ScoreType::LittleStraight | ScoreType::BigStraight
        | ScoreType::Yacht => {},
        _ => {
            let v: u8 = match c {
                ScoreType::Aces => 1,
                ScoreType::Twos => 2,
                ScoreType::Threes => 3,
                ScoreType::Fours => 4,
                ScoreType::Fives => 5,
                _ => 6,
            };
            let n = count_of(s, v);
            lemma_count_le_len(s, v);
            assert(v as nat * n <= v as nat * 5) by (nonlinear_arith)
                requires
                    n <= 5,
            ;
        },
    }
}

/// Two different values together show on no more dice than there are.
pub proof fn lemma_two_counts_le_len(s: Seq<u8>, v: u8, w: u8)
    requires
        v != w,
    ensures
        count_of(s, v) + count_of(s, w) <= s.len(),
    decreases s.len(),
{
    if s.len() > 0 {
        lemma_two_counts_le_len(s.drop_last(), v, w);
    }
}

/// Extending a prefix by one element: dropping that element gives the
/// shorter prefix back.
pub proof fn lemma_prefix_step<A>(s: Seq<A>, i: int)
    requires
        0 <= i < s.len(),
    ensures
        s.subrange(0, i + 1).drop_last() == s.subrange(0, i),
        s.subrange(0, i + 1).last() == s[i],
{
    assert(s.subrange(0, i + 1).drop_last() =~= s.subrange(0, i));
}

/// How many of the five dice show `v`.
pub fn count_face(dice: &[u8; 5], v: u8) -> (r: u8)
    ensures
        r == count_of(dice@, v),
        r <= 5,
{
    let mut n: u8 = 0;
    let mut i: usize = 0;
    while i < 5
        invariant
            i <= 5,
            n == count_of(dice@.subrange(0, i as int), v),
            n <= i,
        decreases 5 - i,
    {
        proof {
            lemma_prefix_step(dice@, i as int);
        }
        if dice[i] == v {
            n = n + 1;
        }
        i = i + 1;
    }
    assert(dice@.subrange(0, 5) =~= dice@);
    n
}

/// Score of the upper category of face `n`: `n` for each die that shows it.
pub fn upper(roll: &Roll, n: u8) -> (r: u8)
    requires
        is_face(n),
    ensures
        r == upper_score(roll.dice@, n),
{
    let mut x: u8 = 0;
    let mut i: usize = 0;
    proof {
        let c0 = count_of(roll.dice@.subrange(0, 0), n);
        assert(c0 == 0);
        assert(n as nat * c0 == 0) by (nonlinear_arith)
            requires
                c0 == 0,
        ;
    }
    while i < 5
        invariant
            i <= 5,
            is_face(n),
            x == n as nat * count_of(roll.dice@.subrange(0, i as int), n),
            count_of(roll.dice@.subrange(0, i as int), n) <= i,
        decreases 5 - i,
    {
        proof {
            lemma_prefix_step(roll.dice@, i as int);
            let c = count_of(roll.dice@.subrange(0, i as int), n);
            assert(n as nat * (c + 1) == n as nat * c + n) by (nonlinear_arith);
            assert(n as nat * c <= 6 * 4) by (nonlinear_arith)
                requires
                    n <= 6,
                    c <= 4,
            ;
        }
        if roll.dice[i] == n {
            x = x + n;
        }
        i = i + 1;
    }
    assert(roll.dice@.subrange(0, 5) =~= roll.dice@);
    x
}

/// The sum of the five dice.
fn dice_sum(dice: &[u8; 5]) -> (r: u8)
    requires
        all_faces(dice@),
    ensures
        r == sum_of(dice@),
{
    let mut total: u8 = 0;
    let mut i: usize = 0;
    while i < 5
        invariant
            i <= 5,
            all_faces(dice@),
            total == sum_of(dice@.subrange(0, i as int)),
            total <= 6 * i,
        decreases 5 - i,
    {
        proof {
            lemma_prefix_step(dice@, i as int);
        }
        total = total + dice[i];
        i = i + 1;
    }
    assert(dice@.subrange(0, 5) =~= dice@);
    total
}

/// Four times the face that shows on at least four dice, or 0.
fn four_of_kind(dice: &[u8; 5]) -> (r: u8)
    ensures
        r == four_of_kind_score(dice@),
{
    let mut v: u8 = 1;
    while v <= 6
        invariant
            1 <= v <= 7,
            forall|u: u8| 1 <= u < v ==> count_of(dice@, u) < 4,
        decreases 7 - v,
    {
        if count_face(dice, v) >= 4 {
            proof {
                assert(is_face(v) && count_of(dice@, v) >= 4);
                assert(has_four_of_kind(dice@));
                let w = choose|w: u8| is_face(w) && count_of(dice@, w) >= 4;
                if w != v {
                    lemma_two_counts_le_len(dice@, v, w);
                }
            }
            return 4 * v;
        }
        v = v + 1;
    }
    0
}

/// Some face shows on exactly three dice and another on exactly two.
fn full_house(dice: &[u8; 5]) -> (r: bool)
    ensures
        r == is_full_house(dice@),
{
    let mut three = false;
    let mut two = false;
    let mut v: u8 = 1;
    while v <= 6
        invariant
            1 <= v <= 7,
            three == exists|u: u8| 1 <= u < v && #[trigger] count_of(dice@, u) == 3,
            two == exists|u: u8| 1 <= u < v && #[trigger] count_of(dice@, u) == 2,
        decreases 7 - v,
    {
        let n = count_face(dice, v);
        if n == 3 {
            three = true;
        }
        if n == 2 {
            two = true;
        }
        v = v + 1;
    }
    three && two
}

/// All five dice show the same value.
fn yacht(dice: &[u8; 5]) -> (r: bool)
    ensures
        r == all_same(dice@),
{
    let first = dice[0];
    let mut i: usize = 1;
    while i < 5
        invariant
            1 <= i <= 5,
            first == dice@[0],
            forall|k: int| 0 <= k < i ==> dice@[k] == first,
        decreases 5 - i,
    {
        if dice[i] != first {
            return false;
        }
        i = i + 1;
    }
    true
}

/// The points that the roll, in its current order, is worth in a category.
pub fn evaluate_score(roll: &Roll, score_type: &ScoreType) -> (r: u8)
    requires
        roll.wf(),
    ensures
        r == score_of(roll.dice@, *score_type),
{
    match score_type {
        ScoreType::Aces => upper(roll, 1),
        ScoreType::Twos => upper(roll, 2),
        ScoreType::Threes => upper(roll, 3),
        ScoreType::Fours => upper(roll, 4),
        ScoreType::Fives => upper(roll, 5),
        ScoreType::Sixes => upper(roll, 6),
        ScoreType::FourOfKind => four_of_kind(&roll.dice),
        ScoreType::FullHouse => {
            if full_house(&roll.dice) {
                25
            } else {
                0
            }
        },
        ScoreType::LittleStraight => {
            let d = &roll.dice;
            if d[0] == 1 && d[1] == 2 && d[2] == 3 && d[3] == 4 && d[4] == 5 {
                assert(roll.dice@ =~= seq![1u8, 2, 3, 4, 5]);
                30
            } else {
                0
            }
        },
        ScoreType::BigStraight => {
            let d = &roll.dice;
            if d[0] == 2 && d[1] == 3 && d[2] == 4 && d[3] == 5 && d[4] == 6 {
                assert(roll.dice@ =~= seq![2u8, 3, 4, 5, 6]);
                30
            } else {
                0
            }
        },
        ScoreType::Yacht => {
            if yacht(&roll.dice) {
                50
            } else {
                0
            }
        },
        ScoreType::Chance => dice_sum(&roll.dice),
    }
}

} // verus!
