use vstd::prelude::*;
use vstd::string::StringExecFns;

use crate::category::{ScoreType, CATEGORY_COUNT};
use crate::dice::Roll;
use crate::scoring::{evaluate_score, lemma_prefix_step, lemma_score_at_most_max, max_score, score_of};
use crate::text::{append_decimal, decimal};

verus! {

/// How many slots of `s` hold a score.
pub open spec fn recorded_count(s: Seq<Option<u8>>) -> nat
    decreases s.len(),
{
    if s.len() == 0 {
        0
    } else {
        recorded_count(s.drop_last()) + if s.last() is Some {
            1nat
        } else {
            0nat
        }
    }
}

/// The sum of the scores held in `s`.
pub open spec fn recorded_sum(s: Seq<Option<u8>>) -> nat
    decreases s.len(),
{
    if s.len() == 0 {
        0
    } else {
        recorded_sum(s.drop_last()) + match s.last() {
            Some(v) => v as nat,
            None => 0nat,
        }
    }
}

/// A table with no score recorded.
pub open spec fn empty_table() -> Seq<Option<u8>> {
    Seq::new(CATEGORY_COUNT as nat, |i: int| None)
}

/// Recording category `c` with the dice `dice` in `table`: whether it
/// succeeds, and the table afterwards. It succeeds exactly when `c` has no
/// score yet, and then stores what the dice are worth in `c`.
pub open spec fn record(table: Seq<Option<u8>>, c: ScoreType, dice: Seq<u8>) -> (bool, Seq<
    Option<u8>,
>) {
    if table[c.index() as int] is None {
        (true, table.update(c.index() as int, Some(score_of(dice, c) as u8)))
    } else {
        (false, table)
    }
}

/// Recording a category that has no score succeeds, whatever the dice; once
/// it is recorded, recording it again fails and leaves the table as it is,
/// whatever the dice are then.
pub proof fn lemma_record_once(table: Seq<Option<u8>>, c: ScoreType, d1: Seq<u8>, d2: Seq<u8>)
    requires
        table.len() == CATEGORY_COUNT,
        table[c.index() as int] is None,
    ensures
        record(table, c, d1).0,
        !record(record(table, c, d1).1, c, d2).0,
        record(record(table, c, d1).1, c, d2).1 == record(table, c, d1).1,
{
}

/// A slot count never exceeds the number of slots.
pub proof fn lemma_count_le_len(s: Seq<Option<u8>>)
    ensures
        recorded_count(s) <= s.len(),
    decreases s.len(),
{
    if s.len() > 0 {
        lemma_count_le_len(s.drop_last());
    }
}

/// When every slot is counted, every slot holds a score.
pub proof fn lemma_count_len_all_some(s: Seq<Option<u8>>)
    requires
        recorded_count(s) == s.len(),
    ensures
        forall|i: int| 0 <= i < s.len() ==> #[trigger] s[i] is Some,
    decreases s.len(),
{
    if s.len() > 0 {
        lemma_count_le_len(s.drop_last());
        lemma_count_len_all_some(s.drop_last());
        assert forall|i: int| 0 <= i < s.len() implies #[trigger] s[i] is Some by {
            if i < s.len() - 1 {
                assert(s[i] == s.drop_last()[i]);
            }
        }
    }
}

/// When every slot holds a score, every slot is counted.
pub proof fn lemma_all_some_count(s: Seq<Option<u8>>)
    requires
        forall|i: int| 0 <= i < s.len() ==> #[trigger] s[i] is Some,
    ensures
        recorded_count(s) == s.len(),
    decreases s.len(),
{
    if s.len() > 0 {
        assert forall|i: int| 0 <= i < s.drop_last().len() implies #[trigger] s.drop_last()[i] is Some by {
            assert(s[i] is Some);
        }
        lemma_all_some_count(s.drop_last());
    }
}

/// An empty table counts no score.
pub proof fn lemma_empty_count()
    ensures
        recorded_count(empty_table()) == 0,
{
    lemma_none_count(empty_table());
}

proof fn lemma_none_count(s: Seq<Option<u8>>)
    requires
        forall|i: int| 0 <= i < s.len() ==> #[trigger] s[i] is None,
    ensures
        recorded_count(s) == 0,
    decreases s.len(),
{
    if s.len() > 0 {
        assert forall|i: int| 0 <= i < s.drop_last().len() implies #[trigger] s.drop_last()[i] is None by {
            assert(s[i] is None);
        }
        lemma_none_count(s.drop_last());
    }
}

/// Filling an empty slot adds one to the count.
pub proof fn lemma_count_fill(s: Seq<Option<u8>>, i: int, v: u8)
    requires
        0 <= i < s.len(),
        s[i] is None,
    ensures
        recorded_count(s.update(i, Some(v))) == recorded_count(s) + 1,
    decreases s.len(),
{
    let t = s.update(i, Some(v));
    if i == s.len() - 1 {
        assert(t.drop_last() =~= s.drop_last());
    } else {
        assert(t.drop_last() =~= s.drop_last().update(i, Some(v)));
        lemma_count_fill(s.drop_last(), i, v);
    }
}

/// The ledger never holds more than one score per category, so never more
/// than twelve; once it holds twelve, no category can be recorded any more.
pub proof fn lemma_full_table_refuses(table: Seq<Option<u8>>, c: ScoreType, dice: Seq<u8>)
    requires
        table.len() == CATEGORY_COUNT,
    ensures
        recorded_count(table) <= CATEGORY_COUNT,
        recorded_count(table) == CATEGORY_COUNT ==> !record(table, c, dice).0,
{
    lemma_count_le_len(table);
    if recorded_count(table) == CATEGORY_COUNT {
        lemma_count_len_all_some(table);
        c.lemma_index_round_trip();
    }
}

/// The largest total a ledger can reach: every category at its maximum.
pub const MAX_TOTAL: u16 = 294;

/// Every recorded score is at most what its category can be worth.
pub open spec fn within_caps(table: Seq<Option<u8>>) -> bool {
    forall|i: int|
        0 <= i < table.len() && #[trigger] table[i] is Some ==> table[i]->0 as nat <= max_score(
            ScoreType::spec_from_index(i as nat),
        )
}

/// The sum of the category maxima of the first `n` table positions.
pub open spec fn caps_total(n: nat) -> nat
    decreases n,
{
    if n == 0 {
        0
    } else {
        caps_total((n - 1) as nat) + max_score(ScoreType::spec_from_index((n - 1) as nat))
    }
}

proof fn lemma_sum_within_caps(s: Seq<Option<u8>>)
    requires
        within_caps(s),
    ensures
        recorded_sum(s) <= caps_total(s.len()),
    decreases s.len(),
{
    if s.len() > 0 {
        let t = s.drop_last();
        assert(within_caps(t)) by {
            assert forall|i: int| 0 <= i < t.len() && #[trigger] t[i] is Some implies t[i]->0 as nat
                <= max_score(ScoreType::spec_from_index(i as nat)) by {
                assert(t[i] == s[i]);
            }
        }
        lemma_sum_within_caps(t);
        let k = s.len() - 1;
        assert(s[k] is Some ==> s[k]->0 as nat <= max_score(ScoreType::spec_from_index(k as nat)));
    }
}

/// The total of a ledger whose scores each stay within their category's
/// maximum never exceeds 294.
pub proof fn lemma_total_at_most(table: Seq<Option<u8>>)
    requires
        table.len() == CATEGORY_COUNT,
        within_caps(table),
    ensures
        recorded_sum(table) <= MAX_TOTAL,
{
    lemma_sum_within_caps(table);
    assert(caps_total(12) == 294) by {
        reveal_with_fuel(caps_total, 13);
    }
}

/// Recording the score of five dice that show faces keeps every score
/// within its category's maximum.
pub proof fn lemma_record_within_caps(table: Seq<Option<u8>>, c: ScoreType, dice: Seq<u8>)
    requires
        table.len() == CATEGORY_COUNT,
        within_caps(table),
        dice.len() == 5,
        crate::dice::all_faces(dice),
    ensures
        within_caps(record(table, c, dice).1),
{
    lemma_score_at_most_max(dice, c);
    c.lemma_index_round_trip();
    let t = record(table, c, dice).1;
    assert forall|i: int| 0 <= i < t.len() && #[trigger] t[i] is Some implies t[i]->0 as nat
        <= max_score(ScoreType::spec_from_index(i as nat)) by {
        if i != c.index() {
            assert(t[i] == table[i]);
        }
    }
}

/// The scores recorded so far, one slot per category in table order.
pub struct ScoreTable {
    pub table: [Option<u8>; 12],
}

impl ScoreTable {
    /// Every recorded score is one that some five faces can be worth.
    pub open spec fn wf(&self) -> bool {
        within_caps(self.table@)
    }

    /// The score recorded for `c`, if any.
    pub open spec fn entry(&self, c: ScoreType) -> Option<u8> {
        self.table@[c.index() as int]
    }

    /// An empty ledger.
    pub fn new() -> (r: Self)
        ensures
            r.table@ == empty_table(),
            r.wf(),
    {
        let r = ScoreTable {
            table: [None, None, None, None, None, None, None, None, None, None, None, None],
        };
        assert(r.table@ =~= empty_table());
        r
    }

    /// Clears every recorded score.
    pub fn reset_scores(&mut self)
        ensures
            final(self).table@ == empty_table(),
            final(self).wf(),
    {
        self.table = [None, None, None, None, None, None, None, None, None, None, None, None];
        assert(self.table@ =~= empty_table());
    }

    /// The table cell of `score_type`: a space and the score, or ` X ` while
    /// the category is unused.
    pub fn get_table_value(&self, score_type: &ScoreType) -> (r: String)
        ensures
            r@ == (match self.entry(*score_type) {
                Some(v) => " "@ + decimal(v as nat),
                None => " X "@,
            }),
    {
        match self.table[score_type.to_index()] {
            Some(score) => {
                let mut s = String::from_str(" ");
                append_decimal(&mut s, score);
                s
            },
            None => String::from_str(" X "),
        }
    }

    /// Whether `score_type` already has a score.
    pub fn check_table(&self, score_type: &ScoreType) -> (r: bool)
        ensures
            r == self.entry(*score_type) is Some,
    {
        self.table[score_type.to_index()].is_some()
    }

    /// The score recorded for `score_type`, if any.
    pub fn score(&self, score_type: &ScoreType) -> (r: Option<u8>)
        ensures
            r == self.entry(*score_type),
    {
        self.table[score_type.to_index()]
    }

    /// The sum of all recorded scores; 0 when none is recorded.
    pub fn table_total(&self) -> (r: u16)
        ensures
            r == recorded_sum(self.table@),
            self.wf() ==> r <= MAX_TOTAL,
    {
        proof {
            if self.wf() {
                lemma_total_at_most(self.table@);
            }
        }
        let mut sum: u16 = 0;
        let mut i: usize = 0;
        while i < CATEGORY_COUNT
            invariant
                i <= CATEGORY_COUNT,
                sum == recorded_sum(self.table@.subrange(0, i as int)),
                sum <= 255 * i,
            decreases CATEGORY_COUNT - i,
        {
            proof {
                lemma_prefix_step(self.table@, i as int);
            }
            match self.table[i] {
                Some(v) => {
                    sum = sum + v as u16;
                },
                None => {},
            }
            i = i + 1;
        }
        assert(self.table@.subrange(0, CATEGORY_COUNT as int) =~= self.table@);
        sum
    }

    /// How many categories have a score.
    pub fn recorded(&self) -> (r: usize)
        ensures
            r == recorded_count(self.table@),
            r <= CATEGORY_COUNT,
    {
        let mut n: usize = 0;
        let mut i: usize = 0;
        while i < CATEGORY_COUNT
            invariant
                i <= CATEGORY_COUNT,
                n == recorded_count(self.table@.subrange(0, i as int)),
                n <= i,
            decreases CATEGORY_COUNT - i,
        {
            proof {
                lemma_prefix_step(self.table@, i as int);
            }
            if self.table[i].is_some() {
                n = n + 1;
            }
            i = i + 1;
        }
        assert(self.table@.subrange(0, CATEGORY_COUNT as int) =~= self.table@);
        n
    }

    /// Whether all twelve categories have a score.
    pub fn is_full(&self) -> (r: bool)
        ensures
            r == (recorded_count(self.table@) == CATEGORY_COUNT),
            r <==> forall|c: ScoreType| #[trigger] self.entry(c) is Some,
    {
        let r = self.recorded() == CATEGORY_COUNT;
        proof {
            if r {
                lemma_count_len_all_some(self.table@);
                assert forall|c: ScoreType| #[trigger] self.entry(c) is Some by {
                    c.lemma_index_round_trip();
                }
            } else {
                lemma_count_le_len(self.table@);
                if forall|c: ScoreType| #[trigger] self.entry(c) is Some {
                    assert(false) by {
                        assert forall|i: int| 0 <= i < self.table@.len() implies #[trigger] self.table@[i] is Some by {
                            ScoreType::lemma_from_index_round_trip(i as nat);
                            assert(self.entry(ScoreType::spec_from_index(i as nat)) is Some);
                        }
                        lemma_all_some_count(self.table@);
                    }
                }
            }
        }
        r
    }

    /// Records what `roll` is worth in `score_type`, unless the category
    /// already has a score: then it fails and changes nothing.
    pub fn score_on_table(&mut self, score_type: &ScoreType, roll: &Roll) -> (r: bool)
        requires
            roll.wf(),
        ensures
            (r, final(self).table@) == record(old(self).table@, *score_type, roll.dice@),
            old(self).wf() ==> final(self).wf(),
    {
        proof {
            if old(self).wf() {
                lemma_record_within_caps(old(self).table@, *score_type, roll.dice@);
            }
        }
        if self.check_table(score_type) {
            return false;
        }
        let score = evaluate_score(roll, score_type);
        self.table[score_type.to_index()] = Some(score);
        true
    }
}

} // verus!
