use crate::batch::Batch;
use crate::date::Date;
use vstd::prelude::*;

verus! {

/// One incubation run: one or more egg batches sharing a single start date
/// and, by construction of the schedule, a single projected hatch date.
/// `id` is assigned by the store on creation and is 0 before persistence.
#[derive(Debug, Clone)]
pub struct IncubationSession {
    pub id: i64,
    pub name: String,
    pub start_date: Date,
    pub batches: Vec<Batch>,
}

/// Three-way classification of a batch against "today": its eggs go in
/// today, are not yet due, or are already in the incubator.
#[derive(Debug, Clone, Copy, PartialEq, Eq, Structural)]
pub enum BatchStatus {
    ActionDueToday,
    Pending,
    AlreadyInserted,
}

/// The longest incubation length over a sequence of batches, 0 when the
/// sequence is empty.
pub open spec fn max_days_seq(bs: Seq<Batch>) -> int
    decreases bs.len(),
{
    if bs.len() == 0 {
        0
    } else {
        let rest = max_days_seq(bs.drop_last());
        let d = bs.last().species.spec_incubation_days();
        if d > rest {
            d
        } else {
            rest
        }
    }
}

/// Day on which batch `i`'s eggs must go in so that the batch finishes on
/// the shared hatch date: the shortfall of its incubation length against the
/// longest one, counted from day 1.
pub open spec fn spec_insertion_day(bs: Seq<Batch>, i: int) -> int {
    max_days_seq(bs) - bs[i].species.spec_incubation_days() + 1
}

/// The longest incubation length over any batch list lies between 0 and 30
/// days: the species table tops out at 30.
pub proof fn lemma_max_days_bounds(bs: Seq<Batch>)
    ensures
        0 <= max_days_seq(bs) <= 30,
    decreases bs.len(),
{
    if bs.len() > 0 {
        lemma_max_days_bounds(bs.drop_last());
    }
}

/// `max_days_seq` is exactly the maximum of the per-species incubation
/// lengths over the list: it dominates every entry, it is attained by some
/// entry whenever the list is non-empty, and it is 0 on the empty list.
pub proof fn lemma_max_days_is_max(bs: Seq<Batch>)
    ensures
        forall|i: int|
            0 <= i < bs.len() ==> max_days_seq(bs) >= bs[i].species.spec_incubation_days(),
        bs.len() > 0 ==> exists|i: int|
            0 <= i < bs.len() && max_days_seq(bs) == bs[i].species.spec_incubation_days(),
        bs.len() == 0 ==> max_days_seq(bs) == 0,
    decreases bs.len(),
{
    if bs.len() > 0 {
        lemma_max_days_is_max(bs.drop_last());
        let last = bs.len() - 1;
        let d = bs[last].species.spec_incubation_days();
        assert(forall|i: int| 0 <= i < bs.len() - 1 ==> bs.drop_last()[i] == bs[i]);
        if d > max_days_seq(bs.drop_last()) {
            assert(max_days_seq(bs) == bs[last].species.spec_incubation_days());
        } else {
            if bs.len() > 1 {
                let j = choose|j: int|
                    0 <= j < bs.drop_last().len() && max_days_seq(bs.drop_last()) == bs.drop_last()[j].species.spec_incubation_days();
                assert(max_days_seq(bs) == bs[j].species.spec_incubation_days());
            }
        }
    }
}

/// Every batch's insertion day lies between day 1 and the shared countdown's
/// length, and a batch of the longest-incubating species goes in on day 1.
pub proof fn lemma_insertion_day_in_schedule(bs: Seq<Batch>, i: int)
    requires
        0 <= i < bs.len(),
    ensures
        1 <= spec_insertion_day(bs, i) <= max_days_seq(bs),
        bs[i].species.spec_incubation_days() == max_days_seq(bs) ==> spec_insertion_day(bs, i)
            == 1,
{
    lemma_max_days_is_max(bs);
}

impl IncubationSession {
    /// The session's whole schedule is anchored on this: the longest
    /// incubation length among its batches.
    pub open spec fn spec_max_incubation_days(self) -> int {
        max_days_seq(self.batches@)
    }

    /// Session day counted against an explicit "today": day 1 is the start
    /// date itself.
    pub open spec fn spec_current_session_day(self, today: Date) -> int {
        today.day_number - self.start_date.day_number + 1
    }

    pub open spec fn spec_batch_status(self, i: int, today: Date) -> BatchStatus {
        let cur = self.spec_current_session_day(today);
        let ins = spec_insertion_day(self.batches@, i);
        if cur == ins {
            BatchStatus::ActionDueToday
        } else if cur < ins {
            BatchStatus::Pending
        } else {
            BatchStatus::AlreadyInserted
        }
    }

    /// The maximum of the incubation lengths over all batches in the
    /// session; 0 when the session has no batches.  Never fails.
    pub fn max_incubation_days(&self) -> (d: i64)
        ensures
            d == self.spec_max_incubation_days(),
            0 <= d <= 30,
    {
        let mut m: i64 = 0;
        let mut i: usize = 0;
        proof {
            lemma_max_days_bounds(self.batches@);
        }
        while i < self.batches.len()
            invariant
                0 <= i <= self.batches.len(),
                0 <= m <= 30,
                m == max_days_seq(self.batches@.take(i as int)),
            decreases self.batches.len() - i,
        {
            let d = self.batches[i].species.incubation_days();
            proof {
                assert(self.batches@.take(i + 1).drop_last() =~= self.batches@.take(i as int));
                assert(self.batches@.take(i + 1).last() == self.batches@[i as int]);
            }
            if d > m {
                m = d;
            }
            i = i + 1;
        }
        proof {
            assert(self.batches@.take(self.batches@.len() as int) =~= self.batches@);
        }
        m
    }

    /// The single shared hatch date: start date plus the longest incubation
    /// length, in exact calendar-day arithmetic.
    pub fn final_hatch_date(&self) -> (r: Date)
        requires
            self.start_date.wf(),
        ensures
            r.day_number == self.start_date.day_number + self.spec_max_incubation_days(),
    {
        let m = self.max_incubation_days();
        Date { day_number: self.start_date.day_number + m }
    }

    /// The session-relative day number of `today`; day 1 is the start date.
    /// Not stable across calendar days: callers re-derive it on every
    /// refresh and never persist it.
    pub fn current_session_day(&self, today: Date) -> (d: i64)
        requires
            self.start_date.wf(),
            today.wf(),
        ensures
            d == self.spec_current_session_day(today),
    {
        today.day_number - self.start_date.day_number + 1
    }

    /// Day on which batch `idx`'s eggs must go into the incubator so that it
    /// hatches on the shared final hatch date.  Always at least 1; exactly 1
    /// for a batch of the longest-incubating species in the session.
    pub fn insertion_day(&self, idx: usize) -> (d: i64)
        requires
            idx < self.batches@.len(),
        ensures
            d == spec_insertion_day(self.batches@, idx as int),
            1 <= d <= self.spec_max_incubation_days(),
    {
        proof {
            lemma_insertion_day_in_schedule(self.batches@, idx as int);
        }
        let m = self.max_incubation_days();
        let inc = self.batches[idx].species.incubation_days();
        m - inc + 1
    }

    /// Classifies batch `idx` against `today`: due today, not yet due, or
    /// already inserted.
    pub fn batch_status(&self, idx: usize, today: Date) -> (r: BatchStatus)
        requires
            idx < self.batches@.len(),
            self.start_date.wf(),
            today.wf(),
        ensures
            r == self.spec_batch_status(idx as int, today),
    {
        let cur = self.current_session_day(today);
        let ins = self.insertion_day(idx);
        if cur == ins {
            BatchStatus::ActionDueToday
        } else if cur < ins {
            BatchStatus::Pending
        } else {
            BatchStatus::AlreadyInserted
        }
    }

    /// Whether any batch in the session is due today; drives the
    /// presentation layer's attention cue.
    pub fn is_action_day(&self, today: Date) -> (b: bool)
        requires
            self.start_date.wf(),
            today.wf(),
        ensures
            b == exists|i: int|
                0 <= i < self.batches@.len() && #[trigger] self.spec_batch_status(i, today)
                    == BatchStatus::ActionDueToday,
    {
        let mut i: usize = 0;
        while i < self.batches.len()
            invariant
                0 <= i <= self.batches.len(),
                self.start_date.wf(),
                today.wf(),
                forall|j: int|
                    0 <= j < i ==> #[trigger] self.spec_batch_status(j, today)
                        != BatchStatus::ActionDueToday,
            decreases self.batches.len() - i,
        {
            if matches!(self.batch_status(i, today), BatchStatus::ActionDueToday) {
                return true;
            }
            i = i + 1;
        }
        false
    }
}

} // verus!
