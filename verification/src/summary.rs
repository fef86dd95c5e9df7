//! The calls of a run, taken together by operation.
use vstd::prelude::*;

use crate::measure::{Measure, INFINITE};

verus! {

/// What is known of one call when it is counted.
pub struct CallFacts {
    pub call_order: i64,
    pub category: Seq<char>,
    pub op_name: Seq<char>,
    pub device_time_us: Measure,
    pub free_time_us: Measure,
    pub total_time_us: Measure,
    pub occupancy_pct: Option<Measure>,
}

/// The calls of one operation, taken together: how many there are, which came
/// first, and between which bounds their times lie. Sums are kept elsewhere.
#[derive(Debug)]
pub struct SummaryAgg {
    pub first_call_order: i64,
    pub category: String,
    pub op_name: String,
    pub call_count: i64,
    pub min_device_time_us: Measure,
    pub min_free_time_us: Measure,
    pub min_time_us: Measure,
    pub max_device_time_us: Measure,
    pub max_free_time_us: Measure,
    pub max_time_us: Measure,
    pub occupancy_count: i64,
    pub min_occupancy_pct: Measure,
    pub max_occupancy_pct: Measure,
}

/// What the calls of one operation are, taken together.
pub struct AggView {
    pub first_call_order: i64,
    pub category: Seq<char>,
    pub op_name: Seq<char>,
    pub call_count: int,
    pub min_device_time_us: Measure,
    pub min_free_time_us: Measure,
    pub min_time_us: Measure,
    pub max_device_time_us: Measure,
    pub max_free_time_us: Measure,
    pub max_time_us: Measure,
    pub occupancy_count: int,
    pub min_occupancy_pct: Measure,
    pub max_occupancy_pct: Measure,
}

impl View for SummaryAgg {
    type V = AggView;

    open spec fn view(&self) -> AggView {
        AggView {
            first_call_order: self.first_call_order,
            category: self.category@,
            op_name: self.op_name@,
            call_count: self.call_count as int,
            min_device_time_us: self.min_device_time_us,
            min_free_time_us: self.min_free_time_us,
            min_time_us: self.min_time_us,
            max_device_time_us: self.max_device_time_us,
            max_free_time_us: self.max_free_time_us,
            max_time_us: self.max_time_us,
            occupancy_count: self.occupancy_count as int,
            min_occupancy_pct: self.min_occupancy_pct,
            max_occupancy_pct: self.max_occupancy_pct,
        }
    }
}

/// An operation before its first call is counted.
pub open spec fn no_calls(
    first_call_order: i64,
    category: Seq<char>,
    op_name: Seq<char>,
) -> AggView {
    let largest = Measure { bits: INFINITE };
    let zero = Measure { bits: 0 };
    AggView {
        first_call_order,
        category,
        op_name,
        call_count: 0,
        min_device_time_us: largest,
        min_free_time_us: largest,
        min_time_us: largest,
        max_device_time_us: zero,
        max_free_time_us: zero,
        max_time_us: zero,
        occupancy_count: 0,
        min_occupancy_pct: largest,
        max_occupancy_pct: zero,
    }
}

/// An operation with one more call of the given times and occupancy.
pub open spec fn with_times(
    agg: AggView,
    device_time_us: Measure,
    free_time_us: Measure,
    total_time_us: Measure,
    occupancy_pct: Option<Measure>,
) -> AggView {
    let timed = AggView {
        call_count: agg.call_count + 1,
        min_device_time_us: agg.min_device_time_us.smaller(device_time_us),
        min_free_time_us: agg.min_free_time_us.smaller(free_time_us),
        min_time_us: agg.min_time_us.smaller(total_time_us),
        max_device_time_us: agg.max_device_time_us.larger(device_time_us),
        max_free_time_us: agg.max_free_time_us.larger(free_time_us),
        max_time_us: agg.max_time_us.larger(total_time_us),
        ..agg
    };
    match occupancy_pct {
        Some(occupancy) => AggView {
            occupancy_count: agg.occupancy_count + 1,
            min_occupancy_pct: agg.min_occupancy_pct.smaller(occupancy),
            max_occupancy_pct: agg.max_occupancy_pct.larger(occupancy),
            ..timed
        },
        None => timed,
    }
}

/// An operation with one more call.
pub open spec fn with_call(agg: AggView, call: CallFacts) -> AggView {
    with_times(
        agg,
        call.device_time_us,
        call.free_time_us,
        call.total_time_us,
        call.occupancy_pct,
    )
}

impl SummaryAgg {
    /// An operation before its first call is counted.
    pub fn new(first_call_order: i64, category: &str, op_name: &str) -> (r: SummaryAgg)
        ensures
            r@ == no_calls(first_call_order, category@, op_name@),
    {
        SummaryAgg {
            first_call_order,
            category: category.to_owned(),
            op_name: op_name.to_owned(),
            call_count: 0,
            min_device_time_us: Measure::infinity(),
            min_free_time_us: Measure::infinity(),
            min_time_us: Measure::infinity(),
            max_device_time_us: Measure::zero(),
            max_free_time_us: Measure::zero(),
            max_time_us: Measure::zero(),
            occupancy_count: 0,
            min_occupancy_pct: Measure::infinity(),
            max_occupancy_pct: Measure::zero(),
        }
    }

    /// Counts one more call.
    pub fn add(
        &mut self,
        device_time_us: Measure,
        free_time_us: Measure,
        total_time_us: Measure,
        occupancy_pct: Option<Measure>,
    )
        requires
            old(self).call_count < i64::MAX,
            old(self).occupancy_count < i64::MAX,
        ensures
            final(self)@ == with_times(
                old(self)@,
                device_time_us,
                free_time_us,
                total_time_us,
                occupancy_pct,
            ),
    {
        self.call_count = self.call_count + 1;
        self.min_device_time_us = self.min_device_time_us.min(device_time_us);
        self.min_free_time_us = self.min_free_time_us.min(free_time_us);
        self.min_time_us = self.min_time_us.min(total_time_us);
        self.max_device_time_us = self.max_device_time_us.max(device_time_us);
        self.max_free_time_us = self.max_free_time_us.max(free_time_us);
        self.max_time_us = self.max_time_us.max(total_time_us);
        if let Some(occupancy) = occupancy_pct {
            self.occupancy_count = self.occupancy_count + 1;
            self.min_occupancy_pct = self.min_occupancy_pct.min(occupancy);
            self.max_occupancy_pct = self.max_occupancy_pct.max(occupancy);
        }
    }

    /// An average, given the quotient of a sum and the number of calls. That of
    /// no calls is zero.
    pub fn avg(&self, quotient: Measure) -> (r: Measure)
        ensures
            r == (if self.call_count == 0 {
                Measure { bits: 0 }
            } else {
                quotient
            }),
    {
        if self.call_count == 0 {
            Measure::zero()
        } else {
            quotient
        }
    }

    /// A quantity that only calls with an occupancy have.
    pub open spec fn if_occupied(self, quantity: Measure) -> Option<Measure> {
        if self.occupancy_count > 0 {
            Some(quantity)
        } else {
            None
        }
    }

    /// The average occupancy, given the quotient of the sum and the number of
    /// calls that have one.
    pub fn avg_occupancy_pct(&self, quotient: Measure) -> (r: Option<Measure>)
        ensures
            r == (if self.occupancy_count == 0 {
                None::<Measure>
            } else {
                Some(quotient)
            }),
    {
        if self.occupancy_count == 0 {
            None
        } else {
            Some(quotient)
        }
    }

    /// The lowest occupancy.
    pub fn min_occupancy_pct(&self) -> (r: Option<Measure>)
        ensures
            r == self.if_occupied(self.min_occupancy_pct),
    {
        if self.occupancy_count > 0 {
            Some(self.min_occupancy_pct)
        } else {
            None
        }
    }

    /// The highest occupancy.
    pub fn max_occupancy_pct(&self) -> (r: Option<Measure>)
        ensures
            r == self.if_occupied(self.max_occupancy_pct),
    {
        if self.occupancy_count > 0 {
            Some(self.max_occupancy_pct)
        } else {
            None
        }
    }
}

/// What operations are, taken together.
pub open spec fn agg_views(aggs: Seq<SummaryAgg>) -> Seq<AggView> {
    aggs.map_values(|a: SummaryAgg| a@)
}

/// Whether an entry is that of an operation.
pub open spec fn is_of(agg: AggView, category: Seq<char>, op_name: Seq<char>) -> bool {
    agg.category == category && agg.op_name == op_name
}

/// The place of an operation, or the length where it has none.
pub open spec fn slot_of(
    aggs: Seq<AggView>,
    category: Seq<char>,
    op_name: Seq<char>,
) -> nat
    decreases aggs.len(),
{
    if aggs.len() == 0 || is_of(aggs[0], category, op_name) {
        0
    } else {
        1 + slot_of(aggs.drop_first(), category, op_name)
    }
}

/// The operations with one more call. An operation without calls is added
/// behind all others.
pub open spec fn counted(aggs: Seq<AggView>, call: CallFacts) -> Seq<AggView> {
    let slot = slot_of(aggs, call.category, call.op_name) as int;
    if slot < aggs.len() {
        aggs.update(slot, with_call(aggs[slot], call))
    } else {
        aggs.push(with_call(no_calls(call.call_order, call.category, call.op_name), call))
    }
}

/// The operations of a sequence of calls.
pub open spec fn summarized(calls: Seq<CallFacts>) -> Seq<AggView>
    decreases calls.len(),
{
    if calls.len() == 0 {
        Seq::empty()
    } else {
        counted(summarized(calls.drop_last()), calls.last())
    }
}

/// The place of an operation is the first that is its own.
pub proof fn lemma_slot(aggs: Seq<AggView>, category: Seq<char>, op_name: Seq<char>)
    ensures
        slot_of(aggs, category, op_name) <= aggs.len(),
        slot_of(aggs, category, op_name) < aggs.len() ==> is_of(
            aggs[slot_of(aggs, category, op_name) as int],
            category,
            op_name,
        ),
        forall|i: int|
            0 <= i < slot_of(aggs, category, op_name) ==> !is_of(
                #[trigger] aggs[i],
                category,
                op_name,
            ),
    decreases aggs.len(),
{
    if aggs.len() > 0 && !is_of(aggs[0], category, op_name) {
        let rest = aggs.drop_first();
        lemma_slot(rest, category, op_name);
        assert forall|i: int| 0 <= i < slot_of(aggs, category, op_name) implies !is_of(
            #[trigger] aggs[i],
            category,
            op_name,
        ) by {
            if i > 0 {
                assert(aggs[i] == rest[i - 1]);
            }
        }
    }
}

/// The operations of a run, in the order of their first calls.
pub struct Summary {
    aggs: Vec<SummaryAgg>,
    calls: i64,
    history: Ghost<Seq<CallFacts>>,
}

impl View for Summary {
    type V = Seq<AggView>;

    closed spec fn view(&self) -> Seq<AggView> {
        agg_views(self.aggs@)
    }
}

/// What a call that was counted has become: the place of its operation, and
/// which of the operation's calls it is.
#[derive(Clone, Copy, Debug)]
pub struct Counted {
    pub slot: usize,
    pub op_call_index: i64,
}

impl Summary {
    /// How many calls were counted.
    pub closed spec fn call_total(self) -> int {
        self.calls as int
    }

    /// The calls that were counted.
    pub closed spec fn history(self) -> Seq<CallFacts> {
        self.history@
    }

    /// Whether the operations are those of the calls that were counted, none has
    /// more calls than were counted, and none more calls with an occupancy than
    /// calls.
    pub open spec fn well_formed(self) -> bool {
        &&& self@ == summarized(self.history())
        &&& self.call_total() == self.history().len()
        &&& 0 <= self.call_total() <= i64::MAX
        &&& self@.len() <= self.call_total()
        &&& forall|i: int|
            0 <= i < self@.len() ==> {
                let agg = #[trigger] self@[i];
                0 <= agg.occupancy_count <= agg.call_count <= self.call_total()
            }
    }

    /// No operations.
    pub fn new() -> (r: Summary)
        ensures
            r.well_formed(),
            r@ == Seq::<AggView>::empty(),
            r.call_total() == 0,
            r.history() == Seq::<CallFacts>::empty(),
    {
        let r = Summary { aggs: Vec::new(), calls: 0, history: Ghost(Seq::empty()) };
        assert(r@ =~= Seq::<AggView>::empty());
        r
    }

    /// How many calls were counted.
    pub fn total(&self) -> (r: i64)
        ensures
            r == self.call_total(),
    {
        self.calls
    }

    /// How many operations there are.
    pub fn len(&self) -> (r: usize)
        ensures
            r == self@.len(),
    {
        self.aggs.len()
    }

    /// One of the operations.
    pub fn get(&self, slot: usize) -> (r: &SummaryAgg)
        requires
            slot < self@.len(),
        ensures
            r@ == self@[slot as int],
    {
        &self.aggs[slot]
    }

    fn find(&self, category: &str, op_name: &str) -> (r: usize)
        ensures
            r == slot_of(self@, category@, op_name@),
            r <= self.aggs@.len(),
    {
        let category = category.to_owned();
        let op_name = op_name.to_owned();
        let mut i: usize = 0;
        assert(self@.skip(0) =~= self@);
        while i < self.aggs.len() && !(self.aggs[i].op_name == op_name && self.aggs[i].category
            == category)
            invariant
                i <= self.aggs@.len(),
                slot_of(self@, category@, op_name@) == i + slot_of(
                    self@.skip(i as int),
                    category@,
                    op_name@,
                ),
            decreases self.aggs@.len() - i,
        {
            assert(self@.skip(i as int)[0] == self.aggs@[i as int]@);
            assert(self@.skip(i as int).drop_first() =~= self@.skip(i + 1));
            i += 1;
        }
        proof {
            if i < self.aggs@.len() {
                assert(self@.skip(i as int)[0] == self.aggs@[i as int]@);
            }
        }
        i
    }

    /// Counts a call.
    pub fn add_summary(
        &mut self,
        call_order: i64,
        category: &str,
        op_name: &str,
        device_time_us: Measure,
        free_time_us: Measure,
        total_time_us: Measure,
        occupancy_pct: Option<Measure>,
    ) -> (r: Counted)
        requires
            old(self).well_formed(),
            old(self).call_total() < i64::MAX,
        ensures
            final(self).well_formed(),
            final(self).call_total() == old(self).call_total() + 1,
            final(self)@ == counted(
                old(self)@,
                CallFacts {
                    call_order,
                    category: category@,
                    op_name: op_name@,
                    device_time_us,
                    free_time_us,
                    total_time_us,
                    occupancy_pct,
                },
            ),
            final(self).history() == old(self).history().push(
                CallFacts {
                    call_order,
                    category: category@,
                    op_name: op_name@,
                    device_time_us,
                    free_time_us,
                    total_time_us,
                    occupancy_pct,
                },
            ),
            r.slot == slot_of(old(self)@, category@, op_name@),
            r.slot < final(self)@.len(),
            r.op_call_index == final(self)@[r.slot as int].call_count,
            r.op_call_index == occurrences(final(self).history(), category@, op_name@),
    {
        let ghost before = self@;
        let ghost call = CallFacts {
            call_order,
            category: category@,
            op_name: op_name@,
            device_time_us,
            free_time_us,
            total_time_us,
            occupancy_pct,
        };
        let slot = self.find(category, op_name);
        proof {
            lemma_slot(before, category@, op_name@);
        }
        if slot == self.aggs.len() {
            let fresh = SummaryAgg::new(call_order, category, op_name);
            self.aggs.push(fresh);
            assert(self@ =~= before.push(fresh@));
        }
        let ghost middle = self@;
        assert(middle[slot as int].call_count <= self.calls);
        assert(middle[slot as int] == self.aggs@[slot as int]@);
        self.aggs[slot].add(device_time_us, free_time_us, total_time_us, occupancy_pct);
        self.calls = self.calls + 1;
        self.history = Ghost(self.history@.push(call));
        let op_call_index = self.aggs[slot].call_count;
        proof {
            assert(self.aggs@[slot as int]@ == with_call(middle[slot as int], call));
            assert(self@ =~= middle.update(slot as int, with_call(middle[slot as int], call)));
            assert(self@ =~= counted(before, call));
            assert(self.history@.drop_last() =~= old(self).history@);
            lemma_counted(before, call, category@, op_name@);
            summary_counts_the_calls_of_each(self.history@, category@, op_name@);
            assert forall|i: int| 0 <= i < self@.len() implies {
                let agg = #[trigger] self@[i];
                0 <= agg.occupancy_count <= agg.call_count <= self.call_total()
            } by {
                if i != slot {
                    assert(self@[i] == before[i]);
                }
            }
        }
        Counted { slot, op_call_index }
    }
}

/// A place that is an operation's own, with none before it that is.
proof fn lemma_slot_is(aggs: Seq<AggView>, category: Seq<char>, op_name: Seq<char>, k: int)
    requires
        0 <= k <= aggs.len(),
        k < aggs.len() ==> is_of(aggs[k], category, op_name),
        forall|i: int| 0 <= i < k ==> !is_of(#[trigger] aggs[i], category, op_name),
    ensures
        slot_of(aggs, category, op_name) == k,
{
    lemma_slot(aggs, category, op_name);
}

/// What one more call leaves as it is: the places of all operations, and
/// everything about those that it is not a call of.
proof fn lemma_counted(aggs: Seq<AggView>, call: CallFacts, category: Seq<char>, op_name: Seq<char>)
    ensures
        ({
            let after = counted(aggs, call);
            let slot = slot_of(aggs, category, op_name) as int;
            if call.category == category && call.op_name == op_name {
                &&& slot_of(after, category, op_name) == slot
                &&& slot < after.len()
                &&& after[slot] == with_call(
                    if slot < aggs.len() {
                        aggs[slot]
                    } else {
                        no_calls(call.call_order, category, op_name)
                    },
                    call,
                )
            } else if slot < aggs.len() {
                &&& slot_of(after, category, op_name) == slot
                &&& slot < after.len()
                &&& after[slot] == aggs[slot]
            } else {
                slot_of(after, category, op_name) == after.len()
            }
        }),
{
    let after = counted(aggs, call);
    let slot = slot_of(aggs, category, op_name) as int;
    let own = slot_of(aggs, call.category, call.op_name) as int;
    lemma_slot(aggs, category, op_name);
    lemma_slot(aggs, call.category, call.op_name);
    assert forall|i: int| 0 <= i < slot implies !is_of(#[trigger] after[i], category, op_name) by {
        assert(!is_of(aggs[i], category, op_name));
    }
    if call.category == category && call.op_name == op_name {
        lemma_slot_is(after, category, op_name, slot);
    } else if slot < aggs.len() {
        lemma_slot_is(after, category, op_name, slot);
    } else {
        assert(!is_of(after[own], category, op_name));
        lemma_slot_is(after, category, op_name, after.len() as int);
    }
}

/// Whether no operation has two places.
pub open spec fn has_each_once(aggs: Seq<AggView>) -> bool {
    forall|i: int, j: int|
        0 <= i < j < aggs.len() ==> !is_of(
            #[trigger] aggs[i],
            (#[trigger] aggs[j]).category,
            aggs[j].op_name,
        )
}

/// One more call changes the operation that it is a call of, and no other. An
/// operation that had no calls comes last, and the call is its first; one that had
/// calls keeps its place and its first call. No operation gets a second place.
pub proof fn counting_changes_one_operation(aggs: Seq<AggView>, call: CallFacts)
    ensures
        ({
            let after = counted(aggs, call);
            let slot = slot_of(aggs, call.category, call.op_name) as int;
            &&& slot < after.len()
            &&& is_of(after[slot], call.category, call.op_name)
            &&& slot < aggs.len() ==> {
                &&& after.len() == aggs.len()
                &&& after[slot].call_count == aggs[slot].call_count + 1
                &&& after[slot].first_call_order == aggs[slot].first_call_order
            }
            &&& slot == aggs.len() ==> {
                &&& after.len() == aggs.len() + 1
                &&& after[slot].call_count == 1
                &&& after[slot].first_call_order == call.call_order
            }
            &&& forall|i: int|
                0 <= i < aggs.len() && i != slot ==> #[trigger] after[i] == aggs[i]
            &&& has_each_once(aggs) ==> has_each_once(after)
        }),
{
    lemma_slot(aggs, call.category, call.op_name);
    let after = counted(aggs, call);
    let slot = slot_of(aggs, call.category, call.op_name) as int;
    if has_each_once(aggs) {
        assert forall|i: int, j: int| 0 <= i < j < after.len() implies !is_of(
            #[trigger] after[i],
            (#[trigger] after[j]).category,
            after[j].op_name,
        ) by {
            if j < aggs.len() {
                assert(!is_of(aggs[i], aggs[j].category, aggs[j].op_name));
            } else {
                assert(!is_of(aggs[i], call.category, call.op_name));
            }
        }
    }
}

/// How many calls an operation has.
pub open spec fn occurrences(
    calls: Seq<CallFacts>,
    category: Seq<char>,
    op_name: Seq<char>,
) -> nat
    decreases calls.len(),
{
    if calls.len() == 0 {
        0
    } else {
        occurrences(calls.drop_last(), category, op_name) + (if calls.last().category == category
            && calls.last().op_name == op_name {
            1nat
        } else {
            0nat
        })
    }
}

/// An operation has a place in the summary if and only if it has calls, and its
/// count is the number of them.
pub proof fn summary_counts_the_calls_of_each(
    calls: Seq<CallFacts>,
    category: Seq<char>,
    op_name: Seq<char>,
)
    ensures
        ({
            let aggs = summarized(calls);
            let slot = slot_of(aggs, category, op_name) as int;
            &&& slot < aggs.len() <==> occurrences(calls, category, op_name) > 0
            &&& slot < aggs.len() ==> aggs[slot].call_count == occurrences(calls, category, op_name)
        }),
    decreases calls.len(),
{
    if calls.len() > 0 {
        summary_counts_the_calls_of_each(calls.drop_last(), category, op_name);
        lemma_counted(summarized(calls.drop_last()), calls.last(), category, op_name);
        lemma_slot(summarized(calls.drop_last()), category, op_name);
    }
}

/// No operation has two places in the summary.
pub proof fn summary_has_each_operation_once(calls: Seq<CallFacts>, i: int)
    requires
        0 <= i < summarized(calls).len(),
    ensures
        slot_of(
            summarized(calls),
            summarized(calls)[i].category,
            summarized(calls)[i].op_name,
        ) == i,
    decreases calls.len(),
{
    let before = summarized(calls.drop_last());
    let call = calls.last();
    let after = summarized(calls);
    let own = slot_of(before, call.category, call.op_name) as int;
    lemma_slot(before, call.category, call.op_name);
    if i < before.len() {
        summary_has_each_operation_once(calls.drop_last(), i);
        lemma_counted(before, call, before[i].category, before[i].op_name);
    } else {
        lemma_counted(before, call, call.category, call.op_name);
    }
}

/// The sum of the counts of operations.
pub open spec fn count_sum(aggs: Seq<AggView>) -> int
    decreases aggs.len(),
{
    if aggs.len() == 0 {
        0
    } else {
        count_sum(aggs.drop_last()) + aggs.last().call_count
    }
}

proof fn lemma_count_sum_update(aggs: Seq<AggView>, i: int, agg: AggView)
    requires
        0 <= i < aggs.len(),
    ensures
        count_sum(aggs.update(i, agg)) == count_sum(aggs) - aggs[i].call_count + agg.call_count,
    decreases aggs.len(),
{
    let after = aggs.update(i, agg);
    if i == aggs.len() - 1 {
        assert(after.drop_last() =~= aggs.drop_last());
    } else {
        assert(after.drop_last() =~= aggs.drop_last().update(i, agg));
        lemma_count_sum_update(aggs.drop_last(), i, agg);
    }
}

/// The counts of the operations of a run add up to the number of its calls.
pub proof fn summary_counts_every_call(calls: Seq<CallFacts>)
    ensures
        count_sum(summarized(calls)) == calls.len(),
    decreases calls.len(),
{
    if calls.len() > 0 {
        let before = summarized(calls.drop_last());
        let call = calls.last();
        let slot = slot_of(before, call.category, call.op_name) as int;
        summary_counts_every_call(calls.drop_last());
        if slot < before.len() {
            lemma_count_sum_update(before, slot, with_call(before[slot], call));
        } else {
            assert(summarized(calls).drop_last() =~= before);
        }
    }
}

/// Whether the calls come in the order of their numbers.
pub open spec fn is_ordered(calls: Seq<CallFacts>) -> bool {
    forall|a: int, b: int|
        0 <= a < b < calls.len() ==> (#[trigger] calls[a]).call_order < (
        #[trigger] calls[b]).call_order
}

/// The first call of an operation is the one that no earlier call of it
/// precedes.
pub proof fn summary_keeps_the_first_call(calls: Seq<CallFacts>, k: int)
    requires
        0 <= k < calls.len(),
        occurrences(calls.take(k), calls[k].category, calls[k].op_name) == 0,
    ensures
        ({
            let aggs = summarized(calls);
            let slot = slot_of(aggs, calls[k].category, calls[k].op_name) as int;
            slot < aggs.len() && aggs[slot].first_call_order == calls[k].call_order
        }),
    decreases calls.len(),
{
    let before = summarized(calls.drop_last());
    lemma_counted(before, calls.last(), calls[k].category, calls[k].op_name);
    lemma_slot(before, calls[k].category, calls[k].op_name);
    if k == calls.len() - 1 {
        assert(calls.take(k) =~= calls.drop_last());
        summary_counts_the_calls_of_each(
            calls.drop_last(),
            calls[k].category,
            calls[k].op_name,
        );
    } else {
        assert(calls.drop_last().take(k) =~= calls.take(k));
        assert(calls.drop_last()[k] == calls[k]);
        summary_keeps_the_first_call(calls.drop_last(), k);
    }
}

/// Where the calls come in order, the operations of the summary are in the
/// order of their first calls.
pub proof fn summary_is_in_the_order_of_first_calls(calls: Seq<CallFacts>)
    requires
        is_ordered(calls),
    ensures
        forall|i: int, j: int|
            0 <= i < j < summarized(calls).len() ==> (#[trigger] summarized(
                calls,
            )[i]).first_call_order < (#[trigger] summarized(calls)[j]).first_call_order,
        forall|i: int|
            0 <= i < summarized(calls).len() ==> (#[trigger] summarized(calls)[i]).first_call_order
                <= calls.last().call_order,
    decreases calls.len(),
{
    if calls.len() > 0 {
        let init = calls.drop_last();
        let before = summarized(init);
        let after = summarized(calls);
        let call = calls.last();
        assert forall|a: int, b: int| 0 <= a < b < init.len() implies (
        #[trigger] init[a]).call_order < (#[trigger] init[b]).call_order by {
            assert(init[a] == calls[a] && init[b] == calls[b]);
        }
        summary_is_in_the_order_of_first_calls(init);
        if init.len() > 0 {
            assert(init.last() == calls[calls.len() - 2]);
            assert(call == calls[calls.len() - 1]);
            assert(init.last().call_order < call.call_order);
        }
        assert forall|i: int| 0 <= i < before.len() implies (
        #[trigger] after[i]).first_call_order == before[i].first_call_order
            && before[i].first_call_order < call.call_order by {
            assert(before[i].first_call_order <= init.last().call_order);
        }
        assert forall|i: int, j: int| 0 <= i < j < after.len() implies (
        #[trigger] after[i]).first_call_order < (#[trigger] after[j]).first_call_order by {
            if j < before.len() {
                assert(before[i].first_call_order < before[j].first_call_order);
            }
        }
    }
}

/// Whether the times of a call lie within the bounds of an operation.
pub open spec fn within_bounds(agg: AggView, call: CallFacts) -> bool {
    &&& !call.device_time_us.below(agg.min_device_time_us)
    &&& !call.free_time_us.below(agg.min_free_time_us)
    &&& !call.total_time_us.below(agg.min_time_us)
    &&& !agg.max_device_time_us.below(call.device_time_us)
    &&& !agg.max_free_time_us.below(call.free_time_us)
    &&& !agg.max_time_us.below(call.total_time_us)
    &&& call.occupancy_pct is Some ==> {
        &&& !call.occupancy_pct->0.below(agg.min_occupancy_pct)
        &&& !agg.max_occupancy_pct.below(call.occupancy_pct->0)
    }
}

/// Whether no bound of an operation is a NaN.
pub open spec fn has_bounds(agg: AggView) -> bool {
    &&& !agg.min_device_time_us.is_nan()
    &&& !agg.min_free_time_us.is_nan()
    &&& !agg.min_time_us.is_nan()
    &&& !agg.max_device_time_us.is_nan()
    &&& !agg.max_free_time_us.is_nan()
    &&& !agg.max_time_us.is_nan()
    &&& !agg.min_occupancy_pct.is_nan()
    &&& !agg.max_occupancy_pct.is_nan()
}

/// The times of each call lie within the bounds of its operation.
pub proof fn summary_bounds_each_call(calls: Seq<CallFacts>, k: int)
    requires
        0 <= k < calls.len(),
    ensures
        ({
            let aggs = summarized(calls);
            let slot = slot_of(aggs, calls[k].category, calls[k].op_name) as int;
            slot < aggs.len() && has_bounds(aggs[slot]) && within_bounds(aggs[slot], calls[k])
        }),
    decreases calls.len(),
{
    let before = summarized(calls.drop_last());
    let call = calls.last();
    let (category, op_name) = (calls[k].category, calls[k].op_name);
    lemma_counted(before, call, category, op_name);
    lemma_slot(before, category, op_name);
    if k < calls.len() - 1 {
        assert(calls.drop_last()[k] == calls[k]);
        summary_bounds_each_call(calls.drop_last(), k);
    } else {
        lemma_bounds(calls.drop_last(), category, op_name);
    }
}

/// No bound of an operation is a NaN.
proof fn lemma_bounds(calls: Seq<CallFacts>, category: Seq<char>, op_name: Seq<char>)
    ensures
        ({
            let aggs = summarized(calls);
            let slot = slot_of(aggs, category, op_name) as int;
            slot < aggs.len() ==> has_bounds(aggs[slot])
        }),
    decreases calls.len(),
{
    if calls.len() > 0 {
        lemma_bounds(calls.drop_last(), category, op_name);
        lemma_counted(summarized(calls.drop_last()), calls.last(), category, op_name);
        lemma_slot(summarized(calls.drop_last()), category, op_name);
    }
}

/// What is measured of a call.
pub enum Quantity {
    DeviceTime,
    FreeTime,
    TotalTime,
    Occupancy,
}

/// What was measured of a call, where it was.
pub open spec fn measured(call: CallFacts, quantity: Quantity) -> Option<Measure> {
    match quantity {
        Quantity::DeviceTime => Some(call.device_time_us),
        Quantity::FreeTime => Some(call.free_time_us),
        Quantity::TotalTime => Some(call.total_time_us),
        Quantity::Occupancy => call.occupancy_pct,
    }
}

/// What an operation says is the lowest of a quantity.
pub open spec fn lowest_said(agg: AggView, quantity: Quantity) -> Measure {
    match quantity {
        Quantity::DeviceTime => agg.min_device_time_us,
        Quantity::FreeTime => agg.min_free_time_us,
        Quantity::TotalTime => agg.min_time_us,
        Quantity::Occupancy => agg.min_occupancy_pct,
    }
}

/// What an operation says is the highest of a quantity.
pub open spec fn highest_said(agg: AggView, quantity: Quantity) -> Measure {
    match quantity {
        Quantity::DeviceTime => agg.max_device_time_us,
        Quantity::FreeTime => agg.max_free_time_us,
        Quantity::TotalTime => agg.max_time_us,
        Quantity::Occupancy => agg.max_occupancy_pct,
    }
}

/// Whether a quantity was measured of a call, which is of an operation.
pub open spec fn is_measured(
    call: CallFacts,
    category: Seq<char>,
    op_name: Seq<char>,
    quantity: Quantity,
) -> bool {
    call.category == category && call.op_name == op_name && measured(call, quantity) is Some
}

/// How many calls of an operation a quantity was measured of.
pub open spec fn measurements(
    calls: Seq<CallFacts>,
    category: Seq<char>,
    op_name: Seq<char>,
    quantity: Quantity,
) -> nat
    decreases calls.len(),
{
    if calls.len() == 0 {
        0
    } else {
        measurements(calls.drop_last(), category, op_name, quantity) + (if is_measured(
            calls.last(),
            category,
            op_name,
            quantity,
        ) {
            1nat
        } else {
            0nat
        })
    }
}

/// Whether all that was measured of a quantity of the calls of an operation are
/// numbers, and none is below zero.
pub open spec fn are_amounts(
    calls: Seq<CallFacts>,
    category: Seq<char>,
    op_name: Seq<char>,
    quantity: Quantity,
) -> bool {
    forall|k: int|
        0 <= k < calls.len() && #[trigger] is_measured(calls[k], category, op_name, quantity) ==> {
            &&& !measured(calls[k], quantity)->0.is_nan()
            &&& measured(calls[k], quantity)->0.rank() >= 0
        }
}

/// Whether a call of an operation has exactly some amount of a quantity.
pub open spec fn is_attained(
    calls: Seq<CallFacts>,
    category: Seq<char>,
    op_name: Seq<char>,
    quantity: Quantity,
    amount: Measure,
) -> bool {
    exists|k: int|
        0 <= k < calls.len() && #[trigger] is_measured(calls[k], category, op_name, quantity)
            && measured(calls[k], quantity)->0.rank() == amount.rank()
}

/// Whether no call of an operation has less of a quantity than one amount, nor more
/// than another.
pub open spec fn lies_within(
    calls: Seq<CallFacts>,
    category: Seq<char>,
    op_name: Seq<char>,
    quantity: Quantity,
    lowest: Measure,
    highest: Measure,
) -> bool {
    forall|k: int|
        0 <= k < calls.len() && #[trigger] is_measured(calls[k], category, op_name, quantity) ==> {
            lowest.rank() <= measured(calls[k], quantity)->0.rank() <= highest.rank()
        }
}

proof fn lemma_attained_before(
    calls: Seq<CallFacts>,
    category: Seq<char>,
    op_name: Seq<char>,
    quantity: Quantity,
    amount: Measure,
)
    requires
        calls.len() > 0,
        is_attained(calls.drop_last(), category, op_name, quantity, amount),
    ensures
        is_attained(calls, category, op_name, quantity, amount),
{
    let init = calls.drop_last();
    let k = choose|k: int|
        0 <= k < init.len() && #[trigger] is_measured(init[k], category, op_name, quantity)
            && measured(init[k], quantity)->0.rank() == amount.rank();
    assert(init[k] == calls[k]);
    assert(is_measured(calls[k], category, op_name, quantity));
}

proof fn lemma_attained(
    calls: Seq<CallFacts>,
    category: Seq<char>,
    op_name: Seq<char>,
    quantity: Quantity,
)
    requires
        are_amounts(calls, category, op_name, quantity),
    ensures
        ({
            let aggs = summarized(calls);
            let slot = slot_of(aggs, category, op_name) as int;
            let lowest = lowest_said(aggs[slot], quantity);
            let highest = highest_said(aggs[slot], quantity);
            slot < aggs.len() ==> if measurements(calls, category, op_name, quantity) == 0 {
                lowest.bits == INFINITE && highest.bits == 0
            } else {
                &&& !lowest.is_nan() && !highest.is_nan()
                &&& lowest.rank() >= 0 && highest.rank() >= 0
                &&& is_attained(calls, category, op_name, quantity, lowest)
                &&& is_attained(calls, category, op_name, quantity, highest)
                &&& lies_within(calls, category, op_name, quantity, lowest, highest)
            }
        }),
    decreases calls.len(),
{
    if calls.len() > 0 {
        let init = calls.drop_last();
        let call = calls.last();
        let before = summarized(init);
        let after = summarized(calls);
        let slot = slot_of(before, category, op_name) as int;
        assert forall|k: int|
            0 <= k < init.len() && #[trigger] is_measured(
                init[k],
                category,
                op_name,
                quantity,
            ) implies {
            &&& !measured(init[k], quantity)->0.is_nan()
            &&& measured(init[k], quantity)->0.rank() >= 0
        } by {
            assert(is_measured(calls[k], category, op_name, quantity));
        }
        lemma_attained(init, category, op_name, quantity);
        lemma_counted(before, call, category, op_name);
        lemma_slot(before, category, op_name);
        summary_counts_the_calls_of_each(init, category, op_name);
        lemma_none_measured(init, category, op_name, quantity);
        assert(calls[calls.len() - 1] == call);
        let now = slot_of(after, category, op_name) as int;
        if now < after.len() && measurements(calls, category, op_name, quantity) > 0 {
            let lowest = lowest_said(after[now], quantity);
            let highest = highest_said(after[now], quantity);
            if is_measured(call, category, op_name, quantity) {
                let amount = measured(call, quantity)->0;
                assert(is_measured(calls[calls.len() - 1], category, op_name, quantity));
                assert(is_attained(calls, category, op_name, quantity, amount));
                if measurements(init, category, op_name, quantity) > 0 {
                    lemma_attained_before(
                        calls,
                        category,
                        op_name,
                        quantity,
                        lowest_said(before[slot], quantity),
                    );
                    lemma_attained_before(
                        calls,
                        category,
                        op_name,
                        quantity,
                        highest_said(before[slot], quantity),
                    );
                }
            } else {
                lemma_attained_before(calls, category, op_name, quantity, lowest);
                lemma_attained_before(calls, category, op_name, quantity, highest);
            }
            assert forall|k: int|
                0 <= k < calls.len() && #[trigger] is_measured(
                    calls[k],
                    category,
                    op_name,
                    quantity,
                ) implies lowest.rank() <= measured(calls[k], quantity)->0.rank()
                <= highest.rank() by {
                if k < init.len() {
                    assert(init[k] == calls[k]);
                    assert(is_measured(init[k], category, op_name, quantity));
                    lemma_one_measured(init, category, op_name, quantity, k);
                }
            }
        }
    }
}

proof fn lemma_none_measured(
    calls: Seq<CallFacts>,
    category: Seq<char>,
    op_name: Seq<char>,
    quantity: Quantity,
)
    ensures
        measurements(calls, category, op_name, quantity) <= occurrences(calls, category, op_name),
    decreases calls.len(),
{
    if calls.len() > 0 {
        lemma_none_measured(calls.drop_last(), category, op_name, quantity);
    }
}

proof fn lemma_one_measured(
    calls: Seq<CallFacts>,
    category: Seq<char>,
    op_name: Seq<char>,
    quantity: Quantity,
    k: int,
)
    requires
        0 <= k < calls.len(),
        is_measured(calls[k], category, op_name, quantity),
    ensures
        measurements(calls, category, op_name, quantity) > 0,
    decreases calls.len(),
{
    if k < calls.len() - 1 {
        assert(calls.drop_last()[k] == calls[k]);
        lemma_one_measured(calls.drop_last(), category, op_name, quantity, k);
    }
}

/// What an operation says is the lowest and the highest of a quantity is what calls of
/// it have: one has exactly the lowest and one exactly the highest, none has less and
/// none has more. The quantity is one of amounts: numbers, none of them below zero.
pub proof fn summary_bounds_are_attained(
    calls: Seq<CallFacts>,
    category: Seq<char>,
    op_name: Seq<char>,
    quantity: Quantity,
)
    requires
        measurements(calls, category, op_name, quantity) > 0,
        are_amounts(calls, category, op_name, quantity),
    ensures
        ({
            let aggs = summarized(calls);
            let slot = slot_of(aggs, category, op_name) as int;
            let lowest = lowest_said(aggs[slot], quantity);
            let highest = highest_said(aggs[slot], quantity);
            &&& slot < aggs.len()
            &&& aggs[slot].category == category && aggs[slot].op_name == op_name
            &&& is_attained(calls, category, op_name, quantity, lowest)
            &&& is_attained(calls, category, op_name, quantity, highest)
            &&& lies_within(calls, category, op_name, quantity, lowest, highest)
        }),
{
    lemma_attained(calls, category, op_name, quantity);
    lemma_none_measured(calls, category, op_name, quantity);
    summary_counts_the_calls_of_each(calls, category, op_name);
    lemma_slot(summarized(calls), category, op_name);
}

/// An operation counts the calls of it that have an occupancy.
pub proof fn summary_counts_the_occupancies(
    calls: Seq<CallFacts>,
    category: Seq<char>,
    op_name: Seq<char>,
)
    ensures
        ({
            let aggs = summarized(calls);
            let slot = slot_of(aggs, category, op_name) as int;
            slot < aggs.len() ==> aggs[slot].occupancy_count == measurements(
                calls,
                category,
                op_name,
                Quantity::Occupancy,
            )
        }),
    decreases calls.len(),
{
    if calls.len() > 0 {
        let init = calls.drop_last();
        summary_counts_the_occupancies(init, category, op_name);
        lemma_counted(summarized(init), calls.last(), category, op_name);
        lemma_slot(summarized(init), category, op_name);
        summary_counts_the_calls_of_each(init, category, op_name);
        lemma_none_measured(init, category, op_name, Quantity::Occupancy);
    }
}

} // verus!
