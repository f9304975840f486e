//! The order in which the SDK tests run.
//!
//! Every call of the driver's `nativeRunNextTest` takes the next position of
//! one shared counter (a fetch-and-add, which wraps around as an atomic
//! `usize` does) and runs the test at that position, or, once the counter is
//! past the last test, answers that every test has run.
use vstd::prelude::*;

verus! {

/// What one call of the driver has to do.
#[derive(Debug, Clone, Copy, PartialEq, Eq, Structural)]
pub enum NextTest {
    /// Every test has run: the driver answers with the empty string.
    Finished,
    /// Run the test at this position of the table.
    Run(usize),
}

/// The counter shared by all calls of the driver: the position that the
/// next call takes.
pub struct TestSequencer {
    next_index: usize,
}

/// The counter after one fetch-and-add of 1: it wraps from `usize::MAX` to 0.
pub open spec fn counter_after_step(index: usize) -> usize {
    if index == usize::MAX {
        0
    } else {
        (index + 1) as usize
    }
}

/// What a call does that took position `index` of a table of `test_count`
/// tests.
pub open spec fn step_for(index: usize, test_count: usize) -> NextTest {
    if index >= test_count {
        NextTest::Finished
    } else {
        NextTest::Run(index)
    }
}

/// The counter after `calls` calls, starting from a fresh sequencer.
pub open spec fn counter_after_calls(calls: nat) -> usize
    decreases calls,
{
    if calls == 0 {
        0
    } else {
        counter_after_step(counter_after_calls((calls - 1) as nat))
    }
}

/// What the call with number `call` (counting from 0) does on a fresh
/// sequencer and a table of `test_count` tests.
pub open spec fn step_of_call(call: nat, test_count: usize) -> NextTest {
    step_for(counter_after_calls(call), test_count)
}

impl View for TestSequencer {
    type V = usize;

    /// The position that the next call takes.
    closed spec fn view(&self) -> usize {
        self.next_index
    }
}

impl TestSequencer {
    /// A sequencer whose next call takes the first test.
    pub fn new() -> (sequencer: Self)
        ensures
            sequencer@ == 0,
    {
        TestSequencer { next_index: 0 }
    }

    /// The position that the next call takes.
    pub fn next_index(&self) -> (index: usize)
        ensures
            index == self@,
    {
        self.next_index
    }

    /// One call of the driver on a table of `test_count` tests: takes the
    /// counter's position and moves the counter on by one.
    pub fn advance(&mut self, test_count: usize) -> (step: NextTest)
        ensures
            final(self)@ == counter_after_step(old(self)@),
            step == step_for(old(self)@, test_count),
    {
        let index = self.next_index;
        self.next_index = index.wrapping_add(1);
        if index >= test_count {
            NextTest::Finished
        } else {
            NextTest::Run(index)
        }
    }
}

/// Once a call has found every test run, so does the next call: the
/// sequence stays finished, as long as the counter does not wrap around.
pub proof fn lemma_finished_stays_finished(index: usize, test_count: usize)
    requires
        step_for(index, test_count) == NextTest::Finished,
        index < usize::MAX,
    ensures
        step_for(counter_after_step(index), test_count) == NextTest::Finished,
{
}

/// From a fresh sequencer, call number `call` takes position `call`, for
/// every call before the counter wraps around.
pub proof fn lemma_calls_take_positions_in_order(call: nat)
    requires
        call <= usize::MAX,
    ensures
        counter_after_calls(call) == call,
    decreases call,
{
    if call > 0 {
        lemma_calls_take_positions_in_order((call - 1) as nat);
    }
}

/// From a fresh sequencer, the first `test_count` calls run the tests in
/// the order of the table, and every later call (before the counter wraps
/// around) answers that every test has run.
pub proof fn lemma_runs_table_in_order(call: nat, test_count: usize)
    requires
        call <= usize::MAX,
    ensures
        call < test_count ==> step_of_call(call, test_count) == NextTest::Run(call as usize),
        call >= test_count ==> step_of_call(call, test_count) == NextTest::Finished,
{
    lemma_calls_take_positions_in_order(call);
}

/// From a fresh sequencer, no test runs twice: two different calls before the
/// counter wraps around never run the same test.
pub proof fn lemma_no_test_runs_twice(first: nat, second: nat, test_count: usize)
    requires
        first < second <= usize::MAX,
    ensures
        step_of_call(first, test_count) is Run ==> step_of_call(second, test_count)
            != step_of_call(first, test_count),
{
    lemma_calls_take_positions_in_order(first);
    lemma_calls_take_positions_in_order(second);
}

/// From a fresh sequencer, every test of the table runs: the test at
/// position `index` runs at call number `index`.
pub proof fn lemma_every_test_runs(index: usize, test_count: usize)
    requires
        index < test_count,
    ensures
        step_of_call(index as nat, test_count) == NextTest::Run(index),
{
    lemma_calls_take_positions_in_order(index as nat);
}

} // verus!
