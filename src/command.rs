//! The `off` command: every device family is tried in turn, and a failure of one is
//! reported without keeping the others from being tried.
use vstd::prelude::*;

verus! {

/// One device operation of the `off` command.
#[derive(Clone, Copy, Debug, PartialEq, Eq, Structural)]
pub enum OffTask {
    /// Switch off the cooler's LED zones and display.
    CoolerLights,
    /// Switch off the hub's channels.
    HubLights,
    /// Switch off the GPU's lighting.
    GpuLights,
    /// Set the cooler's fans to silent mode.
    CoolerFanSilent,
}

pub open spec fn off_sequence() -> Seq<OffTask> {
    seq![OffTask::CoolerLights, OffTask::HubLights, OffTask::GpuLights, OffTask::CoolerFanSilent]
}

/// The operations of `off`, in the order they are tried. Each is tried whatever became
/// of the ones before.
pub fn off_tasks() -> (r: Vec<OffTask>)
    ensures
        r@ == off_sequence(),
{
    let r = vec![OffTask::CoolerLights, OffTask::HubLights, OffTask::GpuLights, OffTask::CoolerFanSilent];
    assert(r@ =~= off_sequence());
    r
}

/// How an `off` command went: how many operations were tried and how many succeeded.
/// The command itself succeeds in every case.
#[derive(Clone, Copy, Debug, PartialEq, Eq, Structural)]
pub struct OffSummary {
    pub attempted: usize,
    pub succeeded: usize,
}

impl OffSummary {
    pub open spec fn partial_spec(self) -> bool {
        0 < self.succeeded < self.attempted
    }

    /// Some but not all of the operations succeeded.
    #[verifier::when_used_as_spec(partial_spec)]
    pub fn is_partial(self) -> (r: bool)
        ensures
            r == self.partial_spec(),
    {
        0 < self.succeeded && self.succeeded < self.attempted
    }
}

/// The number of `true` outcomes in `oks`.
pub open spec fn count_ok(oks: Seq<bool>) -> nat
    decreases oks.len(),
{
    if oks.len() == 0 {
        0
    } else {
        count_ok(oks.drop_last()) + if oks.last() { 1nat } else { 0nat }
    }
}

proof fn lemma_count_ok_bound(oks: Seq<bool>)
    ensures
        count_ok(oks) <= oks.len(),
    decreases oks.len(),
{
    if oks.len() > 0 {
        lemma_count_ok_bound(oks.drop_last());
    }
}

/// Sums up the outcomes of the operations tried, `oks[i]` being whether operation
/// `i` succeeded.
pub fn summarize_off(oks: &Vec<bool>) -> (r: OffSummary)
    ensures
        r.attempted == oks@.len(),
        r.succeeded == count_ok(oks@),
{
    let mut n: usize = 0;
    let mut i: usize = 0;
    while i < oks.len()
        invariant
            i <= oks@.len(),
            n == count_ok(oks@.subrange(0, i as int)),
        decreases oks@.len() - i,
    {
        proof {
            assert(oks@.subrange(0, i + 1).drop_last() =~= oks@.subrange(0, i as int));
            lemma_count_ok_bound(oks@.subrange(0, i as int));
        }
        if oks[i] {
            n = n + 1;
        }
        i = i + 1;
    }
    assert(oks@.subrange(0, oks@.len() as int) =~= oks@);
    OffSummary { attempted: oks.len(), succeeded: n }
}

} // verus!
