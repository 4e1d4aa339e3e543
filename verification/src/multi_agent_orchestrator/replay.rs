//! Laws of replaying a plan tick by tick.

use vstd::prelude::*;
use crate::multi_agent_orchestrator::engine::ExecutionEngine;

verus! {

/// `after` is `before` after one tick: the same plan, one step further while
/// there is a step left.
pub open spec fn ticked(before: ExecutionEngine, after: ExecutionEngine) -> bool {
    &&& after.planned() == before.planned()
    &&& before.position() < before.planned().len() ==> after.position() == before.position() + 1
    &&& before.position() >= before.planned().len() ==> after.position() == before.position()
}

/// Starting a fresh plan at step 0 and ticking as many times as the plan has
/// steps completes it: after `k` ticks the engine stands at step `k`, and at
/// the end it is complete, so that a further tick hands out nothing.
pub proof fn law_plan_completes_after_all_ticks(engines: Seq<ExecutionEngine>)
    requires
        engines.len() == engines[0].planned().len() + 1,
        engines[0].position() == 0,
        forall|i: int| 0 <= i < engines.len() - 1 ==> #[trigger] ticked(engines[i], engines[i + 1]),
    ensures
        forall|i: int| 0 <= i < engines.len() ==> (#[trigger] engines[i]).position() == i
            && engines[i].planned() == engines[0].planned(),
        engines.last().position() >= engines.last().planned().len(),
{
    let n = engines.len();
    assert forall|i: int| 0 <= i < n implies (#[trigger] engines[i]).position() == i
        && engines[i].planned() == engines[0].planned() by {
        lemma_ticks_count(engines, i);
    }
    assert(engines[n - 1].position() == n - 1);
}

proof fn lemma_ticks_count(engines: Seq<ExecutionEngine>, i: int)
    requires
        engines.len() == engines[0].planned().len() + 1,
        engines[0].position() == 0,
        forall|j: int| 0 <= j < engines.len() - 1 ==> #[trigger] ticked(engines[j], engines[j + 1]),
        0 <= i < engines.len(),
    ensures
        engines[i].position() == i,
        engines[i].planned() == engines[0].planned(),
    decreases i,
{
    if i > 0 {
        lemma_ticks_count(engines, i - 1);
        assert(ticked(engines[i - 1], engines[(i - 1) + 1]));
    }
}

/// `after` follows `before` through one of the engine's operations: a tick,
/// or a plan or reset, which put the engine back at step 0.
pub open spec fn engine_step(before: ExecutionEngine, after: ExecutionEngine) -> bool {
    ticked(before, after) || after.position() == 0
}

/// From a fresh engine, any run of ticks, plans and resets keeps the engine
/// within its plan: the step index never passes the number of steps.
pub proof fn law_engine_stays_within_plan(engines: Seq<ExecutionEngine>)
    requires
        engines.len() > 0,
        engines[0].position() == 0,
        forall|i: int| 0 <= i < engines.len() - 1 ==> #[trigger] engine_step(engines[i], engines[i + 1]),
    ensures
        forall|i: int| 0 <= i < engines.len() ==> (#[trigger] engines[i]).position() <= engines[i].planned().len(),
{
    assert forall|i: int| 0 <= i < engines.len() implies (#[trigger] engines[i]).position() <= engines[i].planned().len() by {
        lemma_within_plan(engines, i);
    }
}

proof fn lemma_within_plan(engines: Seq<ExecutionEngine>, i: int)
    requires
        engines.len() > 0,
        engines[0].position() == 0,
        forall|j: int| 0 <= j < engines.len() - 1 ==> #[trigger] engine_step(engines[j], engines[j + 1]),
        0 <= i < engines.len(),
    ensures
        engines[i].position() <= engines[i].planned().len(),
    decreases i,
{
    if i > 0 {
        lemma_within_plan(engines, i - 1);
        assert(engine_step(engines[i - 1], engines[(i - 1) + 1]));
    }
}

} // verus!
