//! What holds of every run of the launch state machine.

use vstd::prelude::*;
use crate::command::CommandView;
use crate::executor::model::{
    asked_for, consistent, failure, finished, start, step, ActionView, OutcomeView, RunState,
};

verus! {

/// A run begins in a consistent state.
pub proof fn lemma_start_consistent(commands: Seq<CommandView>)
    ensures
        consistent(commands, start(commands).0),
{
}

/// Every step leads from a consistent state to a consistent state.
pub proof fn lemma_step_consistent(commands: Seq<CommandView>, s: RunState, outcome: OutcomeView)
    requires
        consistent(commands, s),
    ensures
        consistent(commands, step(commands, s, outcome).0),
{
}

/// A run that has ended stays as it is and asks for nothing more.
pub proof fn lemma_finished_stays(commands: Seq<CommandView>, s: RunState, outcome: OutcomeView)
    requires
        s.phase is Finished,
    ensures
        step(commands, s, outcome) == (s, ActionView::Done),
{
}

/// Any failure ends the run at once: the caller is told to kill every
/// process started so far, which is one for each stage before the one that
/// failed, and holds none afterwards.
pub proof fn lemma_failure_ends_the_run(
    commands: Seq<CommandView>,
    s: RunState,
    cause: Seq<char>,
)
    requires
        consistent(commands, s),
        !(s.phase is Finished),
    ensures
        step(commands, s, OutcomeView::Failure { cause }) == (
            finished(s.stage),
            ActionView::Abort { error: failure(commands, s, cause), kill: s.stage },
        ),
{
}

/// What a run asks for first is what its first state waits for.
pub proof fn lemma_start_asks(commands: Seq<CommandView>)
    ensures
        asked_for(commands, start(commands).0, start(commands).1),
{
}

/// What a step asks for is what the state that it leads to waits for. So a
/// process is started only with its streams connected as the rules of the
/// three streams say, and a file is opened only where they ask for one.
pub proof fn lemma_step_asks(commands: Seq<CommandView>, s: RunState, outcome: OutcomeView)
    requires
        consistent(commands, s),
    ensures
        asked_for(commands, step(commands, s, outcome).0, step(commands, s, outcome).1),
{
}

/// The state of a run after the given outcomes, and every request made up to
/// then: the first one, and one in answer to each outcome.
pub open spec fn run(commands: Seq<CommandView>, outcomes: Seq<OutcomeView>) -> (
    RunState,
    Seq<ActionView>,
)
    decreases outcomes.len(),
{
    if outcomes.len() == 0 {
        (start(commands).0, seq![start(commands).1])
    } else {
        let before = run(commands, outcomes.drop_last());
        let next = step(commands, before.0, outcomes.last());
        (next.0, before.1.push(next.1))
    }
}

/// How many of the first `k` requests started a process.
pub open spec fn launched(actions: Seq<ActionView>, outcomes: Seq<OutcomeView>, k: int) -> nat
    decreases k,
{
    if k <= 0 {
        0
    } else if actions[k - 1] is Spawn && outcomes[k - 1] is Success {
        launched(actions, outcomes, k - 1) + 1
    } else {
        launched(actions, outcomes, k - 1)
    }
}

/// The count of processes started looks at the first `k` requests and
/// outcomes alone.
pub proof fn lemma_launched_looks_back(
    actions: Seq<ActionView>,
    outcomes: Seq<OutcomeView>,
    more_actions: Seq<ActionView>,
    more_outcomes: Seq<OutcomeView>,
    k: int,
)
    requires
        0 <= k <= actions.len(),
        k <= outcomes.len(),
        actions.len() <= more_actions.len(),
        outcomes.len() <= more_outcomes.len(),
        forall|j: int| 0 <= j < k ==> actions[j] == more_actions[j],
        forall|j: int| 0 <= j < k ==> outcomes[j] == more_outcomes[j],
    ensures
        launched(actions, outcomes, k) == launched(more_actions, more_outcomes, k),
    decreases k,
{
    if k > 0 {
        lemma_launched_looks_back(actions, outcomes, more_actions, more_outcomes, k - 1);
    }
}

/// Every process of a run is accounted for, whatever the outcomes are.
///
/// After any outcomes the state is consistent and waits for the last
/// request. A process is started for stage `k` only when the processes of all
/// `k` stages before it have been started. A run that ends on a failure has
/// every process that was started killed; a run that ends otherwise waits
/// for one process for each stage of the pipeline.
pub proof fn lemma_all_or_nothing(commands: Seq<CommandView>, outcomes: Seq<OutcomeView>)
    ensures
        run(commands, outcomes).1.len() == outcomes.len() + 1,
        consistent(commands, run(commands, outcomes).0),
        asked_for(commands, run(commands, outcomes).0, run(commands, outcomes).1.last()),
        launched(run(commands, outcomes).1, outcomes, outcomes.len() as int) <= commands.len(),
        match run(commands, outcomes).1.last() {
            ActionView::Spawn { stage, .. } => stage == launched(
                run(commands, outcomes).1,
                outcomes,
                outcomes.len() as int,
            ),
            ActionView::Abort { kill, .. } => kill == launched(
                run(commands, outcomes).1,
                outcomes,
                outcomes.len() as int,
            ),
            ActionView::Wait { count } => count == commands.len() && count == launched(
                run(commands, outcomes).1,
                outcomes,
                outcomes.len() as int,
            ),
            _ => true,
        },
        !(run(commands, outcomes).0.phase is Finished) ==> run(commands, outcomes).0.spawned
            == launched(run(commands, outcomes).1, outcomes, outcomes.len() as int),
    decreases outcomes.len(),
{
    let m = outcomes.len() as int;
    if m > 0 {
        let fewer = outcomes.drop_last();
        lemma_all_or_nothing(commands, fewer);
        let before = run(commands, fewer);
        let after = run(commands, outcomes);
        lemma_launched_looks_back(before.1, fewer, after.1, outcomes, m - 1);
        lemma_step_asks(commands, before.0, outcomes.last());
        assert(after.1[m - 1] == before.1.last());
        assert(outcomes[m - 1] == outcomes.last());
    }
}

/// Once a run has asked to kill or to wait, it asks for nothing more: no
/// stage after a failure is ever attempted.
pub proof fn lemma_nothing_after_the_end(
    commands: Seq<CommandView>,
    outcomes: Seq<OutcomeView>,
    k: int,
)
    requires
        0 <= k < outcomes.len(),
        run(commands, outcomes).1[k] is Abort || run(commands, outcomes).1[k] is Wait || run(
            commands,
            outcomes,
        ).1[k] is Done,
    ensures
        run(commands, outcomes).0.phase is Finished,
        forall|j: int| k < j <= outcomes.len() ==> #[trigger] run(commands, outcomes).1[j] is Done,
    decreases outcomes.len(),
{
    let m = outcomes.len() as int;
    let fewer = outcomes.drop_last();
    let before = run(commands, fewer);
    lemma_all_or_nothing(commands, fewer);
    if k < m - 1 {
        lemma_nothing_after_the_end(commands, fewer, k);
        assert forall|j: int| k < j <= m implies #[trigger] run(commands, outcomes).1[j] is Done by {
            if j < m {
                assert(run(commands, outcomes).1[j] == before.1[j]);
            }
        }
    } else {
        assert(run(commands, outcomes).1[k] == before.1.last());
    }
}

} // verus!
