//! The order of a worker's steps, and what the barrier makes of the
//! workers' steps taken together.
use vstd::prelude::*;
use crate::model::{sync_count, WorkerView};
use crate::ssh::Worker;
use crate::utils::CmdType;

verus! {

/// A step of a worker.
#[derive(Clone, Copy, Debug, PartialEq, Eq, Structural)]
pub enum WorkerStep {
    /// Run the command with this number in the list of this phase, and
    /// keep its result.
    Run(CmdType, usize),
    /// Wait until the barrier is at zero.
    AwaitSyncHosts,
    /// Take one off the barrier.
    SignalDone,
    /// Send the results that were kept.
    Send,
}

/// The steps that run `count` commands of one phase, in their order.
pub open spec fn runs(kind: CmdType, count: nat) -> Seq<WorkerStep> {
    Seq::new(count, |i: int| WorkerStep::Run(kind, i as usize))
}

/// The steps of a worker with `pre` commands before the barrier and `sync`
/// commands after it. All run the first phase. A sync host then runs the
/// second phase and takes one off the barrier; any other host waits for
/// the barrier and runs the second phase then. All send their results
/// last.
pub open spec fn script_for(sync_host: bool, pre: nat, sync: nat) -> Seq<WorkerStep> {
    if sync_host {
        runs(CmdType::Cmd, pre) + runs(CmdType::SyncCmd, sync) + seq![
            WorkerStep::SignalDone,
            WorkerStep::Send,
        ]
    } else {
        runs(CmdType::Cmd, pre) + seq![WorkerStep::AwaitSyncHosts] + runs(CmdType::SyncCmd, sync)
            + seq![WorkerStep::Send]
    }
}

/// The steps of a worker.
pub open spec fn script_of(worker: WorkerView) -> Seq<WorkerStep> {
    script_for(worker.sync_host, worker.pre_cmds.len(), worker.sync_cmds.len())
}

impl Worker {
    /// The worker's steps, in the order in which it takes them.
    pub fn script(&self) -> (r: Vec<WorkerStep>)
        ensures
            r@ == script_of(self@),
    {
        let pre = self.pre_cmds().len();
        let sync = self.sync_cmds().len();
        let sync_host = self.sync_host();
        let mut steps: Vec<WorkerStep> = Vec::new();
        let mut i: usize = 0;
        while i < pre
            invariant
                i <= pre,
                steps@ == runs(CmdType::Cmd, i as nat),
            decreases pre - i,
        {
            steps.push(WorkerStep::Run(CmdType::Cmd, i));
            i += 1;
            assert(steps@ =~= runs(CmdType::Cmd, i as nat));
        }
        if !sync_host {
            steps.push(WorkerStep::AwaitSyncHosts);
        }
        let ghost head = steps@;
        i = 0;
        while i < sync
            invariant
                i <= sync,
                steps@ == head + runs(CmdType::SyncCmd, i as nat),
            decreases sync - i,
        {
            steps.push(WorkerStep::Run(CmdType::SyncCmd, i));
            i += 1;
            assert(steps@ =~= head + runs(CmdType::SyncCmd, i as nat));
        }
        if sync_host {
            steps.push(WorkerStep::SignalDone);
        }
        steps.push(WorkerStep::Send);
        assert(steps@ =~= script_of(self@));
        steps
    }
}

/// Where a run of the workers stands: the barrier's count, and for each
/// worker the number of steps that it has taken.
pub struct RunState {
    /// The barrier's count.
    pub barrier: int,
    /// For each worker, how many steps of its script it has taken.
    pub taken: Seq<nat>,
}

/// Where a run starts: the barrier at the number of sync hosts, no step
/// taken.
pub open spec fn start(workers: Seq<WorkerView>) -> RunState {
    RunState { barrier: sync_count(workers) as int, taken: Seq::new(workers.len(), |i: int| 0nat) }
}

/// Whether worker `i` can take its next step: it has one left, and where
/// that step is to wait for the barrier, the barrier is at zero.
pub open spec fn can_step(workers: Seq<WorkerView>, state: RunState, i: int) -> bool {
    &&& 0 <= i < workers.len()
    &&& state.taken.len() == workers.len()
    &&& state.taken[i] < script_of(workers[i]).len()
    &&& script_of(workers[i])[state.taken[i] as int] == WorkerStep::AwaitSyncHosts
        ==> state.barrier == 0
}

/// Where a run stands once worker `i` has taken its next step.
pub open spec fn after_step(workers: Seq<WorkerView>, state: RunState, i: int) -> RunState {
    RunState {
        barrier: if script_of(workers[i])[state.taken[i] as int] == WorkerStep::SignalDone {
            state.barrier - 1
        } else {
            state.barrier
        },
        taken: state.taken.update(i, state.taken[i] + 1),
    }
}

/// Whether the workers can take steps in this order, each entry naming the
/// worker that takes its next step.
pub open spec fn can_run(workers: Seq<WorkerView>, order: Seq<int>) -> bool
    decreases order.len(),
{
    order.len() > 0 ==> can_run(workers, order.drop_last()) && can_step(
        workers,
        state_after(workers, order.drop_last()),
        order.last(),
    )
}

/// Where a run stands after the steps in this order.
pub open spec fn state_after(workers: Seq<WorkerView>, order: Seq<int>) -> RunState
    decreases order.len(),
{
    if order.len() == 0 {
        start(workers)
    } else {
        after_step(workers, state_after(workers, order.drop_last()), order.last())
    }
}

/// Whether a worker for a sync host has run all its sync commands and
/// taken one off the barrier.
pub open spec fn has_signalled(worker: WorkerView, taken: nat) -> bool {
    taken > worker.pre_cmds.len() + worker.sync_cmds.len()
}

/// Whether a worker for another host has got past the barrier, which it
/// must before it runs any sync command.
pub open spec fn has_passed(worker: WorkerView, taken: nat) -> bool {
    taken > worker.pre_cmds.len()
}

/// How many workers for sync hosts have not yet taken one off the barrier.
pub open spec fn pending(workers: Seq<WorkerView>, taken: Seq<nat>) -> int
    decreases workers.len(),
{
    if workers.len() == 0 || taken.len() != workers.len() {
        0
    } else {
        pending(workers.drop_last(), taken.drop_last()) + if workers.last().sync_host
            && !has_signalled(workers.last(), taken.last()) {
            1int
        } else {
            0int
        }
    }
}

/// Nothing is pending exactly when every worker for a sync host has
/// signalled.
proof fn lemma_pending_bounds(workers: Seq<WorkerView>, taken: Seq<nat>)
    requires
        taken.len() == workers.len(),
    ensures
        pending(workers, taken) >= 0,
        pending(workers, taken) == 0 <==> forall|i: int|
            0 <= i < workers.len() && (#[trigger] workers[i]).sync_host ==> has_signalled(
                workers[i],
                taken[i],
            ),
    decreases workers.len(),
{
    if workers.len() > 0 {
        lemma_pending_bounds(workers.drop_last(), taken.drop_last());
        if pending(workers, taken) == 0 {
            assert forall|i: int|
                0 <= i < workers.len() && (#[trigger] workers[i]).sync_host implies has_signalled(
                workers[i],
                taken[i],
            ) by {
                if i < workers.len() - 1 {
                    assert(workers.drop_last()[i] == workers[i]);
                    assert(taken.drop_last()[i] == taken[i]);
                }
            }
        } else {
            if pending(workers.drop_last(), taken.drop_last()) != 0 {
                let i = choose|i: int|
                    0 <= i < workers.drop_last().len() && (#[trigger] workers.drop_last()[i]).sync_host
                        && !has_signalled(workers.drop_last()[i], taken.drop_last()[i]);
                assert(workers[i].sync_host && !has_signalled(workers[i], taken[i]));
            } else {
                assert(workers[workers.len() - 1].sync_host);
            }
        }
    }
}

/// At the start as many are pending as there are sync hosts.
proof fn lemma_pending_at_start(workers: Seq<WorkerView>)
    ensures
        pending(workers, start(workers).taken) == sync_count(workers),
    decreases workers.len(),
{
    if workers.len() > 0 {
        lemma_pending_at_start(workers.drop_last());
        assert(start(workers).taken.drop_last() =~= start(workers.drop_last()).taken);
    }
}

/// One more step of worker `i` takes one off the pending where that step
/// is its signal, and leaves them as they are else.
proof fn lemma_pending_step(workers: Seq<WorkerView>, taken: Seq<nat>, i: int)
    requires
        taken.len() == workers.len(),
        0 <= i < workers.len(),
        taken[i] < script_of(workers[i]).len(),
    ensures
        pending(workers, taken.update(i, taken[i] + 1)) == pending(workers, taken) - if script_of(
            workers[i],
        )[taken[i] as int] == WorkerStep::SignalDone {
            1int
        } else {
            0int
        },
    decreases workers.len(),
{
    let more = taken.update(i, taken[i] + 1);
    let last = workers.len() - 1;
    if i == last {
        assert(more.drop_last() =~= taken.drop_last());
    } else {
        assert(more.drop_last() =~= taken.drop_last().update(i, taken[i] + 1));
        assert(workers.drop_last()[i] == workers[i]);
        lemma_pending_step(workers.drop_last(), taken.drop_last(), i);
    }
}

/// What holds of a run at every moment: the barrier counts the workers for
/// sync hosts that have not signalled, and no other worker is past the
/// barrier while it is above zero.
pub open spec fn in_order(workers: Seq<WorkerView>, state: RunState) -> bool {
    &&& state.taken.len() == workers.len()
    &&& forall|i: int|
        0 <= i < workers.len() ==> #[trigger] state.taken[i] <= script_of(workers[i]).len()
    &&& state.barrier == pending(workers, state.taken)
    &&& forall|j: int|
        0 <= j < workers.len() && !(#[trigger] workers[j]).sync_host && has_passed(
            workers[j],
            state.taken[j],
        ) ==> state.barrier == 0
}

/// The barrier holds in every run: once a worker that is not for a sync
/// host is past the barrier, and so before any of its sync commands has
/// run, every worker for a sync host has run all its sync commands and
/// signalled. The barrier never falls below zero.
pub proof fn lemma_barrier_holds(workers: Seq<WorkerView>, order: Seq<int>)
    requires
        can_run(workers, order),
    ensures
        in_order(workers, state_after(workers, order)),
        state_after(workers, order).barrier >= 0,
        forall|j: int, i: int|
            0 <= j < workers.len() && 0 <= i < workers.len() && !(#[trigger] workers[j]).sync_host
                && has_passed(workers[j], state_after(workers, order).taken[j])
                && (#[trigger] workers[i]).sync_host ==> has_signalled(
                workers[i],
                state_after(workers, order).taken[i],
            ),
    decreases order.len(),
{
    let state = state_after(workers, order);
    if order.len() == 0 {
        lemma_pending_at_start(workers);
    } else {
        let before = state_after(workers, order.drop_last());
        let i = order.last();
        lemma_barrier_holds(workers, order.drop_last());
        lemma_pending_step(workers, before.taken, i);
        lemma_pending_bounds(workers, before.taken);
        let step = script_of(workers[i])[before.taken[i] as int];
        assert forall|j: int|
            0 <= j < workers.len() && !(#[trigger] workers[j]).sync_host && has_passed(
                workers[j],
                state.taken[j],
            ) implies state.barrier == 0 by {
            if j == i {
                if !has_passed(workers[j], before.taken[j]) {
                    assert(step == WorkerStep::AwaitSyncHosts);
                }
            }
            if step == WorkerStep::SignalDone {
                assert(workers[i].sync_host);
                assert(!has_signalled(workers[i], before.taken[i]));
            }
        }
    }
    lemma_pending_bounds(workers, state.taken);
}

/// How many of the steps run a command.
pub open spec fn run_count(steps: Seq<WorkerStep>) -> nat
    decreases steps.len(),
{
    if steps.len() == 0 {
        0
    } else {
        run_count(steps.drop_last()) + if steps.last() is Run {
            1nat
        } else {
            0nat
        }
    }
}

/// The steps of two lists run as many commands as both lists together.
proof fn lemma_run_count_add(a: Seq<WorkerStep>, b: Seq<WorkerStep>)
    ensures
        run_count(a + b) == run_count(a) + run_count(b),
    decreases b.len(),
{
    if b.len() == 0 {
        assert(a + b =~= a);
    } else {
        assert((a + b).drop_last() =~= a + b.drop_last());
        lemma_run_count_add(a, b.drop_last());
    }
}

/// The steps that run `count` commands run `count` commands.
proof fn lemma_run_count_runs(kind: CmdType, count: nat)
    ensures
        run_count(runs(kind, count)) == count,
    decreases count,
{
    if count > 0 {
        assert(runs(kind, count).drop_last() =~= runs(kind, (count - 1) as nat));
        lemma_run_count_runs(kind, (count - 1) as nat);
    }
}

/// A worker's steps run each of its commands once, and the last of them
/// sends the results: one result for each command of both phases, whether
/// the host is a sync host or not.
pub proof fn lemma_script_results(worker: WorkerView)
    ensures
        run_count(script_of(worker)) == worker.pre_cmds.len() + worker.sync_cmds.len(),
        script_of(worker).len() == worker.pre_cmds.len() + worker.sync_cmds.len() + 2,
        script_of(worker).last() == WorkerStep::Send,
{
    let pre = runs(CmdType::Cmd, worker.pre_cmds.len());
    let sync = runs(CmdType::SyncCmd, worker.sync_cmds.len());
    lemma_run_count_runs(CmdType::Cmd, worker.pre_cmds.len());
    lemma_run_count_runs(CmdType::SyncCmd, worker.sync_cmds.len());
    reveal_with_fuel(run_count, 3);
    if worker.sync_host {
        let end = seq![WorkerStep::SignalDone, WorkerStep::Send];
        assert(end.drop_last() =~= seq![WorkerStep::SignalDone]);
        assert(seq![WorkerStep::SignalDone].drop_last() =~= Seq::<WorkerStep>::empty());
        assert(run_count(end) == 0);
        lemma_run_count_add(pre, sync);
        lemma_run_count_add(pre + sync, end);
    } else {
        let wait = seq![WorkerStep::AwaitSyncHosts];
        let end = seq![WorkerStep::Send];
        assert(wait.drop_last() =~= Seq::<WorkerStep>::empty());
        assert(end.drop_last() =~= Seq::<WorkerStep>::empty());
        assert(run_count(wait) == 0);
        assert(run_count(end) == 0);
        lemma_run_count_add(pre, wait);
        lemma_run_count_add(pre + wait, sync);
        lemma_run_count_add(pre + wait + sync, end);
    }
}

/// Whether some worker has a step left to take.
pub open spec fn unfinished(workers: Seq<WorkerView>, state: RunState) -> bool {
    exists|i: int|
        0 <= i < workers.len() && (#[trigger] state.taken[i]) < script_of(workers[i]).len()
}

/// No run gets stuck: as long as some worker has a step left, some worker
/// can take its next step. A worker for a sync host never waits, and any
/// other worker waits only while a worker for a sync host still has its
/// signal to give.
pub proof fn lemma_never_stuck(workers: Seq<WorkerView>, order: Seq<int>)
    requires
        can_run(workers, order),
        unfinished(workers, state_after(workers, order)),
    ensures
        exists|j: int| can_step(workers, state_after(workers, order), j),
{
    let state = state_after(workers, order);
    lemma_barrier_holds(workers, order);
    lemma_pending_bounds(workers, state.taken);
    let i = choose|i: int|
        0 <= i < workers.len() && (#[trigger] state.taken[i]) < script_of(workers[i]).len();
    if can_step(workers, state, i) {
    } else {
        assert(state.barrier > 0);
        let j = choose|j: int|
            0 <= j < workers.len() && (#[trigger] workers[j]).sync_host && !has_signalled(
                workers[j],
                state.taken[j],
            );
        lemma_script_results(workers[j]);
        assert(script_of(workers[j])[state.taken[j] as int] != WorkerStep::AwaitSyncHosts);
        assert(can_step(workers, state, j));
    }
}

/// Without sync hosts no worker ever waits: in every run each worker that
/// has a step left can take it.
pub proof fn lemma_never_blocked(workers: Seq<WorkerView>, order: Seq<int>, i: int)
    requires
        can_run(workers, order),
        forall|j: int| 0 <= j < workers.len() ==> !(#[trigger] workers[j]).sync_host,
        0 <= i < workers.len(),
        state_after(workers, order).taken[i] < script_of(workers[i]).len(),
    ensures
        state_after(workers, order).barrier == 0,
        can_step(workers, state_after(workers, order), i),
{
    lemma_barrier_holds(workers, order);
    lemma_pending_bounds(workers, state_after(workers, order).taken);
}

/// The sum of the numbers.
pub open spec fn total(numbers: Seq<nat>) -> nat
    decreases numbers.len(),
{
    if numbers.len() == 0 {
        0
    } else {
        total(numbers.drop_last()) + numbers.last()
    }
}

/// One more at one place is one more in the sum.
proof fn lemma_total_step(numbers: Seq<nat>, i: int)
    requires
        0 <= i < numbers.len(),
    ensures
        total(numbers.update(i, numbers[i] + 1)) == total(numbers) + 1,
    decreases numbers.len(),
{
    let more = numbers.update(i, numbers[i] + 1);
    if i == numbers.len() - 1 {
        assert(more.drop_last() =~= numbers.drop_last());
    } else {
        assert(more.drop_last() =~= numbers.drop_last().update(i, numbers[i] + 1));
        lemma_total_step(numbers.drop_last(), i);
    }
}

/// Numbers that are place by place no greater have no greater sum, and
/// the same sum only where they are the same.
proof fn lemma_total_bound(a: Seq<nat>, b: Seq<nat>)
    requires
        a.len() == b.len(),
        forall|i: int| 0 <= i < a.len() ==> a[i] <= b[i],
    ensures
        total(a) <= total(b),
        total(a) == total(b) ==> a == b,
    decreases a.len(),
{
    if a.len() > 0 {
        lemma_total_bound(a.drop_last(), b.drop_last());
        if total(a) == total(b) {
            assert(a.drop_last().push(a.last()) =~= a);
            assert(b.drop_last().push(b.last()) =~= b);
        }
    } else {
        assert(a =~= b);
    }
}

/// For each worker, how many steps its script has.
pub open spec fn script_lengths(workers: Seq<WorkerView>) -> Seq<nat> {
    Seq::new(workers.len(), |i: int| script_of(workers[i]).len())
}

/// For each worker, how many commands it has in both phases together.
pub open spec fn command_counts(workers: Seq<WorkerView>) -> Seq<nat> {
    Seq::new(workers.len(), |i: int| workers[i].pre_cmds.len() + workers[i].sync_cmds.len())
}

/// For each worker, how many commands it has run after the steps that it
/// has taken.
pub open spec fn commands_run(workers: Seq<WorkerView>, state: RunState) -> Seq<nat> {
    Seq::new(
        workers.len(),
        |i: int| run_count(script_of(workers[i]).take(state.taken[i] as int)),
    )
}

/// Every run is finite: it has as many steps as the workers have taken
/// together, which is at most the number of steps of all scripts.
pub proof fn lemma_run_is_bounded(workers: Seq<WorkerView>, order: Seq<int>)
    requires
        can_run(workers, order),
    ensures
        order.len() == total(state_after(workers, order).taken),
        order.len() <= total(script_lengths(workers)),
        order.len() == total(script_lengths(workers)) ==> !unfinished(
            workers,
            state_after(workers, order),
        ),
    decreases order.len(),
{
    let state = state_after(workers, order);
    lemma_barrier_holds(workers, order);
    lemma_run_steps(workers, order);
    lemma_total_bound(state.taken, script_lengths(workers));
}

/// A run has as many steps as the workers have taken together.
proof fn lemma_run_steps(workers: Seq<WorkerView>, order: Seq<int>)
    requires
        can_run(workers, order),
    ensures
        order.len() == total(state_after(workers, order).taken),
    decreases order.len(),
{
    if order.len() == 0 {
        lemma_total_of_zeros(workers.len());
    } else {
        let before = state_after(workers, order.drop_last());
        lemma_run_steps(workers, order.drop_last());
        lemma_total_step(before.taken, order.last());
    }
}

/// Zeros sum up to zero.
proof fn lemma_total_of_zeros(count: nat)
    ensures
        total(Seq::new(count, |i: int| 0nat)) == 0,
    decreases count,
{
    if count > 0 {
        assert(Seq::new(count, |i: int| 0nat).drop_last() =~= Seq::new(
            (count - 1) as nat,
            |i: int| 0nat,
        ));
        lemma_total_of_zeros((count - 1) as nat);
    }
}

/// A run that cannot go on is complete: together with `lemma_never_stuck`,
/// a run in which no worker can take a step is one in which every worker
/// has taken all its steps. Each worker has then run every command of both
/// its phases once and has sent its results, so that the results of the
/// run are as many as the commands of all workers together.
pub proof fn lemma_finished_run(workers: Seq<WorkerView>, order: Seq<int>)
    requires
        can_run(workers, order),
        forall|j: int| !can_step(workers, state_after(workers, order), j),
    ensures
        state_after(workers, order).taken == script_lengths(workers),
        order.len() == total(script_lengths(workers)),
        commands_run(workers, state_after(workers, order)) == command_counts(workers),
        total(commands_run(workers, state_after(workers, order))) == total(
            command_counts(workers),
        ),
{
    let state = state_after(workers, order);
    lemma_barrier_holds(workers, order);
    lemma_run_steps(workers, order);
    if unfinished(workers, state) {
        lemma_never_stuck(workers, order);
    }
    assert(state.taken =~= script_lengths(workers));
    assert forall|i: int| 0 <= i < workers.len() implies commands_run(workers, state)[i]
        == command_counts(workers)[i] by {
        lemma_script_results(workers[i]);
        assert(script_of(workers[i]).take(state.taken[i] as int) =~= script_of(workers[i]));
    }
    assert(commands_run(workers, state) =~= command_counts(workers));
}

} // verus!
