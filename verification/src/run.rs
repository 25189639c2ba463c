//! The run of a plan: which action comes next, and what an event leads to.

use crate::error::{Failure, FirecrackerError};
use crate::event::{answers, supervisor_late, timed_out, Event, EventView};
use crate::facts::{Facts, FactsView};
use crate::host::{op_action, Action, ActionView, LoopRole, OpView};
use crate::plan::{attempts, Plan, StepView};
use crate::verdict::{judge, Verdict, VerdictView};
use vstd::prelude::*;

verus! {

/// The pause between two tries of an operation, in milliseconds.
pub const API_READY_POLL_MS: u64 = 50;

/// What a run is about.
pub enum Phase {
    /// The steps of the plan.
    Working,
    /// The pause before the step is tried again.
    Pausing,
    /// The releases of the step that failed, of which some have been done.
    Releasing { done: int, failure: Failure },
}

/// The state of a run.
pub struct RunView {
    pub plan: Seq<StepView>,
    /// How many steps are done.
    pub at: int,
    pub facts: FactsView,
    pub phase: Phase,
}

/// The run of `plan` before its first step.
pub open spec fn fresh(plan: Seq<StepView>, facts: FactsView) -> RunView {
    RunView { plan, at: 0, facts, phase: Phase::Working }
}

impl RunView {
    pub open spec fn valid(self) -> bool {
        &&& 0 <= self.at <= self.plan.len()
        &&& self.facts.sound()
        &&& match self.phase {
            Phase::Working => true,
            Phase::Pausing => self.at < self.plan.len(),
            Phase::Releasing { done, failure } => {
                &&& self.at < self.plan.len()
                &&& self.plan[self.at].required
                &&& 0 <= done <= self.plan[self.at].release.len()
            },
        }
    }

    /// The operation that is due, if the run is not over or pausing.
    pub open spec fn due(self) -> Option<OpView> {
        match self.phase {
            Phase::Working => if self.at < self.plan.len() {
                Some(self.plan[self.at].op)
            } else {
                None
            },
            Phase::Pausing => None,
            Phase::Releasing { done, failure } => if done < self.plan[self.at].release.len() {
                Some(self.plan[self.at].release[done])
            } else {
                None
            },
        }
    }

    /// The action that comes next: `None` when the run is over.
    pub open spec fn action(self) -> Option<ActionView> {
        match self.phase {
            Phase::Pausing => Some(ActionView::Sleep(API_READY_POLL_MS)),
            _ => match self.due() {
                Some(op) => Some(op_action(op, self.facts)),
                None => None,
            },
        }
    }

    /// Whether the run is over.
    pub open spec fn over(self) -> bool {
        self.action() is None
    }

    /// How a run that is over ended.
    pub open spec fn outcome(self) -> Result<FactsView, Failure> {
        match self.phase {
            Phase::Releasing { done, failure } => Err(failure),
            _ => Ok(self.facts),
        }
    }

    /// What is still to be released if the run goes no further.
    pub open spec fn left_over(self) -> Seq<OpView> {
        match self.phase {
            Phase::Releasing { done, failure } => self.plan[self.at].release.skip(done),
            _ => if self.at < self.plan.len() {
                self.plan[self.at].release
            } else {
                Seq::empty()
            },
        }
    }

    /// The state after the current step.
    pub open spec fn advanced(self, facts: FactsView) -> RunView {
        RunView { at: self.at + 1, facts, ..self }
    }

    /// The state after `event` has answered the action.
    pub open spec fn next(self, event: EventView) -> RunView {
        match self.phase {
            Phase::Working => match judge(self.plan[self.at].op, self.facts, event) {
                VerdictView::Pass(facts) => self.advanced(facts),
                VerdictView::Pause => RunView { phase: Phase::Pausing, ..self },
                VerdictView::Fail(failure) => if self.plan[self.at].required {
                    RunView { phase: Phase::Releasing { done: 0, failure }, ..self }
                } else {
                    self.advanced(self.facts)
                },
            },
            Phase::Pausing => RunView { phase: Phase::Working, ..self },
            Phase::Releasing { done, failure } => RunView {
                phase: Phase::Releasing { done: done + 1, failure },
                ..self
            },
        }
    }
}

/// The run of a plan.
#[derive(Debug)]
pub struct Run {
    plan: Plan,
    at: usize,
    facts: Facts,
    pausing: bool,
    failure: Option<FirecrackerError>,
    released: usize,
}

impl View for Run {
    type V = RunView;

    closed spec fn view(&self) -> RunView {
        RunView {
            plan: self.plan@,
            at: self.at as int,
            facts: self.facts@,
            phase: match self.failure {
                Some(e) => Phase::Releasing { done: self.released as int, failure: e@ },
                None => if self.pausing {
                    Phase::Pausing
                } else {
                    Phase::Working
                },
            },
        }
    }
}

impl Run {
    /// The run of `plan` before its first step, with what is known already.
    pub fn new(plan: Plan, facts: Facts) -> (run: Run)
        requires
            facts@.sound(),
        ensures
            run@ == fresh(plan@, facts@),
            run@.valid(),
    {
        Run { plan, at: 0, facts, pausing: false, failure: None, released: 0 }
    }

    /// The action that comes next: `None` when the run is over.
    pub fn action(&self) -> (action: Option<Action<'_>>)
        requires
            self@.valid(),
        ensures
            match action {
                Some(a) => self@.action() == Some(a@),
                None => self@.over(),
            },
    {
        if self.failure.is_some() {
            let release = &self.plan.get(self.at).release;
            if self.released < release.len() {
                Some(release.get(self.released).action(&self.facts))
            } else {
                None
            }
        } else if self.pausing {
            Some(Action::Sleep(API_READY_POLL_MS))
        } else if self.at < self.plan.len() {
            Some(self.plan.get(self.at).op.action(&self.facts))
        } else {
            None
        }
    }

    /// Takes the event that answered the action.
    pub fn resume(&mut self, event: Event)
        requires
            old(self)@.valid(),
            old(self)@.action() is Some,
            answers(old(self)@.action()->0, event@),
        ensures
            final(self)@ == old(self)@.next(event@),
            final(self)@.valid(),
    {
        if self.failure.is_some() {
            let due: usize = self.plan.get(self.at).release.len();
            assert(self.released < due);
            self.released = self.released + 1;
        } else if self.pausing {
            self.pausing = false;
        } else {
            let steps: usize = self.plan.len();
            assert(self.at < steps);
            let step = self.plan.get(self.at);
            let required = step.required;
            match step.op.judge(&mut self.facts, event) {
                Verdict::Pass => {
                    self.at = self.at + 1;
                },
                Verdict::Pause => {
                    self.pausing = true;
                },
                Verdict::Fail(e) => {
                    if required {
                        self.failure = Some(e);
                        self.released = 0;
                    } else {
                        self.at = self.at + 1;
                    }
                },
            }
        }
    }

    /// The run that releases what is still to be released when this one goes no further.
    pub fn abandoned(&self) -> (run: Run)
        requires
            self@.valid(),
        ensures
            run@ == fresh(attempts(self@.left_over()), self@.facts),
            run@.valid(),
    {
        let mut plan = Plan::new();
        let ghost left = self@.left_over();
        if self.at < self.plan.len() {
            let release = &self.plan.get(self.at).release;
            let from: usize = if self.failure.is_some() {
                self.released
            } else {
                0
            };
            assert(left =~= release@.skip(from as int));
            let mut i: usize = from;
            assert(plan@ =~= attempts(left).take(0));
            while i < release.len()
                invariant
                    from <= i <= release@.len(),
                    left == release@.skip(from as int),
                    plan@ == attempts(left).take(i - from),
                decreases release@.len() - i,
            {
                plan = plan.attempt(release.get(i).clone());
                assert(plan@ =~= attempts(left).take(i - from + 1));
                i = i + 1;
            }
            assert(attempts(left).take(i - from) =~= attempts(left));
        } else {
            assert(plan@ =~= attempts(left));
        }
        Run::new(plan, self.facts.clone())
    }

    /// How a run that is over ended: with what the host told, or with the error.
    pub fn outcome(self) -> (outcome: Result<Facts, FirecrackerError>)
        requires
            self@.valid(),
            self@.over(),
        ensures
            match outcome {
                Ok(facts) => self@.outcome() == Ok::<FactsView, Failure>(facts@) && facts@.sound(),
                Err(e) => self@.outcome() == Err::<FactsView, Failure>(e@),
            },
    {
        match self.failure {
            Some(e) => Err(e),
            None => Ok(self.facts),
        }
    }
}

// ── Laws ─────────────────────────────────────────────────────────────────────

/// The state of a run after some events.
pub open spec fn after(start: RunView, events: Seq<EventView>) -> RunView
    decreases events.len(),
{
    if events.len() == 0 {
        start
    } else {
        after(start, events.drop_last()).next(events.last())
    }
}

/// Whether each event answers the action that was due when it came.
pub open spec fn answered(start: RunView, events: Seq<EventView>) -> bool
    decreases events.len(),
{
    events.len() > 0 ==> {
        let before = after(start, events.drop_last());
        &&& answered(start, events.drop_last())
        &&& before.action() is Some
        &&& answers(before.action()->0, events.last())
    }
}

/// Whether `event` concludes the operation that is due. A look that finds nothing (no socket, no
/// supervisor that is ready), and a pause, conclude none.
pub open spec fn concludes(run: RunView, event: EventView) -> bool {
    &&& run.due() is Some
    &&& !(run.phase is Working && judge(run.plan[run.at].op, run.facts, event) is Pause)
}

/// The operations that some events concluded, in order.
pub open spec fn trace(start: RunView, events: Seq<EventView>) -> Seq<OpView>
    decreases events.len(),
{
    if events.len() == 0 {
        Seq::empty()
    } else {
        let before = after(start, events.drop_last());
        if concludes(before, events.last()) {
            trace(start, events.drop_last()).push(before.due()->0)
        } else {
            trace(start, events.drop_last())
        }
    }
}

/// The operations of some steps.
pub open spec fn ops_of(steps: Seq<StepView>) -> Seq<OpView> {
    steps.map_values(|s: StepView| s.op)
}

/// The operations that a run has concluded when it is in this state.
pub open spec fn history(run: RunView) -> Seq<OpView> {
    match run.phase {
        Phase::Releasing { done, failure } => ops_of(run.plan.take(run.at + 1))
            + run.plan[run.at].release.take(done),
        _ => ops_of(run.plan.take(run.at)),
    }
}

/// A valid run stays valid.
pub proof fn lemma_next_valid(run: RunView, event: EventView)
    requires
        run.valid(),
        run.action() is Some,
        answers(run.action()->0, event),
    ensures
        run.next(event).valid(),
        run.next(event).plan == run.plan,
{
}

/// What a run has concluded shows in its state: the operations of the plan in their order, and,
/// once a step has failed, the releases of that step in their order.
pub proof fn law_trace_is_history(plan: Seq<StepView>, facts: FactsView, events: Seq<EventView>)
    requires
        facts.sound(),
        answered(fresh(plan, facts), events),
    ensures
        trace(fresh(plan, facts), events) == history(after(fresh(plan, facts), events)),
        after(fresh(plan, facts), events).valid(),
        after(fresh(plan, facts), events).plan == plan,
    decreases events.len(),
{
    let start = fresh(plan, facts);
    if events.len() == 0 {
        assert(history(start) =~= Seq::empty());
    } else {
        law_trace_is_history(plan, facts, events.drop_last());
        let before = after(start, events.drop_last());
        let now = before.next(events.last());
        lemma_next_valid(before, events.last());
        match before.phase {
            Phase::Working => {
                assert(plan.take(before.at + 1) =~= plan.take(before.at).push(plan[before.at]));
                assert(ops_of(plan.take(before.at + 1)) =~= ops_of(plan.take(before.at)).push(
                    plan[before.at].op,
                ));
                assert(trace(start, events) =~= history(now));
            },
            Phase::Pausing => {},
            Phase::Releasing { done, failure } => {
                let release = plan[before.at].release;
                assert(release.take(done + 1) =~= release.take(done).push(release[done]));
                assert(history(now) =~= history(before).push(release[done]));
            },
        }
    }
}

/// A run that succeeds has done every operation of its plan, each once and in order, and
/// nothing else.
pub proof fn law_success_does_all(plan: Seq<StepView>, facts: FactsView, events: Seq<EventView>)
    requires
        facts.sound(),
        answered(fresh(plan, facts), events),
        after(fresh(plan, facts), events).over(),
        after(fresh(plan, facts), events).outcome() is Ok,
    ensures
        trace(fresh(plan, facts), events) == ops_of(plan),
{
    law_trace_is_history(plan, facts, events);
    assert(plan.take(plan.len() as int) =~= plan);
}

/// The step that failed in a run that failed.
pub open spec fn failed_step(run: RunView) -> StepView {
    run.plan[run.at]
}

/// Whether the event at position `i` came to the step at position `k`, answered it, and made it
/// fail with `failure`.
pub open spec fn fails(
    start: RunView,
    events: Seq<EventView>,
    k: int,
    i: int,
    failure: Failure,
) -> bool {
    let before = after(start, events.take(i));
    &&& 0 <= i < events.len()
    &&& before.phase is Working
    &&& before.at == k
    &&& before.due() == Some(start.plan[k].op)
    &&& answers(op_action(start.plan[k].op, before.facts), events[i])
    &&& judge(start.plan[k].op, before.facts, events[i]) == VerdictView::Fail(failure)
}

/// A run that fails has done the operations of its plan up to one that had to succeed, in
/// order, then all releases of that one in order, and nothing else. The error is that one's.
pub proof fn law_failure_releases(plan: Seq<StepView>, facts: FactsView, events: Seq<EventView>)
    requires
        facts.sound(),
        answered(fresh(plan, facts), events),
        after(fresh(plan, facts), events).over(),
        after(fresh(plan, facts), events).outcome() is Err,
    ensures
        ({
            let end = after(fresh(plan, facts), events);
            &&& 0 <= end.at < plan.len()
            &&& failed_step(end) == plan[end.at]
            &&& failed_step(end).required
            &&& trace(fresh(plan, facts), events) == ops_of(plan.take(end.at + 1))
                + failed_step(end).release
            &&& exists|i: int|
                #[trigger] fails(
                    fresh(plan, facts),
                    events,
                    end.at,
                    i,
                    end.outcome()->Err_0,
                )
        }),
{
    law_trace_is_history(plan, facts, events);
    let end = after(fresh(plan, facts), events);
    assert(end.plan[end.at].release.take(end.plan[end.at].release.len() as int)
        =~= end.plan[end.at].release);
    lemma_failure_has_cause(plan, facts, events);
    let i = choose|i: int|
        #[trigger] fails(fresh(plan, facts), events, end.at, i, end.phase->failure);
    assert(fails(fresh(plan, facts), events, end.at, i, end.outcome()->Err_0));
}

proof fn lemma_failure_has_cause(plan: Seq<StepView>, facts: FactsView, events: Seq<EventView>)
    requires
        facts.sound(),
        answered(fresh(plan, facts), events),
        after(fresh(plan, facts), events).phase is Releasing,
    ensures
        ({
            let end = after(fresh(plan, facts), events);
            exists|i: int|
                #[trigger] fails(fresh(plan, facts), events, end.at, i, end.phase->failure)
        }),
    decreases events.len(),
{
    let start = fresh(plan, facts);
    let end = after(start, events);
    let n = events.len() - 1;
    assert(events.len() > 0);
    let shorter = events.drop_last();
    let before = after(start, shorter);
    law_trace_is_history(plan, facts, shorter);
    assert(events.take(n) =~= shorter);
    if before.phase is Releasing {
        lemma_failure_has_cause(plan, facts, shorter);
        let i = choose|i: int|
            #[trigger] fails(start, shorter, before.at, i, before.phase->failure);
        assert(shorter.take(i) =~= events.take(i));
        assert(fails(start, events, end.at, i, end.phase->failure));
    } else {
        assert(fails(start, events, end.at, n, end.phase->failure));
    }
}

/// Abandoning a run that has failed completes its releases: what it has released and what is left
/// over are together all releases of the step that failed.
pub proof fn law_abandoning_completes_the_releases(
    plan: Seq<StepView>,
    facts: FactsView,
    events: Seq<EventView>,
)
    requires
        facts.sound(),
        answered(fresh(plan, facts), events),
        after(fresh(plan, facts), events).phase is Releasing,
    ensures
        ({
            let now = after(fresh(plan, facts), events);
            trace(fresh(plan, facts), events) + now.left_over() == ops_of(plan.take(now.at + 1))
                + plan[now.at].release
        }),
{
    law_trace_is_history(plan, facts, events);
    let now = after(fresh(plan, facts), events);
    let release = plan[now.at].release;
    let done = now.phase->done;
    assert(release.take(done) + release.skip(done) =~= release);
    assert(trace(fresh(plan, facts), events) + now.left_over() =~= ops_of(plan.take(now.at + 1))
        + release);
}

/// Whether the event at position `i` came to the step at position `k`, answered it, and made it a
/// success.
pub open spec fn succeeds(start: RunView, events: Seq<EventView>, k: int, i: int) -> bool {
    let before = after(start, events.take(i));
    &&& 0 <= i < events.len()
    &&& before.phase is Working
    &&& before.at == k
    &&& before.due() == Some(start.plan[k].op)
    &&& answers(op_action(start.plan[k].op, before.facts), events[i])
    &&& judge(start.plan[k].op, before.facts, events[i]) is Pass
}

/// A run gets past a step that must succeed only by its success.
pub proof fn law_passed_means_succeeded(
    plan: Seq<StepView>,
    facts: FactsView,
    events: Seq<EventView>,
    k: int,
)
    requires
        facts.sound(),
        answered(fresh(plan, facts), events),
        0 <= k < plan.len(),
        plan[k].required,
        after(fresh(plan, facts), events).at > k,
    ensures
        exists|i: int| #[trigger] succeeds(fresh(plan, facts), events, k, i),
    decreases events.len(),
{
    let start = fresh(plan, facts);
    if events.len() > 0 {
        let n = events.len() - 1;
        let shorter = events.drop_last();
        let before = after(start, shorter);
        law_trace_is_history(plan, facts, shorter);
        assert(events.take(n) =~= shorter);
        if before.at > k {
            law_passed_means_succeeded(plan, facts, shorter, k);
            let i = choose|i: int| #[trigger] succeeds(start, shorter, k, i);
            assert(shorter.take(i) =~= events.take(i));
            assert(succeeds(start, events, k, i));
        } else {
            assert(succeeds(start, events, k, n));
        }
    }
}

/// A run that has failed stays at the step that failed, with its error.
pub proof fn law_failure_is_final(
    plan: Seq<StepView>,
    facts: FactsView,
    events: Seq<EventView>,
    n: int,
)
    requires
        0 <= n <= events.len(),
        after(fresh(plan, facts), events.take(n)).phase is Releasing,
    ensures
        ({
            let then = after(fresh(plan, facts), events.take(n));
            let end = after(fresh(plan, facts), events);
            &&& end.at == then.at
            &&& end.plan == then.plan
            &&& end.facts == then.facts
            &&& end.phase is Releasing
            &&& end.phase->failure == then.phase->failure
        }),
    decreases events.len(),
{
    if n < events.len() {
        assert(events.drop_last().take(n) =~= events.take(n));
        law_failure_is_final(plan, facts, events.drop_last(), n);
    } else {
        assert(events.take(n) =~= events);
    }
}

/// A look for the socket that finds it ends the wait. One that does not is repeated after a
/// pause, as long as the time that Firecracker may take has not passed; then the wait fails.
pub proof fn law_wait_is_bounded(run: RunView, present: bool, now: u64, paused: EventView)
    requires
        run.valid(),
        run.phase is Working,
        run.at < run.plan.len(),
        run.plan[run.at].op is AwaitSocket,
        run.plan[run.at].required,
    ensures
        ({
            let then = run.next(EventView::Polled { present, now });
            &&& present ==> then == run.advanced(run.facts)
            &&& !present && !timed_out(run.facts.started_at, now) ==> then.action() == Some(
                ActionView::Sleep(API_READY_POLL_MS),
            ) && then.next(paused) == run
            &&& !present && timed_out(run.facts.started_at, now) ==> then.outcome() == Err::<
                FactsView,
                Failure,
            >(Failure::ApiConnect("timed out waiting for Firecracker API socket"@))
        }),
{
}

/// A look that finds the supervisor ready ends the wait. One that does not is repeated after a
/// pause, as long as the time that the supervisor may take has not passed; then the wait fails.
pub proof fn law_supervisor_wait_is_bounded(
    run: RunView,
    ready: bool,
    now: u64,
    paused: EventView,
)
    requires
        run.valid(),
        run.phase is Working,
        run.at < run.plan.len(),
        run.plan[run.at].op is AwaitSupervisor,
        run.plan[run.at].required,
    ensures
        ({
            let then = run.next(EventView::Polled { present: ready, now });
            &&& ready ==> then == run.advanced(run.facts)
            &&& !ready && !supervisor_late(run.facts.started_at, now) ==> then.action() == Some(
                ActionView::Sleep(API_READY_POLL_MS),
            ) && then.next(paused) == run
            &&& !ready && supervisor_late(run.facts.started_at, now) ==> then.outcome() == Err::<
                FactsView,
                Failure,
            >(Failure::Snapshot("timed out waiting for sandbox supervisor"@))
        }),
{
}

/// Once a run is past a step that takes a subnet, a subnet is known.
pub proof fn law_subnet_is_known(
    plan: Seq<StepView>,
    facts: FactsView,
    events: Seq<EventView>,
    k: int,
)
    requires
        facts.sound(),
        answered(fresh(plan, facts), events),
        0 <= k < plan.len(),
        plan[k].op == OpView::AllocateSubnet,
        after(fresh(plan, facts), events).at > k,
    ensures
        after(fresh(plan, facts), events).facts.subnet is Some,
    decreases events.len(),
{
    let start = fresh(plan, facts);
    if events.len() > 0 {
        let before = after(start, events.drop_last());
        law_trace_is_history(plan, facts, events.drop_last());
        if before.at > k {
            law_subnet_is_known(plan, facts, events.drop_last(), k);
        }
    }
}

/// Whether a step attaches the loop device of the given role.
pub open spec fn attaches(step: StepView, role: LoopRole) -> bool {
    step.op matches OpView::AttachLoop { role: r, path, read_only } && r == role
}

/// Past the last step that takes a subnet (at position `k`, or -1 where none does), the subnet that
/// a run acts on is the one that it was told, in the steps and in the releases.
pub proof fn law_subnet_is_kept(
    plan: Seq<StepView>,
    facts: FactsView,
    events: Seq<EventView>,
    n: int,
    k: int,
)
    requires
        facts.sound(),
        answered(fresh(plan, facts), events),
        0 <= n <= events.len(),
        -1 <= k < plan.len(),
        forall|j: int| k < j < plan.len() ==> (#[trigger] plan[j]).op != OpView::AllocateSubnet,
        after(fresh(plan, facts), events.take(n)).at > k,
    ensures
        after(fresh(plan, facts), events).at >= after(fresh(plan, facts), events.take(n)).at,
        after(fresh(plan, facts), events).facts.subnet == after(
            fresh(plan, facts),
            events.take(n),
        ).facts.subnet,
    decreases events.len(),
{
    if n == events.len() {
        assert(events.take(n) =~= events);
    } else {
        let shorter = events.drop_last();
        assert(shorter.take(n) =~= events.take(n));
        law_subnet_is_kept(plan, facts, shorter, n, k);
        law_trace_is_history(plan, facts, shorter);
    }
}

/// Past the last step that attaches the base image (at position `k`, or -1 where none does), the
/// loop device of the base that a run acts on is the one that it was told.
pub proof fn law_base_loop_is_kept(
    plan: Seq<StepView>,
    facts: FactsView,
    events: Seq<EventView>,
    n: int,
    k: int,
)
    requires
        facts.sound(),
        answered(fresh(plan, facts), events),
        0 <= n <= events.len(),
        -1 <= k < plan.len(),
        forall|j: int| k < j < plan.len() ==> !attaches(#[trigger] plan[j], LoopRole::Base),
        after(fresh(plan, facts), events.take(n)).at > k,
    ensures
        after(fresh(plan, facts), events).at >= after(fresh(plan, facts), events.take(n)).at,
        after(fresh(plan, facts), events).facts.base_loop == after(
            fresh(plan, facts),
            events.take(n),
        ).facts.base_loop,
    decreases events.len(),
{
    if n == events.len() {
        assert(events.take(n) =~= events);
    } else {
        let shorter = events.drop_last();
        assert(shorter.take(n) =~= events.take(n));
        law_base_loop_is_kept(plan, facts, shorter, n, k);
        law_trace_is_history(plan, facts, shorter);
    }
}

/// Past the last step that attaches the COW file (at position `k`, or -1 where none does), the loop
/// device of the COW file that a run acts on is the one that it was told.
pub proof fn law_cow_loop_is_kept(
    plan: Seq<StepView>,
    facts: FactsView,
    events: Seq<EventView>,
    n: int,
    k: int,
)
    requires
        facts.sound(),
        answered(fresh(plan, facts), events),
        0 <= n <= events.len(),
        -1 <= k < plan.len(),
        forall|j: int| k < j < plan.len() ==> !attaches(#[trigger] plan[j], LoopRole::Cow),
        after(fresh(plan, facts), events.take(n)).at > k,
    ensures
        after(fresh(plan, facts), events).at >= after(fresh(plan, facts), events.take(n)).at,
        after(fresh(plan, facts), events).facts.cow_loop == after(
            fresh(plan, facts),
            events.take(n),
        ).facts.cow_loop,
    decreases events.len(),
{
    if n == events.len() {
        assert(events.take(n) =~= events);
    } else {
        let shorter = events.drop_last();
        assert(shorter.take(n) =~= events.take(n));
        law_cow_loop_is_kept(plan, facts, shorter, n, k);
        law_trace_is_history(plan, facts, shorter);
    }
}

/// Where one step alone takes a subnet and none was known before, a run that knows a subnet is
/// past that step.
pub proof fn lemma_subnet_comes_from_its_step(
    plan: Seq<StepView>,
    facts: FactsView,
    events: Seq<EventView>,
    n: int,
    k: int,
)
    requires
        facts.sound(),
        facts.subnet is None,
        answered(fresh(plan, facts), events),
        0 <= n <= events.len(),
        0 <= k < plan.len(),
        forall|j: int|
            0 <= j < plan.len() && j != k ==> (#[trigger] plan[j]).op != OpView::AllocateSubnet,
    ensures
        after(fresh(plan, facts), events.take(n)).facts.subnet is Some ==> after(
            fresh(plan, facts),
            events.take(n),
        ).at > k,
    decreases events.len(),
{
    let start = fresh(plan, facts);
    if n == events.len() {
        assert(events.take(n) =~= events);
        if n > 0 {
            let shorter = events.drop_last();
            assert(shorter.take(n - 1) =~= shorter);
            lemma_subnet_comes_from_its_step(plan, facts, shorter, n - 1, k);
            law_trace_is_history(plan, facts, shorter);
        }
    } else {
        let shorter = events.drop_last();
        assert(shorter.take(n) =~= events.take(n));
        lemma_subnet_comes_from_its_step(plan, facts, shorter, n, k);
    }
}

/// A run begins with the first step of its plan and what is known then. While it works, the action
/// is that of the step at hand, and a verdict leads to the next step with the facts that it brings,
/// to a pause of 50 ms and the same step again, to the releases of that step where it must succeed,
/// and to the next step with the same facts where it need not.
pub proof fn law_run_steps(plan: Seq<StepView>, facts: FactsView, run: RunView, event: EventView)
    requires
        run.phase is Working,
        0 <= run.at < run.plan.len(),
    ensures
        fresh(plan, facts).plan == plan,
        fresh(plan, facts).at == 0,
        fresh(plan, facts).facts == facts,
        fresh(plan, facts).phase is Working,
        run.action() == Some(op_action(run.plan[run.at].op, run.facts)),
        run.left_over() == run.plan[run.at].release,
        ({
            let step = run.plan[run.at];
            let next = run.next(event);
            &&& next.plan == run.plan
            &&& match judge(step.op, run.facts, event) {
                VerdictView::Pass(told) => next.at == run.at + 1 && next.facts == told
                    && next.phase is Working,
                VerdictView::Pause => next.at == run.at && next.facts == run.facts
                    && next.action() == Some(ActionView::Sleep(50)) && next.left_over()
                    == step.release && next.next(event) == run,
                VerdictView::Fail(failure) => if step.required {
                    &&& next.at == run.at
                    &&& next.facts == run.facts
                    &&& next.left_over() == step.release
                    &&& next.outcome() == Err::<FactsView, Failure>(failure)
                } else {
                    next.at == run.at + 1 && next.facts == run.facts && next.phase is Working
                },
            }
        }),
{
    let step = run.plan[run.at];
    assert(step.release.skip(0) =~= step.release);
}

/// A run that has failed does the releases of its step one by one, whatever comes of each, with the
/// facts and the error that it failed with. It is over when none is left over.
pub proof fn law_run_releases(run: RunView, event: EventView)
    requires
        run.valid(),
        run.phase is Releasing,
    ensures
        run.over() <==> run.left_over().len() == 0,
        !run.over() ==> {
            let next = run.next(event);
            &&& run.action() == Some(op_action(run.left_over()[0], run.facts))
            &&& next.left_over() == run.left_over().drop_first()
            &&& next.facts == run.facts
            &&& next.outcome() == run.outcome()
        },
        run.outcome() is Err,
{
    let release = run.plan[run.at].release;
    let done = run.phase->done;
    if !run.over() {
        assert(release.skip(done)[0] == release[done]);
        assert(release.skip(done + 1) =~= release.skip(done).drop_first());
    }
}

/// A run that has not failed is over exactly past its last step, and tells what it knows.
pub proof fn law_run_tells_its_facts(run: RunView)
    requires
        run.valid(),
        run.phase is Working,
    ensures
        run.over() <==> run.at == run.plan.len(),
        run.outcome() == Ok::<FactsView, Failure>(run.facts),
        run.over() ==> run.left_over().len() == 0,
{
}

} // verus!
