//! Plans: operations in order, each with what is to be released if it fails.

use crate::host::{Op, OpView};
use vstd::prelude::*;

verus! {

// ── Lists of operations ──────────────────────────────────────────────────────

/// A list of operations.
#[derive(Debug)]
pub struct Ops {
    items: Vec<Op>,
}

impl View for Ops {
    type V = Seq<OpView>;

    closed spec fn view(&self) -> Seq<OpView> {
        self.items@.map_values(|op: Op| op@)
    }
}

impl Ops {
    /// No operations.
    pub fn new() -> (ops: Ops)
        ensures
            ops@ == Seq::<OpView>::empty(),
    {
        Ops { items: Vec::new() }
    }

    /// These operations and then `op`.
    pub fn with(self, op: Op) -> (ops: Ops)
        ensures
            ops@ == self@.push(op@),
    {
        let mut items = self.items;
        items.push(op);
        let ops = Ops { items };
        assert(ops@ =~= self@.push(op@));
        ops
    }

    /// These operations and then those of `other`.
    pub fn followed_by(self, other: &Ops) -> (ops: Ops)
        ensures
            ops@ == self@ + other@,
    {
        let mut items = self.items;
        let mut i: usize = 0;
        while i < other.items.len()
            invariant
                i <= other.items@.len(),
                items@.len() == self.items@.len() + i,
                forall|j: int| 0 <= j < self.items@.len() ==> items@[j] == self.items@[j],
                forall|j: int|
                    0 <= j < i ==> (#[trigger] items@[self.items@.len() + j])@
                        == other.items@[j]@,
            decreases other.items@.len() - i,
        {
            items.push(other.items[i].clone());
            i = i + 1;
        }
        let ops = Ops { items };
        assert forall|j: int| 0 <= j < ops@.len() implies ops@[j] == (self@ + other@)[j] by {
            if j >= self@.len() {
                let k = j - self.items@.len();
                assert(ops.items@[self.items@.len() + k]@ == other.items@[k]@);
            }
        }
        assert(ops@ =~= self@ + other@);
        ops
    }

    /// How many operations these are.
    pub fn len(&self) -> (n: usize)
        ensures
            n == self@.len(),
    {
        self.items.len()
    }

    /// The operation at a position.
    pub fn get(&self, i: usize) -> (op: &Op)
        requires
            i < self@.len(),
        ensures
            op@ == self@[i as int],
    {
        &self.items[i]
    }
}

// ── Plans ────────────────────────────────────────────────────────────────────

/// One step of a plan.
#[derive(Debug)]
pub struct Step {
    /// What to do.
    pub op: Op,
    /// Whether the plan ends when this fails.
    pub required: bool,
    /// What to release, in order, when the plan ends here.
    pub release: Ops,
}

/// The content of a [`Step`].
pub struct StepView {
    pub op: OpView,
    pub required: bool,
    pub release: Seq<OpView>,
}

impl View for Step {
    type V = StepView;

    open spec fn view(&self) -> StepView {
        StepView { op: self.op@, required: self.required, release: self.release@ }
    }
}

/// A step that ends the plan when it fails.
pub open spec fn must(op: OpView) -> StepView {
    StepView { op, required: true, release: Seq::empty() }
}

/// A step that ends the plan when it fails, after some releases.
pub open spec fn must_or(op: OpView, release: Seq<OpView>) -> StepView {
    StepView { op, required: true, release }
}

/// A step whose failure does not matter.
pub open spec fn attempt(op: OpView) -> StepView {
    StepView { op, required: false, release: Seq::empty() }
}

/// Steps whose failures do not matter.
pub open spec fn attempts(ops: Seq<OpView>) -> Seq<StepView> {
    ops.map_values(|op: OpView| attempt(op))
}

/// `steps`, with `release` after whatever each releases when the plan ends there.
pub open spec fn guarded(steps: Seq<StepView>, release: Seq<OpView>) -> Seq<StepView> {
    steps.map_values(|s: StepView| StepView { release: s.release + release, ..s })
}

/// Steps to be done in order.
#[derive(Debug)]
pub struct Plan {
    steps: Vec<Step>,
}

impl View for Plan {
    type V = Seq<StepView>;

    closed spec fn view(&self) -> Seq<StepView> {
        self.steps@.map_values(|step: Step| step@)
    }
}

impl Plan {
    /// Nothing to do.
    pub fn new() -> (plan: Plan)
        ensures
            plan@ == Seq::<StepView>::empty(),
    {
        Plan { steps: Vec::new() }
    }

    fn push(self, step: Step) -> (plan: Plan)
        ensures
            plan@ == self@.push(step@),
    {
        let mut steps = self.steps;
        steps.push(step);
        let plan = Plan { steps };
        assert(plan@ =~= self@.push(step@));
        plan
    }

    /// This plan and then `op`, which must succeed.
    pub fn must(self, op: Op) -> (plan: Plan)
        ensures
            plan@ == self@.push(must(op@)),
    {
        self.push(Step { op, required: true, release: Ops::new() })
    }

    /// This plan and then `op`, which must succeed or else `release` is released.
    pub fn must_or(self, op: Op, release: Ops) -> (plan: Plan)
        ensures
            plan@ == self@.push(must_or(op@, release@)),
    {
        self.push(Step { op, required: true, release })
    }

    /// This plan and then `op`, whether it succeeds or not.
    pub fn attempt(self, op: Op) -> (plan: Plan)
        ensures
            plan@ == self@.push(attempt(op@)),
    {
        self.push(Step { op, required: false, release: Ops::new() })
    }

    /// This plan and then each of `ops`, whether it succeeds or not.
    pub fn attempt_all(self, ops: &Ops) -> (plan: Plan)
        ensures
            plan@ == self@ + attempts(ops@),
    {
        let mut plan = self;
        let mut i: usize = 0;
        assert(plan@ =~= self@ + attempts(ops@).take(0));
        while i < ops.len()
            invariant
                i <= ops@.len(),
                plan@ == self@ + attempts(ops@).take(i as int),
            decreases ops@.len() - i,
        {
            plan = plan.attempt(ops.get(i).clone());
            assert(plan@ =~= self@ + attempts(ops@).take(i as int + 1));
            i = i + 1;
        }
        assert(attempts(ops@).take(i as int) =~= attempts(ops@));
        plan
    }

    /// This plan and then `other`.
    pub fn followed_by(self, other: Plan) -> (plan: Plan)
        ensures
            plan@ == self@ + other@,
    {
        let mut steps = self.steps;
        let mut rest = other.steps;
        steps.append(&mut rest);
        let plan = Plan { steps };
        assert(plan@ =~= self@ + other@);
        plan
    }

    /// This plan, with `release` after whatever each step releases.
    pub fn guarded(self, release: &Ops) -> (plan: Plan)
        ensures
            plan@ == guarded(self@, release@),
    {
        let mut rest = self.steps;
        let mut plan = Plan::new();
        let ghost all = self@;
        while rest.len() > 0
            invariant
                all == self@,
                plan@.len() + rest@.len() == all.len(),
                plan@ == guarded(all, release@).take(plan@.len() as int),
                rest@.map_values(|step: Step| step@) == all.skip(plan@.len() as int),
            decreases rest@.len(),
        {
            let ghost before = rest@.map_values(|step: Step| step@);
            let step = rest.remove(0);
            let ghost n = plan@.len() as int;
            assert(before[0] == step@);
            assert(all.skip(n)[0] == all[n]);
            plan =
            plan.push(
                Step {
                    op: step.op,
                    required: step.required,
                    release: step.release.followed_by(release),
                },
            );
            assert(plan@ =~= guarded(all, release@).take(n + 1));
            assert(rest@.map_values(|step: Step| step@) =~= before.drop_first());
            assert(all.skip(n).drop_first() =~= all.skip(n + 1));
        }
        assert(guarded(all, release@).take(plan@.len() as int) =~= guarded(all, release@));
        plan
    }

    /// How many steps this plan has.
    pub fn len(&self) -> (n: usize)
        ensures
            n == self@.len(),
    {
        self.steps.len()
    }

    /// The step at a position.
    pub fn get(&self, i: usize) -> (step: &Step)
        requires
            i < self@.len(),
        ensures
            step@ == self@[i as int],
    {
        &self.steps[i]
    }
}

// ── Laws ─────────────────────────────────────────────────────────────────────

/// Guarding a plan changes neither what is done nor what must succeed. Each step releases what it
/// released before, and then what guards it; guards that are put around one another release from
/// the inside out.
pub proof fn law_guards(steps: Seq<StepView>, inner: Seq<OpView>, outer: Seq<OpView>, k: int)
    requires
        0 <= k < steps.len(),
    ensures
        guarded(steps, inner).len() == steps.len(),
        guarded(steps, inner)[k].op == steps[k].op,
        guarded(steps, inner)[k].required == steps[k].required,
        guarded(steps, inner)[k].release == steps[k].release + inner,
        guarded(guarded(steps, inner), outer)[k].release == steps[k].release + inner + outer,
{
}

/// A step that must succeed ends the plan, a step that is attempted does not, and neither releases
/// anything by itself.
pub proof fn law_steps(op: OpView, release: Seq<OpView>, ops: Seq<OpView>, k: int)
    requires
        0 <= k < ops.len(),
    ensures
        must(op) == (StepView { op, required: true, release: Seq::empty() }),
        must_or(op, release) == (StepView { op, required: true, release }),
        attempt(op) == (StepView { op, required: false, release: Seq::empty() }),
        attempts(ops).len() == ops.len(),
        attempts(ops)[k] == (StepView { op: ops[k], required: false, release: Seq::empty() }),
{
}

} // verus!
