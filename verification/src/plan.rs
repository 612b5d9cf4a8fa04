//! Teach-then-handoff task decomposition: an agent should neither refuse a step outright
//! nor silently complete it invisibly. Confident steps proceed; steps that need human
//! authority or context are surfaced explicitly as things to teach or hand back.
//!
//! Each subtask arrives already classified: its confidence (0..1, as the bit pattern of
//! the `f64`) was remapped to evidence `(c - 0.5) * 2` and classified to a trit. This
//! module splits the classified subtasks into the two queues.

use crate::trit::{trit_value, Trit};
use vstd::prelude::*;

verus! {

/// A subtask with its classification.
#[derive(Debug, Clone)]
pub struct PlannedTask {
    pub label: String,
    /// Bit pattern of the `f64` "can I do this alone" score on [0, 1].
    pub confidence_bits: u64,
    /// The classified trit in signed form (-1 / 0 / +1).
    pub trit: i8,
}

#[derive(Debug, Clone)]
pub struct Plan {
    pub goal: String,
    /// Steps the agent proceeds on directly.
    pub action_queue: Vec<PlannedTask>,
    /// Steps that need human input, authority, or teaching before they can proceed:
    /// not a dead end, the explicit list of what to explain or hand back.
    pub hold_queue: Vec<PlannedTask>,
    pub overall_trit: i8,
}

/// A task is held back exactly when its trit classifies as reject.
pub open spec fn is_held(t: PlannedTask) -> bool {
    t.trit < 0
}

/// The tasks that go to the hold queue, in the order of the input.
pub open spec fn held_tasks(s: Seq<PlannedTask>) -> Seq<PlannedTask> {
    s.filter(|t: PlannedTask| is_held(t))
}

/// The tasks that go to the action queue, in the order of the input.
pub open spec fn action_tasks(s: Seq<PlannedTask>) -> Seq<PlannedTask> {
    s.filter(|t: PlannedTask| !is_held(t))
}

/// Splits classified subtasks into an action queue and a hold queue. A subtask lands in
/// the hold queue only when its trit is reject; tend and affirm steps proceed. Both
/// queues keep the order of the input; `overall` is the classification of all the
/// subtasks' evidence together.
pub fn plan(goal: String, tasks: &[PlannedTask], overall: Trit) -> (p: Plan)
    ensures
        p.goal == goal,
        p.action_queue@ == action_tasks(tasks@),
        p.hold_queue@ == held_tasks(tasks@),
        p.hold_queue@ == tasks@.filter(|t: PlannedTask| t.trit < 0),
        p.action_queue@ == tasks@.filter(|t: PlannedTask| t.trit >= 0),
        p.overall_trit == trit_value(overall),
{
    proof {
        lemma_queues_by_trit_sign(tasks@);
    }
    let mut action_queue: Vec<PlannedTask> = Vec::new();
    let mut hold_queue: Vec<PlannedTask> = Vec::new();
    let mut i: usize = 0;
    while i < tasks.len()
        invariant
            i <= tasks@.len(),
            action_queue@ == action_tasks(tasks@.take(i as int)),
            hold_queue@ == held_tasks(tasks@.take(i as int)),
        decreases tasks@.len() - i,
    {
        let t = &tasks[i];
        let pt = PlannedTask {
            label: t.label.clone(),
            confidence_bits: t.confidence_bits,
            trit: t.trit,
        };
        proof {
            reveal(Seq::filter);
            assert(tasks@.take(i + 1).drop_last() =~= tasks@.take(i as int));
            assert(tasks@.take(i + 1).last() == tasks@[i as int]);
        }
        if Trit::from_i8(t.trit) == Trit::Reject {
            hold_queue.push(pt);
        } else {
            action_queue.push(pt);
        }
        i += 1;
    }
    proof {
        assert(tasks@.take(tasks@.len() as int) =~= tasks@);
    }
    Plan { goal, action_queue, hold_queue, overall_trit: overall.as_i8() }
}

/// Every subtask lands in exactly one of the two queues: the queue lengths add up to the
/// number of subtasks.
pub proof fn lemma_queues_partition_tasks(s: Seq<PlannedTask>)
    ensures
        action_tasks(s).len() + held_tasks(s).len() == s.len(),
    decreases s.len(),
{
    reveal(Seq::filter);
    if s.len() > 0 {
        lemma_queues_partition_tasks(s.drop_last());
    }
}

/// Only the sign of a task's trit decides its queue, whatever its confidence: the hold
/// queue is the input's tasks with a negative trit, the action queue those with a trit of
/// zero or more, each in input order.
pub proof fn lemma_queues_by_trit_sign(s: Seq<PlannedTask>)
    ensures
        held_tasks(s) == s.filter(|t: PlannedTask| t.trit < 0),
        action_tasks(s) == s.filter(|t: PlannedTask| t.trit >= 0),
{
    assert((|t: PlannedTask| is_held(t)) =~= (|t: PlannedTask| t.trit < 0));
    assert((|t: PlannedTask| !is_held(t)) =~= (|t: PlannedTask| t.trit >= 0));
}

/// The hold queue holds exactly the rejected subtasks and the action queue exactly the
/// others: a subtask is in the hold queue iff it is a subtask of the input with a negative
/// trit, and in the action queue iff it is one with a tend or affirm trit (zero or more).
pub proof fn lemma_queue_membership(s: Seq<PlannedTask>, t: PlannedTask)
    ensures
        held_tasks(s).contains(t) <==> (s.contains(t) && t.trit < 0),
        action_tasks(s).contains(t) <==> (s.contains(t) && t.trit >= 0),
{
    broadcast use Seq::lemma_filter_contains_rev;
    let hp = |x: PlannedTask| is_held(x);
    let ap = |x: PlannedTask| !is_held(x);
    if s.contains(t) {
        let i = choose|i: int| 0 <= i < s.len() && s[i] == t;
        if is_held(t) {
            s.lemma_filter_contains(hp, i);
        } else {
            s.lemma_filter_contains(ap, i);
        }
    }
    if held_tasks(s).contains(t) {
        let j = choose|j: int| 0 <= j < held_tasks(s).len() && held_tasks(s)[j] == t;
        s.lemma_filter_pred(hp, j);
    }
    if action_tasks(s).contains(t) {
        let j = choose|j: int| 0 <= j < action_tasks(s).len() && action_tasks(s)[j] == t;
        s.lemma_filter_pred(ap, j);
    }
}

} // verus!
