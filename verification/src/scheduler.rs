//! Bounded scheduler: decides when the next unit is started and when a
//! completion is awaited, and gathers the records of the units as they
//! complete.
//!
//! The scheduler starts nothing and awaits nothing itself. Its driver asks
//! it what to do ([`Scheduler::next_action`]), does it, and tells the
//! scheduler ([`Scheduler::start_next`], [`Scheduler::complete`]). Units are
//! started in order; once as many have been started as the ceiling allows,
//! each further start is followed by waiting for one completion. When all
//! units have been started, the rest is awaited.

use vstd::prelude::*;
use crate::executor::PlanResult;

verus! {

/// What the driver of a batch is to do next.
#[derive(Debug, Clone, Copy, PartialEq, Eq, Structural)]
pub enum Action {
    /// Start the next unit.
    Start,
    /// Wait until one of the started units has completed.
    AwaitOne,
    /// All units have completed: take the results.
    Finish,
}

/// The records among `reported`, in order: a completion that brought no
/// record leaves no trace.
pub open spec fn outcomes(reported: Seq<Option<PlanResult>>) -> Seq<PlanResult>
    decreases reported.len(),
{
    if reported.len() == 0 {
        Seq::empty()
    } else {
        match reported.last() {
            Some(result) => outcomes(reported.drop_last()).push(result),
            None => outcomes(reported.drop_last()),
        }
    }
}

/// Mathematical state of a batch run.
pub struct Batch {
    /// Number of units in the batch.
    pub total: nat,
    /// The concurrency ceiling the batch was started with.
    pub ceiling: nat,
    /// Number of units started so far. Units are started in order, so this
    /// is also the index of the next one.
    pub admitted: nat,
    /// The last start reached the ceiling, and the completion that is to
    /// follow it has not been awaited yet.
    pub drain_due: bool,
    /// What each completion so far brought, in completion order: the unit's
    /// record, or `None` where the unit's task ended without one.
    pub reported: Seq<Option<PlanResult>>,
}

impl Batch {
    /// A batch of `total` units of which none has been started.
    pub open spec fn fresh(total: nat, ceiling: nat) -> Batch {
        Batch { total, ceiling, admitted: 0, drain_due: false, reported: Seq::empty() }
    }

    /// Number of units that have been started and have not completed.
    pub open spec fn in_flight(self) -> int {
        self.admitted - self.reported.len()
    }

    /// The most units that are ever in flight: the ceiling, and 1 for a
    /// ceiling of 0, since a unit is started before anything is awaited.
    pub open spec fn limit(self) -> nat {
        if self.ceiling == 0 {
            1
        } else {
            self.ceiling
        }
    }

    /// What the driver is to do in this state.
    pub open spec fn next_action(self) -> Action {
        if self.drain_due {
            Action::AwaitOne
        } else if self.admitted < self.total {
            Action::Start
        } else if self.in_flight() > 0 {
            Action::AwaitOne
        } else {
            Action::Finish
        }
    }

    /// The state after the next unit was started.
    pub open spec fn started(self) -> Batch {
        Batch { admitted: self.admitted + 1, drain_due: self.admitted + 1 >= self.ceiling, ..self }
    }

    /// The state after one completion was awaited and brought `outcome`.
    pub open spec fn completed(self, outcome: Option<PlanResult>) -> Batch {
        Batch { drain_due: false, reported: self.reported.push(outcome), ..self }
    }

    /// The records gathered so far, in completion order.
    pub open spec fn results(self) -> Seq<PlanResult> {
        outcomes(self.reported)
    }

    /// What holds of every state that a batch passes through.
    pub open spec fn wf(self) -> bool {
        &&& self.admitted <= self.total
        &&& 0 <= self.in_flight() <= self.limit()
        &&& self.drain_due ==> self.admitted >= self.ceiling && self.in_flight() == self.limit()
        &&& !self.drain_due && self.admitted < self.total ==> if self.admitted < self.ceiling {
            self.reported.len() == 0
        } else {
            self.in_flight() == self.limit() - 1
        }
    }

    /// The state in which the batch comes to rest when its driver follows
    /// `next_action` from this state on and the completions it awaits bring
    /// `events`, in order: either all units have completed, or `events` is
    /// used up and one more completion is awaited.
    pub open spec fn run(self, events: Seq<Option<PlanResult>>) -> Batch
        decreases events.len(), self.total - self.admitted,
    {
        match self.next_action() {
            Action::Start => self.started().run(events),
            Action::AwaitOne => if events.len() == 0 {
                self
            } else {
                self.completed(events.first()).run(events.drop_first())
            },
            Action::Finish => self,
        }
    }

    /// The actions that the driver is asked for on the way to `run(events)`,
    /// the last one included.
    pub open spec fn trace(self, events: Seq<Option<PlanResult>>) -> Seq<Action>
        decreases events.len(), self.total - self.admitted,
    {
        match self.next_action() {
            Action::Start => seq![Action::Start] + self.started().trace(events),
            Action::AwaitOne => if events.len() == 0 {
                seq![Action::AwaitOne]
            } else {
                seq![Action::AwaitOne] + self.completed(events.first()).trace(events.drop_first())
            },
            Action::Finish => seq![Action::Finish],
        }
    }
}

/// The scheduler of one batch run.
pub struct Scheduler {
    total: usize,
    ceiling: usize,
    admitted: usize,
    finished: usize,
    drain_due: bool,
    results: Vec<PlanResult>,
    reported: Ghost<Seq<Option<PlanResult>>>,
}

impl View for Scheduler {
    type V = Batch;

    closed spec fn view(&self) -> Batch {
        Batch {
            total: self.total as nat,
            ceiling: self.ceiling as nat,
            admitted: self.admitted as nat,
            drain_due: self.drain_due,
            reported: self.reported@,
        }
    }
}

impl Scheduler {
    /// The scheduler holds what its view says: it has counted the
    /// completions, and has gathered the records that they brought.
    pub closed spec fn consistent(&self) -> bool {
        &&& self.finished == self.reported@.len()
        &&& self.results@ == outcomes(self.reported@)
    }

    /// Well-formedness: the state is one that a batch passes through, and
    /// the scheduler holds what its view says.
    pub open spec fn wf(&self) -> bool {
        &&& self@.wf()
        &&& self.consistent()
    }

    /// Makes the scheduler of a batch of `total` units, of which at most
    /// `ceiling` are to be in flight at a time. A ceiling of 0 works as a
    /// ceiling of 1.
    pub fn new(total: usize, ceiling: usize) -> (scheduler: Scheduler)
        ensures
            scheduler.wf(),
            scheduler@ == Batch::fresh(total as nat, ceiling as nat),
            scheduler@.results() == Seq::<PlanResult>::empty(),
    {
        Scheduler {
            total,
            ceiling,
            admitted: 0,
            finished: 0,
            drain_due: false,
            results: Vec::new(),
            reported: Ghost(Seq::empty()),
        }
    }

    /// Tells what the driver is to do next.
    pub fn next_action(&self) -> (action: Action)
        requires
            self.wf(),
        ensures
            action == self@.next_action(),
    {
        if self.drain_due {
            Action::AwaitOne
        } else if self.admitted < self.total {
            Action::Start
        } else if self.finished < self.admitted {
            Action::AwaitOne
        } else {
            Action::Finish
        }
    }

    /// Number of units that have been started and have not completed. It
    /// never exceeds the ceiling (1 for a ceiling of 0).
    pub fn in_flight(&self) -> (n: usize)
        requires
            self.wf(),
        ensures
            n == self@.in_flight(),
            n <= self@.limit(),
    {
        self.admitted - self.finished
    }

    /// Notes that the driver has started the next unit, and returns the
    /// index of that unit in the batch.
    pub fn start_next(&mut self) -> (index: usize)
        requires
            old(self).wf(),
            old(self)@.next_action() == Action::Start,
        ensures
            final(self).wf(),
            final(self)@ == old(self)@.started(),
            index == old(self)@.admitted,
    {
        let index: usize = self.admitted;
        self.admitted = index + 1;
        self.drain_due = self.admitted >= self.ceiling;
        index
    }

    /// Notes that the driver has awaited one completion, which brought
    /// `outcome`: the record of the unit, or `None` if the unit's task ended
    /// without one. A record is appended to the results; `None` is dropped.
    pub fn complete(&mut self, outcome: Option<PlanResult>)
        requires
            old(self).wf(),
            old(self)@.next_action() == Action::AwaitOne,
        ensures
            final(self).wf(),
            final(self)@ == old(self)@.completed(outcome),
            outcome matches Some(result) ==> final(self)@.results() == old(self)@.results().push(
                result,
            ),
            outcome is None ==> final(self)@.results() == old(self)@.results(),
    {
        proof {
            assert(self.reported@.push(outcome).drop_last() =~= self.reported@);
        }
        self.reported = Ghost(self.reported@.push(outcome));
        self.finished = self.finished + 1;
        self.drain_due = false;
        match outcome {
            Some(result) => {
                self.results.push(result);
            },
            None => {},
        }
    }

    /// Hands over the results once all units have completed: one record for
    /// each completion that brought one, in completion order. There are as
    /// many results as units if every completion brought a record, and fewer
    /// if not.
    pub fn into_results(self) -> (results: Vec<PlanResult>)
        requires
            self.wf(),
            self@.next_action() == Action::Finish,
        ensures
            results@ == self@.results(),
            results@.len() <= self@.total,
            (forall|i: int| 0 <= i < self@.reported.len() ==> self@.reported[i] is Some)
                ==> results@.len() == self@.total,
    {
        proof {
            lemma_outcomes_len(self@.reported);
        }
        self.results
    }
}

/// A fresh batch is well-formed.
pub proof fn lemma_fresh_is_wf(total: nat, ceiling: nat)
    ensures
        Batch::fresh(total, ceiling).wf(),
{
}

/// Each step that follows `next_action` keeps a batch well-formed. So at no
/// time are more units in flight than the ceiling allows.
pub proof fn lemma_steps_keep_wf(batch: Batch, outcome: Option<PlanResult>)
    requires
        batch.wf(),
    ensures
        batch.next_action() == Action::Start ==> batch.started().wf(),
        batch.next_action() == Action::AwaitOne ==> batch.completed(outcome).wf(),
        batch.in_flight() <= batch.limit(),
{
}

/// No more records are gathered than completions were reported, and none is
/// missing when every completion brought one.
pub proof fn lemma_outcomes_len(reported: Seq<Option<PlanResult>>)
    ensures
        outcomes(reported).len() <= reported.len(),
        (forall|i: int| 0 <= i < reported.len() ==> reported[i] is Some) ==> outcomes(
            reported,
        ).len() == reported.len(),
    decreases reported.len(),
{
    if reported.len() > 0 {
        lemma_outcomes_len(reported.drop_last());
    }
}

/// Where every completion brings its record, the gathered records are those
/// records, in the order in which they came.
pub proof fn lemma_outcomes_of_records(records: Seq<PlanResult>)
    ensures
        outcomes(records.map_values(|r: PlanResult| Some(r))) == records,
    decreases records.len(),
{
    let reported = records.map_values(|r: PlanResult| Some(r));
    if records.len() > 0 {
        lemma_outcomes_of_records(records.drop_last());
        assert(reported.drop_last() =~= records.drop_last().map_values(|r: PlanResult| Some(r)));
        assert(outcomes(reported) =~= records);
    } else {
        assert(outcomes(reported) =~= records);
    }
}

/// A batch that is given as many completions as it has units still to
/// complete runs to its end, and has then heard of exactly those
/// completions, in order.
pub proof fn lemma_run_to_end(batch: Batch, events: Seq<Option<PlanResult>>)
    requires
        batch.wf(),
        batch.reported.len() + events.len() == batch.total,
    ensures
        batch.run(events).wf(),
        batch.run(events).next_action() == Action::Finish,
        batch.run(events).total == batch.total,
        batch.run(events).ceiling == batch.ceiling,
        batch.run(events).admitted == batch.total,
        batch.run(events).reported == batch.reported + events,
    decreases events.len(), batch.total - batch.admitted,
{
    match batch.next_action() {
        Action::Start => {
            lemma_run_to_end(batch.started(), events);
        },
        Action::AwaitOne => {
            let next = batch.completed(events.first());
            lemma_run_to_end(next, events.drop_first());
            assert(next.reported + events.drop_first() =~= batch.reported + events);
        },
        Action::Finish => {
            assert(batch.reported + events =~= batch.reported);
        },
    }
}

/// Conservation of outcomes. Whatever the ceiling, a batch that is run
/// until each of its units has completed ends with the records that the
/// completions brought, in completion order, and with nothing else. If every
/// completion brought a record, there are as many results as units.
pub proof fn lemma_conservation(total: nat, ceiling: nat, events: Seq<Option<PlanResult>>)
    requires
        events.len() == total,
    ensures
        Batch::fresh(total, ceiling).run(events).next_action() == Action::Finish,
        Batch::fresh(total, ceiling).run(events).results() == outcomes(events),
        Batch::fresh(total, ceiling).run(events).results().len() <= total,
        (forall|i: int| 0 <= i < events.len() ==> events[i] is Some) ==> Batch::fresh(
            total,
            ceiling,
        ).run(events).results().len() == total,
{
    let fresh = Batch::fresh(total, ceiling);
    lemma_run_to_end(fresh, events);
    assert(fresh.reported + events =~= events);
    lemma_outcomes_len(events);
}

/// Two batches that differ at most in their ceilings, each at least the
/// number of units, take the same course when given the same completions.
proof fn lemma_same_course(a: Batch, b: Batch, events: Seq<Option<PlanResult>>)
    requires
        a.wf(),
        b.wf(),
        a.total == b.total,
        a.admitted == b.admitted,
        a.reported == b.reported,
        a.ceiling >= a.total,
        b.ceiling >= b.total,
    ensures
        a.trace(events) == b.trace(events),
        a.run(events).admitted == b.run(events).admitted,
        a.run(events).reported == b.run(events).reported,
    decreases events.len(), a.total - a.admitted,
{
    assert(a.next_action() == b.next_action());
    match a.next_action() {
        Action::Start => {
            lemma_same_course(a.started(), b.started(), events);
        },
        Action::AwaitOne => {
            if events.len() > 0 {
                lemma_same_course(
                    a.completed(events.first()),
                    b.completed(events.first()),
                    events.drop_first(),
                );
            }
        },
        Action::Finish => {},
    }
}

/// A ceiling above the number of units works as a ceiling equal to it: of
/// two batches of `total` units with ceilings of at least `total`, the
/// driver is asked for the same actions in the same order, as many units
/// are started, and the same results are gathered, whatever completions
/// `events` they are given.
pub proof fn lemma_ceiling_beyond_count(
    total: nat,
    ceiling: nat,
    other: nat,
    events: Seq<Option<PlanResult>>,
)
    requires
        ceiling >= total,
        other >= total,
    ensures
        Batch::fresh(total, ceiling).trace(events) == Batch::fresh(total, other).trace(events),
        Batch::fresh(total, ceiling).run(events).admitted == Batch::fresh(total, other).run(
            events,
        ).admitted,
        Batch::fresh(total, ceiling).run(events).results() == Batch::fresh(total, other).run(
            events,
        ).results(),
{
    lemma_same_course(Batch::fresh(total, ceiling), Batch::fresh(total, other), events);
}

/// The order of completion is immaterial to what is gathered: two runs of
/// batches of `total` units, each to its end, whose completions brought the
/// same records in different orders `first` and `second`, gather the same
/// results up to order, whatever their ceilings.
pub proof fn lemma_order_is_immaterial(
    total: nat,
    ceiling: nat,
    other: nat,
    first: Seq<PlanResult>,
    second: Seq<PlanResult>,
)
    requires
        first.len() == total,
        second.len() == total,
        first.to_multiset() == second.to_multiset(),
    ensures
        Batch::fresh(total, ceiling).run(
            first.map_values(|r: PlanResult| Some(r)),
        ).results().to_multiset() == Batch::fresh(total, other).run(
            second.map_values(|r: PlanResult| Some(r)),
        ).results().to_multiset(),
{
    lemma_conservation(total, ceiling, first.map_values(|r: PlanResult| Some(r)));
    lemma_conservation(total, other, second.map_values(|r: PlanResult| Some(r)));
    lemma_outcomes_of_records(first);
    lemma_outcomes_of_records(second);
}

} // verus!
