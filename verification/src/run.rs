//! A typing run, one decision at a time: the window or the command line
//! performs each action and reports how a submission went; the run says
//! what to do next. It stops right after the first batch the system does
//! not take whole and hands that error back; nothing is sent or waited for
//! after it.
use vstd::prelude::*;

use crate::input::{
    steps_of, typing_steps, unit_steps, step_views, KeyInput, Layout, StepView, TypeError,
    TypingStep,
};
use crate::text::{units_of, UnitView};
use crate::timing::Span;

verus! {

/// A typing run in progress.
pub struct TypingRun {
    /// The steps still to perform, the next one last.
    pending: Vec<TypingStep>,
}

/// What to do next in a run.
pub enum RunAction {
    /// Hand this batch to the system, then report the outcome to the run.
    Send(Vec<KeyInput>, TypingRun),
    /// Wait this long, then go on with the run.
    Sleep(Span, TypingRun),
    /// The run is over, with this result.
    Finish(Result<(), TypeError>),
}

impl TypingRun {
    /// The steps the run has still to perform, the next one first.
    pub closed spec fn remaining(&self) -> Seq<StepView> {
        Seq::new(self.pending@.len(), |i: int| self.pending@[self.pending@.len() - 1 - i]@)
    }

    /// A run that types `text` on `layout`, waiting `interval` after each
    /// unit.
    pub fn start(text: &str, interval: Span, layout: Layout) -> (r: TypingRun)
        ensures
            r.remaining() == steps_of(units_of(text@), layout, interval),
    {
        let mut steps = typing_steps(text, interval, layout);
        let ghost plan = step_views(steps@);
        let mut pending: Vec<TypingStep> = Vec::new();
        while steps.len() > 0
            invariant
                plan.len() == steps@.len() + pending@.len(),
                forall|i: int| 0 <= i < steps@.len() ==> #[trigger] steps@[i]@ == plan[i],
                forall|i: int|
                    0 <= i < pending@.len() ==> #[trigger] pending@[i]@ == plan[plan.len() - 1
                        - i],
            decreases steps@.len(),
        {
            let step = steps.pop().unwrap();
            pending.push(step);
        }
        let r = TypingRun { pending };
        assert(r.remaining() =~= plan);
        r
    }

    /// The next action, given how the last action went: `last` is the
    /// outcome of the last submission, and `Ok(())` at the start and after
    /// a wait. A failed submission ends the run with its error; otherwise
    /// the next step is performed, and an exhausted run ends well.
    pub fn advance(self, last: Result<(), TypeError>) -> (r: RunAction)
        ensures
            match last {
                Err(e) => r == RunAction::Finish(Err(e)),
                Ok(()) => if self.remaining().len() == 0 {
                    r matches RunAction::Finish(Ok(()))
                } else {
                    match self.remaining()[0] {
                        StepView::Submit(b) => r matches RunAction::Send(batch, next) && batch@
                            == b && next.remaining() == self.remaining().drop_first(),
                        StepView::Pause(d) => r matches RunAction::Sleep(pause, next) && pause
                            == d && next.remaining() == self.remaining().drop_first(),
                    }
                },
            },
    {
        match last {
            Err(e) => RunAction::Finish(Err(e)),
            Ok(()) => {
                let ghost rem = self.remaining();
                let mut pending = self.pending;
                match pending.pop() {
                    None => RunAction::Finish(Ok(())),
                    Some(step) => {
                        let next = TypingRun { pending };
                        assert(next.remaining() =~= rem.drop_first());
                        match step {
                            TypingStep::Submit(batch) => RunAction::Send(batch, next),
                            TypingStep::Pause(pause) => RunAction::Sleep(pause, next),
                        }
                    },
                }
            },
        }
    }
}

/// What a run performs from the steps `rest`, when its successive
/// submissions go through as `oks` says (a missing outcome counts as a
/// failure): the steps performed, and whether the run ends well. This is
/// what calling [`TypingRun::advance`] until it finishes does.
pub open spec fn run_trace(rest: Seq<StepView>, oks: Seq<bool>) -> (Seq<StepView>, bool)
    decreases rest.len(),
{
    if rest.len() == 0 {
        (seq![], true)
    } else {
        match rest[0] {
            StepView::Pause(_) => {
                let t = run_trace(rest.drop_first(), oks);
                (seq![rest[0]] + t.0, t.1)
            },
            StepView::Submit(_) => {
                if oks.len() > 0 && oks[0] {
                    let t = run_trace(rest.drop_first(), oks.drop_first());
                    (seq![rest[0]] + t.0, t.1)
                } else {
                    (seq![rest[0]], false)
                }
            },
        }
    }
}

/// The number of submissions among some steps.
pub open spec fn count_submits(s: Seq<StepView>) -> nat
    decreases s.len(),
{
    if s.len() == 0 {
        0
    } else {
        count_submits(s.drop_first()) + if s[0] is Submit {
            1nat
        } else {
            0nat
        }
    }
}

/// The number of waits among some steps.
pub open spec fn count_pauses(s: Seq<StepView>) -> nat
    decreases s.len(),
{
    if s.len() == 0 {
        0
    } else {
        count_pauses(s.drop_first()) + if s[0] is Pause {
            1nat
        } else {
            0nat
        }
    }
}

proof fn lemma_counts_append(a: Seq<StepView>, b: Seq<StepView>)
    ensures
        count_submits(a + b) == count_submits(a) + count_submits(b),
        count_pauses(a + b) == count_pauses(a) + count_pauses(b),
    decreases a.len(),
{
    if a.len() == 0 {
        assert(a + b =~= b);
    } else {
        lemma_counts_append(a.drop_first(), b);
        assert((a + b).drop_first() =~= a.drop_first() + b);
        assert((a + b)[0] == a[0]);
    }
}

proof fn lemma_no_pauses(s: Seq<StepView>)
    requires
        forall|i: int| 0 <= i < s.len() ==> !(#[trigger] s[i] is Pause),
    ensures
        count_pauses(s) == 0,
    decreases s.len(),
{
    if s.len() > 0 {
        assert forall|i: int| 0 <= i < s.drop_first().len() implies !(
        #[trigger] s.drop_first()[i] is Pause) by {
            assert(s.drop_first()[i] == s[i + 1]);
        }
        lemma_no_pauses(s.drop_first());
    }
}

/// A run stops right after its first failed submission and performs
/// nothing after it: what it performs is a prefix of its steps; it ends
/// well exactly when every submission goes through, and then it has
/// performed every step; otherwise the last step it performed is the
/// failed submission, and every submission before it went through.
pub proof fn lemma_run_stops_at_first_failure(plan: Seq<StepView>, oks: Seq<bool>)
    ensures
        ({
            let t = run_trace(plan, oks);
            &&& t.0.len() <= plan.len()
            &&& t.0 == plan.take(t.0.len() as int)
            &&& t.1 == (count_submits(plan) <= oks.len() && forall|j: int|
                0 <= j < count_submits(plan) ==> #[trigger] oks[j])
            &&& t.1 ==> t.0 == plan
            &&& !t.1 ==> {
                &&& t.0.len() > 0
                &&& t.0.last() is Submit
                &&& count_submits(t.0) >= 1
                &&& count_submits(t.0) <= oks.len() + 1
                &&& forall|j: int| 0 <= j < count_submits(t.0) - 1 ==> #[trigger] oks[j]
                &&& (count_submits(t.0) - 1 >= oks.len() || !oks[count_submits(t.0) - 1])
            }
        }),
    decreases plan.len(),
{
    if plan.len() == 0 {
        assert(plan.take(0) =~= plan);
    } else {
        let rest = plan.drop_first();
        match plan[0] {
            StepView::Pause(_) => {
                lemma_run_stops_at_first_failure(rest, oks);
                let t1 = run_trace(rest, oks);
                let t = run_trace(plan, oks);
                assert(t.0 =~= seq![plan[0]] + t1.0);
                assert(t.0 =~= plan.take(t.0.len() as int));
                assert(t.0.drop_first() =~= t1.0);
                if t1.0.len() > 0 {
                    assert(t.0.last() == t1.0.last());
                }
            },
            StepView::Submit(_) => {
                if oks.len() > 0 && oks[0] {
                    let o1 = oks.drop_first();
                    lemma_run_stops_at_first_failure(rest, o1);
                    let t1 = run_trace(rest, o1);
                    let t = run_trace(plan, oks);
                    assert(t.0 =~= seq![plan[0]] + t1.0);
                    assert(t.0 =~= plan.take(t.0.len() as int));
                    assert(t.0.drop_first() =~= t1.0);
                    assert forall|j: int| 0 <= j < o1.len() implies o1[j] == oks[j + 1] by {}
                    if t1.1 {
                        assert forall|j: int| 0 <= j < count_submits(plan) implies #[trigger] oks[j] by {
                            if j > 0 {
                                assert(o1[j - 1] == oks[j]);
                            }
                        }
                    } else {
                        assert(t1.0.len() > 0);
                        assert(t.0.last() == t1.0.last());
                        assert forall|j: int| 0 <= j < count_submits(t.0) - 1 implies #[trigger] oks[j] by {
                            if j > 0 {
                                assert(o1[j - 1] == oks[j]);
                            }
                        }
                        if count_submits(plan) <= oks.len() {
                            let k = count_submits(t1.0) - 1;
                            if k < o1.len() {
                                assert(!o1[k]);
                                assert(!oks[k + 1]);
                            }
                        }
                    }
                } else {
                    let t = run_trace(plan, oks);
                    assert(t.0 =~= plan.take(1));
                    assert(t.0.drop_first() =~= Seq::<StepView>::empty());
                    assert(t.0[0] == plan[0]);
                    assert(count_submits(t.0.drop_first()) == 0);
                    assert(count_submits(t.0) == 1);
                }
            },
        }
    }
}

proof fn lemma_trace_append(a: Seq<StepView>, b: Seq<StepView>, oks: Seq<bool>)
    ensures
        run_trace(a, oks).1 ==> run_trace(a + b, oks) == (
        a + run_trace(b, oks.skip(count_submits(a) as int)).0,
        run_trace(b, oks.skip(count_submits(a) as int)).1,
        ),
        !run_trace(a, oks).1 ==> run_trace(a + b, oks) == run_trace(a, oks),
    decreases a.len(),
{
    if a.len() == 0 {
        assert(a + b =~= b);
        assert(oks.skip(0) =~= oks);
        assert(a + run_trace(b, oks).0 =~= run_trace(b, oks).0);
    } else {
        assert((a + b).drop_first() =~= a.drop_first() + b);
        assert((a + b)[0] == a[0]);
        match a[0] {
            StepView::Pause(_) => {
                lemma_trace_append(a.drop_first(), b, oks);
                let t = run_trace(a.drop_first(), oks);
                if t.1 {
                    let u = run_trace(b, oks.skip(count_submits(a) as int));
                    assert(seq![a[0]] + (a.drop_first() + u.0) =~= a + u.0);
                }
            },
            StepView::Submit(_) => {
                if oks.len() > 0 && oks[0] {
                    let o1 = oks.drop_first();
                    lemma_trace_append(a.drop_first(), b, o1);
                    lemma_run_stops_at_first_failure(a.drop_first(), o1);
                    let t = run_trace(a.drop_first(), o1);
                    if t.1 {
                        assert(o1.skip(count_submits(a.drop_first()) as int) =~= oks.skip(
                            count_submits(a) as int,
                        ));
                        let u = run_trace(b, oks.skip(count_submits(a) as int));
                        assert(seq![a[0]] + (a.drop_first() + u.0) =~= a + u.0);
                    }
                }
            },
        }
    }
}

proof fn lemma_steps_of_front(units: Seq<UnitView>, layout: Layout, interval: Span)
    requires
        units.len() > 0,
    ensures
        steps_of(units, layout, interval) == unit_steps(units[0], layout, interval) + steps_of(
            units.drop_first(),
            layout,
            interval,
        ),
    decreases units.len(),
{
    if units.len() == 1 {
        assert(units.drop_last().len() == 0);
        assert(units.drop_first().len() == 0);
        assert(units.last() == units[0]);
        assert(steps_of(units.drop_first(), layout, interval) =~= Seq::<StepView>::empty());
        assert(steps_of(units.drop_last(), layout, interval) =~= Seq::<StepView>::empty());
        assert(unit_steps(units[0], layout, interval) + Seq::<StepView>::empty() =~= unit_steps(
            units[0],
            layout,
            interval,
        ));
        assert(Seq::<StepView>::empty() + unit_steps(units[0], layout, interval) =~= unit_steps(
            units[0],
            layout,
            interval,
        ));
    } else {
        let dl = units.drop_last();
        lemma_steps_of_front(dl, layout, interval);
        assert(dl[0] == units[0]);
        assert(units.drop_first().drop_last() =~= dl.drop_first());
        assert(units.drop_first().last() == units.last());
        assert(unit_steps(units[0], layout, interval) + steps_of(dl.drop_first(), layout, interval)
            + unit_steps(units.last(), layout, interval) =~= unit_steps(units[0], layout, interval)
            + (steps_of(dl.drop_first(), layout, interval) + unit_steps(
            units.last(),
            layout,
            interval,
        )));
    }
}

proof fn lemma_unit_steps_shape(unit: UnitView, layout: Layout, interval: Span)
    ensures
        ({
            let s = unit_steps(unit, layout, interval);
            let zero = interval.secs == 0 && interval.nanos == 0;
            &&& count_pauses(s) == if zero {
                0nat
            } else {
                1nat
            }
            &&& forall|i: int| 0 <= i < s.len() && #[trigger] s[i] is Pause ==> i == s.len() - 1
        }),
{
    let s = unit_steps(unit, layout, interval);
    let subs = crate::input::unit_batches(unit, layout).map_values(
        |b: Seq<KeyInput>| StepView::Submit(b),
    );
    assert forall|i: int| 0 <= i < subs.len() implies !(#[trigger] subs[i] is Pause) by {}
    lemma_no_pauses(subs);
    if interval.secs == 0 && interval.nanos == 0 {
        assert(s =~= subs);
    } else {
        let p = seq![StepView::Pause(interval)];
        assert(s =~= subs + p);
        lemma_counts_append(subs, p);
        assert(p.drop_first().len() == 0);
        assert(p[0] is Pause);
        assert(count_pauses(p.drop_first()) == 0);
        assert(count_pauses(p) == 1);
    }
}

/// How a run of units ends: it performs the steps of the first `c` units
/// whole, then at most part of the next unit's submissions and none of its
/// waiting. It ends well only after all units. It waits once after each
/// whole unit, and never when the interval is empty.
pub proof fn lemma_run_waits_after_each_sent_unit(
    units: Seq<UnitView>,
    layout: Layout,
    interval: Span,
    oks: Seq<bool>,
) -> (c: nat)
    ensures
        ({
            let t = run_trace(steps_of(units, layout, interval), oks);
            let whole = steps_of(units.take(c as int), layout, interval);
            let extra = t.0.skip(whole.len() as int);
            &&& c <= units.len()
            &&& whole.len() <= t.0.len()
            &&& t.0 == whole + extra
            &&& forall|i: int| 0 <= i < extra.len() ==> !(#[trigger] extra[i] is Pause)
            &&& t.1 ==> c == units.len() && extra.len() == 0
            &&& !t.1 ==> c < units.len()
            &&& count_pauses(t.0) == if interval.secs == 0 && interval.nanos == 0 {
                0
            } else {
                c
            }
        }),
    decreases units.len(),
{
    let zero = interval.secs == 0 && interval.nanos == 0;
    let plan = steps_of(units, layout, interval);
    let t = run_trace(plan, oks);
    if units.len() == 0 {
        assert(units.take(0) =~= units);
        assert(t.0 =~= Seq::<StepView>::empty());
        assert(t.0 =~= plan + t.0.skip(0));
        0
    } else {
        lemma_steps_of_front(units, layout, interval);
        let first = unit_steps(units[0], layout, interval);
        let rest = steps_of(units.drop_first(), layout, interval);
        lemma_trace_append(first, rest, oks);
        lemma_unit_steps_shape(units[0], layout, interval);
        let t0 = run_trace(first, oks);
        lemma_run_stops_at_first_failure(first, oks);
        if t0.1 {
            let o2 = oks.skip(count_submits(first) as int);
            let c1 = lemma_run_waits_after_each_sent_unit(units.drop_first(), layout, interval, o2);
            let t2 = run_trace(rest, o2);
            let c = c1 + 1;
            let taken = units.take(c as int);
            lemma_steps_of_front(taken, layout, interval);
            assert(taken[0] == units[0]);
            assert(taken.drop_first() =~= units.drop_first().take(c1 as int));
            let whole1 = steps_of(units.drop_first().take(c1 as int), layout, interval);
            let whole = steps_of(taken, layout, interval);
            assert(whole == first + whole1);
            assert(t.0 == first + t2.0);
            let extra1 = t2.0.skip(whole1.len() as int);
            assert(t2.0 == whole1 + extra1);
            assert(t.0 =~= whole + extra1);
            assert(t.0.skip(whole.len() as int) =~= extra1);
            lemma_counts_append(first, t2.0);
            if t.1 {
                assert(units.take(units.len() as int) =~= units);
            }
            c
        } else {
            assert(t == t0);
            assert(units.take(0).len() == 0);
            assert(steps_of(units.take(0), layout, interval) =~= Seq::<StepView>::empty());
            assert(t.0.skip(0) =~= t.0);
            assert(Seq::<StepView>::empty() + t.0 =~= t.0);
            // The run stopped on a submission of the first unit, before its wait.
            assert forall|i: int| 0 <= i < t.0.len() implies !(#[trigger] t.0[i] is Pause) by {
                assert(t.0[i] == first[i]);
                if t.0[i] is Pause {
                    assert(i == first.len() - 1);
                    assert(t.0.last() == t.0[t.0.len() - 1]);
                    assert(t.0.len() - 1 <= i);
                }
            }
            lemma_no_pauses(t.0);
            0
        }
    }
}

} // verus!
