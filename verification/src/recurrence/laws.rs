//! What holds of every rule: the laws of inference and of expansion.

use crate::date::in_date_range;
use crate::date::CalendarDay;
use crate::recurrence::filters::domain_error;
use crate::recurrence::instance::admits_first;
use crate::recurrence::instance::first_from;
use crate::recurrence::instance::infer;
use crate::recurrence::instance::is_explicit;
use crate::recurrence::instance::matches_filters;
use crate::recurrence::instance::occurrence;
use crate::recurrence::instance::qualifies;
use crate::recurrence::instance::scan_end;
use crate::recurrence::instance::spaced;
use crate::recurrence::instance::InstancesView;
use crate::recurrence::RuleView;
use vstd::prelude::*;

verus! {

/// Inference is idempotent: the rule that inference gives is explicit, and
/// inference leaves an explicit rule unchanged.
pub proof fn lemma_infer_idempotent(rule: RuleView, start: CalendarDay)
    ensures
        is_explicit(infer(rule, start)),
        is_explicit(rule) ==> infer(rule, start) == rule,
        infer(infer(rule, start), start) == infer(rule, start),
{
}

/// What `first_from` finds is the least day of the scan that qualifies, and
/// it finds nothing only where no day of the scan qualifies.
pub proof fn lemma_first_from(rule: RuleView, last: int, from: int, end: int)
    ensures
        match first_from(rule, last, from, end) {
            Some(day) => {
                &&& from <= day <= end
                &&& qualifies(rule, last, day)
                &&& forall|other: int| from <= other < day ==> !qualifies(rule, last, other)
            },
            None => forall|other: int| from <= other <= end ==> !qualifies(rule, last, other),
        },
    decreases end - from + 1,
{
    if from <= end && !qualifies(rule, last, from) {
        lemma_first_from(rule, last, from + 1, end);
    }
}

/// A step keeps the rule and the start date, never moves the walk backwards,
/// and leads from a well-formed state to a well-formed state.
pub proof fn lemma_step(state: InstancesView)
    requires
        state.wf(),
    ensures
        state.after_next().wf(),
        state.after_next().rule == state.rule,
        state.after_next().start == state.start,
        state.after_next().current >= state.current,
        state.next_occurrence() matches Some(day) ==> {
            &&& state.current <= day
            &&& state.after_next().current == day + 1
            &&& state.after_next().count == state.count + 1
        },
        state.next_occurrence() is None ==> {
            &&& state.after_next().count == state.count
            &&& state.after_next().next_occurrence() is None
        },
{
    let end = scan_end(state.rule.limit);
    lemma_first_from(state.rule, state.last, state.current, end);
    if !state.is_over() && state.next_occurrence() is None {
        let after = state.after_next();
        assert(after.current > end);
    }
}

/// The state after any number of steps from the start is well formed, has
/// the rule and the start date of the walk, and has handed out no more
/// occurrences than it has made steps.
pub proof fn lemma_steps(rule: RuleView, start: int, steps: nat)
    requires
        in_date_range(start),
    ensures
        InstancesView::initial(rule, start).after(steps).wf(),
        InstancesView::initial(rule, start).after(steps).rule == rule,
        InstancesView::initial(rule, start).after(steps).start == start,
        InstancesView::initial(rule, start).after(steps).count <= steps,
    decreases steps,
{
    if steps > 0 {
        lemma_steps(rule, start, (steps - 1) as nat);
        lemma_step(InstancesView::initial(rule, start).after((steps - 1) as nat));
    }
}

/// Once a step hands out nothing, no later step hands out anything.
pub proof fn lemma_over_for_good(rule: RuleView, start: int, n: nat, later: nat)
    requires
        in_date_range(start),
        n <= later,
        occurrence(rule, start, n) is None,
    ensures
        occurrence(rule, start, later) is None,
    decreases later,
{
    if n < later {
        lemma_over_for_good(rule, start, n, (later - 1) as nat);
        lemma_steps(rule, start, (later - 1) as nat);
        lemma_step(InstancesView::initial(rule, start).after((later - 1) as nat));
    }
}

/// A step that hands out an occurrence is preceded by as many occurrences as
/// steps.
proof fn lemma_count_of_steps(rule: RuleView, start: int, n: nat)
    requires
        in_date_range(start),
        occurrence(rule, start, n) is Some,
    ensures
        InstancesView::initial(rule, start).after(n).count == n,
    decreases n,
{
    if n > 0 {
        let before = (n - 1) as nat;
        if occurrence(rule, start, before) is None {
            lemma_over_for_good(rule, start, before, n);
        }
        lemma_count_of_steps(rule, start, before);
        lemma_steps(rule, start, before);
        lemma_step(InstancesView::initial(rule, start).after(before));
    }
}

/// The first occurrence is the start date, where the start date matches the
/// rule's filters, the rule can be expanded, and its limit leaves room for
/// one occurrence.
pub proof fn lemma_first_occurrence_is_start(rule: RuleView, start: int)
    requires
        in_date_range(start),
        domain_error(rule) is None,
        matches_filters(rule, start),
        admits_first(rule.limit, start),
    ensures
        occurrence(rule, start, 0) == Some(start),
{
    assert(spaced(rule, start, start));
}

/// Occurrences are strictly ascending: what a later step hands out lies
/// after what an earlier step handed out.
pub proof fn lemma_occurrences_ascend(rule: RuleView, start: int, earlier: nat, later: nat)
    requires
        in_date_range(start),
        earlier < later,
        occurrence(rule, start, earlier) is Some,
        occurrence(rule, start, later) is Some,
    ensures
        occurrence(rule, start, earlier).unwrap() < occurrence(rule, start, later).unwrap(),
{
    lemma_current_after(rule, start, earlier, later);
    lemma_steps(rule, start, later);
    lemma_step(InstancesView::initial(rule, start).after(later));
}

/// After a step that handed out an occurrence, the walk goes on behind that
/// occurrence, at every later step.
proof fn lemma_current_after(rule: RuleView, start: int, earlier: nat, later: nat)
    requires
        in_date_range(start),
        earlier < later,
        occurrence(rule, start, earlier) is Some,
    ensures
        InstancesView::initial(rule, start).after(later).current > occurrence(
            rule,
            start,
            earlier,
        ).unwrap(),
    decreases later,
{
    let before = (later - 1) as nat;
    lemma_steps(rule, start, before);
    lemma_step(InstancesView::initial(rule, start).after(before));
    if earlier < before {
        lemma_current_after(rule, start, earlier, before);
    }
}

/// Every occurrence matches the rule's filters, and lies far enough from the
/// occurrence before it.
pub proof fn lemma_occurrences_match(rule: RuleView, start: int, n: nat)
    requires
        in_date_range(start),
        occurrence(rule, start, n) is Some,
    ensures
        matches_filters(rule, occurrence(rule, start, n).unwrap()),
        spaced(
            rule,
            occurrence(rule, start, n).unwrap(),
            InstancesView::initial(rule, start).after(n).last,
        ),
        start <= occurrence(rule, start, n).unwrap(),
        in_date_range(occurrence(rule, start, n).unwrap()),
{
    lemma_steps(rule, start, n);
    let state = InstancesView::initial(rule, start).after(n);
    lemma_first_from(rule, state.last, state.current, scan_end(rule.limit));
}

/// A rule with a count hands out at most that many occurrences.
pub proof fn lemma_count_limits(rule: RuleView, start: int, n: nat)
    requires
        in_date_range(start),
        rule.limit is Count,
        occurrence(rule, start, n) is Some,
    ensures
        n < rule.limit->Count_0,
{
    lemma_count_of_steps(rule, start, n);
    lemma_steps(rule, start, n);
}

/// A rule with an end date hands out no occurrence after that date.
pub proof fn lemma_until_limits(rule: RuleView, start: int, n: nat)
    requires
        in_date_range(start),
        rule.limit is Date,
        occurrence(rule, start, n) is Some,
    ensures
        occurrence(rule, start, n).unwrap() <= rule.limit->Date_0,
{
    lemma_steps(rule, start, n);
    let state = InstancesView::initial(rule, start).after(n);
    lemma_first_from(rule, state.last, state.current, scan_end(rule.limit));
}

/// A rule that cannot be expanded has no occurrence.
pub proof fn lemma_domain_error_ends(rule: RuleView, start: int, n: nat)
    requires
        in_date_range(start),
        domain_error(rule) is Some,
    ensures
        occurrence(rule, start, n) is None,
{
    lemma_steps(rule, start, n);
}

/// Two walks in the same state go on alike: they hand out the same dates,
/// step for step. What a walk hands out depends on nothing but the value of
/// its rule, its start date and the steps made so far.
pub proof fn lemma_walks_agree(a: InstancesView, b: InstancesView, steps: nat)
    requires
        a.rule == b.rule,
        a.start == b.start,
        a.count == b.count,
        a.last == b.last,
        a.current == b.current,
    ensures
        a.after(steps) == b.after(steps),
        a.after(steps).next_occurrence() == b.after(steps).next_occurrence(),
{
}

} // verus!
