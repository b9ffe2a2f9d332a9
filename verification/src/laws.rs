//! What holds of every token, stated over the abstract state that the
//! contracts of the operations use, and proved from the definitions of the
//! transitions.

use vstd::prelude::*;
use crate::registry::{Registration, RegistryView};
use crate::status::Status;
use crate::token::{RunPlan, TokenView};

verus! {

/// The token that cannot be canceled never reports cancellation, a run on it
/// is never given a callback to invoke, and no operation changes it.
pub proof fn law_never_cancelable_is_inert(
    s: TokenView,
    plan: RunPlan,
    after: TokenView,
    r: Registration,
)
    requires
        s.status is CannotBeCanceled,
        s.begins_run(plan, after),
    ensures
        !s.is_canceled(),
        plan == RunPlan::BodyOnly,
        after == s,
        RunPlan::spec_settled_by(s.status) == Some(RunPlan::BodyOnly),
        s.end_run(r) == s,
        s.begin_cancel() == s,
        s.next_swept() is None,
        s.sweep_next() == s,
        s.swept_by_cancel().len() == 0,
        s.cancel() == s,
{
}

/// A new token is not canceled; cancelling a token that can be canceled
/// leaves it canceled, with nothing linked.
pub proof fn law_cancel_takes_effect(s: TokenView)
    requires
        !(s.status is CannotBeCanceled),
    ensures
        !TokenView::fresh().is_canceled(),
        s.cancel().is_canceled(),
        s.status is NotCanceled ==> s.cancel().status is Canceled
            && s.cancel().registrations.active.len() == 0,
{
}

/// Once cancellation has been requested the token stays canceled whatever
/// is done with it, and to cancel it again changes nothing and sweeps
/// nothing.
pub proof fn law_cancellation_is_permanent(
    s: TokenView,
    plan: RunPlan,
    after: TokenView,
    r: Registration,
)
    requires
        s.is_canceled(),
        s.begins_run(plan, after),
    ensures
        after.is_canceled(),
        s.end_run(r).is_canceled(),
        s.begin_cancel() == s,
        s.sweep_next().is_canceled(),
        s.cancel() == s,
        s.swept_by_cancel().len() == 0,
{
}

/// To cancel twice is to cancel once: the second request changes nothing and
/// sweeps nothing, whatever the state before the first.
pub proof fn law_cancel_is_idempotent(s: TokenView)
    ensures
        s.cancel().cancel() == s.cancel(),
        s.cancel().swept_by_cancel().len() == 0,
        s.begin_cancel().begin_cancel() == s.begin_cancel(),
{
}

/// No operation moves the status backwards, and none moves a token into or
/// out of the status of the token that cannot be canceled.
pub proof fn law_status_never_regresses(
    s: TokenView,
    plan: RunPlan,
    after: TokenView,
    r: Registration,
)
    requires
        s.begins_run(plan, after),
    ensures
        s.status.rank() <= after.status.rank(),
        s.status.rank() <= s.end_run(r).status.rank(),
        s.status.rank() <= s.begin_cancel().status.rank(),
        s.status.rank() <= s.sweep_next().status.rank(),
        s.status.rank() <= s.cancel().status.rank(),
        s.status is CannotBeCanceled <==> after.status is CannotBeCanceled,
        s.status is CannotBeCanceled <==> s.end_run(r).status is CannotBeCanceled,
        s.status is CannotBeCanceled <==> s.begin_cancel().status is CannotBeCanceled,
        s.status is CannotBeCanceled <==> s.sweep_next().status is CannotBeCanceled,
        s.status is CannotBeCanceled <==> s.cancel().status is CannotBeCanceled,
{
}

/// A run that begins on a token whose cancellation has been requested is
/// told to invoke its callback before its body, and registers nothing:
/// the state is as it was.
pub proof fn law_run_on_canceled_fires_first(s: TokenView, plan: RunPlan, after: TokenView)
    requires
        s.is_canceled(),
        s.begins_run(plan, after),
    ensures
        plan == RunPlan::CallbackThenBody,
        after == s,
{
}

/// A decision taken from a status that was read without the lock stands:
/// whatever the token has become since, a run begun on it is given the same
/// plan and changes nothing.
pub proof fn law_unlocked_decision_stands(
    observed: Status,
    s: TokenView,
    plan: RunPlan,
    after: TokenView,
)
    requires
        observed.rank() <= s.status.rank(),
        observed is CannotBeCanceled <==> s.status is CannotBeCanceled,
        RunPlan::spec_settled_by(observed) is Some,
        s.begins_run(plan, after),
    ensures
        RunPlan::spec_settled_by(observed) == Some(plan),
        after == s,
{
}

/// A run that has ended leaves no trace: the state is what it was before
/// the run began, so a cancellation that follows does not take its
/// registration.
pub proof fn law_finished_run_leaves_no_trace(s: TokenView, r: Registration, during: TokenView)
    requires
        s.inv(),
        s.begins_run(RunPlan::Registered(r), during),
    ensures
        during.end_run(r) == s,
        !during.end_run(r).swept_by_cancel().contains(r),
{
    let grown = during.registrations.active;
    assert(grown[0] == r);
    assert(grown.contains(r));
    assert forall|i: int| 0 <= i < grown.len() && grown[i] == r implies i == 0 by {
        if i > 0 {
            assert(s.registrations.active[i - 1] == r);
        }
    }
    assert(grown.index_of(r) == 0);
    assert(grown.remove(0) =~= s.registrations.active);
    assert(during.registrations.release(r).detached =~= s.registrations.detached);
}

/// After the end of a run its registration is not live, whenever and however
/// the run ended, so no sweep that follows takes it.
pub proof fn law_ended_run_is_never_swept(s: TokenView, r: Registration)
    requires
        s.inv(),
    ensures
        !s.end_run(r).registrations.live(r),
        !s.end_run(r).swept_by_cancel().contains(r),
        s.end_run(r).next_swept() != Some(r),
{
    let active = s.registrations.active;
    if !(s.status is CannotBeCanceled) {
        lemma_unlink_removes(s.registrations, r);
        let rest = s.end_run(r).registrations.active;
        if rest.len() > 0 && rest[0] == r {
            assert(rest.contains(r));
        }
    }
}

/// A sweep takes each registration once: what a cancellation returns holds
/// no registration twice, holds exactly those that were linked, and leaves
/// none of them linked.
pub proof fn law_sweep_takes_each_once(s: TokenView, r: Registration)
    requires
        s.inv(),
        s.status is NotCanceled,
    ensures
        s.swept_by_cancel().no_duplicates(),
        s.swept_by_cancel().contains(r) <==> s.registrations.active.contains(r),
        !s.cancel().registrations.active.contains(r),
        s.cancel().registrations.live(r) <==> s.registrations.live(r),
{
}

/// Once cancellation has been requested no operation links a registration:
/// whatever is linked afterwards was linked before.
pub proof fn law_nothing_registers_once_canceled(
    s: TokenView,
    plan: RunPlan,
    after: TokenView,
    r: Registration,
    x: Registration,
)
    requires
        s.inv(),
        s.is_canceled(),
        s.begins_run(plan, after),
    ensures
        after.registrations.active.contains(x) ==> s.registrations.active.contains(x),
        s.end_run(r).registrations.active.contains(x) ==> s.registrations.active.contains(x),
        s.sweep_next().registrations.active.contains(x) ==> s.registrations.active.contains(x),
        s.cancel().registrations.active.contains(x) ==> s.registrations.active.contains(x),
{
    lemma_unlink_removes(s.registrations, r);
    if s.registrations.active.len() > 0 {
        lemma_unlink_removes(s.registrations, s.registrations.active[0]);
    }
}

/// A cancellation carried out step by step is the cancellation carried out
/// at once: after the request, the steps take the linked registrations one
/// by one, newest first, and the step after the last leaves the token in
/// the state that `cancel` gives.
pub proof fn law_steps_make_a_cancellation(s: TokenView, k: int)
    requires
        s.inv(),
        s.status is NotCanceled,
    ensures
        s.begin_cancel().sweep_steps(s.registrations.active.len() + 1) == s.cancel(),
        0 <= k < s.registrations.active.len() ==> s.begin_cancel().sweep_steps(
            k as nat,
        ).next_swept() == Some(s.swept_by_cancel()[k]),
{
    let t = s.begin_cancel();
    lemma_sweep_runs_to_end(t);
    assert(s.cancel().registrations.detached =~= t.registrations.detached.union(
        t.registrations.active.to_set(),
    ));
    if 0 <= k < s.registrations.active.len() {
        lemma_sweep_step_takes(t, k as nat);
    }
}

/// A sweep that is under way ends, after one step for each linked
/// registration and one more, with nothing linked and all of them detached.
proof fn lemma_sweep_runs_to_end(t: TokenView)
    requires
        t.inv(),
        t.status is Canceling,
    ensures
        t.sweep_steps(t.registrations.active.len() + 1) == (TokenView {
            status: Status::Canceled,
            registrations: RegistryView {
                active: Seq::empty(),
                detached: t.registrations.detached.union(t.registrations.active.to_set()),
            },
        }),
    decreases t.registrations.active.len(),
{
    let active = t.registrations.active;
    let n = active.len();
    reveal_with_fuel(TokenView::sweep_steps, 2);
    if n == 0 {
        assert(t.sweep_steps(1) == t.sweep_next());
        assert(t.registrations.detached.union(active.to_set()) =~= t.registrations.detached);
        assert(active =~= Seq::empty());
    } else {
        let next = t.sweep_next();
        lemma_first_is_unlinked(t.registrations);
        lemma_unlink_removes(t.registrations, active[0]);
        lemma_sweep_runs_to_end(next);
        let rest = next.registrations.active;
        assert(t.sweep_steps(n + 1) == next.sweep_steps(n as nat));
        assert forall|x: Registration|
            next.registrations.detached.union(rest.to_set()).contains(x)
                <==> t.registrations.detached.union(active.to_set()).contains(x) by {
            if rest.contains(x) {
                let i = rest.index_of(x);
                assert(active[i + 1] == x);
            }
            if active.contains(x) && x != active[0] {
                let i = active.index_of(x);
                assert(rest[i - 1] == x);
            }
        }
        assert(next.registrations.detached.union(rest.to_set())
            =~= t.registrations.detached.union(active.to_set()));
    }
}

/// The `k`-th step of a sweep that is under way takes the `k`-th of the
/// registrations that were linked when it began.
proof fn lemma_sweep_step_takes(t: TokenView, k: nat)
    requires
        t.inv(),
        t.status is Canceling,
        k < t.registrations.active.len(),
    ensures
        t.sweep_steps(k).next_swept() == Some(t.registrations.active[k as int]),
    decreases k,
{
    reveal_with_fuel(TokenView::sweep_steps, 2);
    if k > 0 {
        let next = t.sweep_next();
        lemma_first_is_unlinked(t.registrations);
        lemma_unlink_removes(t.registrations, t.registrations.active[0]);
        lemma_sweep_step_takes(next, (k - 1) as nat);
        assert(t.sweep_steps(k) == next.sweep_steps((k - 1) as nat));
    }
}

/// Unlinking the head of the list leaves the rest of the list.
proof fn lemma_first_is_unlinked(g: RegistryView)
    requires
        g.inv(),
        g.active.len() > 0,
    ensures
        g.unlink(g.active[0]).active == g.active.subrange(1, g.active.len() as int),
        g.unlink(g.active[0]).detached == g.detached.insert(g.active[0]),
{
    let first = g.active[0];
    assert(g.active.contains(first));
    assert(g.active.index_of(first) == 0);
    assert(g.active.remove(0) =~= g.active.subrange(1, g.active.len() as int));
}

/// Every operation keeps what holds of every token.
pub proof fn law_operations_keep_invariant(
    s: TokenView,
    plan: RunPlan,
    after: TokenView,
    r: Registration,
)
    requires
        s.inv(),
        s.begins_run(plan, after),
    ensures
        TokenView::never().inv(),
        TokenView::fresh().inv(),
        after.inv(),
        s.end_run(r).inv(),
        s.begin_cancel().inv(),
        s.sweep_next().inv(),
        s.cancel().inv(),
{
    if let RunPlan::Registered(fresh) = plan {
        lemma_insert_keeps_inv(s.registrations, fresh);
    }
    lemma_unlink_removes(s.registrations, r);
    if s.registrations.active.len() > 0 {
        lemma_unlink_removes(s.registrations, s.registrations.active[0]);
    }
}

/// Linking a registration that is not live keeps the registry's invariant.
proof fn lemma_insert_keeps_inv(g: RegistryView, r: Registration)
    requires
        g.inv(),
        !g.live(r),
    ensures
        g.insert(r).inv(),
{
    let grown = g.insert(r).active;
    assert forall|i: int, j: int|
        0 <= i < grown.len() && 0 <= j < grown.len() && i != j implies grown[i] != grown[j] by {
        if i > 0 {
            assert(g.active[i - 1] == grown[i]);
        }
        if j > 0 {
            assert(g.active[j - 1] == grown[j]);
        }
    }
    assert forall|x: Registration| !(grown.contains(x) && g.insert(r).detached.contains(x)) by {
        if grown.contains(x) {
            let i = grown.index_of(x);
            if i > 0 {
                assert(g.active[i - 1] == x);
            }
        }
    }
}

/// Unlinking keeps the registry's invariant and leaves the registration out
/// of the list; the others keep their order.
proof fn lemma_unlink_removes(g: RegistryView, r: Registration)
    requires
        g.inv(),
    ensures
        g.unlink(r).inv(),
        g.release(r).inv(),
        !g.unlink(r).active.contains(r),
        !g.release(r).live(r),
        forall|x: Registration| g.unlink(r).active.contains(x) ==> g.active.contains(x),
{
    if g.active.contains(r) {
        let i = g.active.index_of(r);
        let rest = g.active.remove(i);
        assert forall|k: int| 0 <= k < rest.len() implies rest[k] == g.active[if k < i {
            k
        } else {
            k + 1
        }] by {}
        assert forall|x: Registration| rest.contains(x) implies g.active.contains(x) && x
            != r by {
            let k = rest.index_of(x);
            let k0 = if k < i { k } else { k + 1 };
            assert(g.active[k0] == x);
        }
        assert(rest.no_duplicates());
    }
}

} // verus!
