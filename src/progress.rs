use vstd::prelude::*;

verus! {

/// One whole in the fixed-point fractions reported for a transition.
pub const PROGRESS_ONE: u32 = 1_000_000;

/// Fraction of a transition still to run, in units of `PROGRESS_ONE`: the
/// time left over the total time, rounded down. A transition of no length
/// has nothing left to run.
pub open spec fn remaining_fraction(time_left: nat, total: nat) -> nat {
    if total == 0 {
        0
    } else {
        time_left * PROGRESS_ONE as nat / total
    }
}

/// Fraction of a transition already run, in units of `PROGRESS_ONE`: the
/// complement of `remaining_fraction`. This is the blend factor handed to
/// the compositor.
pub open spec fn elapsed_fraction(time_left: nat, total: nat) -> nat {
    (PROGRESS_ONE as nat - remaining_fraction(time_left, total)) as nat
}

/// What one tick of `dt` microseconds does to a running transition: `None`
/// when the tick ends it (the time left drops below zero, or the transition
/// has no length at all), otherwise the time left afterwards.
pub open spec fn tick(time_left: nat, total: nat, dt: nat) -> Option<nat> {
    if dt > time_left || total == 0 {
        None
    } else {
        Some((time_left - dt) as nat)
    }
}

/// A transition's state after a run of ticks: `None` once some tick has
/// ended it.
pub open spec fn run_ticks(time_left: nat, total: nat, dts: Seq<nat>) -> Option<nat>
    decreases dts.len(),
{
    if dts.len() == 0 {
        Some(time_left)
    } else {
        match run_ticks(time_left, total, dts.drop_last()) {
            None => None,
            Some(t) => tick(t, total, dts.last()),
        }
    }
}

/// Sum of a run of deltas.
pub open spec fn total_delta(dts: Seq<nat>) -> nat
    decreases dts.len(),
{
    if dts.len() == 0 {
        0
    } else {
        total_delta(dts.drop_last()) + dts.last()
    }
}

/// While time is left within the total, at most the whole remains.
pub proof fn lemma_remaining_at_most_one(time_left: nat, total: nat)
    requires
        time_left <= total,
    ensures
        remaining_fraction(time_left, total) <= PROGRESS_ONE,
{
    if total > 0 {
        let one = PROGRESS_ONE as nat;
        assert(time_left * one <= total * one) by (nonlinear_arith)
            requires time_left <= total;
        assert(time_left * one / total <= one) by (nonlinear_arith)
            requires time_left * one <= total * one, total > 0;
    }
}

/// The blend factor never falls as a transition runs down: less time left
/// means at least as much of the incoming state shown.
pub proof fn lemma_elapsed_monotone(t1: nat, t2: nat, total: nat)
    requires
        t1 <= t2 <= total,
    ensures
        elapsed_fraction(t1, total) >= elapsed_fraction(t2, total),
        elapsed_fraction(t1, total) <= PROGRESS_ONE,
{
    lemma_remaining_at_most_one(t1, total);
    lemma_remaining_at_most_one(t2, total);
    if total > 0 {
        let one = PROGRESS_ONE as nat;
        assert(t1 * one <= t2 * one) by (nonlinear_arith)
            requires t1 <= t2;
        assert(t1 * one / total <= t2 * one / total) by (nonlinear_arith)
            requires t1 * one <= t2 * one, total > 0;
    }
}

/// Along any run of positive deltas a transition's time left strictly falls
/// at every tick that keeps it running; once a tick has ended it, it stays
/// ended; and it does end once the deltas add up to more than the time that
/// was left.
pub proof fn lemma_transition_runs_down(time_left: nat, total: nat, dts: Seq<nat>)
    requires
        forall|i: int| 0 <= i < dts.len() ==> dts[i] > 0,
    ensures
        forall|i: int|
            0 <= i < dts.len() && #[trigger] run_ticks(time_left, total, dts.take(i + 1)) is Some
                ==> run_ticks(time_left, total, dts.take(i)) is Some
                && run_ticks(time_left, total, dts.take(i + 1))->0 < run_ticks(
                time_left,
                total,
                dts.take(i),
            )->0,
        forall|i: int, j: int|
            0 <= i <= j <= dts.len() && #[trigger] run_ticks(time_left, total, dts.take(i)) is None
                ==> #[trigger] run_ticks(time_left, total, dts.take(j)) is None,
        total_delta(dts) > time_left ==> run_ticks(time_left, total, dts) is None,
    decreases dts.len(),
{
    if dts.len() > 0 {
        let pre = dts.drop_last();
        assert forall|i: int| 0 <= i < pre.len() implies pre[i] > 0 by {
            assert(pre[i] == dts[i]);
        }
        lemma_transition_runs_down(time_left, total, pre);
        assert forall|i: int| 0 <= i <= pre.len() implies #[trigger] dts.take(i) == pre.take(i) by {
            assert(dts.take(i) =~= pre.take(i));
        }
        assert(dts.take(dts.len() as int) =~= dts);
        assert(pre.take(pre.len() as int) =~= pre);
        lemma_run_ticks_bounded(time_left, total, pre);
    }
}

/// A run that has not ended has used up no more than the time left.
proof fn lemma_run_ticks_bounded(time_left: nat, total: nat, dts: Seq<nat>)
    ensures
        run_ticks(time_left, total, dts) is Some ==> run_ticks(time_left, total, dts)->0
            + total_delta(dts) == time_left,
    decreases dts.len(),
{
    if dts.len() > 0 {
        lemma_run_ticks_bounded(time_left, total, dts.drop_last());
    }
}

/// A transition of no length ends on the first tick, whatever its delta.
pub proof fn lemma_zero_length_ends_at_once(dt: nat)
    ensures
        tick(0, 0, dt) is None,
{
}

} // verus!
