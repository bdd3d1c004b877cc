//! The arithmetic of pacing: a loop earns its rate as credit in every tick
//! and pays one whole execution each time it runs.

use vstd::prelude::*;

use crate::utils::frequency::FREQUENCY_ONE;

verus! {

/// How often a loop runs in a tick that starts with `credit`: once for every
/// whole execution that the credit covers, and once more for reaching zero.
pub open spec fn due(credit: int) -> nat {
    if credit < 0 {
        0
    } else {
        (credit / FREQUENCY_ONE as int + 1) as nat
    }
}

/// The credit that is left when a tick has run everything that was due.
pub open spec fn settled(credit: int) -> int {
    credit - due(credit) * FREQUENCY_ONE
}

/// The executions of a loop in `ticks` ticks in a row, at one rate, from the
/// given accumulator.
pub open spec fn executions(accumulator: int, frequency: int, ticks: nat) -> nat
    decreases ticks,
{
    if ticks == 0 {
        0
    } else {
        due(accumulator + frequency) + executions(
            settled(accumulator + frequency),
            frequency,
            (ticks - 1) as nat,
        )
    }
}

/// The accumulator of a loop after `ticks` ticks in a row at one rate.
pub open spec fn accumulator_after(accumulator: int, frequency: int, ticks: nat) -> int
    decreases ticks,
{
    if ticks == 0 {
        accumulator
    } else {
        accumulator_after(settled(accumulator + frequency), frequency, (ticks - 1) as nat)
    }
}

/// A tick leaves less than nothing and at most one execution of debt, and
/// leaves a debt alone that the rate did not clear.
pub proof fn lemma_settled_range(credit: int)
    ensures
        credit < 0 ==> settled(credit) == credit,
        credit >= 0 ==> -FREQUENCY_ONE <= settled(credit) < 0,
        credit >= 0 ==> settled(credit) == credit % (FREQUENCY_ONE as int) - FREQUENCY_ONE,
{
}

/// Paying in two steps is paying once: what is due on a credit, and then on
/// what that left with `more` added, is what is due on both together.
proof fn lemma_due_splits(credit: int, more: int)
    requires
        more >= 0,
    ensures
        due(credit) + due(settled(credit) + more) == due(credit + more),
        settled(settled(credit) + more) == settled(credit + more),
{
    if credit >= 0 {
        let paid = due(credit) as int;
        assert(credit + more - paid * FREQUENCY_ONE >= -FREQUENCY_ONE);
    }
}

/// Any number of ticks at one rate does what a single tick at that many times
/// the rate does: the count of executions never drifts from the rate, however
/// the single ticks round.
pub proof fn lemma_ticks_add_up(accumulator: int, frequency: int, ticks: nat)
    requires
        frequency >= 0,
        ticks >= 1,
    ensures
        executions(accumulator, frequency, ticks) == due(accumulator + ticks * frequency),
        accumulator_after(accumulator, frequency, ticks) == settled(accumulator + ticks * frequency),
    decreases ticks,
{
    let first = accumulator + frequency;
    if ticks == 1 {
        assert(ticks * frequency == frequency) by (nonlinear_arith)
            requires
                ticks == 1,
        ;
        assert(executions(settled(first), frequency, 0) == 0);
        assert(accumulator_after(settled(first), frequency, 0) == settled(first));
    } else {
        let rest = (ticks - 1) as nat;
        lemma_ticks_add_up(settled(first), frequency, rest);
        assert(rest * frequency >= 0) by (nonlinear_arith)
            requires
                rest >= 0,
                frequency >= 0,
        ;
        assert(ticks * frequency == rest * frequency + frequency) by (nonlinear_arith)
            requires
                rest == ticks - 1,
        ;
        lemma_due_splits(first, rest * frequency);
    }
}

/// Once a loop has run, so that its accumulator is a debt of at most one
/// execution, `ticks` ticks at one rate execute it
/// `floor(accumulator + ticks * frequency) - floor(accumulator)` times, in
/// units of whole executions. A slot that was just filled is not in that
/// state yet: its first tick executes once more than this.
pub proof fn lemma_steady_rate(accumulator: int, frequency: int, ticks: nat)
    requires
        frequency >= 0,
        -FREQUENCY_ONE <= accumulator <= 0,
        accumulator < 0 || ticks == 0,
    ensures
        executions(accumulator, frequency, ticks) == (accumulator + ticks * frequency) / (
        FREQUENCY_ONE as int) - accumulator / (FREQUENCY_ONE as int),
{
    if ticks == 0 {
        assert(ticks * frequency == 0) by (nonlinear_arith)
            requires
                ticks == 0,
        ;
    } else {
        lemma_ticks_add_up(accumulator, frequency, ticks);
        assert(ticks * frequency >= 0) by (nonlinear_arith)
            requires
                ticks >= 0,
                frequency >= 0,
        ;
    }
}

/// At a rate of one a loop in the steady state runs exactly once in every
/// tick, and its accumulator stays where it is.
pub proof fn lemma_once_per_tick(accumulator: int, ticks: nat)
    requires
        -FREQUENCY_ONE <= accumulator < 0,
    ensures
        due(accumulator + FREQUENCY_ONE) == 1,
        settled(accumulator + FREQUENCY_ONE) == accumulator,
        executions(accumulator, FREQUENCY_ONE as int, ticks) == ticks,
        accumulator_after(accumulator, FREQUENCY_ONE as int, ticks) == accumulator,
    decreases ticks,
{
    if ticks > 0 {
        lemma_once_per_tick(accumulator, (ticks - 1) as nat);
    }
}

/// At a rate of one half a loop in the steady state runs in every other tick:
/// of two ticks in a row exactly one executes it, once, and after the two the
/// accumulator is back where it was. The tick that skips is the one that
/// starts more than half an execution in debt.
pub proof fn lemma_every_other_tick(accumulator: int, pairs: nat)
    requires
        -FREQUENCY_ONE <= accumulator < 0,
    ensures
        ({
            let half = FREQUENCY_ONE as int / 2;
            let between = settled(accumulator + half);
            &&& due(accumulator + half) == (if accumulator < -half { 0nat } else { 1nat })
            &&& due(accumulator + half) + due(between + half) == 1
            &&& settled(between + half) == accumulator
            &&& executions(accumulator, half, 2 * pairs) == pairs
            &&& accumulator_after(accumulator, half, 2 * pairs) == accumulator
        }),
    decreases pairs,
{
    let half = FREQUENCY_ONE as int / 2;
    if pairs > 0 {
        lemma_every_other_tick(accumulator, (pairs - 1) as nat);
        let between = settled(accumulator + half);
        let rest = (2 * pairs - 1) as nat;
        assert(executions(accumulator, half, 2 * pairs) == due(accumulator + half) + executions(
            between,
            half,
            rest,
        ));
        assert(executions(between, half, rest) == due(between + half) + executions(
            accumulator,
            half,
            (2 * (pairs - 1)) as nat,
        ));
        assert(accumulator_after(accumulator, half, 2 * pairs) == accumulator_after(
            between,
            half,
            rest,
        ));
        assert(accumulator_after(between, half, rest) == accumulator_after(
            accumulator,
            half,
            (2 * (pairs - 1)) as nat,
        ));
    }
}

/// At a rate of zero a loop runs exactly once, in the first tick after its
/// slot was filled, and never again.
pub proof fn lemma_zero_frequency_runs_once(ticks: nat)
    requires
        ticks >= 1,
    ensures
        due(0) == 1,
        settled(0) == -FREQUENCY_ONE,
        executions(0, 0, ticks) == 1,
        executions(settled(0), 0, ticks) == 0,
        accumulator_after(0, 0, ticks) == -FREQUENCY_ONE,
{
    lemma_ticks_add_up(0, 0, ticks);
    lemma_ticks_add_up(settled(0), 0, ticks);
    assert(ticks * 0 == 0) by (nonlinear_arith);
}

} // verus!
