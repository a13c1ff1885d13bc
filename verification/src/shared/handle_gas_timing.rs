use vstd::prelude::*;

use crate::extractors::state::Params;

verus! {

/// Seconds a non-full tank waits for its next unit of gas.
pub const REFILL_SECONDS: u8 = 90;

/// One second of the refill clock on a tank holding `gas` of `max_gas`,
/// with `refilling_in` seconds left until the next unit: a full tank stops
/// its clock, an idle clock is wound up, and a clock that runs out adds one
/// unit of gas. The result is the new `(gas, refilling_in)`.
pub open spec fn tick_gas(gas: u8, refilling_in: u8, max_gas: u8) -> (u8, u8) {
    if gas == max_gas {
        (gas, 0)
    } else if refilling_in == 0 {
        (gas, REFILL_SECONDS)
    } else if refilling_in == 1 {
        ((gas + 1) as u8, 0)
    } else {
        (gas, (refilling_in - 1) as u8)
    }
}

/// The tick adds a unit of gas without overflowing a `u8`.
pub open spec fn tick_fits(gas: u8, refilling_in: u8, max_gas: u8) -> bool {
    gas == max_gas || refilling_in != 1 || gas < u8::MAX
}

/// `n` ticks of the refill clock in a row.
pub open spec fn ticks(gas: u8, refilling_in: u8, max_gas: u8, n: nat) -> (u8, u8)
    decreases n,
{
    if n == 0 {
        (gas, refilling_in)
    } else {
        let next = tick_gas(gas, refilling_in, max_gas);
        ticks(next.0, next.1, max_gas, (n - 1) as nat)
    }
}

/// `after` is `before` with one tick of its refill clock applied.
pub open spec fn ticked(before: Params, after: Params) -> bool {
    let t = tick_gas(before.gas, before.refilling_in, before.max_gas);
    &&& after.gas == t.0
    &&& after.refilling_in == t.1
    &&& after.max_gas == before.max_gas
    &&& after.base_points == before.base_points
    &&& after.active == before.active
}

/// Advances the session's refill clock by one second.
pub fn handle_gas_timing(params: &mut Params)
    requires
        tick_fits(old(params).gas, old(params).refilling_in, old(params).max_gas),
    ensures
        ticked(*old(params), *final(params)),
{
    if params.gas == params.max_gas {
        params.refilling_in = 0;
    } else if params.refilling_in == 0 {
        params.refilling_in = REFILL_SECONDS;
    } else {
        params.refilling_in -= 1;
        if params.refilling_in == 0 {
            params.gas += 1
        };
    }
}

/// One sweep over a stored session: an inactive session's clock runs on,
/// and it is dropped (`false`) once its tank is full again; an active
/// session is left as it is and kept.
pub fn refresh_idle_session(params: &mut Params) -> (keep: bool)
    requires
        !old(params).active ==> tick_fits(old(params).gas, old(params).refilling_in, old(params).max_gas),
    ensures
        old(params).active ==> *final(params) == *old(params) && keep,
        !old(params).active ==> ticked(*old(params), *final(params))
            && keep == (final(params).gas != final(params).max_gas),
{
    if !params.active {
        handle_gas_timing(params);
        params.gas != params.max_gas
    } else {
        true
    }
}

/// While a tank below capacity counts down with two or more seconds left,
/// a tick takes exactly one second off the countdown and adds no gas.
pub proof fn lemma_countdown_takes_one_second(gas: u8, refilling_in: u8, max_gas: u8)
    requires
        gas != max_gas,
        2 <= refilling_in <= REFILL_SECONDS,
    ensures
        tick_gas(gas, refilling_in, max_gas).0 == gas,
        tick_gas(gas, refilling_in, max_gas).1 == refilling_in - 1,
{
}

/// A tick adds gas exactly when the tank is below capacity and its
/// countdown shows its last second; it then adds one unit and stops the
/// countdown. An idle countdown of a tank below capacity is wound to a
/// full refill period, and a full tank's countdown is cleared.
pub proof fn lemma_gas_arrives_when_countdown_ends(gas: u8, refilling_in: u8, max_gas: u8)
    requires
        tick_fits(gas, refilling_in, max_gas),
    ensures
        (tick_gas(gas, refilling_in, max_gas).0 != gas) <==> (gas != max_gas && refilling_in == 1),
        gas != max_gas && refilling_in == 1 ==> tick_gas(gas, refilling_in, max_gas) == ((gas + 1) as u8, 0u8)
            && tick_gas(gas, refilling_in, max_gas).0 == gas + 1,
        gas != max_gas && refilling_in == 0 ==> tick_gas(gas, refilling_in, max_gas) == (gas, 90u8),
        gas == max_gas ==> tick_gas(gas, refilling_in, max_gas) == (gas, 0u8),
{
}

/// No unit of gas arrives before the countdown ends: `k` ticks fewer than
/// the `refilling_in` seconds shown leave the gas as it was and take `k`
/// seconds off the countdown.
pub proof fn lemma_no_gas_before_countdown_ends(gas: u8, refilling_in: u8, max_gas: u8, k: nat)
    requires
        gas != max_gas,
        1 <= refilling_in <= REFILL_SECONDS,
        k < refilling_in,
    ensures
        ticks(gas, refilling_in, max_gas, k).0 == gas,
        ticks(gas, refilling_in, max_gas, k).1 == refilling_in - k,
    decreases k,
{
    if k > 0 {
        lemma_no_gas_before_countdown_ends(gas, (refilling_in - 1) as u8, max_gas, (k - 1) as nat);
    }
}

/// A tick of a stored session changes only its gas and countdown, as the
/// refill clock says; capacity, base points and activity stay.
pub proof fn lemma_tick_keeps_the_rest_of_the_session(before: Params, after: Params)
    requires
        ticked(before, after),
    ensures
        after.max_gas == before.max_gas,
        after.base_points == before.base_points,
        after.active == before.active,
        (after.gas, after.refilling_in) == tick_gas(before.gas, before.refilling_in, before.max_gas),
{
}

/// A tank within its capacity, with its clock within one refill period,
/// stays so after a tick, and the tick never overflows.
pub proof fn lemma_tick_stays_within_tank(gas: u8, refilling_in: u8, max_gas: u8)
    requires
        gas <= max_gas,
        refilling_in <= REFILL_SECONDS,
    ensures
        tick_fits(gas, refilling_in, max_gas),
        tick_gas(gas, refilling_in, max_gas).0 <= max_gas,
        tick_gas(gas, refilling_in, max_gas).1 <= REFILL_SECONDS,
{
}

/// A tick never takes gas away, and adds at most one unit.
pub proof fn lemma_tick_never_drains(gas: u8, refilling_in: u8, max_gas: u8)
    requires
        tick_fits(gas, refilling_in, max_gas),
    ensures
        gas <= tick_gas(gas, refilling_in, max_gas).0 <= gas + 1,
{
}

/// A full tank is left alone by the clock, whatever was pending.
pub proof fn lemma_full_tank_is_at_rest(gas: u8, refilling_in: u8, n: nat)
    ensures
        n > 0 ==> ticks(gas, refilling_in, gas, n) == (gas, 0u8),
    decreases n,
{
    reveal_with_fuel(ticks, 2);
    if n > 1 {
        lemma_full_tank_is_at_rest(gas, 0, (n - 1) as nat);
    }
}

/// A tank below capacity whose clock shows `refilling_in` seconds gains
/// exactly one unit after that many ticks, with the clock back at zero.
pub proof fn lemma_countdown_refills_one_unit(gas: u8, refilling_in: u8, max_gas: u8)
    requires
        gas < max_gas,
        1 <= refilling_in <= REFILL_SECONDS,
    ensures
        ticks(gas, refilling_in, max_gas, refilling_in as nat) == ((gas + 1) as u8, 0u8),
    decreases refilling_in,
{
    reveal_with_fuel(ticks, 2);
    if refilling_in > 1 {
        lemma_countdown_refills_one_unit(gas, (refilling_in - 1) as u8, max_gas);
    }
}

/// From an idle clock, a tank below capacity gains one unit every
/// `REFILL_SECONDS + 1` ticks: one to wind the clock, then the countdown.
pub proof fn lemma_refill_period(gas: u8, max_gas: u8)
    requires
        gas < max_gas,
    ensures
        ticks(gas, 0, max_gas, REFILL_SECONDS as nat + 1) == ((gas + 1) as u8, 0u8),
{
    lemma_countdown_refills_one_unit(gas, REFILL_SECONDS, max_gas);
}

} // verus!
