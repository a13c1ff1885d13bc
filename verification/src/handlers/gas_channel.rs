use vstd::prelude::*;
use vstd::arithmetic::power2::{pow2, lemma2_to64, lemma_pow2_unfold};

use crate::error::Error;
use crate::shared::handle_gas_timing::{tick_gas, tick_fits, REFILL_SECONDS};

verus! {

/// What the player's client sends over the gas channel.
#[derive(Debug, Clone, Copy, PartialEq, Eq, Structural)]
pub enum ClientMsg {
    Win,
    Lose,
    Refill,
    Reload,
}

/// The outcome of one guessing round: `result` is 1 for a win and 0 for a
/// loss, with the streak of wins that the round leaves.
#[derive(Debug, Clone, Copy, PartialEq, Eq, Structural)]
pub struct GuessingResult {
    pub result: u8,
    pub winning_streak: u8,
}

/// The tank as reported to the client every second.
#[derive(Debug, Clone, Copy, PartialEq, Eq, Structural)]
pub struct GasStatus {
    pub gas: u8,
    pub refilling_in: u8,
}

/// What the server sends over the gas channel.
#[derive(Debug, Clone, Copy)]
pub enum ServerMsg {
    Text(&'static str),
    GuessingResult(GuessingResult),
    GasStatus(GasStatus),
}

/// The tank of a connected player.
#[derive(Debug, Clone, Copy, PartialEq, Eq, Structural)]
pub struct Params {
    pub gas: u8,
    pub refilling_in: u8,
    pub max_gas: u8,
    pub base_points: u8,
}

/// The upgrade levels stored for a player.
#[derive(Debug, Clone, Copy, PartialEq, Eq, Structural)]
pub struct UserLevels {
    pub fuel_tank_lv: i32,
    pub turbo_changer_lv: i32,
}

/// Gas a player gets when nothing is stored for them.
pub const STARTING_GAS: u8 = 10;

pub open spec fn spec_max_gas(fuel_tank_lv: u8) -> int {
    10 + 2 * fuel_tank_lv
}

pub open spec fn spec_base_points(turbo_changer_lv: u8) -> int {
    10 + 10 * turbo_changer_lv
}

/// Tank capacity for a fuel tank level: 10, and 2 more per level.
pub fn calculate_max_gas(fuel_tank_lv: u8) -> (max_gas: u8)
    requires
        spec_max_gas(fuel_tank_lv) <= u8::MAX,
    ensures
        max_gas == spec_max_gas(fuel_tank_lv),
{
    10 + fuel_tank_lv * 2
}

/// Points of a won round for a turbo charger level: 10, and 10 more per level.
pub fn calculate_base_points(turbo_changer_lv: u8) -> (points: u8)
    requires
        spec_base_points(turbo_changer_lv) <= u8::MAX,
    ensures
        points == spec_base_points(turbo_changer_lv),
{
    10 + turbo_changer_lv * 10
}

/// Points of a win that extends the streak to `streak`: the base points,
/// doubled for every win of the streak before this one.
pub fn points_by_streak(points: u16, streak: u8) -> (total: u16)
    requires
        1 <= streak <= 16,
        points * pow2((streak - 1) as nat) <= u16::MAX,
    ensures
        total == points * pow2((streak - 1) as nat),
{
    let mut factor: u16 = 1;
    let mut i: u8 = 1;
    proof {
        lemma2_to64();
    }
    while i < streak
        invariant
            1 <= i <= streak <= 16,
            factor == pow2((i - 1) as nat),
            pow2(15) == 0x8000,
        decreases streak - i,
    {
        proof {
            lemma_pow2_unfold(i as nat);
            vstd::arithmetic::power2::lemma_pow2_strictly_increases((i - 1) as nat, 15);
        }
        factor = factor * 2;
        i = i + 1;
    }
    assert(points * factor <= u16::MAX);
    points * factor
}

/// The stored state is usable: the clock started no later than `now`, and
/// neither the accumulated gas nor the level formulas leave a `u8`.
pub open spec fn init_fits(now: u64, last_active: Option<u64>, last_gas: Option<u8>, levels: UserLevels) -> bool {
    let last = last_active.unwrap_or(now);
    let gas = last_gas.unwrap_or(STARTING_GAS);
    &&& last <= now
    &&& gas + ((now - last) / REFILL_SECONDS as int) as u8 <= u8::MAX
    &&& spec_max_gas(levels.fuel_tank_lv as u8) <= u8::MAX
    &&& spec_base_points(levels.turbo_changer_lv as u8) <= u8::MAX
}

/// The tank of a reconnecting player: the gas left at the last visit (or
/// the starting gas), plus a unit for every full refill period since then
/// (or none); the clock shows the seconds of the period under way.
pub open spec fn spec_init(now: u64, last_active: Option<u64>, last_gas: Option<u8>, levels: UserLevels) -> Params {
    let last = last_active.unwrap_or(now);
    let gas = last_gas.unwrap_or(STARTING_GAS);
    Params {
        gas: (gas + ((now - last) / REFILL_SECONDS as int) as u8) as u8,
        refilling_in: ((now - last) % REFILL_SECONDS as int) as u8,
        max_gas: spec_max_gas(levels.fuel_tank_lv as u8) as u8,
        base_points: spec_base_points(levels.turbo_changer_lv as u8) as u8,
    }
}

impl Params {
    /// Restores a player's tank from what was stored: the time of the last
    /// visit and the gas left then (each absent for a new player), and the
    /// player's upgrade levels (absent for an unknown player), at time `now`.
    pub fn init(now: u64, last_active: Option<u64>, last_gas: Option<u8>, user: Option<UserLevels>) -> (res: Result<Self, Error>)
        requires
            user matches Some(levels) ==> init_fits(now, last_active, last_gas, levels),
        ensures
            user matches Some(levels) ==> res == Ok::<Self, Error>(spec_init(now, last_active, last_gas, levels)),
            user is None ==> (res matches Err(Error::Custom(m)) && m@ == "user not found"@),
    {
        let last_active_time = last_active.unwrap_or(now);
        let last_gas = last_gas.unwrap_or(STARTING_GAS);
        let levels = match user {
            Some(levels) => levels,
            None => {
                return Err(Error::Custom(String::from_str("user not found")));
            },
        };
        let duration = now - last_active_time;
        let refills = (duration / REFILL_SECONDS as u64) as u8;
        let gas = last_gas + refills;
        let refilling_in = (duration % REFILL_SECONDS as u64) as u8;
        Ok(Self {
            gas,
            refilling_in,
            max_gas: calculate_max_gas(levels.fuel_tank_lv as u8),
            base_points: calculate_base_points(levels.turbo_changer_lv as u8),
        })
    }
}

/// `after` is `before` with one tick of the refill clock applied.
pub open spec fn params_ticked(before: Params, after: Params) -> bool {
    let t = tick_gas(before.gas, before.refilling_in, before.max_gas);
    after == Params { gas: t.0, refilling_in: t.1, ..before }
}

/// Advances the tank's refill clock by one second.
fn handle_gas_timing(params: &mut Params)
    requires
        tick_fits(old(params).gas, old(params).refilling_in, old(params).max_gas),
    ensures
        params_ticked(*old(params), *final(params)),
{
    if params.gas == params.max_gas {
        params.refilling_in = 0;
    } else if params.refilling_in == 0 {
        params.refilling_in = REFILL_SECONDS;
    } else {
        params.refilling_in -= 1;
        if params.refilling_in == 0 {
            params.gas += 1
        };
    }
}

/// One player's connection to the gas channel: the tank, the current
/// streak of won rounds, and whether the refill clock still runs.
#[derive(Debug, Clone, Copy, PartialEq, Eq, Structural)]
pub struct GasSession {
    pub params: Params,
    pub winning_streak: u8,
    pub timer_running: bool,
}

/// The session after one second: a running clock ticks, a stopped one not.
pub open spec fn session_after_tick(s: GasSession) -> GasSession {
    if s.timer_running {
        let t = tick_gas(s.params.gas, s.params.refilling_in, s.params.max_gas);
        GasSession { params: Params { gas: t.0, refilling_in: t.1, ..s.params }, ..s }
    } else {
        s
    }
}

/// A round is played when the client reports a win or a loss with gas left.
pub open spec fn plays_round(s: GasSession, msg: ClientMsg) -> bool {
    (msg is Win || msg is Lose) && s.params.gas > 0
}

/// The session after a client message: a played round costs a unit of gas,
/// a win extends the streak and a loss ends it; anything else changes nothing.
pub open spec fn session_after_msg(s: GasSession, msg: ClientMsg) -> GasSession {
    if plays_round(s, msg) {
        GasSession {
            params: Params { gas: (s.params.gas - 1) as u8, ..s.params },
            winning_streak: if msg is Win { (s.winning_streak + 1) as u8 } else { 0 },
            ..s
        }
    } else {
        s
    }
}

/// A round can be recorded without the streak leaving a `u8`.
pub open spec fn msg_fits(s: GasSession, msg: ClientMsg) -> bool {
    plays_round(s, msg) && msg is Win ==> s.winning_streak < u8::MAX
}

/// The tank is within its capacity and its clock within one refill period.
pub open spec fn within_tank(s: GasSession) -> bool {
    s.params.gas <= s.params.max_gas && s.params.refilling_in <= REFILL_SECONDS
}

impl GasSession {
    /// A new connection: no streak yet, and the refill clock running.
    pub fn new(params: Params) -> (s: Self)
        ensures
            s == (GasSession { params, winning_streak: 0, timer_running: true }),
    {
        GasSession { params, winning_streak: 0, timer_running: true }
    }

    /// One second passes; while the clock runs, the tank is reported.
    pub fn on_tick(&mut self) -> (status: Option<GasStatus>)
        requires
            old(self).timer_running ==> tick_fits(old(self).params.gas, old(self).params.refilling_in, old(self).params.max_gas),
        ensures
            *final(self) == session_after_tick(*old(self)),
            status == (if old(self).timer_running {
                Some(GasStatus { gas: final(self).params.gas, refilling_in: final(self).params.refilling_in })
            } else {
                None
            }),
    {
        if !self.timer_running {
            return None;
        }
        handle_gas_timing(&mut self.params);
        Some(GasStatus { gas: self.params.gas, refilling_in: self.params.refilling_in })
    }

    /// A message from the client; a played round is answered with its result.
    pub fn on_client_msg(&mut self, msg: ClientMsg) -> (reply: Option<GuessingResult>)
        requires
            msg_fits(*old(self), msg),
        ensures
            *final(self) == session_after_msg(*old(self), msg),
            reply == (if plays_round(*old(self), msg) {
                Some(GuessingResult {
                    result: if msg is Win { 1u8 } else { 0u8 },
                    winning_streak: final(self).winning_streak,
                })
            } else {
                None
            }),
    {
        match msg {
            ClientMsg::Lose | ClientMsg::Win => {
                if self.params.gas > 0 {
                    self.params.gas -= 1;
                    let result = if let ClientMsg::Lose = msg {
                        self.winning_streak = 0;
                        0
                    } else {
                        self.winning_streak += 1;
                        1
                    };
                    Some(GuessingResult { result, winning_streak: self.winning_streak })
                } else {
                    None
                }
            },
            ClientMsg::Reload => None,
            ClientMsg::Refill => None,
        }
    }

    /// The client closed the channel: the refill clock stops for good.
    pub fn on_close(&mut self)
        ensures
            *final(self) == (GasSession { timer_running: false, ..*old(self) }),
    {
        self.timer_running = false;
    }
}

/// Tank capacity is 10 at level 0 and grows by exactly 2 per level.
pub proof fn lemma_capacity_grows_two_per_level(fuel_tank_lv: u8)
    ensures
        spec_max_gas(0) == 10,
        fuel_tank_lv < u8::MAX ==> spec_max_gas((fuel_tank_lv + 1) as u8) == spec_max_gas(fuel_tank_lv) + 2,
        spec_max_gas(fuel_tank_lv) - 10 == 2 * fuel_tank_lv,
{
}

/// Base points are 10 at level 0 and grow by exactly 10 per level.
pub proof fn lemma_base_points_grow_ten_per_level(turbo_changer_lv: u8)
    ensures
        spec_base_points(0) == 10,
        turbo_changer_lv < u8::MAX ==> spec_base_points((turbo_changer_lv + 1) as u8) == spec_base_points(turbo_changer_lv) + 10,
        spec_base_points(turbo_changer_lv) - 10 == 10 * turbo_changer_lv,
{
}

/// A streak of one earns the base points, and each further win of the
/// streak doubles them.
pub proof fn lemma_streak_points_double(points: u16, streak: u8)
    requires
        1 <= streak < 16,
    ensures
        points * pow2(0) == points,
        points * pow2(streak as nat) == 2 * (points * pow2((streak - 1) as nat)),
{
    lemma_pow2_unfold(streak as nat);
    lemma2_to64();
    assert(points * pow2(streak as nat) == points * (2 * pow2((streak - 1) as nat)));
    assert(points * (2 * pow2((streak - 1) as nat)) == 2 * (points * pow2((streak - 1) as nat))) by (nonlinear_arith);
}

/// A reconnecting player gets back the gas stored for them (the starting
/// gas only when nothing is stored), plus one unit for every complete
/// refill period since their last visit (none when that time is not
/// stored); the countdown shows the seconds of the period under way, and
/// the capacity and base points follow the levels.
pub proof fn lemma_init_restores_stored_gas_and_refills(now: u64, last_active: Option<u64>, last_gas: Option<u8>, levels: UserLevels)
    requires
        init_fits(now, last_active, last_gas, levels),
        last_active matches Some(t) ==> now - t < 256 * REFILL_SECONDS,
    ensures
        ({
            let elapsed: int = match last_active {
                Some(t) => now - t,
                None => 0,
            };
            let p = spec_init(now, last_active, last_gas, levels);
            &&& last_gas matches Some(g) ==> p.gas == g + elapsed / 90
            &&& last_gas is None ==> p.gas == 10 + elapsed / 90
            &&& p.refilling_in == elapsed % 90
            &&& p.max_gas == 10 + 2 * (levels.fuel_tank_lv as u8)
            &&& p.base_points == 10 + 10 * (levels.turbo_changer_lv as u8)
        }),
{
}

/// A played round changes the session only in its gas, one unit less, and
/// its streak, one more after a win and none after a loss: the countdown,
/// the capacity, the base points and the clock are left as they were.
pub proof fn lemma_round_changes_only_gas_and_streak(s: GasSession, msg: ClientMsg)
    requires
        plays_round(s, msg),
        msg_fits(s, msg),
    ensures
        session_after_msg(s, msg).params.gas == s.params.gas - 1,
        session_after_msg(s, msg).params.refilling_in == s.params.refilling_in,
        session_after_msg(s, msg).params.max_gas == s.params.max_gas,
        session_after_msg(s, msg).params.base_points == s.params.base_points,
        session_after_msg(s, msg).timer_running == s.timer_running,
        msg is Win ==> session_after_msg(s, msg).winning_streak == s.winning_streak + 1,
        msg is Lose ==> session_after_msg(s, msg).winning_streak == 0,
{
}

/// A second of a session's running clock changes only the tank's gas and
/// countdown, as the refill clock says.
pub proof fn lemma_session_tick_changes_only_the_clock(s: GasSession)
    requires
        s.timer_running,
    ensures
        (session_after_tick(s).params.gas, session_after_tick(s).params.refilling_in)
            == tick_gas(s.params.gas, s.params.refilling_in, s.params.max_gas),
        session_after_tick(s).params.max_gas == s.params.max_gas,
        session_after_tick(s).params.base_points == s.params.base_points,
        session_after_tick(s).winning_streak == s.winning_streak,
        session_after_tick(s).timer_running,
{
}

/// The private clock of a connected tank changes only gas and countdown.
pub proof fn lemma_params_tick_changes_only_the_clock(before: Params, after: Params)
    requires
        params_ticked(before, after),
    ensures
        (after.gas, after.refilling_in) == tick_gas(before.gas, before.refilling_in, before.max_gas),
        after.max_gas == before.max_gas,
        after.base_points == before.base_points,
{
}

/// A session whose tank is within capacity stays so whatever happens: a
/// second of the clock, any client message, or the channel closing; and
/// the clock never overflows the tank.
pub proof fn lemma_session_stays_within_tank(s: GasSession, msg: ClientMsg)
    requires
        within_tank(s),
    ensures
        s.timer_running ==> tick_fits(s.params.gas, s.params.refilling_in, s.params.max_gas),
        within_tank(session_after_tick(s)),
        within_tank(session_after_msg(s, msg)),
        within_tank(GasSession { timer_running: false, ..s }),
{
}

/// A played round costs exactly one unit of gas and a message that plays
/// no round costs none; gas never goes below zero.
pub proof fn lemma_round_costs_one_unit(s: GasSession, msg: ClientMsg)
    ensures
        plays_round(s, msg) ==> session_after_msg(s, msg).params.gas == s.params.gas - 1,
        !plays_round(s, msg) ==> session_after_msg(s, msg) == s,
        (msg is Refill || msg is Reload) ==> session_after_msg(s, msg) == s,
{
}

/// Once the channel is closed, the clock is still: seconds change nothing.
pub proof fn lemma_closed_session_is_still(s: GasSession)
    requires
        !s.timer_running,
    ensures
        session_after_tick(s) == s,
{
}

/// A lost round ends the streak; a won round extends it by one.
pub proof fn lemma_streak_follows_results(s: GasSession)
    requires
        s.params.gas > 0,
        s.winning_streak < u8::MAX,
    ensures
        session_after_msg(s, ClientMsg::Lose).winning_streak == 0,
        session_after_msg(s, ClientMsg::Win).winning_streak == s.winning_streak + 1,
{
}

} // verus!
