use racer::extractors::state::Params;
use racer::shared::handle_gas_timing::{handle_gas_timing, refresh_idle_session, REFILL_SECONDS};

fn params(gas: u8, refilling_in: u8, max_gas: u8, active: bool) -> Params {
    Params { gas, refilling_in, max_gas, base_points: 10, active }
}

#[test]
fn defualt_starts_full_and_active() {
    let p = Params::defualt(14, 30);
    assert_eq!(p, Params { gas: 14, refilling_in: 0, max_gas: 14, base_points: 30, active: true });
}

#[test]
fn full_tank_stops_the_clock() {
    let mut p = params(10, 37, 10, true);
    handle_gas_timing(&mut p);
    assert_eq!(p, params(10, 0, 10, true));
}

#[test]
fn idle_clock_is_wound_up() {
    let mut p = params(4, 0, 10, true);
    handle_gas_timing(&mut p);
    assert_eq!(p, params(4, 90, 10, true));
    assert_eq!(REFILL_SECONDS, 90);
}

#[test]
fn clock_counts_down() {
    let mut p = params(4, 42, 10, false);
    handle_gas_timing(&mut p);
    assert_eq!(p, params(4, 41, 10, false));
}

#[test]
fn clock_running_out_adds_a_unit() {
    let mut p = params(4, 1, 10, true);
    handle_gas_timing(&mut p);
    assert_eq!(p, params(5, 0, 10, true));
}

#[test]
fn a_unit_every_ninety_one_ticks() {
    let mut p = params(3, 0, 10, true);
    for _ in 0..91 {
        handle_gas_timing(&mut p);
    }
    assert_eq!(p, params(4, 0, 10, true));
    for _ in 0..91 * 6 {
        handle_gas_timing(&mut p);
    }
    assert_eq!(p, params(10, 0, 10, true));
    for _ in 0..500 {
        handle_gas_timing(&mut p);
        assert!(p.gas <= p.max_gas);
    }
    assert_eq!(p, params(10, 0, 10, true));
}

#[test]
fn active_sessions_are_left_alone() {
    let mut p = params(2, 17, 10, true);
    assert!(refresh_idle_session(&mut p));
    assert_eq!(p, params(2, 17, 10, true));
}

#[test]
fn idle_session_ticks_and_is_kept_until_full() {
    let mut p = params(2, 17, 10, false);
    assert!(refresh_idle_session(&mut p));
    assert_eq!(p, params(2, 16, 10, false));
}

#[test]
fn idle_session_is_dropped_once_full() {
    let mut p = params(9, 1, 10, false);
    assert!(!refresh_idle_session(&mut p));
    assert_eq!(p, params(10, 0, 10, false));
    let mut full = params(10, 0, 10, false);
    assert!(!refresh_idle_session(&mut full));
}
