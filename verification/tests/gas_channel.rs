use racer::error::Error;
use racer::handlers::gas_channel::{
    calculate_base_points, calculate_max_gas, points_by_streak, ClientMsg, GasSession, GasStatus,
    GuessingResult, Params, UserLevels, STARTING_GAS,
};

fn tank(gas: u8, refilling_in: u8, max_gas: u8) -> Params {
    Params { gas, refilling_in, max_gas, base_points: 10 }
}

#[test]
fn max_gas_grows_two_per_level() {
    assert_eq!(calculate_max_gas(0), 10);
    assert_eq!(calculate_max_gas(3), 16);
    assert_eq!(calculate_max_gas(122), 254);
}

#[test]
fn base_points_grow_ten_per_level() {
    assert_eq!(calculate_base_points(0), 10);
    assert_eq!(calculate_base_points(2), 30);
    assert_eq!(calculate_base_points(24), 250);
}

#[test]
fn points_double_along_the_streak() {
    assert_eq!(points_by_streak(10, 1), 10);
    assert_eq!(points_by_streak(10, 2), 20);
    assert_eq!(points_by_streak(10, 3), 40);
    assert_eq!(points_by_streak(1, 16), 32768);
    assert_eq!(points_by_streak(0, 16), 0);
}

#[test]
fn unknown_user_is_refused() {
    match Params::init(1_000, Some(900), Some(3), None) {
        Err(Error::Custom(m)) => assert_eq!(m, "user not found"),
        other => panic!("unexpected {:?}", other),
    }
}

#[test]
fn new_player_starts_with_ten_units() {
    let levels = UserLevels { fuel_tank_lv: 0, turbo_changer_lv: 0 };
    let p = Params::init(1_000, None, None, Some(levels)).unwrap();
    assert_eq!(p, Params { gas: STARTING_GAS, refilling_in: 0, max_gas: 10, base_points: 10 });
}

#[test]
fn absence_refills_the_tank() {
    let levels = UserLevels { fuel_tank_lv: 3, turbo_changer_lv: 2 };
    let p = Params::init(10_000, Some(10_000 - 200), Some(4), Some(levels)).unwrap();
    assert_eq!(p, Params { gas: 6, refilling_in: 20, max_gas: 16, base_points: 30 });
}

#[test]
fn stored_gas_is_used_when_present() {
    let levels = UserLevels { fuel_tank_lv: 1, turbo_changer_lv: 1 };
    let p = Params::init(500, Some(500), Some(7), Some(levels)).unwrap();
    assert_eq!(p, Params { gas: 7, refilling_in: 0, max_gas: 12, base_points: 20 });
}

#[test]
fn session_reports_the_tank_every_second() {
    let mut s = GasSession::new(tank(3, 2, 10));
    assert_eq!(s.on_tick(), Some(GasStatus { gas: 3, refilling_in: 1 }));
    assert_eq!(s.on_tick(), Some(GasStatus { gas: 4, refilling_in: 0 }));
    assert_eq!(s.on_tick(), Some(GasStatus { gas: 4, refilling_in: 90 }));
}

#[test]
fn rounds_cost_gas_and_count_the_streak() {
    let mut s = GasSession::new(tank(3, 0, 10));
    assert_eq!(s.on_client_msg(ClientMsg::Win), Some(GuessingResult { result: 1, winning_streak: 1 }));
    assert_eq!(s.on_client_msg(ClientMsg::Win), Some(GuessingResult { result: 1, winning_streak: 2 }));
    assert_eq!(s.params.gas, 1);
    assert_eq!(s.on_client_msg(ClientMsg::Lose), Some(GuessingResult { result: 0, winning_streak: 0 }));
    assert_eq!(s.params.gas, 0);
    assert_eq!(s.on_client_msg(ClientMsg::Win), None);
    assert_eq!(s.winning_streak, 0);
    assert_eq!(s.params.gas, 0);
}

#[test]
fn refill_and_reload_change_nothing() {
    let mut s = GasSession::new(tank(3, 12, 10));
    let before = s;
    assert_eq!(s.on_client_msg(ClientMsg::Refill), None);
    assert_eq!(s.on_client_msg(ClientMsg::Reload), None);
    assert_eq!(s, before);
}

#[test]
fn closing_stops_the_clock() {
    let mut s = GasSession::new(tank(3, 12, 10));
    s.on_close();
    assert!(!s.timer_running);
    assert_eq!(s.on_tick(), None);
    assert_eq!(s.params, tank(3, 12, 10));
    assert_eq!(s.on_client_msg(ClientMsg::Lose), Some(GuessingResult { result: 0, winning_streak: 0 }));
}
