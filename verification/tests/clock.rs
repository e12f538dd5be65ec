use derby_bout::clock::Clock;
use derby_bout::clock::Clocktype;
use derby_bout::clock::INTERMISSION_NANOS;
use derby_bout::clock::JAM_NANOS;
use derby_bout::clock::LINEUP_NANOS;
use derby_bout::clock::PERIOD_NANOS;
use derby_bout::clock::TEAM_TIMEOUT_NANOS;

const SEC: u64 = 1_000_000_000;

#[test]
fn test_jam_start() {
    let mut clock = Clock::new();
    clock.start_jam();
    assert!(clock.get_active_clock().0 == Clocktype::Jam);
    assert_eq!(clock.get_active_clock().1, JAM_NANOS);
    assert_eq!(clock.get_time(), (1, PERIOD_NANOS));
    let started = clock.last_update();
    clock.start_jam();
    assert!(clock.get_active_clock().0 == Clocktype::Jam);
    assert!(clock.get_active_clock().1 <= JAM_NANOS);
    assert_eq!(clock.get_time().0, 1);
    assert!(clock.last_update() >= started);
}

#[test]
fn test_jam_end() {
    let mut clock = Clock::new();
    clock.start_jam_at(0);
    assert!(clock.get_active_clock().0 == Clocktype::Jam);
    clock.reconcile(JAM_NANOS - 500_000_000);
    assert_eq!(clock.get_active_clock().1, 500_000_000);
    clock.reconcile(JAM_NANOS + 500_000_000);
    assert!(clock.get_active_clock().0 == Clocktype::Lineup);
}

#[test]
fn test_timeout_expires() {
    let mut clock = Clock::new();
    clock.start_jam_at(0);
    clock.team_timeout_at(0);
    clock.reconcile(89 * SEC + 500_000_000);
    assert!(clock.get_active_clock().0 == Clocktype::TeamTimeout);
    assert_eq!(clock.get_active_clock().1, 89 * SEC + 500_000_000);
    clock.reconcile(90 * SEC + 500_000_000);
    assert!(clock.get_active_clock().0 == Clocktype::OtherTimeout);
}

#[test]
fn phase_kinds_count_as_stated() {
    assert!(Clocktype::Jam.counts_down());
    assert!(Clocktype::Lineup.counts_down());
    assert!(Clocktype::Intermission.counts_down());
    assert!(!Clocktype::TeamTimeout.counts_down());
    assert!(!Clocktype::OtherTimeout.counts_down());
    assert!(Clocktype::Jam.game_clock_runs());
    assert!(Clocktype::Lineup.game_clock_runs());
    assert!(!Clocktype::TeamTimeout.game_clock_runs());
    assert!(!Clocktype::OtherTimeout.game_clock_runs());
    assert!(!Clocktype::Intermission.game_clock_runs());
}

#[test]
fn phases_follow_each_other() {
    assert_eq!(Clocktype::Jam.next_state(), Clocktype::Lineup);
    assert_eq!(Clocktype::Lineup.next_state(), Clocktype::Jam);
    assert_eq!(Clocktype::TeamTimeout.next_state(), Clocktype::OtherTimeout);
    assert_eq!(Clocktype::OtherTimeout.next_state(), Clocktype::OtherTimeout);
    assert_eq!(Clocktype::Intermission.next_state(), Clocktype::Intermission);
}

#[test]
fn phases_start_with_their_length() {
    let clock = Clock::new();
    assert_eq!(clock.clock_start_amt(Clocktype::Jam), 120 * SEC);
    assert_eq!(clock.clock_start_amt(Clocktype::Lineup), 30 * SEC);
    assert_eq!(clock.clock_start_amt(Clocktype::Intermission), 600 * SEC);
    assert_eq!(clock.clock_start_amt(Clocktype::TeamTimeout), 0);
    assert_eq!(clock.clock_start_amt(Clocktype::OtherTimeout), 0);
    assert_eq!(TEAM_TIMEOUT_NANOS, 90 * SEC);
    assert_eq!(PERIOD_NANOS, 30 * 60 * SEC);
}

#[test]
fn new_clock_waits_in_intermission() {
    let clock = Clock::new();
    assert_eq!(clock.get_active_clock(), (Clocktype::Intermission, 0));
    assert_eq!(clock.get_time(), (0, PERIOD_NANOS));
    assert_eq!(clock.last_update(), 0);
    let clock = Clock::with_countdown(45 * SEC);
    assert_eq!(clock.get_active_clock(), (Clocktype::Intermission, 45 * SEC));
}

#[test]
fn countdown_runs_down() {
    let mut clock = Clock::with_countdown(45 * SEC);
    let changed = clock.reconcile(15 * SEC);
    assert!(!changed);
    assert_eq!(clock.get_active_clock(), (Clocktype::Intermission, 30 * SEC));
    assert_eq!(clock.get_time(), (0, PERIOD_NANOS));
    assert_eq!(clock.last_update(), 15 * SEC);
}

#[test]
fn intermission_that_runs_out_begins_again() {
    let mut clock = Clock::with_countdown(45 * SEC);
    let changed = clock.reconcile(50 * SEC);
    assert!(!changed);
    assert_eq!(clock.get_active_clock(), (Clocktype::Intermission, INTERMISSION_NANOS - 5 * SEC));
}

#[test]
fn jam_overrun_carries_into_lineup() {
    let mut clock = Clock::new();
    clock.start_jam_at(7 * SEC);
    let changed = clock.reconcile(7 * SEC + 125 * SEC);
    assert!(changed);
    assert_eq!(clock.get_active_clock(), (Clocktype::Lineup, 25 * SEC));
    assert_eq!(clock.get_time(), (1, PERIOD_NANOS - 125 * SEC));
    assert_eq!(clock.last_update(), 132 * SEC);
}

#[test]
fn jam_that_ends_on_the_tick_leaves_a_full_lineup() {
    let mut clock = Clock::new();
    clock.start_jam_at(0);
    assert!(clock.reconcile(JAM_NANOS));
    assert_eq!(clock.get_active_clock(), (Clocktype::Lineup, LINEUP_NANOS));
}

#[test]
fn lineup_overrun_carries_into_jam() {
    let mut clock = Clock::new();
    clock.start_jam_at(0);
    clock.stop_jam_at(10 * SEC);
    assert_eq!(clock.get_active_clock(), (Clocktype::Lineup, LINEUP_NANOS));
    assert!(clock.reconcile(42 * SEC));
    assert_eq!(clock.get_active_clock(), (Clocktype::Jam, 118 * SEC));
    assert_eq!(clock.get_time(), (1, PERIOD_NANOS - 42 * SEC));
}

#[test]
fn remainder_beyond_the_next_phase_leaves_it_nothing() {
    let mut clock = Clock::new();
    clock.start_jam_at(0);
    assert!(clock.reconcile(200 * SEC));
    assert_eq!(clock.get_active_clock(), (Clocktype::Lineup, 0));
    assert!(clock.reconcile(200 * SEC));
    assert_eq!(clock.get_active_clock(), (Clocktype::Jam, JAM_NANOS));
}

#[test]
fn team_timeout_counts_up_to_its_ceiling() {
    let mut clock = Clock::new();
    clock.start_jam_at(0);
    clock.team_timeout_at(10 * SEC);
    assert_eq!(clock.get_active_clock(), (Clocktype::TeamTimeout, 0));
    assert!(!clock.reconcile(40 * SEC));
    assert_eq!(clock.get_active_clock(), (Clocktype::TeamTimeout, 30 * SEC));
    assert!(clock.reconcile(101 * SEC));
    assert_eq!(clock.get_active_clock(), (Clocktype::OtherTimeout, 0));
    assert_eq!(clock.get_time(), (1, PERIOD_NANOS - 10 * SEC));
}

#[test]
fn team_timeout_ends_at_exactly_its_ceiling() {
    let mut clock = Clock::new();
    clock.start_jam_at(0);
    clock.team_timeout_at(0);
    assert!(!clock.reconcile(90 * SEC - 1));
    assert!(clock.reconcile(90 * SEC));
    assert_eq!(clock.get_active_clock(), (Clocktype::OtherTimeout, 0));
}

#[test]
fn official_timeout_counts_up_without_end() {
    let mut clock = Clock::new();
    clock.start_jam_at(0);
    clock.other_timeout_at(5 * SEC);
    assert_eq!(clock.get_active_clock(), (Clocktype::OtherTimeout, 0));
    assert!(!clock.reconcile(1005 * SEC));
    assert_eq!(clock.get_active_clock(), (Clocktype::OtherTimeout, 1000 * SEC));
    assert_eq!(clock.get_time(), (1, PERIOD_NANOS - 5 * SEC));
}

#[test]
fn period_clock_stops_at_zero_during_a_jam() {
    let mut clock = Clock::new();
    clock.start_jam_at(0);
    clock.set_time(10 * SEC);
    assert!(!clock.reconcile(30 * SEC));
    assert_eq!(clock.get_active_clock(), (Clocktype::Jam, 90 * SEC));
    assert_eq!(clock.get_time(), (1, 0));
}

#[test]
fn period_ends_in_a_lineup() {
    let mut clock = Clock::new();
    clock.start_jam_at(0);
    clock.set_time(10 * SEC);
    clock.stop_jam_at(5 * SEC);
    assert_eq!(clock.get_time(), (1, 5 * SEC));
    assert!(clock.reconcile(11 * SEC));
    assert_eq!(clock.get_active_clock(), (Clocktype::Intermission, INTERMISSION_NANOS));
    assert_eq!(clock.get_time(), (1, 0));
}

#[test]
fn period_ends_when_a_jam_runs_out_past_it() {
    let mut clock = Clock::new();
    clock.start_jam_at(0);
    clock.set_time(121 * SEC);
    assert!(clock.reconcile(122 * SEC));
    assert_eq!(clock.get_active_clock(), (Clocktype::Intermission, INTERMISSION_NANOS));
    assert_eq!(clock.get_time(), (1, 0));
}

#[test]
fn period_end_wins_over_the_next_jam() {
    let mut clock = Clock::new();
    clock.start_jam_at(0);
    clock.stop_jam_at(SEC);
    clock.reconcile(30 * SEC);
    assert_eq!(clock.get_active_clock(), (Clocktype::Lineup, SEC));
    clock.set_time(SEC);
    assert!(clock.reconcile(32 * SEC));
    assert_eq!(clock.get_active_clock(), (Clocktype::Intermission, INTERMISSION_NANOS));
    assert_eq!(clock.get_time(), (1, 0));
}

#[test]
fn start_jam_out_of_intermission_begins_a_period() {
    let mut clock = Clock::with_countdown(60 * SEC);
    clock.set_time(17 * SEC);
    clock.start_jam_at(20 * SEC);
    assert_eq!(clock.get_active_clock(), (Clocktype::Jam, JAM_NANOS));
    assert_eq!(clock.get_time(), (1, PERIOD_NANOS));
    clock.set_time(0);
    clock.stop_jam_at(21 * SEC);
    clock.reconcile(22 * SEC);
    assert_eq!(clock.get_active_clock().0, Clocktype::Intermission);
    clock.start_jam_at(500 * SEC);
    assert_eq!(clock.get_time(), (2, PERIOD_NANOS));
}

#[test]
fn start_jam_is_passed_over_during_a_jam() {
    let mut clock = Clock::new();
    clock.start_jam_at(0);
    clock.start_jam_at(20 * SEC);
    assert_eq!(clock.get_active_clock(), (Clocktype::Jam, 100 * SEC));
    assert_eq!(clock.get_time(), (1, PERIOD_NANOS - 20 * SEC));
}

#[test]
fn start_jam_works_out_of_every_other_phase() {
    let mut clock = Clock::new();
    clock.start_jam_at(0);
    clock.stop_jam_at(SEC);
    clock.start_jam_at(2 * SEC);
    assert_eq!(clock.get_active_clock(), (Clocktype::Jam, JAM_NANOS));
    clock.team_timeout_at(3 * SEC);
    clock.start_jam_at(4 * SEC);
    assert_eq!(clock.get_active_clock(), (Clocktype::Jam, JAM_NANOS));
    clock.other_timeout_at(5 * SEC);
    clock.start_jam_at(6 * SEC);
    assert_eq!(clock.get_active_clock(), (Clocktype::Jam, JAM_NANOS));
    assert_eq!(clock.get_time(), (1, PERIOD_NANOS - 4 * SEC));
}

#[test]
fn stop_jam_is_passed_over_without_a_jam() {
    let mut clock = Clock::with_countdown(60 * SEC);
    clock.stop_jam_at(SEC);
    assert_eq!(clock.get_active_clock(), (Clocktype::Intermission, 59 * SEC));
    clock.start_jam_at(2 * SEC);
    clock.stop_jam_at(3 * SEC);
    clock.stop_jam_at(4 * SEC);
    assert_eq!(clock.get_active_clock(), (Clocktype::Lineup, 29 * SEC));
    clock.team_timeout_at(5 * SEC);
    clock.stop_jam_at(6 * SEC);
    assert_eq!(clock.get_active_clock(), (Clocktype::TeamTimeout, SEC));
    clock.other_timeout_at(7 * SEC);
    clock.stop_jam_at(8 * SEC);
    assert_eq!(clock.get_active_clock(), (Clocktype::OtherTimeout, 3 * SEC));
}

#[test]
fn team_timeout_is_passed_over_in_intermission_and_team_timeout() {
    let mut clock = Clock::with_countdown(60 * SEC);
    clock.team_timeout_at(SEC);
    assert_eq!(clock.get_active_clock(), (Clocktype::Intermission, 59 * SEC));
    clock.start_jam_at(2 * SEC);
    clock.team_timeout_at(3 * SEC);
    clock.team_timeout_at(13 * SEC);
    assert_eq!(clock.get_active_clock(), (Clocktype::TeamTimeout, 10 * SEC));
}

#[test]
fn team_timeout_begins_out_of_lineup_and_official_timeout() {
    let mut clock = Clock::new();
    clock.start_jam_at(0);
    clock.stop_jam_at(SEC);
    clock.team_timeout_at(2 * SEC);
    assert_eq!(clock.get_active_clock(), (Clocktype::TeamTimeout, 0));
    clock.other_timeout_at(3 * SEC);
    clock.team_timeout_at(9 * SEC);
    assert_eq!(clock.get_active_clock(), (Clocktype::TeamTimeout, 0));
}

#[test]
fn other_timeout_takes_over_a_team_timeout_with_its_time() {
    let mut clock = Clock::new();
    clock.start_jam_at(0);
    clock.team_timeout_at(10 * SEC);
    clock.reconcile(30 * SEC);
    clock.other_timeout_at(40 * SEC);
    assert_eq!(clock.get_active_clock(), (Clocktype::OtherTimeout, 30 * SEC));
}

#[test]
fn other_timeout_is_passed_over_in_intermission_and_official_timeout() {
    let mut clock = Clock::with_countdown(60 * SEC);
    clock.other_timeout_at(SEC);
    assert_eq!(clock.get_active_clock(), (Clocktype::Intermission, 59 * SEC));
    clock.start_jam_at(2 * SEC);
    clock.stop_jam_at(3 * SEC);
    clock.other_timeout_at(4 * SEC);
    assert_eq!(clock.get_active_clock(), (Clocktype::OtherTimeout, 0));
    clock.other_timeout_at(9 * SEC);
    assert_eq!(clock.get_active_clock(), (Clocktype::OtherTimeout, 5 * SEC));
}

#[test]
fn set_time_sets_the_period_clock_only() {
    let mut clock = Clock::with_countdown(60 * SEC);
    clock.set_time(77 * SEC);
    assert_eq!(clock.get_time(), (0, 77 * SEC));
    assert_eq!(clock.get_active_clock(), (Clocktype::Intermission, 60 * SEC));
    assert_eq!(clock.last_update(), 0);
}

#[test]
fn start_clock_takes_the_decrement_off() {
    let mut clock = Clock::new();
    clock.start_clock(Clocktype::Jam, Some(20 * SEC));
    assert_eq!(clock.get_active_clock(), (Clocktype::Jam, 100 * SEC));
    clock.start_clock(Clocktype::Lineup, None);
    assert_eq!(clock.get_active_clock(), (Clocktype::Lineup, 30 * SEC));
    clock.start_clock(Clocktype::Lineup, Some(31 * SEC));
    assert_eq!(clock.get_active_clock(), (Clocktype::Lineup, 0));
}

#[test]
fn period_clock_moves_in_play_only() {
    let mut clock = Clock::with_countdown(60 * SEC);
    clock.reconcile(10 * SEC);
    assert_eq!(clock.get_time().1, PERIOD_NANOS);
    clock.start_jam_at(10 * SEC);
    clock.reconcile(20 * SEC);
    assert_eq!(clock.get_time().1, PERIOD_NANOS - 10 * SEC);
    clock.stop_jam_at(25 * SEC);
    clock.reconcile(30 * SEC);
    assert_eq!(clock.get_time().1, PERIOD_NANOS - 20 * SEC);
    clock.team_timeout_at(30 * SEC);
    clock.reconcile(60 * SEC);
    assert_eq!(clock.get_time().1, PERIOD_NANOS - 20 * SEC);
    clock.other_timeout_at(70 * SEC);
    clock.reconcile(100 * SEC);
    assert_eq!(clock.get_time().1, PERIOD_NANOS - 20 * SEC);
}

#[test]
fn reading_the_time_never_moves_back() {
    let mut clock = Clock::new();
    let first = clock.now();
    let changed = clock.tick();
    assert!(!changed);
    let second = clock.last_update();
    assert!(second >= first);
    assert!(clock.now() >= second);
    clock.stop_jam();
    clock.team_timeout();
    clock.other_timeout();
    assert!(clock.get_active_clock().0 == Clocktype::Intermission);
    assert!(clock.last_update() >= second);
}

#[test]
fn reading_the_time_sees_it_pass() {
    let mut clock = Clock::new();
    clock.start_jam();
    let started = clock.get_active_clock().1;
    let mut spins: u64 = 0;
    while clock.now() == clock.last_update() && spins < 1_000_000_000 {
        spins += 1;
    }
    clock.tick();
    assert!(clock.get_active_clock().1 < started);
}
