use chat_core::config::Config;
use chat_core::limiter::{check_rate_limits, UserSession, CHEAP_WINDOW, EXPENSIVE_WINDOW, NANOS};

#[test]
fn cheap_requests_pass_up_to_the_quota() {
    let config = Config::standard();
    let mut session = UserSession::new(1000);
    for i in 0..7 {
        assert_eq!(check_rate_limits(&config, false, &mut session, 1000 + i), None);
    }
    assert_eq!(session.packets_cheap, 7);
    assert_eq!(check_rate_limits(&config, false, &mut session, 1007), Some(10));
    assert_eq!(session.packets_cheap, 7);
    assert_eq!(session.packet_time_cheap, 1000);
    assert_eq!(session.packets_expensive, 0);
}

#[test]
fn the_wait_is_rounded_up_to_whole_seconds() {
    let config = Config::standard();
    let mut session = UserSession::new(0);
    for _ in 0..2 {
        assert_eq!(check_rate_limits(&config, true, &mut session, 0), None);
    }
    assert_eq!(check_rate_limits(&config, true, &mut session, 0), Some(300));
    assert_eq!(check_rate_limits(&config, true, &mut session, 1), Some(300));
    assert_eq!(check_rate_limits(&config, true, &mut session, NANOS), Some(299));
    assert_eq!(check_rate_limits(&config, true, &mut session, NANOS + 1), Some(299));
    assert_eq!(check_rate_limits(&config, true, &mut session, EXPENSIVE_WINDOW - 1), Some(1));
}

#[test]
fn the_window_starts_anew_when_it_is_over() {
    let config = Config::standard();
    let mut session = UserSession::new(5);
    for _ in 0..7 {
        assert_eq!(check_rate_limits(&config, false, &mut session, 6), None);
    }
    assert_eq!(check_rate_limits(&config, false, &mut session, 5 + CHEAP_WINDOW - 1), Some(1));
    assert_eq!(check_rate_limits(&config, false, &mut session, 5 + CHEAP_WINDOW), None);
    assert_eq!(session.packet_time_cheap, 5 + CHEAP_WINDOW);
    assert_eq!(session.packets_cheap, 0);
}

#[test]
fn the_two_classes_do_not_touch_each_other() {
    let config = Config::standard();
    let mut session = UserSession::new(0);
    assert_eq!(check_rate_limits(&config, true, &mut session, 1), None);
    assert_eq!(check_rate_limits(&config, true, &mut session, 2), None);
    assert_eq!(check_rate_limits(&config, true, &mut session, 3), Some(300));
    assert_eq!(check_rate_limits(&config, false, &mut session, 3), None);
    assert_eq!(session.packets_cheap, 1);
    assert_eq!(session.packets_expensive, 2);
}

#[test]
fn a_quota_of_zero_rejects_everything_inside_the_window() {
    let mut config = Config::standard();
    config.limit_requests_cheap_per_10_seconds = 0;
    let mut session = UserSession::new(0);
    assert_eq!(check_rate_limits(&config, false, &mut session, 0), Some(10));
    assert_eq!(check_rate_limits(&config, false, &mut session, CHEAP_WINDOW), None);
}

#[test]
fn a_clock_that_ran_backwards_counts_as_standing_still() {
    let mut config = Config::standard();
    config.limit_requests_cheap_per_10_seconds = 1;
    let mut session = UserSession::new(100 * NANOS);
    assert_eq!(check_rate_limits(&config, false, &mut session, 50 * NANOS), None);
    assert_eq!(check_rate_limits(&config, false, &mut session, 50 * NANOS), Some(10));
}

#[test]
fn within_a_window_no_more_than_the_quota_pass() {
    let config = Config::standard();
    let mut session = UserSession::new(0);
    let mut passed = 0;
    for i in 0..1000u128 {
        if check_rate_limits(&config, true, &mut session, i * (EXPENSIVE_WINDOW / 1000)).is_none() {
            passed += 1;
        }
    }
    assert_eq!(passed, 2);
}

#[test]
fn new_session_starts_both_windows_at_the_given_instant() {
    let session = UserSession::new(42);
    assert_eq!(
        session,
        UserSession {
            packet_time_cheap: 42,
            packet_time_expensive: 42,
            packets_cheap: 0,
            packets_expensive: 0
        }
    );
}
