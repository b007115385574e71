use pomodoro_calculator::{
    calculate_pomodoros, ConfigField, InputField, PomodoroConfig, PomodoroError, PomodoroResult,
};

fn config(work: i64, short: i64, long: i64, every: i64, distraction: i64) -> PomodoroConfig {
    PomodoroConfig {
        work_time: work,
        short_break: short,
        long_break: long,
        pomodoros_until_long_break: every,
        distraction_level: distraction,
    }
}

fn standard() -> PomodoroConfig {
    config(25, 5, 15, 2, 0)
}

#[test]
fn fifty_minutes_two_pomodoros() {
    let r = calculate_pomodoros(1_000, 50, 100, standard()).unwrap();
    assert_eq!(
        r,
        PomodoroResult {
            pomodoros: 2,
            short_breaks: 1,
            long_breaks: 0,
            time_spend: 65,
            end_time: 1_000 + 65 * 60,
        }
    );
}

#[test]
fn long_break_takes_short_break_minutes() {
    let r = calculate_pomodoros(0, 100, 100, standard()).unwrap();
    assert_eq!(r.pomodoros, 4);
    assert_eq!(r.short_breaks, 2);
    assert_eq!(r.long_breaks, 1);
    assert_eq!(r.time_spend, 100 + 15 + 15 + 5);
    assert_eq!(r.end_time, 135 * 60);
}

#[test]
fn long_break_after_every_pomodoro() {
    let r = calculate_pomodoros(0, 100, 100, config(25, 5, 15, 1, 0)).unwrap();
    assert_eq!(r.pomodoros, 4);
    assert_eq!(r.short_breaks, 1);
    assert_eq!(r.long_breaks, 2);
    assert_eq!(r.time_spend, 125);
}

#[test]
fn faster_playback_shortens_target() {
    let r = calculate_pomodoros(0, 50, 125, standard()).unwrap();
    assert_eq!(r.pomodoros, 2);
    assert_eq!(r.short_breaks, 1);
    assert_eq!(r.time_spend, 40 + 15);
}

#[test]
fn distraction_extends_target() {
    let r = calculate_pomodoros(0, 50, 100, config(25, 5, 15, 2, 50)).unwrap();
    assert_eq!(r.pomodoros, 3);
    assert_eq!(r.short_breaks, 2);
    assert_eq!(r.long_breaks, 0);
    assert_eq!(r.time_spend, 75 + 30);
}

#[test]
fn partial_minute_is_truncated() {
    let r = calculate_pomodoros(500, 7, 200, standard()).unwrap();
    assert_eq!(r.pomodoros, 1);
    assert_eq!(r.short_breaks + r.long_breaks, 0);
    assert_eq!(r.time_spend, 3);
    assert_eq!(r.end_time, 500 + 180);
}

#[test]
fn empty_video_gives_empty_schedule() {
    let r = calculate_pomodoros(12_345, 0, 150, config(25, 5, 15, 4, 30)).unwrap();
    assert_eq!(
        r,
        PomodoroResult {
            pomodoros: 0,
            short_breaks: 0,
            long_breaks: 0,
            time_spend: 0,
            end_time: 12_345,
        }
    );
}

#[test]
fn same_inputs_same_result() {
    let a = calculate_pomodoros(77, 123, 150, config(20, 3, 9, 3, 10));
    let b = calculate_pomodoros(77, 123, 150, config(20, 3, 9, 3, 10));
    assert_eq!(a, b);
}

#[test]
fn longer_video_never_less_work() {
    let mut previous = calculate_pomodoros(0, 0, 100, standard()).unwrap();
    for minutes in 1..300 {
        let r = calculate_pomodoros(0, minutes, 100, standard()).unwrap();
        assert!(r.pomodoros >= previous.pomodoros);
        assert!(r.time_spend >= previous.time_spend);
        previous = r;
    }
}

#[test]
fn breaks_lag_work_by_at_most_one() {
    for minutes in 0..200 {
        let r = calculate_pomodoros(0, minutes, 125, config(10, 2, 7, 3, 20)).unwrap();
        let breaks = r.short_breaks + r.long_breaks;
        assert!(r.pomodoros >= breaks);
        assert!(breaks >= r.pomodoros - 1);
    }
}

#[test]
fn short_schedule_ends_within_one_segment() {
    let r = calculate_pomodoros(0, 40, 100, standard()).unwrap();
    assert_eq!(r.pomodoros, 2);
    assert!(r.time_spend <= 40 + 25);
}

#[test]
fn zero_pomodoros_until_long_break_is_rejected() {
    let r = calculate_pomodoros(0, 50, 100, config(25, 5, 15, 0, 0));
    assert_eq!(
        r,
        Err(PomodoroError::InvalidConfiguration(ConfigField::PomodorosUntilLongBreak))
    );
}

#[test]
fn zero_playback_speed_is_rejected() {
    let r = calculate_pomodoros(0, 50, 0, standard());
    assert_eq!(r, Err(PomodoroError::InvalidConfiguration(ConfigField::PlaybackSpeed)));
    let r = calculate_pomodoros(0, 50, 10_001, standard());
    assert_eq!(r, Err(PomodoroError::InvalidConfiguration(ConfigField::PlaybackSpeed)));
}

#[test]
fn invalid_inputs_are_rejected() {
    assert_eq!(
        calculate_pomodoros(i64::MAX, 50, 100, standard()),
        Err(PomodoroError::InvalidInput(InputField::StartTime))
    );
    assert_eq!(
        calculate_pomodoros(0, -1, 100, standard()),
        Err(PomodoroError::InvalidInput(InputField::VideoMinutes))
    );
    assert_eq!(
        calculate_pomodoros(0, 50, 100, config(0, 5, 15, 2, 0)),
        Err(PomodoroError::InvalidInput(InputField::WorkTime))
    );
    assert_eq!(
        calculate_pomodoros(0, 50, 100, config(25, -5, 15, 2, 0)),
        Err(PomodoroError::InvalidInput(InputField::ShortBreak))
    );
    assert_eq!(
        calculate_pomodoros(0, 50, 100, config(25, 5, -15, 2, 0)),
        Err(PomodoroError::InvalidInput(InputField::LongBreak))
    );
    assert_eq!(
        calculate_pomodoros(0, 50, 100, config(25, 5, 15, 2, -1)),
        Err(PomodoroError::InvalidInput(InputField::DistractionLevel))
    );
}

#[test]
fn configuration_checked_before_inputs() {
    let r = calculate_pomodoros(0, -10, 100, config(-25, 5, 15, 0, 0));
    assert_eq!(
        r,
        Err(PomodoroError::InvalidConfiguration(ConfigField::PomodorosUntilLongBreak))
    );
}

#[test]
fn largest_inputs_are_accepted() {
    let r = calculate_pomodoros(
        4_000_000_000_000_000_000,
        1_000_000,
        10_000,
        config(1_000_000, 1_000_000, 1_000_000, 1, 10_000),
    )
    .unwrap();
    assert_eq!(r.pomodoros, 2);
    assert_eq!(r.time_spend, 1_010_000 + 1_000_000);
}
