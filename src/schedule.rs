use vstd::prelude::*;

verus! {

/// Largest accepted length of one work interval or one break, in minutes.
pub const MAX_SEGMENT_MINUTES: i64 = 1_000_000;

/// Largest accepted video length, in minutes.
pub const MAX_VIDEO_MINUTES: i64 = 1_000_000;

/// Largest accepted distraction overhead, in percent.
pub const MAX_DISTRACTION_PERCENT: i64 = 10_000;

/// Largest accepted playback speed, in percent of normal speed.
pub const MAX_PLAYBACK_SPEED_PERCENT: i64 = 10_000;

/// Largest accepted distance of the start instant from the Unix epoch, in seconds.
pub const MAX_START_SECONDS: i64 = 4_000_000_000_000_000_000;

/// How a schedule is cut into work intervals and breaks.
#[derive(Clone, Copy, Debug, PartialEq, Eq, Structural)]
pub struct PomodoroConfig {
    /// Length of one work interval, in minutes.
    pub work_time: i64,
    /// Length of a short break, in minutes.
    pub short_break: i64,
    /// Length of a long break, in minutes.
    pub long_break: i64,
    /// Number of work intervals between two long breaks.
    pub pomodoros_until_long_break: i64,
    /// Extra overhead on the watch time, in percent (0: none, 100: double time).
    pub distraction_level: i64,
}

/// The schedule that covers a video.
#[derive(Clone, Copy, Debug, PartialEq, Eq, Structural)]
pub struct PomodoroResult {
    pub pomodoros: i64,
    pub short_breaks: i64,
    pub long_breaks: i64,
    /// Minutes from the start of the schedule to its end.
    pub time_spend: i64,
    /// End of the schedule, in seconds since the Unix epoch.
    pub end_time: i64,
}

/// A configuration value that makes the calculation undefined.
#[derive(Clone, Copy, Debug, PartialEq, Eq, Structural)]
pub enum ConfigField {
    PomodorosUntilLongBreak,
    PlaybackSpeed,
}

/// An input value outside the accepted range.
#[derive(Clone, Copy, Debug, PartialEq, Eq, Structural)]
pub enum InputField {
    StartTime,
    VideoMinutes,
    WorkTime,
    ShortBreak,
    LongBreak,
    DistractionLevel,
}

#[derive(Clone, Copy, Debug, PartialEq, Eq, Structural)]
pub enum PomodoroError {
    InvalidConfiguration(ConfigField),
    InvalidInput(InputField),
}

/// The first reason, if any, why the inputs cannot be scheduled: the two
/// configuration preconditions come first, then the range of each input.
pub open spec fn request_error(
    start_time: int,
    video_minutes: int,
    playback_speed: int,
    config: PomodoroConfig,
) -> Option<PomodoroError> {
    if config.pomodoros_until_long_break < 1 {
        Some(PomodoroError::InvalidConfiguration(ConfigField::PomodorosUntilLongBreak))
    } else if playback_speed < 1 || playback_speed > MAX_PLAYBACK_SPEED_PERCENT {
        Some(PomodoroError::InvalidConfiguration(ConfigField::PlaybackSpeed))
    } else if start_time < -MAX_START_SECONDS || start_time > MAX_START_SECONDS {
        Some(PomodoroError::InvalidInput(InputField::StartTime))
    } else if video_minutes < 0 || video_minutes > MAX_VIDEO_MINUTES {
        Some(PomodoroError::InvalidInput(InputField::VideoMinutes))
    } else if config.work_time < 1 || config.work_time > MAX_SEGMENT_MINUTES {
        Some(PomodoroError::InvalidInput(InputField::WorkTime))
    } else if config.short_break < 0 || config.short_break > MAX_SEGMENT_MINUTES {
        Some(PomodoroError::InvalidInput(InputField::ShortBreak))
    } else if config.long_break < 0 || config.long_break > MAX_SEGMENT_MINUTES {
        Some(PomodoroError::InvalidInput(InputField::LongBreak))
    } else if config.distraction_level < 0 || config.distraction_level
        > MAX_DISTRACTION_PERCENT {
        Some(PomodoroError::InvalidInput(InputField::DistractionLevel))
    } else {
        None
    }
}

pub open spec fn valid_request(
    start_time: int,
    video_minutes: int,
    playback_speed: int,
    config: PomodoroConfig,
) -> bool {
    request_error(start_time, video_minutes, playback_speed, config) is None
}

/// The watch-time target scaled by the playback speed: the target in minutes is
/// `target_scaled / playback_speed`, that is
/// `video_minutes / (playback_speed / 100) * (1 + distraction_level / 100)`.
pub open spec fn target_scaled(video_minutes: int, distraction_level: int) -> int {
    video_minutes * (100 + distraction_level)
}

/// Number of work intervals of `unit` (scaled) minutes each that cover `target`.
pub open spec fn intervals_to_cover(target: int, unit: int) -> int
    decreases if target > 0 { target } else { 0 },
{
    if target <= 0 || unit <= 0 {
        0
    } else {
        1 + intervals_to_cover(target - unit, unit)
    }
}

/// Whether break number `i` (counted from 0) is a long break.
pub open spec fn is_long_break(i: int, every: int) -> bool {
    i != 0 && i % every == 0
}

/// Number of long breaks among the first `breaks` breaks.
pub open spec fn long_breaks_among(breaks: int, every: int) -> int
    decreases breaks,
{
    if breaks <= 0 {
        0
    } else {
        long_breaks_among(breaks - 1, every) + if is_long_break(breaks - 1, every) {
            1int
        } else {
            0int
        }
    }
}

/// Minutes spent in the first `breaks` breaks. A long break lasts
/// `short_break` minutes and a short one `long_break` minutes: this cross
/// mapping is the schedule's observable behaviour and is kept as it is.
pub open spec fn break_minutes(breaks: int, every: int, short_break: int, long_break: int) -> int
    decreases breaks,
{
    if breaks <= 0 {
        0
    } else {
        break_minutes(breaks - 1, every, short_break, long_break) + if is_long_break(
            breaks - 1,
            every,
        ) {
            short_break
        } else {
            long_break
        }
    }
}

/// Number of breaks in a schedule of `pomodoros` work intervals: one between
/// each two consecutive intervals.
pub open spec fn breaks_between(pomodoros: int) -> int {
    if pomodoros <= 0 {
        0
    } else {
        pomodoros - 1
    }
}

/// The schedule for valid inputs.
pub open spec fn schedule_of(
    start_time: int,
    video_minutes: int,
    playback_speed: int,
    config: PomodoroConfig,
) -> PomodoroResult {
    let target = target_scaled(video_minutes, config.distraction_level as int);
    let pomodoros = intervals_to_cover(target, config.work_time * playback_speed);
    let breaks = breaks_between(pomodoros);
    let every = config.pomodoros_until_long_break as int;
    let long_breaks = long_breaks_among(breaks, every);
    let time_spend = target / playback_speed + break_minutes(
        breaks,
        every,
        config.short_break as int,
        config.long_break as int,
    );
    PomodoroResult {
        pomodoros: pomodoros as i64,
        short_breaks: (breaks - long_breaks) as i64,
        long_breaks: long_breaks as i64,
        time_spend: time_spend as i64,
        end_time: (start_time + 60 * time_spend) as i64,
    }
}

/// What a calculation on these inputs returns.
pub open spec fn calculation_outcome(
    start_time: int,
    video_minutes: int,
    playback_speed: int,
    config: PomodoroConfig,
) -> Result<PomodoroResult, PomodoroError> {
    match request_error(start_time, video_minutes, playback_speed, config) {
        Some(e) => Err(e),
        None => Ok(schedule_of(start_time, video_minutes, playback_speed, config)),
    }
}

/// `intervals_to_cover` counts at most one interval per scaled minute.
pub proof fn lemma_intervals_bounded(target: int, unit: int)
    requires
        unit >= 1,
    ensures
        0 <= intervals_to_cover(target, unit),
        target >= 0 ==> intervals_to_cover(target, unit) <= target,
    decreases if target > 0 { target } else { 0 },
{
    if target > 0 {
        lemma_intervals_bounded(target - unit, unit);
    }
}

/// Computes the schedule of work intervals and breaks that covers a video of
/// `video_minutes` minutes played at `playback_speed` percent of normal speed
/// (100: normal speed, 125: 1.25x), starting at `start_time` seconds since the
/// Unix epoch.
///
/// Work intervals and breaks alternate, starting with work, until the work
/// intervals cover the adjusted watch time. Break number `i` (from 0) is a
/// long break when `i` is a nonzero multiple of `pomodoros_until_long_break`;
/// a long break takes `short_break` minutes and a short break `long_break`
/// minutes (see `break_minutes`). The minutes that the last work interval
/// runs past the target are then taken off the time spent.
pub fn calculate_pomodoros(
    start_time: i64,
    video_minutes: i64,
    playback_speed: i64,
    config: PomodoroConfig,
) -> (r: Result<PomodoroResult, PomodoroError>)
    ensures
        r == calculation_outcome(
            start_time as int,
            video_minutes as int,
            playback_speed as int,
            config,
        ),
        r matches Ok(res) ==> res.pomodoros >= res.short_breaks + res.long_breaks
            >= res.pomodoros - 1,
{
    if config.pomodoros_until_long_break < 1 {
        return Err(PomodoroError::InvalidConfiguration(ConfigField::PomodorosUntilLongBreak));
    }
    if playback_speed < 1 || playback_speed > MAX_PLAYBACK_SPEED_PERCENT {
        return Err(PomodoroError::InvalidConfiguration(ConfigField::PlaybackSpeed));
    }
    if start_time < -MAX_START_SECONDS || start_time > MAX_START_SECONDS {
        return Err(PomodoroError::InvalidInput(InputField::StartTime));
    }
    if video_minutes < 0 || video_minutes > MAX_VIDEO_MINUTES {
        return Err(PomodoroError::InvalidInput(InputField::VideoMinutes));
    }
    if config.work_time < 1 || config.work_time > MAX_SEGMENT_MINUTES {
        return Err(PomodoroError::InvalidInput(InputField::WorkTime));
    }
    if config.short_break < 0 || config.short_break > MAX_SEGMENT_MINUTES {
        return Err(PomodoroError::InvalidInput(InputField::ShortBreak));
    }
    if config.long_break < 0 || config.long_break > MAX_SEGMENT_MINUTES {
        return Err(PomodoroError::InvalidInput(InputField::LongBreak));
    }
    if config.distraction_level < 0 || config.distraction_level > MAX_DISTRACTION_PERCENT {
        return Err(PomodoroError::InvalidInput(InputField::DistractionLevel));
    }
    let every = config.pomodoros_until_long_break;
    let work = config.work_time;
    let short_break = config.short_break;
    let long_break = config.long_break;
    let speed = playback_speed;
    assert(0 <= video_minutes * (100 + config.distraction_level) <= 1_000_000 * 10_100)
        by (nonlinear_arith)
        requires
            0 <= video_minutes <= 1_000_000,
            0 <= config.distraction_level <= 10_000,
    ;
    assert(1 <= work * speed <= 1_000_000 * 10_000) by (nonlinear_arith)
        requires
            1 <= work <= 1_000_000,
            1 <= speed <= 10_000,
    ;
    // Target and work time, both in minutes multiplied by the playback speed.
    let target: i64 = video_minutes * (100 + config.distraction_level);
    let unit: i64 = work * speed;
    proof {
        lemma_intervals_bounded(target as int, unit as int);
    }

    let mut loops: i64 = 0;
    let mut steps: i64 = 0;
    let mut pomodoros: i64 = 0;
    let mut short_breaks: i64 = 0;
    let mut long_breaks: i64 = 0;
    let mut covered: i64 = 0;
    let mut working_spend: i64 = 0;
    let mut time_spend: i64 = 0;

    while target > covered
        invariant
            1 <= every,
            1 <= work <= MAX_SEGMENT_MINUTES,
            0 <= short_break <= MAX_SEGMENT_MINUTES,
            0 <= long_break <= MAX_SEGMENT_MINUTES,
            0 <= target <= 1_000_000 * 10_100,
            1 <= unit <= 1_000_000 * 10_000,
            0 <= intervals_to_cover(target as int, unit as int) <= target,
            0 <= covered < target + unit,
            0 <= pomodoros,
            pomodoros + intervals_to_cover(target - covered, unit as int) == intervals_to_cover(
                target as int,
                unit as int,
            ),
            steps == pomodoros + loops,
            steps % 2 == 1 ==> loops == pomodoros - 1,
            steps % 2 == 0 ==> loops == pomodoros,
            steps % 2 == 0 && pomodoros > 0 ==> target > covered,
            long_breaks == long_breaks_among(loops as int, every as int),
            short_breaks == loops - long_breaks,
            0 <= working_spend <= pomodoros * 1_000_000,
            0 <= break_minutes(loops as int, every as int, short_break as int, long_break as int)
                <= loops * 1_000_000,
            time_spend == working_spend + break_minutes(
                loops as int,
                every as int,
                short_break as int,
                long_break as int,
            ),
        decreases if target > covered { 2 * (target - covered) + steps % 2 } else { 0 },
    {
        proof {
            lemma_intervals_bounded(target - covered - unit, unit as int);
        }
        steps += 1;
        if steps % 2 == 1 {
            pomodoros += 1;
            covered += unit;
            working_spend += work;
            time_spend += work;
        } else {
            proof {
                assert(0 <= long_breaks_among(loops as int, every as int) <= loops) by {
                    lemma_long_breaks_bounded(loops as int, every as int);
                }
            }
            if loops != 0 && loops % every == 0 {
                long_breaks += 1;
                time_spend += short_break;
            } else {
                short_breaks += 1;
                time_spend += long_break;
            }
            loops += 1;
        }
    }
    proof {
        lemma_intervals_bounded(target - covered, unit as int);
        lemma_long_breaks_bounded(loops as int, every as int);
        assert(target / speed <= target) by (nonlinear_arith)
            requires
                0 <= target,
                1 <= speed,
        ;
    }
    // The last work interval may run past the target: keep only the whole
    // minutes of the target itself.
    time_spend -= working_spend - target / speed;
    let end_time = start_time + 60 * time_spend;
    Ok(
        PomodoroResult {
            pomodoros,
            short_breaks,
            long_breaks,
            time_spend,
            end_time,
        },
    )
}

/// At most one long break per break.
pub proof fn lemma_long_breaks_bounded(breaks: int, every: int)
    requires
        breaks >= 0,
    ensures
        0 <= long_breaks_among(breaks, every) <= breaks,
    decreases breaks,
{
    if breaks > 0 {
        lemma_long_breaks_bounded(breaks - 1, every);
    }
}

} // verus!
