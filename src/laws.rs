use vstd::prelude::*;
use vstd::arithmetic::div_mod::{lemma_div_is_ordered, lemma_fundamental_div_mod, lemma_mod_pos_bound};
use vstd::arithmetic::mul::lemma_mul_inequality;
use crate::schedule::{
    break_minutes, breaks_between, calculation_outcome, intervals_to_cover, lemma_intervals_bounded,
    lemma_long_breaks_bounded, long_breaks_among, schedule_of, target_scaled, valid_request,
    PomodoroConfig, PomodoroError, PomodoroResult, MAX_SEGMENT_MINUTES,
};

verus! {

/// The adjusted watch time, rounded up to whole minutes.
pub open spec fn adjusted_minutes_ceil(video_minutes: int, playback_speed: int, distraction_level: int) -> int {
    (target_scaled(video_minutes, distraction_level) + playback_speed - 1) / playback_speed
}

/// The adjusted watch time, rounded down to whole minutes.
pub open spec fn adjusted_minutes_floor(video_minutes: int, playback_speed: int, distraction_level: int) -> int {
    target_scaled(video_minutes, distraction_level) / playback_speed
}

/// Each break lasts between zero and `MAX_SEGMENT_MINUTES` minutes.
proof fn lemma_break_minutes_bounded(breaks: int, every: int, short_break: int, long_break: int)
    requires
        breaks >= 0,
        0 <= short_break <= MAX_SEGMENT_MINUTES,
        0 <= long_break <= MAX_SEGMENT_MINUTES,
    ensures
        0 <= break_minutes(breaks, every, short_break, long_break) <= breaks * 1_000_000,
    decreases breaks,
{
    if breaks > 0 {
        lemma_break_minutes_bounded(breaks - 1, every, short_break, long_break);
    }
}

/// More breaks never take less time.
proof fn lemma_break_minutes_monotonic(b1: int, b2: int, every: int, short_break: int, long_break: int)
    requires
        0 <= b1 <= b2,
        0 <= short_break,
        0 <= long_break,
    ensures
        break_minutes(b1, every, short_break, long_break) <= break_minutes(b2, every, short_break, long_break),
    decreases b2,
{
    if b1 < b2 {
        lemma_break_minutes_monotonic(b1, b2 - 1, every, short_break, long_break);
    }
}

/// A larger target never needs fewer intervals.
proof fn lemma_intervals_monotonic(t1: int, t2: int, unit: int)
    requires
        t1 <= t2,
        unit >= 1,
    ensures
        intervals_to_cover(t1, unit) <= intervals_to_cover(t2, unit),
    decreases if t2 > 0 { t2 } else { 0 },
{
    lemma_intervals_bounded(t2, unit);
    if t1 > 0 {
        lemma_intervals_monotonic(t1 - unit, t2 - unit, unit);
    }
}

/// The intervals just cover a positive target: one interval fewer would not.
proof fn lemma_intervals_just_cover(target: int, unit: int)
    requires
        target > 0,
        unit >= 1,
    ensures
        (intervals_to_cover(target, unit) - 1) * unit < target <= intervals_to_cover(target, unit) * unit,
    decreases target,
{
    let p = intervals_to_cover(target, unit);
    if target - unit > 0 {
        lemma_intervals_just_cover(target - unit, unit);
        let q = intervals_to_cover(target - unit, unit);
        assert((q - 1) * unit < target - unit <= q * unit ==> (p - 1) * unit < target <= p * unit)
            by (nonlinear_arith)
            requires
                p == q + 1,
        ;
    } else {
        assert(intervals_to_cover(target - unit, unit) == 0);
        assert((p - 1) * unit < target <= p * unit) by (nonlinear_arith)
            requires
                p == 1,
                0 < target <= unit,
        ;
    }
}

/// The values of a valid schedule fit in its fields.
proof fn lemma_schedule_in_range(start_time: int, video_minutes: int, playback_speed: int, config: PomodoroConfig)
    requires
        valid_request(start_time, video_minutes, playback_speed, config),
    ensures
        ({
            let t = target_scaled(video_minutes, config.distraction_level as int);
            let p = intervals_to_cover(t, config.work_time * playback_speed);
            let b = breaks_between(p);
            let every = config.pomodoros_until_long_break as int;
            let l = long_breaks_among(b, every);
            let m = break_minutes(b, every, config.short_break as int, config.long_break as int);
            let r = schedule_of(start_time, video_minutes, playback_speed, config);
            &&& 0 <= t <= 1_000_000 * 10_100
            &&& 0 <= p <= t
            &&& 0 <= l <= b
            &&& 0 <= m <= b * 1_000_000
            &&& 0 <= t / playback_speed <= t
            &&& r.pomodoros == p
            &&& r.short_breaks == b - l
            &&& r.long_breaks == l
            &&& r.time_spend == t / playback_speed + m
            &&& r.end_time == start_time + 60 * (t / playback_speed + m)
        }),
{
    let d = config.distraction_level as int;
    let t = target_scaled(video_minutes, d);
    let u = config.work_time * playback_speed;
    assert(0 <= video_minutes * (100 + d) <= 1_000_000 * 10_100) by (nonlinear_arith)
        requires
            0 <= video_minutes <= 1_000_000,
            0 <= d <= 10_000,
    ;
    assert(1 <= u) by (nonlinear_arith)
        requires
            u == config.work_time * playback_speed,
            1 <= config.work_time,
            1 <= playback_speed,
    ;
    assert(0 <= t / playback_speed <= t) by (nonlinear_arith)
        requires
            0 <= t,
            1 <= playback_speed,
    ;
    lemma_intervals_bounded(t, u);
    let p = intervals_to_cover(t, u);
    let b = breaks_between(p);
    let every = config.pomodoros_until_long_break as int;
    lemma_long_breaks_bounded(b, every);
    lemma_break_minutes_bounded(b, every, config.short_break as int, config.long_break as int);
}

/// Breaks lag work by at most one: a valid schedule has as many breaks as
/// work intervals, or one fewer.
pub proof fn lemma_breaks_follow_work(start_time: int, video_minutes: int, playback_speed: int, config: PomodoroConfig)
    requires
        valid_request(start_time, video_minutes, playback_speed, config),
    ensures
        ({
            let r = schedule_of(start_time, video_minutes, playback_speed, config);
            r.pomodoros >= r.short_breaks + r.long_breaks >= r.pomodoros - 1
        }),
{
    lemma_schedule_in_range(start_time, video_minutes, playback_speed, config);
}

/// The work intervals run past the adjusted watch time, rounded up, by less
/// than one work interval.
pub proof fn lemma_work_overshoot_bounded(start_time: int, video_minutes: int, playback_speed: int, config: PomodoroConfig)
    requires
        valid_request(start_time, video_minutes, playback_speed, config),
    ensures
        ({
            let r = schedule_of(start_time, video_minutes, playback_speed, config);
            let c = adjusted_minutes_ceil(video_minutes, playback_speed, config.distraction_level as int);
            r.pomodoros * config.work_time < c + config.work_time
        }),
{
    lemma_schedule_in_range(start_time, video_minutes, playback_speed, config);
    let t = target_scaled(video_minutes, config.distraction_level as int);
    let s = playback_speed;
    let w = config.work_time as int;
    let u = w * s;
    let p = intervals_to_cover(t, u);
    let c = adjusted_minutes_ceil(video_minutes, playback_speed, config.distraction_level as int);
    lemma_fundamental_div_mod(t + s - 1, s);
    lemma_mod_pos_bound(t + s - 1, s);
    assert(t <= s * c);
    assert(1 <= u) by (nonlinear_arith)
        requires
            u == w * s,
            1 <= w,
            1 <= s,
    ;
    let r = schedule_of(start_time, video_minutes, playback_speed, config);
    assert(r.pomodoros == p);
    if t > 0 {
        lemma_intervals_just_cover(t, u);
        assert(p * w < c + w) by (nonlinear_arith)
            requires
                (p - 1) * u < t,
                t <= s * c,
                u == w * s,
                1 <= s,
        ;
    } else {
        assert(0 <= c) by (nonlinear_arith)
            requires
                c == (t + s - 1) / s,
                t >= 0,
                s >= 1,
        ;
        assert(p == 0);
        assert(p * w < c + w) by (nonlinear_arith)
            requires
                p == 0,
                c >= 0,
                w >= 1,
        ;
    }
    assert(r.pomodoros * config.work_time == p * w);
}

/// A schedule with at most one break ends within one segment of the adjusted
/// watch time, rounded up.
pub proof fn lemma_short_schedule_bounded(start_time: int, video_minutes: int, playback_speed: int, config: PomodoroConfig)
    requires
        valid_request(start_time, video_minutes, playback_speed, config),
        schedule_of(start_time, video_minutes, playback_speed, config).pomodoros <= 2,
    ensures
        ({
            let r = schedule_of(start_time, video_minutes, playback_speed, config);
            let c = adjusted_minutes_ceil(video_minutes, playback_speed, config.distraction_level as int);
            let longest = vstd::math::max(config.work_time as int, vstd::math::max(config.short_break as int, config.long_break as int));
            r.time_spend <= c + longest
        }),
{
    lemma_schedule_in_range(start_time, video_minutes, playback_speed, config);
    let t = target_scaled(video_minutes, config.distraction_level as int);
    let s = playback_speed;
    lemma_div_is_ordered(t, t + s - 1, s);
    let every = config.pomodoros_until_long_break as int;
    assert(break_minutes(0, every, config.short_break as int, config.long_break as int) == 0);
    assert(break_minutes(1, every, config.short_break as int, config.long_break as int) == config.long_break);
}

/// A video of no minutes gives the empty schedule, which ends when it starts.
pub proof fn lemma_empty_video(start_time: int, playback_speed: int, config: PomodoroConfig)
    requires
        valid_request(start_time, 0, playback_speed, config),
    ensures
        schedule_of(start_time, 0, playback_speed, config) == (PomodoroResult {
            pomodoros: 0,
            short_breaks: 0,
            long_breaks: 0,
            time_spend: 0,
            end_time: start_time as i64,
        }),
{
    lemma_schedule_in_range(start_time, 0, playback_speed, config);
    assert(target_scaled(0, config.distraction_level as int) == 0);
}

/// The outcome depends on the inputs alone: two calculations on the same
/// inputs give the same result.
pub proof fn lemma_outcome_deterministic(
    start_time: int,
    video_minutes: int,
    playback_speed: int,
    config: PomodoroConfig,
    r1: Result<PomodoroResult, PomodoroError>,
    r2: Result<PomodoroResult, PomodoroError>,
)
    requires
        r1 == calculation_outcome(start_time, video_minutes, playback_speed, config),
        r2 == calculation_outcome(start_time, video_minutes, playback_speed, config),
    ensures
        r1 == r2,
{
}

/// A longer video, all else equal, never needs fewer work intervals nor less time.
pub proof fn lemma_longer_video_monotonic(
    start_time: int,
    v1: int,
    v2: int,
    playback_speed: int,
    config: PomodoroConfig,
)
    requires
        valid_request(start_time, v1, playback_speed, config),
        valid_request(start_time, v2, playback_speed, config),
        v1 <= v2,
    ensures
        schedule_of(start_time, v1, playback_speed, config).pomodoros <= schedule_of(start_time, v2, playback_speed, config).pomodoros,
        schedule_of(start_time, v1, playback_speed, config).time_spend <= schedule_of(start_time, v2, playback_speed, config).time_spend,
{
    lemma_schedule_in_range(start_time, v1, playback_speed, config);
    lemma_schedule_in_range(start_time, v2, playback_speed, config);
    let d = config.distraction_level as int;
    let t1 = target_scaled(v1, d);
    let t2 = target_scaled(v2, d);
    lemma_mul_inequality(v1, v2, 100 + d);
    let u = config.work_time * playback_speed;
    assert(1 <= u) by (nonlinear_arith)
        requires
            u == config.work_time * playback_speed,
            1 <= config.work_time,
            1 <= playback_speed,
    ;
    lemma_intervals_monotonic(t1, t2, u);
    lemma_div_is_ordered(t1, t2, playback_speed);
    let p1 = intervals_to_cover(t1, u);
    let p2 = intervals_to_cover(t2, u);
    lemma_break_minutes_monotonic(
        breaks_between(p1),
        breaks_between(p2),
        config.pomodoros_until_long_break as int,
        config.short_break as int,
        config.long_break as int,
    );
}

} // verus!
