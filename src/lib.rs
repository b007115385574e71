//! Work/break schedule ("pomodoro" cycles) needed to watch a video.
//!
//! The library holds the calculation only: it takes plain integer inputs,
//! rejects those outside its domain, and returns the counts of work intervals
//! and breaks, the minutes spent and the end instant.

pub mod schedule;
pub mod laws;

pub use schedule::{
    calculate_pomodoros, ConfigField, InputField, PomodoroConfig, PomodoroError, PomodoroResult,
};
