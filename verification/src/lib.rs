//! Volume control for the default audio sink of a desktop session.
//!
//! The utility raises or lowers the volume, or flips the mute state, by
//! running the audio tool `wpctl`; then it reads the sink's state back and
//! announces it in a desktop notification. This library holds everything the
//! utility decides and computes, each function with a proved contract;
//! running commands, printing and the session bus are left to the program
//! around it.
//!
//! - [`number`]: decimal numerals and the rounding of a gain to a percentage.
//! - [`report`]: the parser of the audio tool's volume report.
//! - [`command`]: the command lines for the audio tool.
//! - [`notifier`]: the notification that announces a state.
//! - [`bus`]: writing that notification into the notification client's value.
//! - [`dispatch`]: the utility's own command line.
//! - [`session`]: one run of the utility, step by step.
//! - [`text`]: characters, whitespace and decoding.

pub mod bus;
pub mod command;
pub mod dispatch;
pub mod notifier;
pub mod number;
pub mod report;
pub mod session;
pub mod text;
