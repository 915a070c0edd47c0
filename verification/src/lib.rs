//! Decision logic of a name-availability monitor: which requests to send,
//! how replies are classified, and what each monitoring round reports.

pub mod banner;
pub mod checker;
pub mod guarantees;
pub mod lookup;
pub mod menu;
pub mod monitor;
pub mod outcome;
pub mod pool;
pub mod report;
pub mod round;
pub mod targets;
pub mod text;
pub mod tokens;
