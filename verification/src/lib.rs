//! The rules of a daily "who says *first* first" game played across time
//! zones: zone registration, bet intake, and the scoring of a round by each
//! player's own local day.

pub mod clock;
pub mod commands;
pub mod daily;
pub mod db;
pub mod zone;
