//! A daily check-in streak tracker: calendar dates, the streak state machine,
//! the weekly strip and badges, and the stored document form of the state.

pub mod date;
pub mod engine;
pub mod render;
pub mod command;
pub mod store;
pub mod checkin;
