//! Schedules that switch smart plugs and bulbs on and off: the schedule
//! stores, the rules that decide when a schedule is due, and the calendar
//! values those rules read.

pub mod calendar;
pub mod text;
pub mod id_map;
pub mod scheduler;
pub mod server;
