//! The HTTP server's schedule handling.

pub mod schedules;

pub mod schedules_api;
