//! Presence reporting: which application has the input focus, what status
//! that application stands for, and the request that reports the status.

pub mod config;
pub mod inspector;
pub mod report;
pub mod scheduler;
pub mod table;
pub mod text;
