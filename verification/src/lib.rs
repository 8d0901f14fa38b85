//! Verified core of a live system-monitor dashboard: byte/rate/uptime
//! formatting, the deterministic node-id scheme, page navigation state,
//! the sparkline history ring buffer and the integer summaries taken
//! from a system snapshot.

pub mod data;
pub mod decimal;
pub mod history;
pub mod ids;
pub mod labels;
pub mod nav;
pub mod pages;
pub mod rank;
