//! Client-side logic for the VAPIX device API, centered on the system log
//! parser: tokenizing raw log text into lines, classifying two generations of
//! entry line formats, and resolving partial (year-less) timestamps against a
//! reference instant.
//!
//! All network traffic, serialization and other input/output lives outside
//! this crate; the functions here work on plain values handed in by a caller.

pub mod application;
pub mod bytes;
pub mod error;
pub mod parameters;
pub mod recordings;
pub mod calendar;
pub mod device_info;
pub mod system_log;
