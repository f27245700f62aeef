//! Verified logic of a multi-UE radio simulation manager and its terminal dashboard.

pub mod advanced;
pub mod configure;
pub mod conn;
pub mod dash;
pub mod handover;
pub mod json;
pub mod keys;
pub mod launch;
pub mod laws;
pub mod layout;
pub mod monitor;
pub mod order;
pub mod paths;
pub mod probes;
pub mod reading;
pub mod slice;
pub mod telnet;
pub mod text;
pub mod ui;
