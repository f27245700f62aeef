//! What holds of the library as a whole: laws that relate results to inputs, and calls to calls.

pub mod commands;
pub mod dashboard;
pub mod measuring;
pub mod moving;
pub mod planning;
pub mod plans;
pub mod report;
pub mod slices;
pub mod texts;
pub mod watching;
