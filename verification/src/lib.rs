//! Compares a GitHub Copilot quota against the days left in the billing month.
//!
//! The verified core: the proleptic Gregorian calendar on Unix timestamps,
//! the billing-month arithmetic, the assembly of the data that is shown,
//! the pace summary, the layout plan of the progress view and the editing
//! rules of the percentage prompt.
pub mod calendar;
pub mod quota;
pub mod prompt;
pub mod pace;
pub mod display;
