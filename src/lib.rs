//! Momentum and frog-in-the-pan scoring over paged equity records.
pub mod calendar;
pub mod paging;
pub mod scoring;
pub mod run;
