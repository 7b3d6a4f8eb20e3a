pub mod dump;
pub mod run;
pub mod sha256;
pub mod schedule;
