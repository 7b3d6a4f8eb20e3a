pub mod audio;
pub mod calendar;
pub mod format;
pub mod script;
pub mod script_parse;
pub mod term;
pub mod time;
