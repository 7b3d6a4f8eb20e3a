pub mod common;
pub mod instrument;
pub mod cw;
pub mod di_bar;
pub mod ticker;
