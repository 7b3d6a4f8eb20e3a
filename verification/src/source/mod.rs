pub mod amdsb;
pub mod codfm;
pub mod cofdm;
pub mod common;
pub mod cw;
pub mod dvbt;
pub mod dvbt_frame;
pub mod ft8;
pub mod psk31;
pub mod tone;
