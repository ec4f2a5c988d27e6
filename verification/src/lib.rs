//! Scale reading, print planning and mobile service logic for the RP scale station.
pub mod print;
pub mod print_core;
pub mod scale;
pub mod service;
pub mod text;
pub mod utf8len;
