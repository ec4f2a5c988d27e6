//! Printer capabilities, print modes and printer command text.
pub mod capabilities;
pub mod mode;
pub mod payload;
pub mod printer;
pub mod selection;
pub mod zebra;
