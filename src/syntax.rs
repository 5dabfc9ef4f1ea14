//! Small conveniences on values: wrapping them in options, and printing them.

pub mod option;
pub mod printer;
