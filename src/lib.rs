//! A small command-line credential generator built on a verified codec layer:
//! typed values are read from and written to text with exact contracts, and
//! combined through semigroup and monoid laws proved for each registered type.

pub mod algebra;
pub mod command;
pub mod executable;
pub mod mstd;
pub mod parser;
pub mod password;
pub mod syntax;

pub use password::{gen, gen_with_seed};
