//! Parameters of the password generator.

use vstd::prelude::*;

verus! {

/// What to generate: a password of `length` characters, for an optional user.
#[derive(Debug)]
pub struct GenerateParams {
    pub length: u32,
    pub username: Option<String>,
}

impl GenerateParams {
    pub fn new(length: u32, username: Option<String>) -> (r: GenerateParams)
        ensures
            r.length == length,
            r.username == username,
    {
        GenerateParams { length, username }
    }
}

impl Default for GenerateParams {
    /// Ten characters, for no particular user.
    fn default() -> (r: GenerateParams)
        ensures
            r.length == 10,
            r.username is None,
    {
        GenerateParams { length: 10, username: None }
    }
}

/// The length of a password to generate.
#[derive(Debug)]
pub struct PassParams {
    pub length: u32,
}

impl PassParams {
    pub fn new(length: u32) -> (r: PassParams)
        ensures
            r.length == length,
    {
        PassParams { length }
    }
}

impl Default for PassParams {
    /// Ten characters.
    fn default() -> (r: PassParams)
        ensures
            r.length == 10,
    {
        PassParams { length: 10 }
    }
}

} // verus!
