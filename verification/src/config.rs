//! Process-local configuration: the library root and the contact email
//! passed to the open-access lookup service. Loading it from disk is the
//! surrounding program's business; the core only carries the plain values.
use vstd::prelude::*;

verus! {

/// The configuration the tool runs with.
#[derive(Debug, Clone)]
pub struct Config {
    /// Path of the library's root directory.
    pub root: String,
    /// Contact email sent to the open-access lookup service.
    pub email: String,
}

impl Config {
    pub fn new(root: String, email: String) -> (c: Config)
        ensures
            c.root == root,
            c.email == email,
    {
        Config { root, email }
    }
}

} // verus!
