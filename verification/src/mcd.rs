//! Raw memory-card dumps (`.mcd`); nothing of their contents is read yet.
use vstd::prelude::*;

verus! {

/// A memory-card dump.
#[derive(Debug)]
pub struct MCD {}

impl MCD {
    pub fn new() -> (m: Self) {
        MCD {}
    }
}

} // verus!
