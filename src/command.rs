//! The command that prints the application's version.
use vstd::prelude::*;

verus! {

/// The arguments of the command that prints the application's version: it
/// takes none.
#[derive(Debug, Clone, Copy)]
pub struct Args {}

} // verus!
