//! Stored rows of instructions.
use vstd::prelude::*;

verus! {

/// An instruction as stored.
#[derive(Debug, Clone)]
pub struct Instruction {
    pub id: i32,
    pub hash: Vec<u8>,
    pub node_id: i32,
    pub template_id: i32,
    pub method: String,
    pub args: Vec<u8>,
}

/// An instruction to be stored; the store assigns its id.
#[derive(Debug, Clone)]
pub struct NewInstruction {
    pub hash: Vec<u8>,
    pub node_id: i32,
    pub template_id: i32,
    pub method: String,
    pub args: Vec<u8>,
}

} // verus!
