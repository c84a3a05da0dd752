//! The instruction set of the stack machine that runs compiled programs.

use vstd::prelude::*;

verus! {

/// An operation of the stack machine.
#[derive(Debug, Clone, Copy, PartialEq, Eq, Structural)]
pub enum Opcode {
    OCall,
    OCallExt,
    OCastID,
    ODrop,
    OEnter,
    OEqD,
    OHalt,
    OInsert,
    OJtI,
    OLoad,
    OOffset,
    OPushFpAddr,
    OPushCtA,
    OPushCtI,
    ORet,
    OStore,
    OSubD,
    OAddI,
}

} // verus!
