use vstd::prelude::*;

verus! {

/// A fault that halts the machine: a malformed or adversarial program
/// image has asked for something the architecture does not define.
/// Faults are fatal; the host recovers only by `reset` plus a fresh `load`.
#[derive(Clone, Copy, Debug, PartialEq, Eq, Structural)]
pub enum Fault {
    /// The fetched opcode matches no defined instruction pattern.
    UnknownOpcode,
    /// A call was made with the call stack already at capacity.
    StackOverflow,
    /// A return was executed with an empty call stack.
    StackUnderflow,
    /// An instruction fetch or data access fell outside the 4096 memory bytes.
    MemoryOutOfBounds,
    /// A key-test instruction named a key index outside the pad.
    BadKeyIndex,
    /// A program image longer than the loadable region was handed to `load`.
    ImageTooLarge,
}

} // verus!
