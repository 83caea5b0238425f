//! The conditions that end interpretation.

use vstd::prelude::*;

verus! {

/// A fatal condition. Interpretation cannot go on after one; the machine is
/// left as it was when the fault was found.
#[derive(Clone, Copy, Debug, PartialEq, Eq, Structural)]
pub enum Fault {
    /// The program counter or a memory index lies outside the machine's
    /// memory, or the program counter is not even.
    Addressing,
    /// A return was executed while the call stack was empty.
    StackUnderflow,
}

} // verus!
