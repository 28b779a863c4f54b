use vstd::prelude::*;

use crate::state::RAM_SIZE;

verus! {

/// A bare 4096-byte memory bank, viewed as the sequence of its bytes.
pub struct Ram {
    memory: Vec<u8>,
}

impl View for Ram {
    type V = Seq<u8>;

    closed spec fn view(&self) -> Seq<u8> {
        self.memory@
    }
}

impl Ram {
    /// A zeroed memory bank.
    pub fn new() -> (r: Ram)
        ensures
            r@ =~= Seq::new(RAM_SIZE as nat, |k: int| 0u8),
    {
        let mut memory: Vec<u8> = Vec::new();
        while memory.len() < RAM_SIZE
            invariant
                memory@.len() <= RAM_SIZE,
                forall|k: int| 0 <= k < memory@.len() ==> memory@[k] == 0u8,
            decreases RAM_SIZE - memory@.len(),
        {
            memory.push(0);
        }
        Ram { memory }
    }

    /// Store one byte.
    pub fn write_byte(&mut self, address: usize, value: u8)
        requires
            address < old(self)@.len(),
        ensures
            final(self)@ == old(self)@.update(address as int, value),
    {
        self.memory[address] = value;
    }

    /// Read one byte.
    pub fn read_byte(&mut self, address: usize) -> (r: u8)
        requires
            address < old(self)@.len(),
        ensures
            final(self)@ == old(self)@,
            r == old(self)@[address as int],
    {
        self.memory[address]
    }
}

} // verus!
