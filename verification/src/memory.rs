//! The machine's memory: 4096 bytes, with the font sprites in the reserved
//! low area and programs from address 0x200 upwards.

use crate::fault::Fault;
use vstd::prelude::*;

verus! {

/// Bytes of addressable memory.
pub const MEMORY_SIZE: usize = 4096;

/// The address of the first font sprite.
pub const FONT_START: usize = 0x050;

/// Bytes in the font table: sixteen glyphs of five rows each.
pub const FONT_SIZE: usize = 80;

/// The address at which programs are loaded and start to run.
pub const PROGRAM_START: usize = 0x200;

/// The sprites of the hexadecimal digits 0 to F, five bytes each.
pub const FONT: [u8; 80] = [
    0xF0, 0x90, 0x90, 0x90, 0xF0,
    0x20, 0x60, 0x20, 0x20, 0x70,
    0xF0, 0x10, 0xF0, 0x80, 0xF0,
    0xF0, 0x10, 0xF0, 0x10, 0xF0,
    0x90, 0x90, 0xF0, 0x10, 0x10,
    0xF0, 0x80, 0xF0, 0x10, 0xF0,
    0xF0, 0x80, 0xF0, 0x90, 0xF0,
    0xF0, 0x10, 0x20, 0x40, 0x40,
    0xF0, 0x90, 0xF0, 0x90, 0xF0,
    0xF0, 0x90, 0xF0, 0x10, 0xF0,
    0xF0, 0x90, 0xF0, 0x90, 0x90,
    0xE0, 0x90, 0xE0, 0x90, 0xE0,
    0xF0, 0x80, 0x80, 0x80, 0xF0,
    0xE0, 0x90, 0x90, 0x90, 0xE0,
    0xF0, 0x80, 0xF0, 0x80, 0xF0,
    0xF0, 0x80, 0xF0, 0x80, 0x80,
];

/// Whether `address` lies in the font table.
pub open spec fn in_font(address: int) -> bool {
    FONT_START <= address < FONT_START + FONT_SIZE
}

/// Memory of the right size that holds the font table at its place.
pub open spec fn font_installed(memory: Seq<u8>) -> bool {
    &&& memory.len() == MEMORY_SIZE
    &&& forall|a: int| in_font(a) ==> #[trigger] memory[a] == FONT@[a - FONT_START]
}

/// Memory as it is before a program is loaded: the font table at its place
/// and zero everywhere else.
pub open spec fn fresh() -> Seq<u8> {
    Seq::new(
        MEMORY_SIZE as nat,
        |a: int|
            if in_font(a) {
                FONT@[a - FONT_START]
            } else {
                0u8
            },
    )
}

/// Memory after `rom` has been copied to the program area, or the fault if
/// it does not fit between the program start and the end of memory.
pub open spec fn loaded(memory: Seq<u8>, rom: Seq<u8>) -> Result<Seq<u8>, Fault> {
    if rom.len() > MEMORY_SIZE - PROGRAM_START {
        Err(Fault::Addressing)
    } else {
        Ok(
            Seq::new(
                MEMORY_SIZE as nat,
                |a: int|
                    if PROGRAM_START <= a < PROGRAM_START + rom.len() {
                        rom[a - PROGRAM_START]
                    } else {
                        memory[a]
                    },
            ),
        )
    }
}

/// The `count` bytes of memory from `start` on, or the fault if they do not
/// all lie inside memory.
pub open spec fn span(memory: Seq<u8>, start: int, count: int) -> Result<Seq<u8>, Fault> {
    if start + count > MEMORY_SIZE {
        Err(Fault::Addressing)
    } else {
        Ok(memory.subrange(start, start + count))
    }
}

/// Loading a program leaves the font table, and everything else below the
/// program area, as it was.
pub proof fn load_keeps_reserved_area(memory: Seq<u8>, rom: Seq<u8>, a: int)
    requires
        memory.len() == MEMORY_SIZE,
        loaded(memory, rom) is Ok,
        0 <= a < PROGRAM_START,
    ensures
        loaded(memory, rom)->Ok_0[a] == memory[a],
        font_installed(memory) ==> font_installed(loaded(memory, rom)->Ok_0),
{
}

/// Copies the font table to its place in `bytes`.
fn load_font(bytes: &mut [u8; 4096])
    ensures
        forall|a: int|
            0 <= a < MEMORY_SIZE ==> #[trigger] final(bytes)@[a] == if in_font(a) {
                FONT@[a - FONT_START]
            } else {
                old(bytes)@[a]
            },
{
    let mut i: usize = 0;
    while i < FONT_SIZE
        invariant
            i <= FONT_SIZE,
            forall|a: int|
                0 <= a < MEMORY_SIZE ==> #[trigger] bytes@[a] == if FONT_START <= a < FONT_START
                    + i {
                    FONT@[a - FONT_START]
                } else {
                    old(bytes)@[a]
                },
        decreases FONT_SIZE - i,
    {
        bytes[FONT_START + i] = FONT[i];
        i += 1;
    }
}

/// The machine's memory.
pub struct Memory {
    bytes: [u8; 4096],
}

impl View for Memory {
    type V = Seq<u8>;

    /// The bytes of memory, by address.
    closed spec fn view(&self) -> Seq<u8> {
        self.bytes@
    }
}

impl Memory {
    /// What holds of every memory at all times: the font table is in place.
    #[verifier::type_invariant]
    pub open spec fn inv(&self) -> bool {
        font_installed(self@)
    }

    /// Memory with the font table installed and nothing else in it.
    pub fn new() -> (memory: Memory)
        ensures
            memory@ == fresh(),
    {
        let mut bytes: [u8; 4096] = [0u8; 4096];
        load_font(&mut bytes);
        proof {
            assert(bytes@ =~= fresh());
        }
        Memory { bytes }
    }

    /// The byte at `address`, or the fault if `address` lies outside memory.
    pub fn read(&self, address: usize) -> (result: Result<u8, Fault>)
        ensures
            address < MEMORY_SIZE ==> result == Ok::<u8, Fault>(self@[address as int]),
            address >= MEMORY_SIZE ==> result == Err::<u8, Fault>(Fault::Addressing),
    {
        if address < MEMORY_SIZE {
            Ok(self.bytes[address])
        } else {
            Err(Fault::Addressing)
        }
    }

    /// A copy of the `count` bytes from `start` on, or the fault if they do
    /// not all lie inside memory.
    pub fn read_span(&self, start: usize, count: usize) -> (result: Result<Vec<u8>, Fault>)
        ensures
            match span(self@, start as int, count as int) {
                Ok(bytes) => result is Ok && result->Ok_0@ == bytes,
                Err(fault) => result == Err::<Vec<u8>, Fault>(fault),
            },
    {
        if start > MEMORY_SIZE || count > MEMORY_SIZE - start {
            return Err(Fault::Addressing);
        }
        let mut bytes: Vec<u8> = Vec::new();
        let mut i: usize = 0;
        while i < count
            invariant
                start + count <= MEMORY_SIZE,
                i <= count,
                bytes@ == self@.subrange(start as int, start + i),
            decreases count - i,
        {
            bytes.push(self.bytes[start + i]);
            i += 1;
            proof {
                assert(bytes@ =~= self@.subrange(start as int, start + i));
            }
        }
        Ok(bytes)
    }

    /// Copies `rom` to the program area, which starts at address 0x200.
    /// A program that does not fit is refused and memory is left as it was.
    pub fn load(&mut self, rom: &[u8]) -> (result: Result<(), Fault>)
        ensures
            match loaded(old(self)@, rom@) {
                Ok(memory) => result is Ok && final(self)@ == memory,
                Err(fault) => result == Err::<(), Fault>(fault) && final(self)@ == old(self)@,
            },
    {
        if rom.len() > MEMORY_SIZE - PROGRAM_START {
            return Err(Fault::Addressing);
        }
        let mut i: usize = 0;
        while i < rom.len()
            invariant
                rom@.len() <= MEMORY_SIZE - PROGRAM_START,
                i <= rom@.len(),
                forall|a: int|
                    0 <= a < MEMORY_SIZE ==> #[trigger] self@[a] == if PROGRAM_START <= a
                        < PROGRAM_START + i {
                        rom@[a - PROGRAM_START]
                    } else {
                        old(self)@[a]
                    },
            decreases rom@.len() - i,
        {
            proof {
                use_type_invariant(&*self);
            }
            self.bytes[PROGRAM_START + i] = rom[i];
            i += 1;
        }
        proof {
            assert(self@ =~= loaded(old(self)@, rom@)->Ok_0);
        }
        Ok(())
    }
}

} // verus!
