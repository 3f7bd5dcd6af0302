use vstd::prelude::*;

verus! {

/// Number of bytes of addressable memory.
pub const MEMORY_SIZE: usize = 4096;

/// Address at which program images are loaded.
pub const PROGRAM_START: usize = 0x200;

/// Largest program image that fits between `PROGRAM_START` and the end of memory.
pub const MAX_PROGRAM_LEN: usize = 0xE00;

/// Index of the flag register `VF`.
pub const FLAG_REGISTER: usize = 0xF;

/// Why the machine could not go on.
#[derive(Clone, Copy, Debug, PartialEq, Eq, Structural)]
pub enum Error {
    /// A program image of `len` bytes does not fit after `PROGRAM_START`.
    ProgramTooLarge { len: usize },
    /// The two bytes of an instruction at `program_counter` do not both lie in memory.
    FetchOutOfBounds { program_counter: u16 },
    /// `opcode` is outside the supported subset; `program_counter` is its value at execution.
    UnimplementedOpcode { opcode: u16, program_counter: u16 },
    /// A sprite of `rows` rows read from `address` would run past the end of memory.
    SpriteOutOfBounds { address: u16, rows: u8 },
}

/// The register file, memory, program counter and address register.
pub struct State {
    pub memory: [u8; 4096],
    pub program_counter: u16,
    pub address_register: u16,
    pub registers: [u8; 16],
}

/// The big-endian word stored at `a` and `a + 1`.
pub open spec fn word_at(memory: Seq<u8>, a: int) -> int {
    memory[a] as int * 256 + memory[a + 1] as int
}

/// Whether an instruction can be fetched at the program counter.
pub open spec fn can_fetch(s: State) -> bool {
    s.program_counter as int + 1 < 4096
}

/// The state once the program counter has moved past the fetched word.
pub open spec fn after_fetch(s: State) -> State {
    State { program_counter: (s.program_counter + 2) as u16, ..s }
}

/// Memory once `program` has been copied to `PROGRAM_START` onwards.
pub open spec fn loaded(memory: Seq<u8>, program: Seq<u8>) -> Seq<u8> {
    Seq::new(
        memory.len(),
        |a: int|
            if 0x200 <= a < 0x200 + program.len() {
                program[a - 0x200]
            } else {
                memory[a]
            },
    )
}

impl State {
    /// A machine with every byte, register and counter zero.
    pub fn new() -> (r: State)
        ensures
            forall|a: int| 0 <= a < 4096 ==> r.memory@[a] == 0,
            forall|x: int| 0 <= x < 16 ==> r.registers@[x] == 0,
            r.program_counter == 0,
            r.address_register == 0,
    {
        State { memory: [0u8; 4096], program_counter: 0, address_register: 0, registers: [0u8; 16] }
    }

    /// Copies a program image into memory from `PROGRAM_START` onwards.
    /// An image longer than `MAX_PROGRAM_LEN` is refused and memory is left as it was.
    pub fn load_program(&mut self, program: &[u8]) -> (r: Result<(), Error>)
        ensures
            program@.len() <= 0xE00 ==> r is Ok && final(self).memory@ == loaded(
                old(self).memory@,
                program@,
            ),
            program@.len() > 0xE00 ==> r == Err::<(), Error>(
                Error::ProgramTooLarge { len: program@.len() as usize },
            ) && final(self).memory == old(self).memory,
            final(self).program_counter == old(self).program_counter,
            final(self).address_register == old(self).address_register,
            final(self).registers == old(self).registers,
    {
        if program.len() > MAX_PROGRAM_LEN {
            return Err(Error::ProgramTooLarge { len: program.len() });
        }
        let ghost mem0 = self.memory@;
        let mut k: usize = 0;
        while k < program.len()
            invariant
                k <= program@.len() <= 0xE00,
                mem0.len() == 4096,
                self.memory@.len() == 4096,
                self.program_counter == old(self).program_counter,
                self.address_register == old(self).address_register,
                self.registers == old(self).registers,
                mem0 == old(self).memory@,
                forall|a: int|
                    0 <= a < 4096 ==> #[trigger] self.memory@[a] == (if 0x200 <= a < 0x200 + k {
                        program@[a - 0x200]
                    } else {
                        mem0[a]
                    }),
            decreases program@.len() - k,
        {
            self.memory[PROGRAM_START + k] = program[k];
            k += 1;
        }
        assert(self.memory@ =~= loaded(mem0, program@));
        Ok(())
    }
}

/// Reads the big-endian instruction word at the program counter and advances the
/// program counter past it. Fails, changing nothing, when the word does not lie in memory.
pub fn fetch_opcode(state: &mut State) -> (r: Result<u16, Error>)
    ensures
        can_fetch(*old(state)) ==> r == Ok::<u16, Error>(
            word_at(old(state).memory@, old(state).program_counter as int) as u16,
        ) && *final(state) == after_fetch(*old(state)),
        !can_fetch(*old(state)) ==> r == Err::<u16, Error>(
            Error::FetchOutOfBounds { program_counter: old(state).program_counter },
        ) && *final(state) == *old(state),
{
    let pc = state.program_counter as usize;
    if pc + 1 >= MEMORY_SIZE {
        return Err(Error::FetchOutOfBounds { program_counter: state.program_counter });
    }
    let opcode: u16 = state.memory[pc] as u16 * 256 + state.memory[pc + 1] as u16;
    state.program_counter = state.program_counter + 2;
    Ok(opcode)
}

} // verus!
