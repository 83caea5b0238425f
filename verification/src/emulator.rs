//! The interpreter: the machine's state and the operations that drive it.
//!
//! Nothing here waits, sleeps or reads a device. A driver calls
//! [`Emulator::update`] at the instruction rate and
//! [`Emulator::update_display`] at the frame rate, and hands in what the
//! machine cannot know by itself: which keys are held down, and whether the
//! window is still open.

use crate::alu::alu;
use crate::compositor::Compositor;
use crate::display::{FrameBuffer, DISPLAY_HEIGHT, DISPLAY_WIDTH, PIXELS};
use crate::fault::Fault;
use crate::instruction::{decode, Instruction};
use crate::memory::{Memory, MEMORY_SIZE, PROGRAM_START};
use crate::state::{follows, key_down, word_at, State, FLAG};
use vstd::prelude::*;

verus! {

/// Draws one byte from the thread's random number generator by
/// `fastrand::u8` over the full range of a byte. The contract claims
/// nothing of the value: every byte may come back, and two calls may differ.
#[verifier::external_body]
fn random_byte() -> (byte: u8) {
    fastrand::u8(..)
}

/// A step does not look at the random byte unless the instruction it
/// fetches is a random instruction.
pub proof fn step_ignores_random_unless_drawn(state: State, keys: Seq<bool>, a: u8, b: u8)
    requires
        !state.draws_random(),
    ensures
        state.step(keys, a) == state.step(keys, b),
{
}

/// The CHIP-8 machine.
pub struct Emulator {
    memory: Memory,
    program_counter: u16,
    index_register: u16,
    stack: Vec<u16>,
    delay_timer: u8,
    sound_timer: u8,
    registers: [u8; 16],
    buffer: FrameBuffer,
    compositor: Compositor,
    shift_mode: bool,
}

impl View for Emulator {
    type V = State;

    closed spec fn view(&self) -> State {
        State {
            memory: self.memory@,
            program_counter: self.program_counter,
            index_register: self.index_register,
            stack: self.stack@,
            delay_timer: self.delay_timer,
            sound_timer: self.sound_timer,
            registers: self.registers@,
            pixels: self.buffer@,
            screen: self.compositor@,
            legacy_shift: self.shift_mode,
        }
    }
}

impl Emulator {
    /// A machine as it is switched on, with the font installed. Shifts work
    /// on register `x` in place.
    pub fn new() -> (emulator: Emulator)
        ensures
            emulator@ == State::initial(false),
            emulator@.wf(),
    {
        Emulator::with_shift_mode(false)
    }

    /// A machine as it is switched on, with the font installed. With
    /// `legacy` set, shifts copy register `y` into register `x` before they
    /// shift; otherwise they shift register `x` in place.
    pub fn with_shift_mode(legacy: bool) -> (emulator: Emulator)
        ensures
            emulator@ == State::initial(legacy),
            emulator@.wf(),
    {
        let registers: [u8; 16] = [0u8; 16];
        proof {
            assert(registers@ =~= Seq::new(16, |i: int| 0u8));
        }
        let emulator = Emulator {
            memory: Memory::new(),
            program_counter: PROGRAM_START as u16,
            index_register: 0,
            stack: Vec::new(),
            delay_timer: 0,
            sound_timer: 0,
            registers,
            buffer: FrameBuffer::new(),
            compositor: Compositor::new(),
            shift_mode: legacy,
        };
        emulator
    }

    /// Copies a program into memory from address 0x200 on. A program that
    /// does not fit into memory is refused and the machine is left as it
    /// was.
    pub fn load_rom_into_memory(&mut self, rom: &[u8]) -> (result: Result<(), Fault>)
        ensures
            match old(self)@.load(rom@) {
                Ok(next) => result is Ok && final(self)@ == next,
                Err(fault) => result == Err::<(), Fault>(fault) && final(self)@ == old(self)@,
            },
            final(self)@.wf(),
    {
        proof {
            use_type_invariant(&self.compositor);
            self.buffer.lemma_len();
        }
        let result = self.memory.load(rom);
        proof {
            use_type_invariant(&self.memory);
        }
        result
    }

    /// Whether the key that `value` names is held down. `keys` tells for
    /// each of the sixteen keys whether it is down; a key is named by the low
    /// nibble of `value`.
    pub fn check_input(keys: &[bool; 16], value: u8) -> (down: bool)
        ensures
            down == key_down(keys@, value),
    {
        let key: u8 = value & 0x0F;
        proof {
            assert(value & 0x0F == value % 16) by (bit_vector);
        }
        keys[key as usize]
    }

    /// The instruction word at the program counter, or the fault if the
    /// program counter is odd or lies outside memory.
    fn fetch(&self) -> (result: Result<u16, Fault>)
        ensures
            self@.can_fetch() ==> result == Ok::<u16, Fault>(
                word_at(self@.memory, self@.program_counter as int),
            ),
            !self@.can_fetch() ==> result == Err::<u16, Fault>(Fault::Addressing),
    {
        if self.program_counter % 2 != 0 {
            return Err(Fault::Addressing);
        }
        let address: usize = self.program_counter as usize;
        let high: u8 = match self.memory.read(address) {
            Ok(byte) => byte,
            Err(fault) => {
                return Err(fault);
            },
        };
        let low: u8 = match self.memory.read(address + 1) {
            Ok(byte) => byte,
            Err(fault) => {
                return Err(fault);
            },
        };
        proof {
            assert((high as u16) << 8 | (low as u16) == high * 256 + low) by (bit_vector);
        }
        Ok((high as u16) << 8 | (low as u16))
    }

    /// Whether the next step draws a random byte.
    fn draws_random(&self) -> (drawn: bool)
        ensures
            drawn == self@.draws_random(),
    {
        match self.fetch() {
            Ok(word) => match decode(word) {
                Instruction::Random { .. } => true,
                _ => false,
            },
            Err(_) => false,
        }
    }

    /// Moves the program counter past the next instruction if `condition`
    /// holds.
    fn skip_if(&mut self, condition: bool)
        requires
            old(self).program_counter <= MEMORY_SIZE,
        ensures
            final(self)@ == old(self)@.skip_if(condition),
    {
        if condition {
            self.program_counter += 2;
        }
    }

    /// Executes one decoded instruction. The program counter already points
    /// past it.
    fn execute(&mut self, instruction: Instruction, keys: &[bool; 16], random: u8) -> (result:
        Result<(), Fault>)
        requires
            instruction.wf(),
            old(self).program_counter <= MEMORY_SIZE,
        ensures
            match old(self)@.execute(instruction, keys@, random) {
                Ok(next) => result is Ok && final(self)@ == next,
                Err(fault) => result == Err::<(), Fault>(fault) && final(self)@ == old(self)@,
            },
    {
        match instruction {
            Instruction::ClearScreen => {
                self.buffer.clear();
            },
            Instruction::Return => {
                match self.stack.pop() {
                    Some(address) => {
                        self.program_counter = address;
                    },
                    None => {
                        return Err(Fault::StackUnderflow);
                    },
                }
            },
            Instruction::Jump { address } => {
                self.program_counter = address;
            },
            Instruction::Call { address } => {
                self.stack.push(self.program_counter);
                self.program_counter = address;
            },
            Instruction::SkipIfEqual { x, value } => {
                let equal: bool = self.registers[x as usize] == value;
                self.skip_if(equal);
            },
            Instruction::SkipIfNotEqual { x, value } => {
                let differs: bool = self.registers[x as usize] != value;
                self.skip_if(differs);
            },
            Instruction::SkipIfRegistersEqual { x, y } => {
                let equal: bool = self.registers[x as usize] == self.registers[y as usize];
                self.skip_if(equal);
            },
            Instruction::SetRegister { x, value } => {
                self.registers[x as usize] = value;
            },
            Instruction::Add { x, value } => {
                self.registers[x as usize] = self.registers[x as usize].wrapping_add(value);
            },
            Instruction::Alu { op, x, y } => {
                let (value, flag) = alu(
                    op,
                    self.registers[x as usize],
                    self.registers[y as usize],
                    self.shift_mode,
                );
                self.registers[x as usize] = value;
                match flag {
                    Some(bit) => {
                        self.registers[FLAG] = bit;
                    },
                    None => {},
                }
            },
            Instruction::SkipIfRegistersNotEqual { x, y } => {
                let differs: bool = self.registers[x as usize] != self.registers[y as usize];
                self.skip_if(differs);
            },
            Instruction::SetIndex { address } => {
                self.index_register = address;
            },
            Instruction::JumpOffset { address } => {
                self.program_counter = address + (self.registers[0] as u16);
            },
            Instruction::Random { x, mask } => {
                self.registers[x as usize] = mask & random;
            },
            Instruction::Draw { x, y, rows } => {
                let sprite: Vec<u8> = match self.memory.read_span(
                    self.index_register as usize,
                    rows as usize,
                ) {
                    Ok(bytes) => bytes,
                    Err(fault) => {
                        return Err(fault);
                    },
                };
                let x_pos: usize = self.registers[x as usize] as usize % DISPLAY_WIDTH;
                let y_pos: usize = self.registers[y as usize] as usize % DISPLAY_HEIGHT;
                let collision: bool = self.buffer.draw_sprite(sprite.as_slice(), x_pos, y_pos);
                self.registers[FLAG] = if collision {
                    1
                } else {
                    0
                };
            },
            Instruction::SkipIfKeyDown { x } => {
                let down: bool = Emulator::check_input(keys, self.registers[x as usize]);
                self.skip_if(down);
            },
            Instruction::SkipIfKeyUp { x } => {
                let down: bool = Emulator::check_input(keys, self.registers[x as usize]);
                self.skip_if(!down);
            },
            Instruction::ReadDelay { x } => {
                self.registers[x as usize] = self.delay_timer;
            },
            Instruction::SetDelay { x } => {
                self.delay_timer = self.registers[x as usize];
            },
            Instruction::SetSound { x } => {
                self.sound_timer = self.registers[x as usize];
            },
            Instruction::Unrecognized => {},
        }
        Ok(())
    }

    /// Executes exactly one instruction: fetches the word at the program
    /// counter, moves the program counter past it, and carries the
    /// instruction out.
    ///
    /// `keys` tells for each of the sixteen keys whether it is held down, and
    /// `random` is the byte that a random instruction would draw; given both,
    /// the step is fully determined. On a fault the machine is left as it
    /// was.
    pub fn step(&mut self, keys: &[bool; 16], random: u8) -> (result: Result<(), Fault>)
        ensures
            follows(old(self)@, keys@, random, result, final(self)@),
            final(self)@.wf(),
    {
        proof {
            use_type_invariant(&self.memory);
            use_type_invariant(&self.compositor);
            self.buffer.lemma_len();
        }
        let word: u16 = match self.fetch() {
            Ok(word) => word,
            Err(fault) => {
                return Err(fault);
            },
        };
        let instruction: Instruction = decode(word);
        let origin: u16 = self.program_counter;
        self.program_counter = origin + 2;
        let result = self.execute(instruction, keys, random);
        match result {
            Ok(()) => {},
            Err(_) => {
                self.program_counter = origin;
            },
        }
        proof {
            use_type_invariant(&self.memory);
            use_type_invariant(&self.compositor);
            self.buffer.lemma_len();
        }
        result
    }

    /// Executes exactly one instruction, as [`Emulator::step`] does, and
    /// draws the byte for a random instruction itself. No byte is drawn for
    /// any other instruction.
    pub fn update(&mut self, keys: &[bool; 16]) -> (result: Result<(), Fault>)
        ensures
            exists|random: u8| follows(old(self)@, keys@, random, result, final(self)@),
            !old(self)@.draws_random() ==> forall|random: u8|
                follows(old(self)@, keys@, random, result, final(self)@),
            final(self)@.wf(),
    {
        let random: u8 = if self.draws_random() {
            random_byte()
        } else {
            0
        };
        let result = self.step(keys, random);
        proof {
            if !old(self)@.draws_random() {
                assert forall|other: u8|
                    follows(old(self)@, keys@, other, result, self@) by {
                    step_ignores_random_unless_drawn(old(self)@, keys@, random, other);
                }
            }
        }
        result
    }

    /// Both timers go down by one, unless they are at zero.
    pub fn tick_timers(&mut self)
        ensures
            final(self)@ == old(self)@.tick_timers(),
            final(self)@.wf(),
    {
        proof {
            use_type_invariant(&self.memory);
            use_type_invariant(&self.compositor);
            self.buffer.lemma_len();
        }
        if self.delay_timer > 0 {
            self.delay_timer -= 1;
        }
        if self.sound_timer > 0 {
            self.sound_timer -= 1;
        }
    }

    /// Brings the colour buffer up to date with the frame buffer: the colour
    /// of every pixel that changed since the last composite is repainted.
    /// The interpreter's own state is not touched.
    pub fn composite(&mut self)
        ensures
            final(self)@ == old(self)@.composite(),
            final(self)@.wf(),
    {
        proof {
            use_type_invariant(&self.memory);
            self.buffer.lemma_len();
        }
        self.compositor.composite(&self.buffer);
    }

    /// The address of the next instruction.
    pub fn program_counter(&self) -> (address: u16)
        ensures
            address == self@.program_counter,
    {
        self.program_counter
    }

    /// The index register.
    pub fn index_register(&self) -> (address: u16)
        ensures
            address == self@.index_register,
    {
        self.index_register
    }

    /// The sixteen general registers.
    pub fn registers(&self) -> (registers: &[u8; 16])
        ensures
            registers@ == self@.registers,
    {
        &self.registers
    }

    /// The return addresses of the calls in progress, innermost last.
    pub fn stack(&self) -> (stack: &Vec<u16>)
        ensures
            stack@ == self@.stack,
    {
        &self.stack
    }

    /// The delay timer.
    pub fn delay_timer(&self) -> (timer: u8)
        ensures
            timer == self@.delay_timer,
    {
        self.delay_timer
    }

    /// The sound timer. The machine makes no sound itself; a driver may.
    pub fn sound_timer(&self) -> (timer: u8)
        ensures
            timer == self@.sound_timer,
    {
        self.sound_timer
    }

    /// Whether shifts follow the legacy convention.
    pub fn shift_mode(&self) -> (legacy: bool)
        ensures
            legacy == self@.legacy_shift,
    {
        self.shift_mode
    }

    /// The machine's memory.
    pub fn memory(&self) -> (memory: &Memory)
        ensures
            memory@ == self@.memory,
    {
        &self.memory
    }

    /// The frame buffer.
    pub fn buffer(&self) -> (buffer: &FrameBuffer)
        ensures
            buffer@ == self@.pixels,
    {
        &self.buffer
    }

    /// The colour of each pixel as of the last composite, row by row: what a
    /// driver hands to the window.
    pub fn color_display_buffer(&self) -> (colors: &Vec<u32>)
        ensures
            colors@ == self@.screen.colors,
            colors@.len() == PIXELS,
    {
        self.compositor.colors()
    }

    /// One frame. While the window is open, the frame buffer is composited
    /// and the timers tick; once it is closed, nothing happens. Returns
    /// whether the machine should go on running, which is `open`.
    pub fn update_display(&mut self, open: bool) -> (running: bool)
        ensures
            running == open,
            final(self)@ == if open {
                old(self)@.frame()
            } else {
                old(self)@
            },
            final(self)@.wf(),
    {
        if open {
            self.composite();
            self.tick_timers();
            return true;
        }
        proof {
            use_type_invariant(&self.memory);
            use_type_invariant(&self.compositor);
            self.buffer.lemma_len();
        }
        false
    }
}

} // verus!
