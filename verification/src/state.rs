//! The mathematical model of the machine: what its state is and what one
//! instruction, one timer tick and one composite make of it.

use crate::alu::alu_spec;
use crate::compositor::Screen;
use crate::display::{blank, collides, drawn, DISPLAY_HEIGHT, DISPLAY_WIDTH, PIXELS};
use crate::fault::Fault;
use crate::instruction::{decode_spec, AluOp, Instruction};
use crate::memory::{font_installed, fresh, loaded, span, MEMORY_SIZE, PROGRAM_START};
use vstd::prelude::*;

verus! {

/// The index of the flag register, which arithmetic and drawing overwrite.
pub const FLAG: usize = 0xF;

/// The state of the machine.
pub struct State {
    /// Memory, by address.
    pub memory: Seq<u8>,
    /// The address of the next instruction.
    pub program_counter: u16,
    /// The address that drawing reads sprites from.
    pub index_register: u16,
    /// The return addresses of the calls in progress, innermost last.
    pub stack: Seq<u16>,
    /// The delay timer.
    pub delay_timer: u8,
    /// The sound timer.
    pub sound_timer: u8,
    /// The sixteen general registers.
    pub registers: Seq<u8>,
    /// The pixels of the frame buffer, row by row.
    pub pixels: Seq<bool>,
    /// What the compositor holds.
    pub screen: Screen,
    /// Whether shifts follow the legacy convention.
    pub legacy_shift: bool,
}

/// The instruction word at `address`: the byte there is its high half, the
/// next byte its low half.
pub open spec fn word_at(memory: Seq<u8>, address: int) -> u16 {
    (memory[address] * 256 + memory[address + 1]) as u16
}

/// Whether the key that `value` names is held down. A key is named by the
/// low nibble of the value.
pub open spec fn key_down(keys: Seq<bool>, value: u8) -> bool {
    keys[value as int % 16]
}

/// The value of a timer after one tick: one less, but never below zero.
pub open spec fn ticked(timer: u8) -> u8 {
    if timer > 0 {
        (timer - 1) as u8
    } else {
        0
    }
}

impl State {
    /// The parts of the state have their sizes, the font table is in place
    /// and the screen is well formed.
    pub open spec fn wf(self) -> bool {
        &&& font_installed(self.memory)
        &&& self.registers.len() == 16
        &&& self.pixels.len() == PIXELS
        &&& self.screen.wf()
    }

    /// The machine as it is switched on: the program counter at the program
    /// start, memory holding only the font, everything else zero or empty,
    /// and the display dark.
    pub open spec fn initial(legacy_shift: bool) -> State {
        State {
            memory: fresh(),
            program_counter: PROGRAM_START as u16,
            index_register: 0,
            stack: Seq::empty(),
            delay_timer: 0,
            sound_timer: 0,
            registers: Seq::new(16, |i: int| 0u8),
            pixels: blank(),
            screen: Screen::blank(),
            legacy_shift,
        }
    }

    /// The state after `rom` has been loaded into the program area, or the
    /// fault if it does not fit.
    pub open spec fn load(self, rom: Seq<u8>) -> Result<State, Fault> {
        match loaded(self.memory, rom) {
            Ok(memory) => Ok(State { memory, ..self }),
            Err(fault) => Err(fault),
        }
    }

    /// Whether an instruction can be fetched: the program counter is even
    /// and lies inside memory.
    pub open spec fn can_fetch(self) -> bool {
        self.program_counter < MEMORY_SIZE && self.program_counter % 2 == 0
    }

    /// The instruction at the program counter.
    pub open spec fn fetch(self) -> Instruction {
        decode_spec(word_at(self.memory, self.program_counter as int))
    }

    /// The state with the program counter moved past one instruction.
    pub open spec fn advance(self) -> State {
        State { program_counter: (self.program_counter + 2) as u16, ..self }
    }

    /// The state with the next instruction skipped if `condition` holds.
    pub open spec fn skip_if(self, condition: bool) -> State {
        if condition {
            self.advance()
        } else {
            self
        }
    }

    /// The value of register `x`.
    pub open spec fn register(self, x: u8) -> u8 {
        self.registers[x as int]
    }

    /// The state with register `x` set to `value`.
    pub open spec fn with_register(self, x: u8, value: u8) -> State {
        State { registers: self.registers.update(x as int, value), ..self }
    }

    /// The state with the flag register set to `flag`, if there is one.
    pub open spec fn with_flag(self, flag: Option<u8>) -> State {
        match flag {
            Some(value) => self.with_register(FLAG as u8, value),
            None => self,
        }
    }

    /// What executing `instruction` makes of the state, whose program
    /// counter already points past the instruction.
    ///
    /// `keys` tells for each of the sixteen keys whether it is held down;
    /// `random` is the byte that a random instruction draws.
    ///
    /// An operation of the register-to-register family writes its result
    /// first and the flag last. A draw reads its sprite at the index
    /// register and places it at the position held in two registers, taken
    /// modulo the display's width and height; the flag tells whether a pixel
    /// was turned off. A return on an empty stack and a sprite that does not
    /// lie inside memory are faults.
    pub open spec fn execute(self, instruction: Instruction, keys: Seq<bool>, random: u8) -> Result<
        State,
        Fault,
    > {
        match instruction {
            Instruction::ClearScreen => Ok(State { pixels: blank(), ..self }),
            Instruction::Return => if self.stack.len() == 0 {
                Err(Fault::StackUnderflow)
            } else {
                Ok(
                    State {
                        program_counter: self.stack.last(),
                        stack: self.stack.drop_last(),
                        ..self
                    },
                )
            },
            Instruction::Jump { address } => Ok(State { program_counter: address, ..self }),
            Instruction::Call { address } => Ok(
                State {
                    program_counter: address,
                    stack: self.stack.push(self.program_counter),
                    ..self
                },
            ),
            Instruction::SkipIfEqual { x, value } => Ok(self.skip_if(self.register(x) == value)),
            Instruction::SkipIfNotEqual { x, value } => Ok(self.skip_if(self.register(x) != value)),
            Instruction::SkipIfRegistersEqual { x, y } => Ok(
                self.skip_if(self.register(x) == self.register(y)),
            ),
            Instruction::SetRegister { x, value } => Ok(self.with_register(x, value)),
            Instruction::Add { x, value } => Ok(
                self.with_register(x, ((self.register(x) + value) % 256) as u8),
            ),
            Instruction::Alu { op, x, y } => {
                let (value, flag) = alu_spec(op, self.register(x), self.register(y), self.legacy_shift);
                Ok(self.with_register(x, value).with_flag(flag))
            },
            Instruction::SkipIfRegistersNotEqual { x, y } => Ok(
                self.skip_if(self.register(x) != self.register(y)),
            ),
            Instruction::SetIndex { address } => Ok(State { index_register: address, ..self }),
            Instruction::JumpOffset { address } => Ok(
                State { program_counter: (address + self.register(0)) as u16, ..self },
            ),
            Instruction::Random { x, mask } => Ok(self.with_register(x, mask & random)),
            Instruction::Draw { x, y, rows } => match span(
                self.memory,
                self.index_register as int,
                rows as int,
            ) {
                Ok(sprite) => {
                    let column = self.register(x) as int % (DISPLAY_WIDTH as int);
                    let row = self.register(y) as int % (DISPLAY_HEIGHT as int);
                    let flag = if collides(self.pixels, sprite, column, row) {
                        1u8
                    } else {
                        0u8
                    };
                    Ok(
                        State {
                            pixels: drawn(self.pixels, sprite, column, row),
                            ..self
                        }.with_register(FLAG as u8, flag),
                    )
                },
                Err(fault) => Err(fault),
            },
            Instruction::SkipIfKeyDown { x } => Ok(self.skip_if(key_down(keys, self.register(x)))),
            Instruction::SkipIfKeyUp { x } => Ok(self.skip_if(!key_down(keys, self.register(x)))),
            Instruction::ReadDelay { x } => Ok(self.with_register(x, self.delay_timer)),
            Instruction::SetDelay { x } => Ok(State { delay_timer: self.register(x), ..self }),
            Instruction::SetSound { x } => Ok(State { sound_timer: self.register(x), ..self }),
            Instruction::Unrecognized => Ok(self),
        }
    }

    /// What one step makes of the state: the instruction at the program
    /// counter is fetched, the program counter moves past it, and the
    /// instruction is executed. A program counter that is odd or outside
    /// memory is a fault.
    pub open spec fn step(self, keys: Seq<bool>, random: u8) -> Result<State, Fault> {
        if self.can_fetch() {
            self.advance().execute(self.fetch(), keys, random)
        } else {
            Err(Fault::Addressing)
        }
    }

    /// Whether the next step draws a random byte.
    pub open spec fn draws_random(self) -> bool {
        self.can_fetch() && self.fetch() is Random
    }

    /// The state after one timer tick: both timers go down by one unless
    /// they are at zero.
    pub open spec fn tick_timers(self) -> State {
        State {
            delay_timer: ticked(self.delay_timer),
            sound_timer: ticked(self.sound_timer),
            ..self
        }
    }

    /// The state after the frame buffer has been composited.
    pub open spec fn composite(self) -> State {
        State { screen: self.screen.composite(self.pixels), ..self }
    }

    /// The state after one frame: composited, and the timers ticked.
    pub open spec fn frame(self) -> State {
        self.composite().tick_timers()
    }
}

/// Whether `result` and `after` are what a step with the random byte
/// `random` makes of `before`: on success the next state, on a fault the
/// fault, with the machine left as it was.
pub open spec fn follows(
    before: State,
    keys: Seq<bool>,
    random: u8,
    result: Result<(), Fault>,
    after: State,
) -> bool {
    match before.step(keys, random) {
        Ok(next) => result is Ok && after == next,
        Err(fault) => result == Err::<(), Fault>(fault) && after == before,
    }
}

/// Setting a register to a value and then adding zero to it leaves the
/// register at that value, whichever register it is and whatever the value.
pub proof fn set_then_add_zero(
    state: State,
    x: u8,
    value: u8,
    keys: Seq<bool>,
    random: u8,
    later_keys: Seq<bool>,
    later_random: u8,
)
    requires
        state.wf(),
        x < 16,
        state.can_fetch(),
        state.fetch() == (Instruction::SetRegister { x, value }),
        state.advance().can_fetch(),
        state.advance().fetch() == (Instruction::Add { x, value: 0 }),
    ensures
        state.step(keys, random) is Ok,
        state.step(keys, random)->Ok_0.step(later_keys, later_random) is Ok,
        state.step(keys, random)->Ok_0.step(later_keys, later_random)->Ok_0.register(x) == value,
{
}

/// A call followed by a return brings the machine back to the instruction
/// right after the call, with the call stack as it was before.
pub proof fn call_then_return(
    state: State,
    address: u16,
    keys: Seq<bool>,
    random: u8,
    later_keys: Seq<bool>,
    later_random: u8,
)
    requires
        state.can_fetch(),
        state.fetch() == (Instruction::Call { address }),
        address < MEMORY_SIZE,
        address % 2 == 0,
        decode_spec(word_at(state.memory, address as int)) == Instruction::Return,
    ensures
        state.step(keys, random) is Ok,
        state.step(keys, random)->Ok_0.program_counter == address,
        state.step(keys, random)->Ok_0.stack == state.stack.push(
            (state.program_counter + 2) as u16,
        ),
        state.step(keys, random)->Ok_0.step(later_keys, later_random) == Ok::<State, Fault>(
            state.advance(),
        ),
{
    let called = state.step(keys, random)->Ok_0;
    assert(called.stack.drop_last() =~= state.stack);
}

/// A step faults in exactly three cases: the program counter is odd or
/// outside memory; a return finds the call stack empty; a draw asks for a
/// sprite that does not lie inside memory. In every other case it succeeds.
pub proof fn step_faults_exactly_when(state: State, keys: Seq<bool>, random: u8)
    ensures
        state.step(keys, random) == Err::<State, Fault>(Fault::StackUnderflow) <==> state.can_fetch()
            && state.fetch() is Return && state.stack.len() == 0,
        state.step(keys, random) == Err::<State, Fault>(Fault::Addressing) <==> !state.can_fetch()
            || (state.fetch() matches Instruction::Draw { rows, .. } && state.index_register + rows
            > MEMORY_SIZE),
        state.step(keys, random) is Ok <==> state.can_fetch() && !(state.fetch() is Return
            && state.stack.len() == 0) && !(state.fetch() matches Instruction::Draw { rows, .. }
            && state.index_register + rows > MEMORY_SIZE),
{
}

/// A step keeps a well-formed state well formed. It never writes to memory,
/// so the font table and the loaded program stay as they are, and it does
/// not touch what the compositor holds.
pub proof fn step_preserves_wf(state: State, keys: Seq<bool>, random: u8)
    requires
        state.wf(),
        state.step(keys, random) is Ok,
    ensures
        state.step(keys, random)->Ok_0.wf(),
        state.step(keys, random)->Ok_0.memory == state.memory,
        state.step(keys, random)->Ok_0.screen == state.screen,
        state.step(keys, random)->Ok_0.legacy_shift == state.legacy_shift,
{
    crate::instruction::decode_is_well_formed(word_at(state.memory, state.program_counter as int));
}

/// A frame keeps a well-formed state well formed and leaves the
/// interpreter's memory, registers, program counter, index register, call
/// stack and frame buffer alone. Afterwards every colour is the colour of
/// its pixel in the frame buffer.
pub proof fn frame_preserves_wf(state: State)
    requires
        state.wf(),
    ensures
        state.frame().wf(),
        state.frame().screen.colors == Seq::new(
            PIXELS as nat,
            |i: int| crate::compositor::color_of(state.pixels[i]),
        ),
        state.frame() == (State {
            screen: state.frame().screen,
            delay_timer: state.frame().delay_timer,
            sound_timer: state.frame().sound_timer,
            ..state
        }),
{
    crate::compositor::composite_paints_frame(state.screen, state.pixels);
}

/// A timer that is ticked `count` times from `timer` on.
pub open spec fn ticked_times(timer: u8, count: nat) -> u8
    decreases count,
{
    if count == 0 {
        timer
    } else {
        ticked(ticked_times(timer, (count - 1) as nat))
    }
}

/// Ticking a timer `count` times takes `count` off it, stopping at zero:
/// a timer never wraps below zero.
pub proof fn ticks_floor_at_zero(timer: u8, count: nat)
    ensures
        ticked_times(timer, count) == if count >= timer {
            0
        } else {
            timer - count
        },
    decreases count,
{
    if count > 0 {
        ticks_floor_at_zero(timer, (count - 1) as nat);
    }
}

} // verus!
