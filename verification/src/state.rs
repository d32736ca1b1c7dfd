//! The mathematical model of the machine, and the values a step reports.

use crate::font::{font_table, FONTSET_SIZE};
use vstd::prelude::*;

verus! {

/// Width of the display in pixels.
pub const SCREEN_WIDTH: usize = 64;

/// Height of the display in pixels.
pub const SCREEN_HEIGHT: usize = 32;

/// Number of display cells; the display is stored row by row.
pub const SCREEN_SIZE: usize = SCREEN_WIDTH * SCREEN_HEIGHT;

/// Bytes of memory.
pub const RAM_SIZE: usize = 4096;

/// Number of general registers `V[0]..=V[F]`.
pub const NUM_REGS: usize = 16;

/// Capacity of the call stack.
pub const STACK_SIZE: usize = 16;

/// Number of keys on the keypad.
pub const NUM_KEYS: usize = 16;

/// Where programs are loaded and where execution starts.
pub const START_ADDR: u16 = 0x200;

/// The register that receives carry, borrow and collision flags.
pub const FLAG_REGISTER: usize = 0xF;

/// Why a step could not be carried out.
#[derive(Clone, Copy, Debug, PartialEq, Eq, Structural)]
pub enum FaultKind {
    /// The two bytes of the next instruction do not both lie in memory.
    FetchOutOfBounds,
    /// The fetched word is the encoding of no instruction.
    UnknownOpcode,
    /// A call was issued with the call stack full.
    StackOverflow,
    /// A return was issued with the call stack empty.
    StackUnderflow,
    /// An instruction addressed memory through `I` past the end of memory.
    MemoryOutOfBounds,
    /// A key instruction named a key that the keypad does not have.
    KeyOutOfRange,
}

/// A fatal condition, with the address of the instruction that met it and,
/// where the word could be fetched, the word itself.
#[derive(Clone, Copy, Debug, PartialEq, Eq, Structural)]
pub struct Fault {
    pub kind: FaultKind,
    pub address: u16,
    pub opcode: Option<u16>,
}

/// Whether the machine executes instructions or waits for a key.
#[derive(Clone, Copy, Debug, PartialEq, Eq, Structural)]
pub enum RunState {
    Running,
    AwaitingKey,
}

/// A program that does not fit between [`START_ADDR`] and the end of memory.
#[derive(Clone, Copy, Debug, PartialEq, Eq, Structural)]
pub struct ProgramTooLarge {
    /// Length of the rejected program in bytes.
    pub len: usize,
}

/// The state of a machine as plain mathematical values.
#[verifier::ext_equal]
pub struct MachineState {
    /// Address of the next instruction.
    pub pc: u16,
    /// All of memory, [`RAM_SIZE`] bytes.
    pub memory: Seq<u8>,
    /// The registers `V[0]..=V[F]`.
    pub registers: Seq<u8>,
    /// The address register `I`.
    pub index: u16,
    /// The return addresses of the active calls, oldest first.
    pub stack: Seq<u16>,
    /// For each key, whether it is down.
    pub keys: Seq<bool>,
    pub delay_timer: u8,
    pub sound_timer: u8,
    /// The display, row by row: cell `(x, y)` is at `y * SCREEN_WIDTH + x`.
    pub display: Seq<bool>,
    /// The register that a pending wait-for-key will fill, if one is pending.
    pub awaiting_key: Option<u8>,
}

impl MachineState {
    /// Every part has its fixed size, the stack is within capacity, and a
    /// pending wait-for-key names a register and leaves `pc` room to move
    /// behind its instruction.
    pub open spec fn wf(self) -> bool {
        &&& self.memory.len() == RAM_SIZE
        &&& self.registers.len() == NUM_REGS
        &&& self.stack.len() <= STACK_SIZE
        &&& self.keys.len() == NUM_KEYS
        &&& self.display.len() == SCREEN_SIZE
        &&& self.awaiting_key matches Some(x) ==> x < NUM_REGS && self.pc + 2 <= u16::MAX
    }

    /// The state of a machine that was just built or reset: the font at the
    /// bottom of memory, `pc` at [`START_ADDR`], everything else zero.
    pub open spec fn initial() -> MachineState {
        MachineState {
            pc: START_ADDR,
            memory: Seq::new(
                RAM_SIZE as nat,
                |i: int| if i < FONTSET_SIZE { font_table()[i] } else { 0u8 },
            ),
            registers: Seq::new(NUM_REGS as nat, |i: int| 0u8),
            index: 0,
            stack: Seq::empty(),
            keys: Seq::new(NUM_KEYS as nat, |i: int| false),
            delay_timer: 0,
            sound_timer: 0,
            display: Seq::new(SCREEN_SIZE as nat, |i: int| false),
            awaiting_key: None,
        }
    }

    pub open spec fn run_state(self) -> RunState {
        if self.awaiting_key is Some {
            RunState::AwaitingKey
        } else {
            RunState::Running
        }
    }

    /// The bottom of memory holds the font.
    pub open spec fn font_intact(self) -> bool {
        forall|i: int| 0 <= i < FONTSET_SIZE ==> self.memory[i] == font_table()[i]
    }

    /// `V[x] = value`.
    pub open spec fn set_register(self, x: u8, value: u8) -> MachineState {
        MachineState { registers: self.registers.update(x as int, value), ..self }
    }

    /// The flag register is set to one if `flag` holds and to zero if not.
    pub open spec fn set_flag(self, flag: bool) -> MachineState {
        self.set_register(FLAG_REGISTER as u8, if flag { 1u8 } else { 0u8 })
    }

    /// `V[x] = value`, then the flag register is set to `flag`.
    pub open spec fn set_flagged(self, x: u8, value: u8, flag: bool) -> MachineState {
        self.set_register(x, value).set_flag(flag)
    }

    /// Steps over one more instruction if `condition` holds.
    pub open spec fn skip_if(self, condition: bool) -> MachineState {
        if condition {
            MachineState { pc: (self.pc + 2) as u16, ..self }
        } else {
            self
        }
    }
}

} // verus!
