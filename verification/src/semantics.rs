//! What each operation does, as functions on [`MachineState`].

use crate::display::{blank_display, draw_collides, draw_display, sprite_rows};
use crate::font::GLYPH_SIZE;
use crate::instruction::{decode_spec, Instruction};
use crate::keypad::first_pressed;
use crate::state::{
    Fault, FaultKind, MachineState, RunState, NUM_KEYS, RAM_SIZE, STACK_SIZE, START_ADDR,
};
use vstd::prelude::*;

verus! {

/// The instruction word at `pc`: two bytes, the high one first.
pub open spec fn fetch_word(memory: Seq<u8>, pc: u16) -> u16 {
    (memory[pc as int] * 0x100 + memory[pc + 1]) as u16
}

/// The hundreds, tens and ones digit of `value`.
pub open spec fn bcd_digits(value: u8) -> (u8, u8, u8) {
    (value / 100, (value / 10) % 10, value % 10)
}

/// Return: the latest return address goes into `pc`; an empty stack faults.
pub open spec fn return_spec(s: MachineState) -> Result<MachineState, FaultKind> {
    if s.stack.len() == 0 {
        Err(FaultKind::StackUnderflow)
    } else {
        Ok(MachineState { pc: s.stack.last(), stack: s.stack.drop_last(), ..s })
    }
}

/// Call: `pc` is pushed and execution continues at `addr`; a full stack
/// faults.
pub open spec fn call_spec(s: MachineState, addr: u16) -> Result<MachineState, FaultKind> {
    if s.stack.len() >= STACK_SIZE {
        Err(FaultKind::StackOverflow)
    } else {
        Ok(MachineState { pc: addr, stack: s.stack.push(s.pc), ..s })
    }
}

/// Draw: the `n` rows at `I` are XORed onto the display at `(vx, vy)` and
/// the flag register says whether a lit cell went dark. Rows that do not all
/// lie in memory fault.
pub open spec fn draw_spec(s: MachineState, vx: u8, vy: u8, n: u8) -> Result<
    MachineState,
    FaultKind,
> {
    if n > 0 && s.index + n > RAM_SIZE {
        Err(FaultKind::MemoryOutOfBounds)
    } else {
        let rows = sprite_rows(s.memory, s.index, n);
        Ok(
            MachineState { display: draw_display(s.display, rows, vx, vy), ..s }.set_flag(
                draw_collides(s.display, rows, vx, vy),
            ),
        )
    }
}

/// Skip on a key: the next instruction is skipped if key `V[x]` is down
/// when `wanted` holds, up when it does not. A key that the keypad does not
/// have faults.
pub open spec fn key_skip_spec(s: MachineState, x: u8, wanted: bool) -> Result<
    MachineState,
    FaultKind,
> {
    let key = s.registers[x as int];
    if key >= NUM_KEYS {
        Err(FaultKind::KeyOutOfRange)
    } else {
        Ok(s.skip_if(s.keys[key as int] == wanted))
    }
}

/// Wait for a key: the lowest key that is down goes into `V[x]`; if none is
/// down, `pc` steps back onto the instruction and the machine waits.
pub open spec fn wait_key_spec(s: MachineState, x: u8) -> MachineState {
    match first_pressed(s.keys) {
        Some(key) => s.set_register(x, key),
        None => MachineState { pc: (s.pc - 2) as u16, awaiting_key: Some(x), ..s },
    }
}

/// Store BCD: the three decimal digits of `value` go to `I`, `I + 1` and
/// `I + 2`; a digit past the end of memory faults.
pub open spec fn store_bcd_spec(s: MachineState, value: u8) -> Result<MachineState, FaultKind> {
    if s.index + 3 > RAM_SIZE {
        Err(FaultKind::MemoryOutOfBounds)
    } else {
        let (hundreds, tens, ones) = bcd_digits(value);
        Ok(
            MachineState {
                memory: s.memory.update(s.index as int, hundreds).update(s.index + 1, tens).update(
                    s.index + 2,
                    ones,
                ),
                ..s
            },
        )
    }
}

/// Register dump: `V[0]..=V[x]` go to memory from `I` on; a byte past the
/// end of memory faults.
pub open spec fn dump_registers_spec(s: MachineState, x: u8) -> Result<MachineState, FaultKind> {
    if s.index + x + 1 > RAM_SIZE {
        Err(FaultKind::MemoryOutOfBounds)
    } else {
        Ok(
            MachineState {
                memory: Seq::new(
                    s.memory.len(),
                    |a: int|
                        if s.index <= a <= s.index + x {
                            s.registers[a - s.index]
                        } else {
                            s.memory[a]
                        },
                ),
                ..s
            },
        )
    }
}

/// Register load: `V[0]..=V[x]` come from memory from `I` on; a byte past
/// the end of memory faults.
pub open spec fn load_registers_spec(s: MachineState, x: u8) -> Result<MachineState, FaultKind> {
    if s.index + x + 1 > RAM_SIZE {
        Err(FaultKind::MemoryOutOfBounds)
    } else {
        Ok(
            MachineState {
                registers: Seq::new(
                    s.registers.len(),
                    |r: int| if r <= x { s.memory[s.index + r] } else { s.registers[r] },
                ),
                ..s
            },
        )
    }
}

/// The effect of one instruction on a machine whose `pc` already stands
/// behind it. `random` is the byte that the random instruction draws.
///
/// Where an instruction writes both `V[x]` and the flag register, the flag
/// is written last.
pub open spec fn execute_spec(s: MachineState, ins: Instruction, random: u8) -> Result<
    MachineState,
    FaultKind,
> {
    let v = s.registers;
    match ins {
        Instruction::ClearScreen => Ok(MachineState { display: blank_display(), ..s }),
        Instruction::Return => return_spec(s),
        Instruction::Jump { addr } => Ok(MachineState { pc: addr, ..s }),
        Instruction::Call { addr } => call_spec(s, addr),
        Instruction::SkipEqImm { x, nn } => Ok(s.skip_if(v[x as int] == nn)),
        Instruction::SkipNeImm { x, nn } => Ok(s.skip_if(v[x as int] != nn)),
        Instruction::SkipEqReg { x, y } => Ok(s.skip_if(v[x as int] == v[y as int])),
        Instruction::LoadImm { x, nn } => Ok(s.set_register(x, nn)),
        Instruction::AddImm { x, nn } => Ok(s.set_register(x, ((v[x as int] + nn) % 0x100) as u8)),
        Instruction::LoadReg { x, y } => Ok(s.set_register(x, v[y as int])),
        Instruction::Or { x, y } => Ok(s.set_register(x, v[x as int] | v[y as int])),
        Instruction::And { x, y } => Ok(s.set_register(x, v[x as int] & v[y as int])),
        Instruction::Xor { x, y } => Ok(s.set_register(x, v[x as int] ^ v[y as int])),
        Instruction::AddReg { x, y } => {
            let sum = v[x as int] + v[y as int];
            Ok(s.set_flagged(x, (sum % 0x100) as u8, sum > 0xFF))
        },
        Instruction::SubReg { x, y } => {
            let difference = v[x as int] - v[y as int];
            Ok(s.set_flagged(x, (difference % 0x100) as u8, v[x as int] >= v[y as int]))
        },
        Instruction::ShiftRight { x, .. } => Ok(
            s.set_flagged(x, v[x as int] / 2, v[x as int] % 2 == 1),
        ),
        Instruction::SubFrom { x, y } => {
            let difference = v[y as int] - v[x as int];
            Ok(s.set_flagged(x, (difference % 0x100) as u8, v[y as int] >= v[x as int]))
        },
        Instruction::ShiftLeft { x, .. } => Ok(
            s.set_flagged(x, ((v[x as int] * 2) % 0x100) as u8, v[x as int] >= 0x80),
        ),
        Instruction::SkipNeReg { x, y } => Ok(s.skip_if(v[x as int] != v[y as int])),
        Instruction::LoadIndex { addr } => Ok(MachineState { index: addr, ..s }),
        Instruction::JumpOffset { addr } => Ok(MachineState { pc: (addr + v[0]) as u16, ..s }),
        Instruction::Random { x, nn } => Ok(s.set_register(x, random & nn)),
        Instruction::Draw { x, y, n } => draw_spec(s, v[x as int], v[y as int], n),
        Instruction::SkipIfKey { x } => key_skip_spec(s, x, true),
        Instruction::SkipIfNotKey { x } => key_skip_spec(s, x, false),
        Instruction::LoadDelay { x } => Ok(s.set_register(x, s.delay_timer)),
        Instruction::WaitKey { x } => Ok(wait_key_spec(s, x)),
        Instruction::SetDelay { x } => Ok(MachineState { delay_timer: v[x as int], ..s }),
        Instruction::SetSound { x } => Ok(MachineState { sound_timer: v[x as int], ..s }),
        Instruction::AddIndex { x } => Ok(
            MachineState { index: ((s.index + v[x as int]) % 0x1_0000) as u16, ..s },
        ),
        Instruction::FontAddress { x } => Ok(
            MachineState { index: (v[x as int] * GLYPH_SIZE) as u16, ..s },
        ),
        Instruction::StoreBcd { x } => store_bcd_spec(s, v[x as int]),
        Instruction::DumpRegisters { x } => dump_registers_spec(s, x),
        Instruction::LoadRegisters { x } => load_registers_spec(s, x),
    }
}

/// An operation that was to end as `expected` left `post` behind and
/// answered `r`: on a fault the machine is as it was in `pre`.
pub open spec fn outcome_is(
    expected: Result<MachineState, FaultKind>,
    pre: MachineState,
    post: MachineState,
    r: Result<(), FaultKind>,
) -> bool {
    match expected {
        Ok(next) => r is Ok && post == next,
        Err(kind) => r == Err::<(), FaultKind>(kind) && post == pre,
    }
}

/// The machine after a pending wait-for-key on register `x` saw `key`: the
/// key's index is stored and `pc` moves behind the instruction.
pub open spec fn resume_spec(s: MachineState, x: u8, key: u8) -> MachineState {
    MachineState { pc: (s.pc + 2) as u16, awaiting_key: None, ..s.set_register(x, key) }
}

/// One step: the state it leaves and what it reports.
///
/// A machine that waits for a key resumes if a key is down and is left
/// alone otherwise. A running machine fetches, decodes and executes one
/// instruction. A step that reports a fault leaves the state as it was.
pub open spec fn step_spec(s: MachineState, random: u8) -> (MachineState, Result<RunState, Fault>) {
    match s.awaiting_key {
        Some(x) => match first_pressed(s.keys) {
            Some(key) => (resume_spec(s, x, key), Ok(RunState::Running)),
            None => (s, Ok(RunState::AwaitingKey)),
        },
        None => if s.pc + 1 >= RAM_SIZE {
            (s, Err(Fault { kind: FaultKind::FetchOutOfBounds, address: s.pc, opcode: None }))
        } else {
            let word = fetch_word(s.memory, s.pc);
            match decode_spec(word) {
                None => (
                    s,
                    Err(Fault { kind: FaultKind::UnknownOpcode, address: s.pc, opcode: Some(word) }),
                ),
                Some(ins) => match execute_spec(
                    MachineState { pc: (s.pc + 2) as u16, ..s },
                    ins,
                    random,
                ) {
                    Ok(next) => (next, Ok(next.run_state())),
                    Err(kind) => (s, Err(Fault { kind, address: s.pc, opcode: Some(word) })),
                },
            }
        },
    }
}

/// The next step executes a random instruction: the only step whose
/// outcome depends on the drawn byte.
pub open spec fn draws_random(s: MachineState) -> bool {
    &&& s.awaiting_key is None
    &&& s.pc + 1 < RAM_SIZE
    &&& decode_spec(fetch_word(s.memory, s.pc)) matches Some(ins) && ins is Random
}

/// With `random` as the drawn byte, a step from `pre` ends in `post` and
/// reports `report`.
pub open spec fn steps_to(
    pre: MachineState,
    random: u8,
    post: MachineState,
    report: Result<RunState, Fault>,
) -> bool {
    &&& post == step_spec(pre, random).0
    &&& report == step_spec(pre, random).1
}

/// Reset: whatever the machine held, it is as new afterwards.
pub open spec fn reset_spec(s: MachineState) -> MachineState {
    MachineState::initial()
}

/// Both timers after one tick: each moves one towards zero and stays there.
pub open spec fn tick_spec(s: MachineState) -> MachineState {
    MachineState {
        delay_timer: if s.delay_timer > 0 { (s.delay_timer - 1) as u8 } else { 0 },
        sound_timer: if s.sound_timer > 0 { (s.sound_timer - 1) as u8 } else { 0 },
        ..s
    }
}

/// Memory after `program` is copied to [`START_ADDR`].
pub open spec fn load_program_spec(s: MachineState, program: Seq<u8>) -> MachineState {
    MachineState {
        memory: Seq::new(
            s.memory.len(),
            |a: int|
                if START_ADDR <= a < START_ADDR + program.len() {
                    program[a - START_ADDR]
                } else {
                    s.memory[a]
                },
        ),
        ..s
    }
}

} // verus!
