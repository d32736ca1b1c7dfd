//! The machine itself.

use crate::font::{font_table, FONTSET, FONTSET_SIZE, GLYPH_SIZE};
use crate::instruction::{decode, lemma_encoding_decode, Instruction};
use crate::alu::{add_bytes, add_index, shift_left, shift_right, sub_bytes};
use crate::display::{blank_display, draw_rows};
use crate::keypad::first_pressed_key;
use crate::semantics::{
    call_spec, draw_spec, draws_random, dump_registers_spec, execute_spec, fetch_word,
    key_skip_spec, load_program_spec, load_registers_spec, outcome_is, reset_spec, return_spec,
    step_spec, steps_to, store_bcd_spec, tick_spec, wait_key_spec,
};
use crate::state::{
    Fault, FaultKind, MachineState, ProgramTooLarge, RunState, FLAG_REGISTER, NUM_KEYS, NUM_REGS,
    RAM_SIZE, SCREEN_SIZE, STACK_SIZE, START_ADDR,
};
use vstd::prelude::*;

verus! {

/// A CHIP-8 machine. All of its state is in this one value; several
/// machines do not know of each other.
#[derive(Debug)]
pub struct Emu {
    pc: u16,
    ram: [u8; RAM_SIZE],
    screen: [bool; SCREEN_SIZE],
    v_reg: [u8; NUM_REGS],
    i_reg: u16,
    sp: u16,
    stack: [u16; STACK_SIZE],
    keys: [bool; NUM_KEYS],
    dt: u8,
    st: u8,
    waiting: Option<u8>,
}

impl View for Emu {
    type V = MachineState;

    closed spec fn view(&self) -> MachineState {
        MachineState {
            pc: self.pc,
            memory: self.ram@,
            registers: self.v_reg@,
            index: self.i_reg,
            stack: self.stack@.take(self.sp as int),
            keys: self.keys@,
            delay_timer: self.dt,
            sound_timer: self.st,
            display: self.screen@,
            awaiting_key: self.waiting,
        }
    }
}

impl Clone for Emu {
    fn clone(&self) -> (r: Self)
        ensures
            r@ == self@,
    {
        proof {
            use_type_invariant(self);
        }
        Emu {
            pc: self.pc,
            ram: self.ram,
            screen: self.screen,
            v_reg: self.v_reg,
            i_reg: self.i_reg,
            sp: self.sp,
            stack: self.stack,
            keys: self.keys,
            dt: self.dt,
            st: self.st,
            waiting: self.waiting,
        }
    }
}

/// Memory as it is after construction: the font, then zeros.
fn initial_memory() -> (ram: [u8; RAM_SIZE])
    ensures
        ram@ == MachineState::initial().memory,
{
    let mut ram: [u8; RAM_SIZE] = [0u8; RAM_SIZE];
    let mut i: usize = 0;
    while i < FONTSET_SIZE
        invariant
            i <= FONTSET_SIZE,
            forall|j: int| 0 <= j < i ==> ram@[j] == font_table()[j],
            forall|j: int| i <= j < RAM_SIZE ==> ram@[j] == 0,
        decreases FONTSET_SIZE - i,
    {
        ram[i] = FONTSET[i];
        i += 1;
    }
    ram
}

/// One byte from `rand::random`, which draws it from the thread's generator.
/// Nothing is claimed of the byte. `rand::random` panics where the operating
/// system cannot seed the generator; no argument decides that.
#[verifier::external_body]
fn random_byte() -> u8 {
    rand::random::<u8>()
}

impl Emu {
    #[verifier::type_invariant]
    spec fn inv(&self) -> bool {
        &&& self.sp <= STACK_SIZE
        &&& self.waiting matches Some(x) ==> x < NUM_REGS && self.pc + 2 <= u16::MAX
    }

    /// A machine with the font loaded, `pc` at [`START_ADDR`] and everything
    /// else zero.
    pub fn new() -> (r: Self)
        ensures
            r@ == MachineState::initial(),
            r@.wf(),
            r@.font_intact(),
    {
        Emu {
            pc: START_ADDR,
            ram: initial_memory(),
            screen: [false; SCREEN_SIZE],
            v_reg: [0u8; NUM_REGS],
            i_reg: 0,
            sp: 0,
            stack: [0u16; STACK_SIZE],
            keys: [false; NUM_KEYS],
            dt: 0,
            st: 0,
            waiting: None,
        }
    }

    /// Puts the machine back into the state in which [`Emu::new`] builds it.
    /// A loaded program is gone afterwards.
    pub fn reset(&mut self)
        ensures
            final(self)@ == reset_spec(old(self)@),
            final(self)@.wf(),
            final(self)@.font_intact(),
    {
        *self = Emu::new();
    }

    /// Copies `program` into memory from [`START_ADDR`] on, or refuses it
    /// whole if it does not fit.
    pub fn load_program(&mut self, program: &[u8]) -> (r: Result<(), ProgramTooLarge>)
        ensures
            final(self)@.wf(),
            program@.len() <= RAM_SIZE - START_ADDR ==> r is Ok && final(self)@ == load_program_spec(
                old(self)@,
                program@,
            ),
            program@.len() > RAM_SIZE - START_ADDR ==> r == Err::<(), ProgramTooLarge>(
                ProgramTooLarge { len: program.len() },
            ) && final(self)@ == old(self)@,
    {
        proof {
            use_type_invariant(&*self);
        }
        let len: usize = program.len();
        if len > RAM_SIZE - START_ADDR as usize {
            return Err(ProgramTooLarge { len });
        }
        let mut i: usize = 0;
        while i < len
            invariant
                i <= len,
                len == program@.len(),
                len <= RAM_SIZE - START_ADDR,
                self.pc == old(self).pc,
                self.screen == old(self).screen,
                self.v_reg == old(self).v_reg,
                self.i_reg == old(self).i_reg,
                self.sp == old(self).sp,
                self.stack == old(self).stack,
                self.keys == old(self).keys,
                self.dt == old(self).dt,
                self.st == old(self).st,
                self.waiting == old(self).waiting,
                self.inv(),
                forall|a: int|
                    0 <= a < RAM_SIZE ==> self.ram@[a] == if START_ADDR <= a < START_ADDR + i {
                        program@[a - START_ADDR]
                    } else {
                        old(self).ram@[a]
                    },
            decreases len - i,
        {
            self.ram[START_ADDR as usize + i] = program[i];
            i += 1;
        }
        Ok(())
    }

    /// Moves both timers one towards zero. Answers whether the sound timer
    /// went from one to zero: the moment at which a tone is due.
    pub fn tick_timers(&mut self) -> (beep: bool)
        ensures
            final(self)@ == tick_spec(old(self)@),
            final(self)@.wf(),
            beep == (old(self)@.sound_timer == 1),
    {
        proof {
            use_type_invariant(&*self);
        }
        if self.dt > 0 {
            self.dt -= 1;
        }
        let beep = self.st == 1;
        if self.st > 0 {
            self.st -= 1;
        }
        beep
    }

    /// Records that key `index` went down or up.
    pub fn set_key(&mut self, index: usize, pressed: bool)
        requires
            index < NUM_KEYS,
        ensures
            final(self)@ == (MachineState {
                keys: old(self)@.keys.update(index as int, pressed),
                ..old(self)@
            }),
            final(self)@.wf(),
    {
        proof {
            use_type_invariant(&*self);
        }
        self.keys[index] = pressed;
    }

    /// The display, row by row.
    pub fn display_snapshot(&self) -> (grid: &[bool; SCREEN_SIZE])
        ensures
            grid@ == self@.display,
            self@.wf(),
    {
        proof {
            use_type_invariant(self);
        }
        &self.screen
    }

    /// Reads the instruction word at `pc` and moves `pc` behind it.
    pub fn fetch(&mut self) -> (r: Result<u16, Fault>)
        ensures
            final(self)@.wf(),
            old(self)@.pc + 1 < RAM_SIZE ==> r == Ok::<u16, Fault>(
                fetch_word(old(self)@.memory, old(self)@.pc),
            ) && final(self)@ == (MachineState { pc: (old(self)@.pc + 2) as u16, ..old(self)@ }),
            old(self)@.pc + 1 >= RAM_SIZE ==> r == Err::<u16, Fault>(
                Fault {
                    kind: FaultKind::FetchOutOfBounds,
                    address: old(self)@.pc,
                    opcode: None,
                },
            ) && final(self)@ == old(self)@,
    {
        proof {
            use_type_invariant(&*self);
        }
        let pc: usize = self.pc as usize;
        if pc + 1 >= RAM_SIZE {
            return Err(Fault { kind: FaultKind::FetchOutOfBounds, address: self.pc, opcode: None });
        }
        let high: u16 = self.ram[pc] as u16;
        let low: u16 = self.ram[pc + 1] as u16;
        assert(high < 0x100 && low < 0x100 ==> (high << 8) | low == high * 0x100 + low)
            by (bit_vector);
        self.pc += 2;
        Ok((high << 8) | low)
    }

    /// `V[x] = value`, then the flag register is set to `flag`.
    fn set_flagged(&mut self, x: u8, value: u8, flag: bool)
        requires
            x < NUM_REGS,
        ensures
            final(self)@ == old(self)@.set_flagged(x, value, flag),
    {
        proof {
            use_type_invariant(&*self);
        }
        self.v_reg[x as usize] = value;
        self.v_reg[FLAG_REGISTER] = if flag { 1 } else { 0 };
    }

    /// Steps over one more instruction if `condition` holds.
    fn skip_if(&mut self, condition: bool)
        requires
            old(self)@.pc <= RAM_SIZE,
            old(self)@.awaiting_key is None,
        ensures
            final(self)@ == old(self)@.skip_if(condition),
    {
        proof {
            use_type_invariant(&*self);
        }
        if condition {
            self.pc += 2;
        }
    }

    /// Stores the three decimal digits of `value` at `I`.
    fn store_bcd(&mut self, value: u8) -> (r: Result<(), FaultKind>)
        ensures
            outcome_is(store_bcd_spec(old(self)@, value), old(self)@, final(self)@, r),
    {
        proof {
            use_type_invariant(&*self);
        }
        let at: usize = self.i_reg as usize;
        if at + 3 > RAM_SIZE {
            return Err(FaultKind::MemoryOutOfBounds);
        }
        self.ram[at] = value / 100;
        self.ram[at + 1] = (value / 10) % 10;
        self.ram[at + 2] = value % 10;
        Ok(())
    }

    /// Stores `V[0]..=V[x]` at `I`.
    fn dump_registers(&mut self, x: u8) -> (r: Result<(), FaultKind>)
        requires
            x < NUM_REGS,
        ensures
            outcome_is(dump_registers_spec(old(self)@, x), old(self)@, final(self)@, r),
    {
        proof {
            use_type_invariant(&*self);
        }
        let at: usize = self.i_reg as usize;
        if at + x as usize + 1 > RAM_SIZE {
            return Err(FaultKind::MemoryOutOfBounds);
        }
        let mut k: usize = 0;
        while k <= x as usize
            invariant
                k <= x + 1,
                x < NUM_REGS,
                at == old(self).i_reg,
                at + x + 1 <= RAM_SIZE,
                self.inv(),
                self.pc == old(self).pc,
                self.screen == old(self).screen,
                self.v_reg == old(self).v_reg,
                self.i_reg == old(self).i_reg,
                self.sp == old(self).sp,
                self.stack == old(self).stack,
                self.keys == old(self).keys,
                self.dt == old(self).dt,
                self.st == old(self).st,
                self.waiting == old(self).waiting,
                forall|a: int|
                    0 <= a < RAM_SIZE ==> self.ram@[a] == if at <= a < at + k {
                        old(self).v_reg@[a - at]
                    } else {
                        old(self).ram@[a]
                    },
            decreases x + 1 - k,
        {
            self.ram[at + k] = self.v_reg[k];
            k += 1;
        }
        proof {
            assert(self@.memory =~= dump_registers_spec(old(self)@, x)->Ok_0.memory);
        }
        Ok(())
    }

    /// Loads `V[0]..=V[x]` from `I`.
    fn load_registers(&mut self, x: u8) -> (r: Result<(), FaultKind>)
        requires
            x < NUM_REGS,
        ensures
            outcome_is(load_registers_spec(old(self)@, x), old(self)@, final(self)@, r),
    {
        proof {
            use_type_invariant(&*self);
        }
        let at: usize = self.i_reg as usize;
        if at + x as usize + 1 > RAM_SIZE {
            return Err(FaultKind::MemoryOutOfBounds);
        }
        let mut k: usize = 0;
        while k <= x as usize
            invariant
                k <= x + 1,
                x < NUM_REGS,
                at == old(self).i_reg,
                at + x + 1 <= RAM_SIZE,
                self.inv(),
                self.pc == old(self).pc,
                self.screen == old(self).screen,
                self.ram == old(self).ram,
                self.i_reg == old(self).i_reg,
                self.sp == old(self).sp,
                self.stack == old(self).stack,
                self.keys == old(self).keys,
                self.dt == old(self).dt,
                self.st == old(self).st,
                self.waiting == old(self).waiting,
                forall|r: int|
                    0 <= r < NUM_REGS ==> self.v_reg@[r] == if r < k {
                        old(self).ram@[at + r]
                    } else {
                        old(self).v_reg@[r]
                    },
            decreases x + 1 - k,
        {
            self.v_reg[k] = self.ram[at + k];
            k += 1;
        }
        proof {
            assert(self@.registers =~= load_registers_spec(old(self)@, x)->Ok_0.registers);
        }
        Ok(())
    }

    /// The value of `V[x]`.
    fn register(&self, x: u8) -> (value: u8)
        requires
            x < NUM_REGS,
        ensures
            value == self@.registers[x as int],
    {
        self.v_reg[x as usize]
    }

    /// `V[x] = value`.
    fn set_register(&mut self, x: u8, value: u8)
        requires
            x < NUM_REGS,
        ensures
            final(self)@ == old(self)@.set_register(x, value),
    {
        proof {
            use_type_invariant(&*self);
        }
        self.v_reg[x as usize] = value;
    }

    /// `I = index`.
    fn set_index(&mut self, index: u16)
        ensures
            final(self)@ == (MachineState { index, ..old(self)@ }),
    {
        proof {
            use_type_invariant(&*self);
        }
        self.i_reg = index;
    }

    /// Continues at `addr`.
    fn jump(&mut self, addr: u16)
        requires
            old(self)@.awaiting_key is None,
        ensures
            final(self)@ == (MachineState { pc: addr, ..old(self)@ }),
    {
        proof {
            use_type_invariant(&*self);
        }
        self.pc = addr;
    }

    /// Switches every pixel off.
    fn clear_screen(&mut self)
        ensures
            final(self)@ == (MachineState { display: blank_display(), ..old(self)@ }),
    {
        proof {
            use_type_invariant(&*self);
        }
        self.screen = [false; SCREEN_SIZE];
    }

    /// Pushes `pc` and continues at `addr`, unless the stack is full.
    fn call(&mut self, addr: u16) -> (r: Result<(), FaultKind>)
        requires
            old(self)@.awaiting_key is None,
        ensures
            outcome_is(call_spec(old(self)@, addr), old(self)@, final(self)@, r),
    {
        proof {
            use_type_invariant(&*self);
        }
        if self.sp as usize >= STACK_SIZE {
            return Err(FaultKind::StackOverflow);
        }
        self.stack[self.sp as usize] = self.pc;
        self.sp += 1;
        self.pc = addr;
        proof {
            assert(self@.stack =~= old(self)@.stack.push(old(self)@.pc));
        }
        Ok(())
    }

    /// Pops the latest return address into `pc`, unless the stack is empty.
    fn ret(&mut self) -> (r: Result<(), FaultKind>)
        requires
            old(self)@.awaiting_key is None,
        ensures
            outcome_is(return_spec(old(self)@), old(self)@, final(self)@, r),
    {
        proof {
            use_type_invariant(&*self);
        }
        if self.sp == 0 {
            return Err(FaultKind::StackUnderflow);
        }
        self.sp -= 1;
        self.pc = self.stack[self.sp as usize];
        proof {
            assert(self@.stack =~= old(self)@.stack.drop_last());
        }
        Ok(())
    }

    /// Draws the `n`-row sprite at `I` at `(vx, vy)` and sets the flag
    /// register to whether a lit cell went dark.
    fn draw(&mut self, vx: u8, vy: u8, n: u8) -> (r: Result<(), FaultKind>)
        requires
            n < 16,
        ensures
            outcome_is(draw_spec(old(self)@, vx, vy, n), old(self)@, final(self)@, r),
    {
        proof {
            use_type_invariant(&*self);
        }
        if n > 0 && self.i_reg as usize + n as usize > RAM_SIZE {
            return Err(FaultKind::MemoryOutOfBounds);
        }
        let collision = draw_rows(&mut self.screen, &self.ram, self.i_reg, n, vx, vy);
        self.v_reg[FLAG_REGISTER] = if collision { 1 } else { 0 };
        Ok(())
    }

    /// Skips the next instruction if key `V[x]` is down when `wanted` holds,
    /// up when it does not.
    fn key_skip(&mut self, x: u8, wanted: bool) -> (r: Result<(), FaultKind>)
        requires
            x < NUM_REGS,
            old(self)@.pc <= RAM_SIZE,
            old(self)@.awaiting_key is None,
        ensures
            outcome_is(key_skip_spec(old(self)@, x, wanted), old(self)@, final(self)@, r),
    {
        let key: usize = self.v_reg[x as usize] as usize;
        if key >= NUM_KEYS {
            return Err(FaultKind::KeyOutOfRange);
        }
        self.skip_if(self.keys[key] == wanted);
        Ok(())
    }

    /// Stores the lowest key that is down in `V[x]`; if none is, steps back
    /// onto the instruction and starts to wait.
    fn wait_key(&mut self, x: u8)
        requires
            x < NUM_REGS,
            2 <= old(self)@.pc <= RAM_SIZE,
            old(self)@.awaiting_key is None,
        ensures
            final(self)@ == wait_key_spec(old(self)@, x),
    {
        proof {
            use_type_invariant(&*self);
        }
        match first_pressed_key(&self.keys) {
            Some(key) => {
                self.v_reg[x as usize] = key;
            },
            None => {
                self.pc -= 2;
                self.waiting = Some(x);
            },
        }
    }

    /// Sets the delay timer.
    fn set_delay(&mut self, value: u8)
        ensures
            final(self)@ == (MachineState { delay_timer: value, ..old(self)@ }),
    {
        proof {
            use_type_invariant(&*self);
        }
        self.dt = value;
    }

    /// Sets the sound timer.
    fn set_sound(&mut self, value: u8)
        ensures
            final(self)@ == (MachineState { sound_timer: value, ..old(self)@ }),
    {
        proof {
            use_type_invariant(&*self);
        }
        self.st = value;
    }

    /// Carries out `ins` on a machine whose `pc` already stands behind it.
    /// An instruction that faults changes nothing.
    fn execute(&mut self, ins: Instruction, random: u8) -> (r: Result<(), FaultKind>)
        requires
            ins.wf(),
            2 <= old(self)@.pc <= RAM_SIZE,
            old(self)@.awaiting_key is None,
        ensures
            outcome_is(execute_spec(old(self)@, ins, random), old(self)@, final(self)@, r),
    {
        match ins {
            Instruction::ClearScreen => self.clear_screen(),
            Instruction::Return => {
                return self.ret();
            },
            Instruction::Jump { addr } => self.jump(addr),
            Instruction::Call { addr } => {
                return self.call(addr);
            },
            Instruction::SkipEqImm { x, nn } => self.skip_if(self.register(x) == nn),
            Instruction::SkipNeImm { x, nn } => self.skip_if(self.register(x) != nn),
            Instruction::SkipEqReg { x, y } => self.skip_if(self.register(x) == self.register(y)),
            Instruction::LoadImm { x, nn } => self.set_register(x, nn),
            Instruction::AddImm { x, nn } => self.set_register(x, add_bytes(self.register(x), nn).0),
            Instruction::LoadReg { x, y } => self.set_register(x, self.register(y)),
            Instruction::Or { x, y } => self.set_register(x, self.register(x) | self.register(y)),
            Instruction::And { x, y } => self.set_register(x, self.register(x) & self.register(y)),
            Instruction::Xor { x, y } => self.set_register(x, self.register(x) ^ self.register(y)),
            Instruction::AddReg { x, y } => {
                let (value, carry) = add_bytes(self.register(x), self.register(y));
                self.set_flagged(x, value, carry);
            },
            Instruction::SubReg { x, y } => {
                let (value, no_borrow) = sub_bytes(self.register(x), self.register(y));
                self.set_flagged(x, value, no_borrow);
            },
            Instruction::ShiftRight { x, y: _ } => {
                let (value, out) = shift_right(self.register(x));
                self.set_flagged(x, value, out);
            },
            Instruction::SubFrom { x, y } => {
                let (value, no_borrow) = sub_bytes(self.register(y), self.register(x));
                self.set_flagged(x, value, no_borrow);
            },
            Instruction::ShiftLeft { x, y: _ } => {
                let (value, out) = shift_left(self.register(x));
                self.set_flagged(x, value, out);
            },
            Instruction::SkipNeReg { x, y } => self.skip_if(self.register(x) != self.register(y)),
            Instruction::LoadIndex { addr } => self.set_index(addr),
            Instruction::JumpOffset { addr } => self.jump(addr + self.register(0) as u16),
            Instruction::Random { x, nn } => self.set_register(x, random & nn),
            Instruction::Draw { x, y, n } => {
                return self.draw(self.register(x), self.register(y), n);
            },
            Instruction::SkipIfKey { x } => {
                return self.key_skip(x, true);
            },
            Instruction::SkipIfNotKey { x } => {
                return self.key_skip(x, false);
            },
            Instruction::LoadDelay { x } => self.set_register(x, self.delay_timer()),
            Instruction::WaitKey { x } => self.wait_key(x),
            Instruction::SetDelay { x } => self.set_delay(self.register(x)),
            Instruction::SetSound { x } => self.set_sound(self.register(x)),
            Instruction::AddIndex { x } => self.set_index(
                add_index(self.index_register(), self.register(x)),
            ),
            Instruction::FontAddress { x } => self.set_index(
                self.register(x) as u16 * GLYPH_SIZE as u16,
            ),
            Instruction::StoreBcd { x } => {
                return self.store_bcd(self.register(x));
            },
            Instruction::DumpRegisters { x } => {
                return self.dump_registers(x);
            },
            Instruction::LoadRegisters { x } => {
                return self.load_registers(x);
            },
        }
        Ok(())
    }

    /// The address of the next instruction.
    pub fn pc(&self) -> (value: u16)
        ensures
            value == self@.pc,
    {
        self.pc
    }

    /// The address register `I`.
    pub fn index_register(&self) -> (value: u16)
        ensures
            value == self@.index,
    {
        self.i_reg
    }

    /// The registers `V[0]..=V[F]`.
    pub fn registers(&self) -> (values: &[u8; NUM_REGS])
        ensures
            values@ == self@.registers,
    {
        &self.v_reg
    }

    /// All of memory.
    pub fn memory(&self) -> (bytes: &[u8; RAM_SIZE])
        ensures
            bytes@ == self@.memory,
    {
        &self.ram
    }

    /// For each key, whether it is down.
    pub fn keys(&self) -> (down: &[bool; NUM_KEYS])
        ensures
            down@ == self@.keys,
    {
        &self.keys
    }

    /// The number of calls that have not returned yet.
    pub fn stack_pointer(&self) -> (depth: u16)
        ensures
            depth == self@.stack.len(),
    {
        proof {
            use_type_invariant(self);
        }
        self.sp
    }

    /// The return address of the latest call that has not returned yet.
    pub fn return_address(&self) -> (addr: Option<u16>)
        ensures
            addr == if self@.stack.len() == 0 {
                None
            } else {
                Some(self@.stack.last())
            },
    {
        proof {
            use_type_invariant(self);
        }
        if self.sp == 0 {
            None
        } else {
            Some(self.stack[self.sp as usize - 1])
        }
    }

    /// The delay timer.
    pub fn delay_timer(&self) -> (value: u8)
        ensures
            value == self@.delay_timer,
    {
        self.dt
    }

    /// The sound timer.
    pub fn sound_timer(&self) -> (value: u8)
        ensures
            value == self@.sound_timer,
    {
        self.st
    }

    /// Whether the machine executes instructions or waits for a key.
    pub fn run_state(&self) -> (r: RunState)
        ensures
            r == self@.run_state(),
            self@.wf(),
    {
        proof {
            use_type_invariant(self);
        }
        match self.waiting {
            Some(_) => RunState::AwaitingKey,
            None => RunState::Running,
        }
    }

    /// One step, with the byte of a random instruction either given or,
    /// where none is given, drawn when such an instruction is executed.
    fn step_drawing(&mut self, given: Option<u8>) -> (r: Result<RunState, Fault>)
        ensures
            final(self)@.wf(),
            given matches Some(random) ==> steps_to(old(self)@, random, final(self)@, r),
            exists|random: u8| steps_to(old(self)@, random, final(self)@, r),
            !draws_random(old(self)@) ==> forall|random: u8|
                steps_to(old(self)@, random, final(self)@, r),
    {
        proof {
            use_type_invariant(&*self);
        }
        let ghost pre = self@;
        if let Some(x) = self.waiting {
            let r = match first_pressed_key(&self.keys) {
                Some(key) => {
                    self.v_reg[x as usize] = key;
                    self.waiting = None;
                    self.pc += 2;
                    Ok(RunState::Running)
                },
                None => Ok(RunState::AwaitingKey),
            };
            proof {
                assert(steps_to(pre, 0, self@, r));
            }
            return r;
        }
        let address: u16 = self.pc;
        let word: u16 = match self.fetch() {
            Ok(word) => word,
            Err(fault) => {
                proof {
                    assert(steps_to(pre, 0, self@, Err::<RunState, Fault>(fault)));
                }
                return Err(fault);
            },
        };
        let ins: Instruction = match decode(word) {
            Some(ins) => ins,
            None => {
                proof {
                    use_type_invariant(&*self);
                }
                self.pc = address;
                let fault = Fault { kind: FaultKind::UnknownOpcode, address, opcode: Some(word) };
                proof {
                    assert(steps_to(pre, 0, self@, Err::<RunState, Fault>(fault)));
                }
                return Err(fault);
            },
        };
        proof {
            lemma_encoding_decode(word);
        }
        let random: u8 = match (given, ins) {
            (Some(random), _) => random,
            (None, Instruction::Random { .. }) => random_byte(),
            (None, _) => 0,
        };
        let r = match self.execute(ins, random) {
            Ok(()) => Ok(self.run_state()),
            Err(kind) => {
                proof {
                    use_type_invariant(&*self);
                }
                self.pc = address;
                Err(Fault { kind, address, opcode: Some(word) })
            },
        };
        proof {
            assert(steps_to(pre, random, self@, r));
        }
        r
    }

    /// One step with `random` as the byte that a random instruction would
    /// draw: the machine does exactly what [`step_spec`] says.
    pub fn step_with_random(&mut self, random: u8) -> (r: Result<RunState, Fault>)
        ensures
            final(self)@ == step_spec(old(self)@, random).0,
            r == step_spec(old(self)@, random).1,
            final(self)@.wf(),
    {
        self.step_drawing(Some(random))
    }

    /// One step: a waiting machine looks for a key, a running machine
    /// fetches, decodes and executes one instruction. A random instruction
    /// draws its byte afresh, so its outcome is that of
    /// [`Emu::step_with_random`] for some byte; every other step has the one
    /// outcome that it has for any byte.
    pub fn step(&mut self) -> (r: Result<RunState, Fault>)
        ensures
            exists|random: u8| steps_to(old(self)@, random, final(self)@, r),
            !draws_random(old(self)@) ==> forall|random: u8|
                steps_to(old(self)@, random, final(self)@, r),
            final(self)@.wf(),
    {
        self.step_drawing(None)
    }
}

} // verus!
