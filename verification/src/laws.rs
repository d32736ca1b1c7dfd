//! Laws of the machine: what holds of every state and every instruction.

use crate::display::{
    cell_of, draw_collides, draw_display, lemma_cell_of, sprite_bit, sprite_pixel, sprite_rows,
};
use crate::font::FONTSET_SIZE;
use crate::instruction::{decode_spec, lemma_encoding_decode, lemma_unknown_word, Instruction};
use crate::semantics::{
    bcd_digits, call_spec, draws_random, execute_spec, fetch_word, load_program_spec, reset_spec,
    return_spec, step_spec, tick_spec,
};
use crate::state::{
    Fault, FaultKind, MachineState, RunState, FLAG_REGISTER, NUM_REGS, RAM_SIZE, SCREEN_HEIGHT,
    SCREEN_SIZE, STACK_SIZE,
};
use vstd::prelude::*;

verus! {

/// The machine after calling each address of `addrs` in turn, or the fault
/// of the first call that found the stack full.
pub open spec fn after_calls(s: MachineState, addrs: Seq<u16>) -> Result<MachineState, FaultKind>
    decreases addrs.len(),
{
    if addrs.len() == 0 {
        Ok(s)
    } else {
        match after_calls(s, addrs.drop_last()) {
            Ok(t) => call_spec(t, addrs.last()),
            Err(kind) => Err(kind),
        }
    }
}

/// The machine after `count` returns in a row, or the fault of the first
/// return that found the stack empty.
pub open spec fn after_returns(s: MachineState, count: nat) -> Result<MachineState, FaultKind>
    decreases count,
{
    if count == 0 {
        Ok(s)
    } else {
        match return_spec(s) {
            Ok(t) => after_returns(t, (count - 1) as nat),
            Err(kind) => Err(kind),
        }
    }
}

/// Calls that fit on the stack all succeed, and each adds one frame.
pub proof fn lemma_calls_fit(s: MachineState, addrs: Seq<u16>)
    requires
        s.stack.len() + addrs.len() <= STACK_SIZE,
    ensures
        after_calls(s, addrs) matches Ok(t) && t.stack.len() == s.stack.len() + addrs.len(),
    decreases addrs.len(),
{
    if addrs.len() > 0 {
        lemma_calls_fit(s, addrs.drop_last());
    }
}

/// A return undoes the call before it: the machine is as it was when the
/// call was issued.
pub proof fn lemma_return_undoes_call(s: MachineState, addr: u16)
    requires
        s.stack.len() < STACK_SIZE,
    ensures
        call_spec(s, addr) matches Ok(t) && return_spec(t) == Ok::<MachineState, FaultKind>(s),
{
    let t = call_spec(s, addr)->Ok_0;
    assert(t.stack.drop_last() =~= s.stack);
}

/// Calls and returns pair up last in, first out: after any calls that fit
/// on the stack, `count` returns lead back to the machine as it was before
/// the last `count` calls. With as many returns as calls, `pc`, the stack
/// and all else are as before the first call.
pub proof fn lemma_stack_round_trip(s: MachineState, addrs: Seq<u16>, count: nat)
    requires
        s.stack.len() + addrs.len() <= STACK_SIZE,
        count <= addrs.len(),
    ensures
        after_calls(s, addrs) matches Ok(t) && after_returns(t, count) == after_calls(
            s,
            addrs.take(addrs.len() - count),
        ),
        count == addrs.len() ==> (after_calls(s, addrs) matches Ok(t) && after_returns(t, count)
            == Ok::<MachineState, FaultKind>(s)),
    decreases count,
{
    lemma_calls_fit(s, addrs);
    let t = after_calls(s, addrs)->Ok_0;
    if count == 0 {
        assert(addrs.take(addrs.len() - count) =~= addrs);
    } else {
        let earlier = addrs.drop_last();
        lemma_calls_fit(s, earlier);
        let before = after_calls(s, earlier)->Ok_0;
        lemma_return_undoes_call(before, addrs.last());
        lemma_stack_round_trip(s, earlier, (count - 1) as nat);
        assert(earlier.take(earlier.len() - (count - 1)) =~= addrs.take(addrs.len() - count));
    }
    if count == addrs.len() {
        assert(addrs.take(0) =~= Seq::<u16>::empty());
    }
}

/// Resetting twice is resetting once.
pub proof fn lemma_reset_idempotent(s: MachineState)
    ensures
        reset_spec(reset_spec(s)) == reset_spec(s),
        reset_spec(s).wf(),
        reset_spec(s).font_intact(),
{
}

/// Loading a program leaves the font alone.
pub proof fn lemma_load_keeps_font(s: MachineState, program: Seq<u8>)
    requires
        s.wf(),
        s.font_intact(),
    ensures
        load_program_spec(s, program).font_intact(),
        load_program_spec(s, program).wf(),
{
}

/// `ins` stores to memory at an address that belongs to the font.
pub open spec fn stores_into_font(s: MachineState, ins: Instruction) -> bool {
    (ins is StoreBcd || ins is DumpRegisters) && s.index < FONTSET_SIZE
}

/// The font stays as it is under every instruction but a store whose
/// address lies in the font.
pub proof fn lemma_execute_keeps_font(s: MachineState, ins: Instruction, random: u8)
    requires
        s.wf(),
        ins.wf(),
        s.font_intact(),
        !stores_into_font(s, ins),
    ensures
        execute_spec(s, ins, random) matches Ok(t) ==> t.font_intact(),
{
}

/// While `I` points behind the font, no step touches the font.
pub proof fn lemma_step_keeps_font(s: MachineState, random: u8)
    requires
        s.wf(),
        s.font_intact(),
        s.index >= FONTSET_SIZE,
    ensures
        step_spec(s, random).0.font_intact(),
{
    if s.awaiting_key is None && s.pc + 1 < RAM_SIZE {
        let word = fetch_word(s.memory, s.pc);
        lemma_encoding_decode(word);
        if let Some(ins) = decode_spec(word) {
            lemma_execute_keeps_font(MachineState { pc: (s.pc + 2) as u16, ..s }, ins, random);
        }
    }
}

/// Clear-screen leaves no pixel on, whatever was drawn before.
pub proof fn lemma_clear_screen(s: MachineState, random: u8)
    ensures
        execute_spec(s, Instruction::ClearScreen, random) matches Ok(t) && t.display.len()
            == SCREEN_SIZE && forall|k: int| 0 <= k < SCREEN_SIZE ==> !t.display[k],
{
}

/// Add-immediate wraps modulo 256 and writes `V[x]` only: the flag register
/// keeps its value unless it is `V[x]` itself.
pub proof fn lemma_add_immediate(s: MachineState, x: u8, nn: u8, random: u8)
    requires
        s.wf(),
        x < NUM_REGS,
    ensures
        execute_spec(s, Instruction::AddImm { x, nn }, random) matches Ok(t) && t.registers[x as int]
            == (s.registers[x as int] + nn) % 0x100 && forall|r: int|
            0 <= r < NUM_REGS && r != x ==> t.registers[r] == s.registers[r],
{
}

/// Add-registers sets the flag register to one exactly when the sum of the
/// two registers exceeds 255, and to zero otherwise.
pub proof fn lemma_add_registers(s: MachineState, x: u8, y: u8, random: u8)
    requires
        s.wf(),
        x < NUM_REGS,
        y < NUM_REGS,
    ensures
        execute_spec(s, Instruction::AddReg { x, y }, random) matches Ok(t) && (
        t.registers[FLAG_REGISTER as int] == 1 <==> s.registers[x as int] + s.registers[y as int]
            > 0xFF) && (t.registers[FLAG_REGISTER as int] == 0 <==> s.registers[x as int]
            + s.registers[y as int] <= 0xFF) && (x != FLAG_REGISTER ==> t.registers[x as int] == (
        s.registers[x as int] + s.registers[y as int]) % 0x100),
{
}

/// The sprite has a set bit somewhere.
pub open spec fn sprite_nonempty(rows: Seq<u8>) -> bool {
    exists|r: int, c: u8| 0 <= r < rows.len() && c < 8 && sprite_bit(rows[r], c)
}

/// No cell that the sprite would draw on is lit.
pub open spec fn region_clear(display: Seq<bool>, rows: Seq<u8>, vx: u8, vy: u8) -> bool {
    forall|k: int| 0 <= k < display.len() && sprite_pixel(rows, vx, vy, k) ==> !display[k]
}

/// Drawing a sprite twice at the same place gives back the display as it
/// was. On a region that was clear the first draw reports no collision, and
/// the second reports one exactly if the sprite has a set bit.
pub proof fn lemma_draw_twice(display: Seq<bool>, rows: Seq<u8>, vx: u8, vy: u8)
    requires
        display.len() == SCREEN_SIZE,
        rows.len() <= SCREEN_HEIGHT,
    ensures
        draw_display(draw_display(display, rows, vx, vy), rows, vx, vy) == display,
        region_clear(display, rows, vx, vy) ==> !draw_collides(display, rows, vx, vy),
        region_clear(display, rows, vx, vy) ==> (draw_collides(
            draw_display(display, rows, vx, vy),
            rows,
            vx,
            vy,
        ) <==> sprite_nonempty(rows)),
{
    let once = draw_display(display, rows, vx, vy);
    assert(draw_display(once, rows, vx, vy) =~= display);
    if region_clear(display, rows, vx, vy) {
        if sprite_nonempty(rows) {
            let (r, c) = choose|r: int, c: u8|
                0 <= r < rows.len() && c < 8 && sprite_bit(rows[r], c);
            lemma_cell_of(vx, vy, r, c as int);
            let k = cell_of(vx, vy, r, c as int);
            assert(sprite_pixel(rows, vx, vy, k));
            assert(once[k]);
        }
        if draw_collides(once, rows, vx, vy) {
            let k = choose|k: int| 0 <= k < once.len() && once[k] && sprite_pixel(rows, vx, vy, k);
            let col = (k % 64 - vx) % 64;
            let row = (k / 64 - vy) % 32;
            assert(sprite_bit(rows[row], col as u8));
        }
    }
}

/// The draw instruction, issued twice from the same registers, gives back
/// the display as it was; on a region that was clear the flag register is
/// zero after the first draw and, for a sprite with a set bit, one after the
/// second. The coordinates must not come from the flag register, which the
/// first draw overwrites.
pub proof fn lemma_draw_instruction_twice(s: MachineState, x: u8, y: u8, n: u8, random: u8)
    requires
        s.wf(),
        x < FLAG_REGISTER,
        y < FLAG_REGISTER,
        n < 16,
        n > 0 ==> s.index + n <= RAM_SIZE,
    ensures
        ({
            let draw = Instruction::Draw { x, y, n };
            let rows = sprite_rows(s.memory, s.index, n);
            let (vx, vy) = (s.registers[x as int], s.registers[y as int]);
            &&& execute_spec(s, draw, random) matches Ok(once)
            &&& execute_spec(once, draw, random) matches Ok(twice)
            &&& twice.display == s.display
            &&& region_clear(s.display, rows, vx, vy) ==> once.registers[FLAG_REGISTER as int] == 0
            &&& region_clear(s.display, rows, vx, vy) && sprite_nonempty(rows)
                ==> twice.registers[FLAG_REGISTER as int] == 1
        }),
{
    let rows = sprite_rows(s.memory, s.index, n);
    let (vx, vy) = (s.registers[x as int], s.registers[y as int]);
    lemma_draw_twice(s.display, rows, vx, vy);
}

/// The drawn byte matters to the random instruction only: every other step
/// ends the same whatever the byte.
pub proof fn lemma_random_matters_to_random_only(s: MachineState, a: u8, b: u8)
    requires
        !draws_random(s),
    ensures
        step_spec(s, a) == step_spec(s, b),
{
}

/// The random instruction never sets a bit outside its mask.
pub proof fn lemma_random_masked(s: MachineState, x: u8, nn: u8, random: u8)
    requires
        s.wf(),
        x < NUM_REGS,
    ensures
        execute_spec(s, Instruction::Random { x, nn }, random) matches Ok(t) && t.registers[x as int]
            & !nn == 0,
{
    assert((random & nn) & !nn == 0) by (bit_vector);
}

/// A word that is the encoding of no instruction is never passed over: the
/// step reports it as an unknown opcode, with its address, and the machine
/// stays as it was.
pub proof fn lemma_unknown_opcode_faults(s: MachineState, random: u8)
    requires
        s.awaiting_key is None,
        s.pc + 1 < RAM_SIZE,
        forall|ins: Instruction|
            ins.wf() ==> #[trigger] ins.encoding() != fetch_word(s.memory, s.pc),
    ensures
        step_spec(s, random).0 == s,
        step_spec(s, random).1 == Err::<RunState, Fault>(
            Fault {
                kind: FaultKind::UnknownOpcode,
                address: s.pc,
                opcode: Some(fetch_word(s.memory, s.pc)),
            },
        ),
{
    lemma_unknown_word(fetch_word(s.memory, s.pc));
}

/// A step that reports a fault leaves the machine as it was, so the same
/// step reports the same fault again: a faulted machine does not move on.
pub proof fn lemma_fault_halts(s: MachineState, random: u8, again: u8)
    requires
        step_spec(s, random).1 is Err,
    ensures
        step_spec(s, random).0 == s,
        step_spec(s, again).1 == step_spec(s, random).1,
        step_spec(s, random).1 matches Err(fault) && fault.address == s.pc,
{
}

/// Steps keep a well-formed machine well formed.
pub proof fn lemma_step_keeps_wf(s: MachineState, random: u8)
    requires
        s.wf(),
    ensures
        step_spec(s, random).0.wf(),
{
}

/// What an instruction leaves alone. No instruction writes the keys; the
/// display changes under clear-screen and draw only, memory under the two
/// stores only, the stack under call and return only, and each timer under
/// the instruction that sets it only.
pub proof fn lemma_execute_frame(s: MachineState, ins: Instruction, random: u8)
    ensures
        execute_spec(s, ins, random) matches Ok(t) ==> {
            &&& t.keys == s.keys
            &&& ins !is ClearScreen && ins !is Draw ==> t.display == s.display
            &&& ins !is StoreBcd && ins !is DumpRegisters ==> t.memory == s.memory
            &&& ins !is Call && ins !is Return ==> t.stack == s.stack
            &&& ins !is SetDelay ==> t.delay_timer == s.delay_timer
            &&& ins !is SetSound ==> t.sound_timer == s.sound_timer
        },
{
}

/// No step writes the keys: they belong to the keypad.
pub proof fn lemma_step_leaves_keys(s: MachineState, random: u8)
    ensures
        step_spec(s, random).0.keys == s.keys,
{
    if s.awaiting_key is None && s.pc + 1 < RAM_SIZE {
        if let Some(ins) = decode_spec(fetch_word(s.memory, s.pc)) {
            lemma_execute_frame(MachineState { pc: (s.pc + 2) as u16, ..s }, ins, random);
        }
    }
}

/// Ticking a timer that is at zero leaves it there, and the sound timer
/// reaches zero from one only.
pub proof fn lemma_tick_towards_zero(s: MachineState)
    ensures
        tick_spec(s).delay_timer <= s.delay_timer,
        tick_spec(s).sound_timer <= s.sound_timer,
        s.delay_timer == 0 ==> tick_spec(s).delay_timer == 0,
        s.sound_timer == 0 ==> tick_spec(s).sound_timer == 0,
        s.sound_timer > 0 && tick_spec(s).sound_timer == 0 <==> s.sound_timer == 1,
{
}

/// The digits that store-BCD writes are decimal digits, and they spell the
/// value.
pub proof fn lemma_bcd_digits(value: u8)
    ensures
        ({
            let (hundreds, tens, ones) = bcd_digits(value);
            &&& hundreds < 10
            &&& tens < 10
            &&& ones < 10
            &&& hundreds * 100 + tens * 10 + ones == value
        }),
{
}

} // verus!
