use chip8_core::{Emu, Fault, FaultKind, RunState, RAM_SIZE};

fn machine_with(program: &[u8]) -> Emu {
    let mut emu = Emu::new();
    assert_eq!(emu.load_program(program), Ok(()));
    emu
}

/// Runs `program` from the start, one step per instruction word.
fn run(program: &[u8]) -> Emu {
    let mut emu = machine_with(program);
    for _ in 0..program.len() / 2 {
        assert_eq!(emu.step_with_random(0), Ok(RunState::Running));
    }
    emu
}

#[test]
fn jump_sets_pc() {
    let emu = run(&[0x1A, 0xBC]);
    assert_eq!(emu.pc(), 0xABC);
}

#[test]
fn jump_with_offset_adds_register_zero() {
    let emu = run(&[0x60, 0x10, 0xB3, 0x00]);
    assert_eq!(emu.pc(), 0x310);
}

#[test]
fn jump_with_offset_can_leave_memory_and_the_next_fetch_faults() {
    let mut emu = run(&[0x60, 0xFF, 0xBF, 0xFF]);
    assert_eq!(emu.pc(), 0x10FE);
    let fault = Fault { kind: FaultKind::FetchOutOfBounds, address: 0x10FE, opcode: None };
    assert_eq!(emu.step(), Err(fault));
    assert_eq!(emu.pc(), 0x10FE);
}

#[test]
fn skip_if_equal_immediate() {
    assert_eq!(run(&[0x60, 0x42, 0x30, 0x42]).pc(), 0x206);
    assert_eq!(run(&[0x60, 0x42, 0x30, 0x43]).pc(), 0x204);
}

#[test]
fn skip_if_not_equal_immediate() {
    assert_eq!(run(&[0x60, 0x42, 0x40, 0x42]).pc(), 0x204);
    assert_eq!(run(&[0x60, 0x42, 0x40, 0x43]).pc(), 0x206);
}

#[test]
fn skip_if_registers_equal() {
    assert_eq!(run(&[0x60, 0x07, 0x61, 0x07, 0x50, 0x10]).pc(), 0x208);
    assert_eq!(run(&[0x60, 0x07, 0x61, 0x08, 0x50, 0x10]).pc(), 0x206);
}

#[test]
fn skip_if_registers_not_equal() {
    assert_eq!(run(&[0x60, 0x07, 0x61, 0x07, 0x90, 0x10]).pc(), 0x206);
    assert_eq!(run(&[0x60, 0x07, 0x61, 0x08, 0x90, 0x10]).pc(), 0x208);
}

#[test]
fn load_immediate_and_copy() {
    let emu = run(&[0x6A, 0x99, 0x8B, 0xA0]);
    assert_eq!(emu.registers()[0xA], 0x99);
    assert_eq!(emu.registers()[0xB], 0x99);
    assert_eq!(emu.pc(), 0x204);
}

#[test]
fn add_immediate_wraps_without_flag_effect() {
    // VF = 7, V0 = 0xFF, V0 += 1
    let emu = run(&[0x6F, 0x07, 0x60, 0xFF, 0x70, 0x01]);
    assert_eq!(emu.registers()[0], 0x00);
    assert_eq!(emu.registers()[0xF], 0x07);
}

#[test]
fn add_immediate_without_wrap() {
    let emu = run(&[0x63, 0x10, 0x73, 0x22]);
    assert_eq!(emu.registers()[3], 0x32);
    assert_eq!(emu.registers()[0xF], 0);
}

#[test]
fn add_registers_sets_the_flag_exactly_on_carry() {
    let carry = run(&[0x60, 0xFF, 0x61, 0x01, 0x80, 0x14]);
    assert_eq!((carry.registers()[0], carry.registers()[0xF]), (0x00, 1));
    let edge = run(&[0x60, 0xFF, 0x61, 0x00, 0x80, 0x14]);
    assert_eq!((edge.registers()[0], edge.registers()[0xF]), (0xFF, 0));
    let small = run(&[0x6F, 0x01, 0x60, 0x01, 0x61, 0x02, 0x80, 0x14]);
    assert_eq!((small.registers()[0], small.registers()[0xF]), (0x03, 0));
    let large = run(&[0x60, 0xC8, 0x61, 0xC8, 0x80, 0x14]);
    assert_eq!((large.registers()[0], large.registers()[0xF]), (0x90, 1));
}

#[test]
fn add_registers_into_the_flag_register_keeps_the_flag() {
    // VF = 0xFF, V1 = 2, VF += V1: the sum would be 1, the carry wins.
    let emu = run(&[0x6F, 0xFF, 0x61, 0x02, 0x8F, 0x14]);
    assert_eq!(emu.registers()[0xF], 1);
}

#[test]
fn subtract_registers_sets_the_flag_when_there_is_no_borrow() {
    let plain = run(&[0x60, 0x0A, 0x61, 0x03, 0x80, 0x15]);
    assert_eq!((plain.registers()[0], plain.registers()[0xF]), (0x07, 1));
    let equal = run(&[0x60, 0x0A, 0x61, 0x0A, 0x80, 0x15]);
    assert_eq!((equal.registers()[0], equal.registers()[0xF]), (0x00, 1));
    let borrow = run(&[0x60, 0x03, 0x61, 0x0A, 0x80, 0x15]);
    assert_eq!((borrow.registers()[0], borrow.registers()[0xF]), (0xF9, 0));
}

#[test]
fn reverse_subtract_sets_the_flag_when_there_is_no_borrow() {
    let plain = run(&[0x60, 0x03, 0x61, 0x0A, 0x80, 0x17]);
    assert_eq!((plain.registers()[0], plain.registers()[0xF]), (0x07, 1));
    let borrow = run(&[0x60, 0x0A, 0x61, 0x03, 0x80, 0x17]);
    assert_eq!((borrow.registers()[0], borrow.registers()[0xF]), (0xF9, 0));
    assert_eq!(borrow.registers()[1], 0x03);
}

#[test]
fn bitwise_operations() {
    let or = run(&[0x60, 0b1100, 0x61, 0b1010, 0x80, 0x11]);
    assert_eq!(or.registers()[0], 0b1110);
    let and = run(&[0x60, 0b1100, 0x61, 0b1010, 0x80, 0x12]);
    assert_eq!(and.registers()[0], 0b1000);
    let xor = run(&[0x60, 0b1100, 0x61, 0b1010, 0x80, 0x13]);
    assert_eq!(xor.registers()[0], 0b0110);
    assert_eq!(xor.registers()[1], 0b1010);
    assert_eq!(xor.registers()[0xF], 0);
}

#[test]
fn shift_right_moves_the_low_bit_into_the_flag() {
    let odd = run(&[0x60, 0x05, 0x61, 0xFF, 0x80, 0x16]);
    assert_eq!((odd.registers()[0], odd.registers()[0xF]), (0x02, 1));
    assert_eq!(odd.registers()[1], 0xFF);
    let even = run(&[0x60, 0x04, 0x80, 0x16]);
    assert_eq!((even.registers()[0], even.registers()[0xF]), (0x02, 0));
}

#[test]
fn shift_left_moves_the_high_bit_into_the_flag() {
    let high = run(&[0x60, 0x81, 0x61, 0xFF, 0x80, 0x1E]);
    assert_eq!((high.registers()[0], high.registers()[0xF]), (0x02, 1));
    assert_eq!(high.registers()[1], 0xFF);
    let low = run(&[0x60, 0x41, 0x80, 0x1E]);
    assert_eq!((low.registers()[0], low.registers()[0xF]), (0x82, 0));
}

#[test]
fn load_and_add_to_the_address_register() {
    let emu = run(&[0xA1, 0x23, 0x60, 0x10, 0xF0, 0x1E]);
    assert_eq!(emu.index_register(), 0x133);
    assert_eq!(emu.registers()[0xF], 0);
}

#[test]
fn add_to_the_address_register_wraps_at_sixteen_bits() {
    // I = 0xFFF, then 0xF1 times I += 0xFF; 0xFFF + 241 * 255 = 65550 = 0x1000E.
    let mut emu = machine_with(&[0xAF, 0xFF, 0x60, 0xFF, 0xF0, 0x1E, 0x12, 0x04]);
    assert!(emu.step().is_ok());
    assert!(emu.step().is_ok());
    for _ in 0..0xF1 {
        assert!(emu.step().is_ok());
        assert!(emu.step().is_ok());
    }
    assert_eq!(emu.index_register(), 0x000E);
}

#[test]
fn font_address_is_five_bytes_per_glyph() {
    assert_eq!(run(&[0x60, 0x00, 0xF0, 0x29]).index_register(), 0);
    assert_eq!(run(&[0x60, 0x0A, 0xF0, 0x29]).index_register(), 50);
    assert_eq!(run(&[0x60, 0x0F, 0xF0, 0x29]).index_register(), 75);
    assert_eq!(run(&[0x60, 0xFF, 0xF0, 0x29]).index_register(), 1275);
}

#[test]
fn random_with_a_given_byte_is_masked() {
    let mut emu = machine_with(&[0xC0, 0x0F, 0xC1, 0xF0, 0xC2, 0x00, 0xC3, 0xFF]);
    for _ in 0..4 {
        assert_eq!(emu.step_with_random(0xA5), Ok(RunState::Running));
    }
    assert_eq!(emu.registers()[0..4], [0x05, 0xA0, 0x00, 0xA5]);
    assert_eq!(emu.registers()[0xF], 0);
}

#[test]
fn random_never_sets_a_bit_outside_the_mask() {
    for mask in [0x00u8, 0x01, 0x3C, 0x80, 0xF0, 0xFF] {
        let mut emu = machine_with(&[0xC0, mask, 0x12, 0x00]);
        for _ in 0..200 {
            assert_eq!(emu.step(), Ok(RunState::Running));
            assert_eq!(emu.registers()[0] & !mask, 0);
            assert_eq!(emu.step(), Ok(RunState::Running));
        }
    }
}

#[test]
fn random_draws_more_than_one_value() {
    let mut emu = machine_with(&[0xC0, 0xFF, 0x12, 0x00]);
    let mut seen = [false; 256];
    for _ in 0..2000 {
        assert_eq!(emu.step(), Ok(RunState::Running));
        seen[usize::from(emu.registers()[0])] = true;
        assert_eq!(emu.step(), Ok(RunState::Running));
    }
    assert!(seen.iter().filter(|hit| **hit).count() > 1);
}

#[test]
fn timers_are_set_from_and_read_into_registers() {
    let emu = run(&[0x60, 0x2A, 0xF0, 0x15, 0xF0, 0x18, 0xF1, 0x07]);
    assert_eq!(emu.delay_timer(), 0x2A);
    assert_eq!(emu.sound_timer(), 0x2A);
    assert_eq!(emu.registers()[1], 0x2A);
}

#[test]
fn stepping_does_not_move_the_timers() {
    let emu = run(&[0x60, 0x05, 0xF0, 0x15, 0x61, 0x00, 0x62, 0x00]);
    assert_eq!(emu.delay_timer(), 5);
}

#[test]
fn store_bcd_writes_three_digits() {
    let emu = run(&[0xA3, 0x00, 0x60, 0xFE, 0xF0, 0x33]);
    assert_eq!(emu.memory()[0x300..0x303], [2, 5, 4]);
    assert_eq!(emu.index_register(), 0x300);
    let small = run(&[0xA3, 0x00, 0x60, 0x07, 0xF0, 0x33]);
    assert_eq!(small.memory()[0x300..0x303], [0, 0, 7]);
    let round = run(&[0xA3, 0x00, 0x60, 0x64, 0xF0, 0x33]);
    assert_eq!(round.memory()[0x300..0x303], [1, 0, 0]);
}

#[test]
fn store_bcd_at_the_end_of_memory() {
    let emu = run(&[0xAF, 0xFD, 0x60, 0x7B, 0xF0, 0x33]);
    assert_eq!(emu.memory()[0xFFD..], [1, 2, 3]);
    let mut past = machine_with(&[0xAF, 0xFE, 0x60, 0x7B, 0xF0, 0x33]);
    assert!(past.step().is_ok());
    assert!(past.step().is_ok());
    let before = past.clone();
    let fault = Fault { kind: FaultKind::MemoryOutOfBounds, address: 0x204, opcode: Some(0xF033) };
    assert_eq!(past.step(), Err(fault));
    assert_eq!(past.memory()[..], before.memory()[..]);
    assert_eq!(past.pc(), 0x204);
}

#[test]
fn register_dump_writes_v0_to_vx() {
    let emu = run(&[0x60, 0x11, 0x61, 0x22, 0x62, 0x33, 0x63, 0x44, 0xA3, 0x00, 0xF2, 0x55]);
    assert_eq!(emu.memory()[0x300..0x304], [0x11, 0x22, 0x33, 0x00]);
    assert_eq!(emu.index_register(), 0x300);
    assert_eq!(emu.registers()[3], 0x44);
}

#[test]
fn register_dump_of_v0_alone_and_of_all() {
    let one = run(&[0x60, 0x11, 0x61, 0x22, 0xA3, 0x00, 0xF0, 0x55]);
    assert_eq!(one.memory()[0x300..0x302], [0x11, 0x00]);
    let all = run(&[0x60, 0x11, 0x6F, 0xFF, 0xA3, 0x00, 0xFF, 0x55]);
    assert_eq!(all.memory()[0x300], 0x11);
    assert_eq!(all.memory()[0x30F], 0xFF);
    assert_eq!(all.memory()[0x310], 0x00);
}

#[test]
fn register_load_reads_v0_to_vx() {
    // I = 0x208, load V0..=V2 from there.
    let mut emu = machine_with(&[0xA2, 0x08, 0x63, 0x99, 0xF2, 0x65, 0x00, 0x00, 0xAA, 0xBB, 0xCC, 0xDD]);
    for _ in 0..3 {
        assert!(emu.step().is_ok());
    }
    assert_eq!(emu.registers()[0..4], [0xAA, 0xBB, 0xCC, 0x99]);
    assert_eq!(emu.index_register(), 0x208);
}

#[test]
fn register_dump_then_load_round_trips() {
    let mut program = Vec::new();
    for x in 0..16u8 {
        program.extend_from_slice(&[0x60 | x, 0x10 + x]);
    }
    program.extend_from_slice(&[0xA4, 0x00, 0xFF, 0x55]);
    for x in 0..16u8 {
        program.extend_from_slice(&[0x60 | x, 0x00]);
    }
    program.extend_from_slice(&[0xFF, 0x65]);
    let emu = run(&program);
    for x in 0..16u8 {
        assert_eq!(emu.registers()[usize::from(x)], 0x10 + x);
        assert_eq!(emu.memory()[0x400 + usize::from(x)], 0x10 + x);
    }
}

#[test]
fn register_dump_and_load_past_the_end_of_memory_fault() {
    for low in [0x55u8, 0x65] {
        // I = 0xFFE; registers V0..=V2 need three bytes.
        let mut emu = machine_with(&[0xAF, 0xFE, 0xF2, low]);
        assert!(emu.step().is_ok());
        let before = emu.clone();
        let opcode = 0xF200 | u16::from(low);
        let fault = Fault { kind: FaultKind::MemoryOutOfBounds, address: 0x202, opcode: Some(opcode) };
        assert_eq!(emu.step(), Err(fault));
        assert_eq!(emu.memory()[..], before.memory()[..]);
        assert_eq!(emu.registers(), before.registers());
        // Two bytes fit.
        let mut fits = machine_with(&[0xAF, 0xFE, 0xF1, low]);
        assert!(fits.step().is_ok());
        assert_eq!(fits.step(), Ok(RunState::Running));
    }
    assert_eq!(RAM_SIZE, 0x1000);
}

#[test]
fn skip_if_key_pressed() {
    let mut down = machine_with(&[0x60, 0x07, 0xE0, 0x9E]);
    down.set_key(7, true);
    assert!(down.step().is_ok());
    assert!(down.step().is_ok());
    assert_eq!(down.pc(), 0x206);
    let mut up = machine_with(&[0x60, 0x07, 0xE0, 0x9E]);
    up.set_key(6, true);
    assert!(up.step().is_ok());
    assert!(up.step().is_ok());
    assert_eq!(up.pc(), 0x204);
}

#[test]
fn skip_if_key_not_pressed() {
    let mut down = machine_with(&[0x60, 0x07, 0xE0, 0xA1]);
    down.set_key(7, true);
    assert!(down.step().is_ok());
    assert!(down.step().is_ok());
    assert_eq!(down.pc(), 0x204);
    let mut up = machine_with(&[0x60, 0x07, 0xE0, 0xA1]);
    assert!(up.step().is_ok());
    assert!(up.step().is_ok());
    assert_eq!(up.pc(), 0x206);
}

#[test]
fn key_instructions_fault_on_a_key_that_does_not_exist() {
    for low in [0x9Eu8, 0xA1] {
        let mut emu = machine_with(&[0x60, 0x10, 0xE0, low]);
        assert!(emu.step().is_ok());
        let opcode = 0xE000 | u16::from(low);
        let fault = Fault { kind: FaultKind::KeyOutOfRange, address: 0x202, opcode: Some(opcode) };
        assert_eq!(emu.step(), Err(fault));
        assert_eq!(emu.pc(), 0x202);
        let mut last = machine_with(&[0x60, 0x0F, 0xE0, low]);
        assert!(last.step().is_ok());
        assert_eq!(last.step(), Ok(RunState::Running));
    }
}

#[test]
fn wait_for_key_suspends_until_a_key_is_down() {
    let mut emu = machine_with(&[0xF3, 0x0A, 0x64, 0x01]);
    assert_eq!(emu.step(), Ok(RunState::AwaitingKey));
    assert_eq!(emu.run_state(), RunState::AwaitingKey);
    assert_eq!(emu.pc(), 0x200);
    assert_eq!(emu.step(), Ok(RunState::AwaitingKey));
    assert_eq!(emu.pc(), 0x200);
    assert_eq!(emu.registers()[3], 0);
    emu.set_key(7, true);
    emu.set_key(5, true);
    assert_eq!(emu.step(), Ok(RunState::Running));
    assert_eq!(emu.run_state(), RunState::Running);
    assert_eq!(emu.registers()[3], 5);
    assert_eq!(emu.pc(), 0x202);
    assert_eq!(emu.registers()[4], 0);
    assert_eq!(emu.step(), Ok(RunState::Running));
    assert_eq!(emu.registers()[4], 1);
    assert_eq!(emu.pc(), 0x204);
}

#[test]
fn wait_for_key_takes_a_key_that_is_already_down() {
    let mut emu = machine_with(&[0xF3, 0x0A]);
    emu.set_key(0xF, true);
    assert_eq!(emu.step(), Ok(RunState::Running));
    assert_eq!(emu.registers()[3], 0xF);
    assert_eq!(emu.pc(), 0x202);
}

#[test]
fn wait_for_key_ignores_a_key_that_went_up_again() {
    let mut emu = machine_with(&[0xF3, 0x0A]);
    assert_eq!(emu.step(), Ok(RunState::AwaitingKey));
    emu.set_key(2, true);
    emu.set_key(2, false);
    assert_eq!(emu.step(), Ok(RunState::AwaitingKey));
    emu.set_key(0, true);
    assert_eq!(emu.step(), Ok(RunState::Running));
    assert_eq!(emu.registers()[3], 0);
}

#[test]
fn waiting_machine_lets_the_timers_run() {
    let mut emu = machine_with(&[0x60, 0x02, 0xF0, 0x15, 0xF1, 0x0A]);
    for _ in 0..2 {
        assert_eq!(emu.step(), Ok(RunState::Running));
    }
    assert_eq!(emu.step(), Ok(RunState::AwaitingKey));
    emu.tick_timers();
    assert_eq!(emu.delay_timer(), 1);
    assert_eq!(emu.run_state(), RunState::AwaitingKey);
}
