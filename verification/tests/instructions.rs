use chip8::Fault;
use chip8::machine::Chip8;

fn machine_with(opcode: u16) -> Chip8 {
    let mut m = Chip8::new();
    m.opcode = opcode;
    m
}

#[test]
fn add_registers_carry_sets_inverted_flag() {
    // 8XY4 with X=1, Y=2: 200 + 100 carries, so VF is 0 under the
    // inverted convention, and the result wraps to 44.
    let mut m = machine_with(0x8124);
    m.registers[1] = 200;
    m.registers[2] = 100;
    m.add_();
    assert_eq!(m.registers[1], 44);
    assert_eq!(m.registers[0xF], 0);
}

#[test]
fn add_registers_no_carry_sets_flag_one() {
    let mut m = machine_with(0x8124);
    m.registers[1] = 10;
    m.registers[2] = 20;
    m.add_();
    assert_eq!(m.registers[1], 30);
    assert_eq!(m.registers[0xF], 1);
}

#[test]
fn sub_registers_borrow_clears_flag() {
    // 5 - 10 borrows: result (5 - 10) mod 256 = 251, flag 0.
    let mut m = machine_with(0x8125);
    m.registers[1] = 5;
    m.registers[2] = 10;
    m.sub_xy();
    assert_eq!(m.registers[1], 251);
    assert_eq!(m.registers[0xF], 0);
}

#[test]
fn sub_registers_no_borrow_sets_flag() {
    let mut m = machine_with(0x8125);
    m.registers[1] = 10;
    m.registers[2] = 5;
    m.sub_xy();
    assert_eq!(m.registers[1], 5);
    assert_eq!(m.registers[0xF], 1);
}

#[test]
fn sub_reversed_uses_vy_minus_vx() {
    let mut m = machine_with(0x8127);
    m.registers[1] = 5;
    m.registers[2] = 10;
    m.sub_yx();
    assert_eq!(m.registers[1], 5);
    assert_eq!(m.registers[0xF], 1);
}

#[test]
fn shift_right_reads_vy_and_reports_low_bit() {
    // Vy = 0xB3 = 0b10110011: result 0x59, flag 1.
    let mut m = machine_with(0x8126);
    m.registers[2] = 0xB3;
    m.shift_right();
    assert_eq!(m.registers[1], 0x59);
    assert_eq!(m.registers[0xF], 1);
}

#[test]
fn shift_left_reads_vy_and_reports_high_bit() {
    // Vy = 0xB3: result 0x66, flag 1.
    let mut m = machine_with(0x812E);
    m.registers[2] = 0xB3;
    m.shift_left();
    assert_eq!(m.registers[1], 0x66);
    assert_eq!(m.registers[0xF], 1);
}

#[test]
fn add_immediate_wraps_without_flag() {
    // 7XNN with X=3, NN=0x10 on V3 = 0xF8 wraps to 0x08; VF untouched.
    let mut m = machine_with(0x7310);
    m.registers[3] = 0xF8;
    m.registers[0xF] = 7;
    m.add();
    assert_eq!(m.registers[3], 0x08);
    assert_eq!(m.registers[0xF], 7);
}

#[test]
fn bitwise_ops_combine_vx_and_vy() {
    let mut m = machine_with(0x8121);
    m.registers[1] = 0b1100;
    m.registers[2] = 0b1010;
    m.or();
    assert_eq!(m.registers[1], 0b1110);

    let mut m = machine_with(0x8122);
    m.registers[1] = 0b1100;
    m.registers[2] = 0b1010;
    m.and();
    assert_eq!(m.registers[1], 0b1000);

    let mut m = machine_with(0x8123);
    m.registers[1] = 0b1100;
    m.registers[2] = 0b1010;
    m.xor();
    assert_eq!(m.registers[1], 0b0110);
}

#[test]
fn bcd_decode_writes_three_digits() {
    // Vx = 157 puts 1, 5, 7 at memory[I], memory[I+1], memory[I+2].
    let mut m = machine_with(0xF333);
    m.registers[3] = 157;
    m.index_register = 0x300;
    assert_eq!(m.decode(), Ok(()));
    assert_eq!(m.mem[0x300], 1);
    assert_eq!(m.mem[0x301], 5);
    assert_eq!(m.mem[0x302], 7);
}

#[test]
fn bcd_decode_out_of_bounds_faults() {
    let mut m = machine_with(0xF333);
    m.registers[3] = 157;
    m.index_register = 0xFFE;
    assert_eq!(m.decode(), Err(Fault::MemOutOfBounds));
    assert_eq!(m.mem[0xFFE], 0);
}

#[test]
fn font_character_address_of_digit_a() {
    // Digit 0xA sits 50 bytes past the font base.
    let mut m = machine_with(0xF429);
    m.registers[4] = 0xA;
    m.font_car();
    assert_eq!(m.index_register, 0x50 + 50);
}

#[test]
fn store_and_load_registers_round_trip_memory() {
    let mut m = machine_with(0xF355);
    m.registers[0] = 11;
    m.registers[1] = 22;
    m.registers[2] = 33;
    m.registers[3] = 44;
    m.registers[4] = 99;
    m.index_register = 0x400;
    assert_eq!(m.store_mem(), Ok(()));
    assert_eq!(m.mem[0x400], 11);
    assert_eq!(m.mem[0x403], 44);
    // V4 is past X=3 and must not be stored.
    assert_eq!(m.mem[0x404], 0);

    let mut m2 = machine_with(0xF365);
    m2.index_register = 0x400;
    m2.mem[0x400] = 11;
    m2.mem[0x401] = 22;
    m2.mem[0x402] = 33;
    m2.mem[0x403] = 44;
    m2.registers[4] = 77;
    assert_eq!(m2.load_mem(), Ok(()));
    assert_eq!(m2.registers[0], 11);
    assert_eq!(m2.registers[3], 44);
    // V4 is past X=3 and must keep its value.
    assert_eq!(m2.registers[4], 77);
}

#[test]
fn store_registers_out_of_bounds_faults() {
    let mut m = machine_with(0xF555);
    m.index_register = 0xFFD;
    assert_eq!(m.store_mem(), Err(Fault::MemOutOfBounds));
}

#[test]
fn skip_if_equal_advances_only_on_match() {
    let mut m = machine_with(0x3142);
    m.registers[1] = 0x42;
    let pc0 = m.pc;
    m.if_eq();
    assert_eq!(m.pc, pc0 + 2);

    let mut m2 = machine_with(0x3142);
    m2.registers[1] = 0x41;
    let pc0 = m2.pc;
    m2.if_eq();
    assert_eq!(m2.pc, pc0);
}

#[test]
fn jump_offset_always_adds_v0() {
    // BNNN adds V0 even when the instruction names another register.
    let mut m = machine_with(0xB300);
    m.registers[0] = 5;
    m.registers[3] = 90;
    m.jump_offset();
    assert_eq!(m.pc, 0x305);
}

#[test]
fn add_index_accumulates() {
    let mut m = machine_with(0xF51E);
    m.registers[5] = 200;
    m.index_register = 0x123;
    m.add_index();
    assert_eq!(m.index_register, 0x123 + 200);
}

#[test]
fn key_skip_with_large_register_faults() {
    let mut m = machine_with(0xE09E);
    m.registers[0] = 200;
    assert_eq!(m.if_key_pressed(), Err(Fault::KeyOutOfRange));
    let mut m2 = machine_with(0xE0A1);
    m2.registers[0] = 16;
    assert_eq!(m2.if_key_non_pressed(), Err(Fault::KeyOutOfRange));
}

#[test]
fn key_skips_follow_keypad_state() {
    let mut m = machine_with(0xE59E);
    m.registers[5] = 0xA;
    m.set_key(0xA, true);
    let pc0 = m.pc;
    assert_eq!(m.if_key_pressed(), Ok(()));
    assert_eq!(m.pc, pc0 + 2);

    let mut m2 = machine_with(0xE5A1);
    m2.registers[5] = 0xA;
    m2.set_key(0xA, true);
    let pc0 = m2.pc;
    assert_eq!(m2.if_key_non_pressed(), Ok(()));
    assert_eq!(m2.pc, pc0);
}

#[test]
fn timers_transfer_and_decay_to_zero() {
    let mut m = machine_with(0xF015);
    m.registers[0] = 2;
    m.timer_vx();
    assert_eq!(m.delay_timer, 2);
    m.opcode = 0xF018;
    m.sound_vx();
    assert_eq!(m.sound_timer, 2);
    m.update_timers();
    assert_eq!(m.delay_timer, 1);
    assert_eq!(m.sound_timer, 1);
    m.update_timers();
    m.update_timers();
    assert_eq!(m.delay_timer, 0);
    assert_eq!(m.sound_timer, 0);

    let mut m2 = machine_with(0xF207);
    m2.delay_timer = 9;
    m2.vx_timer();
    assert_eq!(m2.registers[2], 9);
}

#[test]
fn random_respects_mask() {
    let mut m = machine_with(0xC00F);
    m.random();
    assert!(m.registers[0] < 16);
    let mut m2 = machine_with(0xC300);
    m2.registers[3] = 99;
    m2.random();
    assert_eq!(m2.registers[3], 0);
}
