use chip8::Fault;
use chip8::frame::{AudioAction, CYCLES_PER_FRAME, audio_action};
use chip8::machine::Chip8;

fn load(program: &[u8]) -> Chip8 {
    let mut m = Chip8::new();
    let rom: Vec<u8> = program.to_vec();
    assert_eq!(m.load_rom(&rom), Ok(()));
    m
}

#[test]
fn new_machine_has_font_and_start_address() {
    let m = Chip8::new();
    assert_eq!(m.pc, 0x200);
    assert_eq!(m.sp, 0);
    assert_eq!(m.index_register, 0);
    // Glyph 0 starts with 0xF0 and glyph F ends with 0x80.
    assert_eq!(m.mem[0x50], 0xF0);
    assert_eq!(m.mem[0x9F], 0x80);
    assert_eq!(m.mem[0x4F], 0);
    assert_eq!(m.mem[0xA0], 0);
    assert!(m.registers.iter().all(|&r| r == 0));
    assert!(m.display.iter().all(|&p| !p));
}

#[test]
fn load_rom_copies_bytes_to_start_address() {
    let m = load(&[0xAB, 0xCD, 0xEF]);
    assert_eq!(m.mem[0x200], 0xAB);
    assert_eq!(m.mem[0x201], 0xCD);
    assert_eq!(m.mem[0x202], 0xEF);
    assert_eq!(m.mem[0x203], 0x00);
}

#[test]
fn load_rom_too_large_faults_and_copies_nothing() {
    let mut m = Chip8::new();
    let rom = vec![0x77u8; 3585];
    assert_eq!(m.load_rom(&rom), Err(Fault::MemOutOfBounds));
    assert_eq!(m.mem[0x200], 0);
    let rom_fit = vec![0x77u8; 3584];
    assert_eq!(m.load_rom(&rom_fit), Ok(()));
    assert_eq!(m.mem[0xFFF], 0x77);
}

#[test]
fn tick_executes_loaded_instructions() {
    // Set V1 = 0x42, then copy V1 to V5.
    let mut m = load(&[0x61, 0x42, 0x85, 0x10]);
    assert_eq!(m.tick(), Ok(None));
    assert_eq!(m.registers[1], 0x42);
    assert_eq!(m.pc, 0x202);
    assert_eq!(m.tick(), Ok(None));
    assert_eq!(m.registers[5], 0x42);
    assert_eq!(m.pc, 0x204);
}

#[test]
fn unknown_word_reports_diagnostic_and_changes_nothing() {
    // 0x5AB1 matches no pattern (5XY0 needs a trailing 0).
    let mut m = load(&[0x5A, 0xB1]);
    let before_regs = m.registers.clone();
    let before_mem = m.mem.clone();
    let before_fb = m.display.clone();
    assert_eq!(m.tick(), Ok(Some(0x5AB1)));
    assert_eq!(m.registers, before_regs);
    assert_eq!(m.mem, before_mem);
    assert_eq!(m.display, before_fb);
    assert_eq!(m.pc, 0x202);
}

#[test]
fn call_then_return_round_trips_pc() {
    // Call 0x204; the subroutine there returns at once.
    let mut m = load(&[0x22, 0x04, 0x00, 0x00, 0x00, 0xEE]);
    assert_eq!(m.tick(), Ok(None));
    assert_eq!(m.pc, 0x204);
    assert_eq!(m.sp, 1);
    assert_eq!(m.stack[0], 0x202);
    assert_eq!(m.tick(), Ok(None));
    assert_eq!(m.pc, 0x202);
    assert_eq!(m.sp, 0);
}

#[test]
fn return_without_call_faults() {
    let mut m = load(&[0x00, 0xEE]);
    assert_eq!(m.tick(), Err(Fault::StackUnderflow));
}

#[test]
fn seventeenth_nested_call_faults() {
    // 0x2200 calls address 0x200 over and over.
    let mut m = load(&[0x22, 0x00]);
    for _ in 0..16 {
        assert_eq!(m.tick(), Ok(None));
    }
    assert_eq!(m.sp, 16);
    assert_eq!(m.tick(), Err(Fault::StackOverflow));
}

#[test]
fn wait_for_key_rewinds_pc_until_a_key_arrives() {
    // F30A waits for a key into V3.
    let mut m = load(&[0xF3, 0x0A]);
    assert_eq!(m.tick(), Ok(None));
    assert_eq!(m.pc, 0x200);
    assert_eq!(m.tick(), Ok(None));
    assert_eq!(m.pc, 0x200);
    m.set_key(0x5, true);
    m.set_key(0x3, true);
    assert_eq!(m.tick(), Ok(None));
    // The lowest-indexed pressed key wins and execution proceeds.
    assert_eq!(m.registers[3], 0x3);
    assert_eq!(m.pc, 0x202);
}

#[test]
fn skip_if_equal_through_tick() {
    // V0 = 7; skip the jump when V0 == 7; then V1 = 1.
    let mut m = load(&[0x60, 0x07, 0x30, 0x07, 0x12, 0x00, 0x61, 0x01]);
    assert_eq!(m.tick(), Ok(None));
    assert_eq!(m.tick(), Ok(None));
    assert_eq!(m.pc, 0x206);
    assert_eq!(m.tick(), Ok(None));
    assert_eq!(m.registers[1], 1);
}

#[test]
fn fetch_outside_memory_faults() {
    // Jump to 0xFFE, execute the word there (zeros decode to Unknown),
    // then the next fetch would start at 0x1000 and must fault.
    let mut m = load(&[0x1F, 0xFE]);
    assert_eq!(m.tick(), Ok(None));
    assert_eq!(m.pc, 0xFFE);
    assert_eq!(m.tick(), Ok(Some(0x0000)));
    assert_eq!(m.tick(), Err(Fault::MemOutOfBounds));
}

#[test]
fn audio_gate_is_edge_triggered() {
    assert_eq!(audio_action(0, false), AudioAction::Keep);
    assert_eq!(audio_action(3, false), AudioAction::Start);
    assert_eq!(audio_action(3, true), AudioAction::Keep);
    assert_eq!(audio_action(0, true), AudioAction::Stop);
}

#[test]
fn frame_batch_runs_ten_cycles() {
    assert_eq!(CYCLES_PER_FRAME, 10);
    // Ten harmless loads, then pc has advanced by 20 bytes.
    let mut rom = Vec::new();
    for _ in 0..10 {
        rom.push(0x60);
        rom.push(0x01);
    }
    let mut m = load(&rom);
    let (diags, fault) = m.run_frame_cycles();
    assert_eq!(fault, None);
    assert!(diags.is_empty());
    assert_eq!(m.pc, 0x200 + 20);
}

#[test]
fn frame_batch_collects_unknown_words_and_stops_on_fault() {
    // An unknown word, a load, then a return with an empty stack.
    let mut m = load(&[0x5A, 0xB1, 0x60, 0x01, 0x00, 0xEE]);
    let (diags, fault) = m.run_frame_cycles();
    assert_eq!(diags, vec![0x5AB1]);
    assert_eq!(fault, Some(Fault::StackUnderflow));
    assert_eq!(m.pc, 0x206);
}
