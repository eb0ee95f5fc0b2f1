use chip8::cpu::{decode_opcode, Cpu, OutputState, PcInstructions};
use chip8::error::CpuError;

const NO_KEYS: [bool; 16] = [false; 16];

fn loaded(program: &[u8]) -> Cpu {
    let mut cpu = Cpu::new();
    assert_eq!(cpu.load_program(program), Ok(()));
    cpu
}

fn run(cpu: &mut Cpu, cycles: usize) -> OutputState {
    assert!(cycles > 0);
    let mut out = cpu.cycle(NO_KEYS);
    for _ in 1..cycles {
        out = cpu.cycle(NO_KEYS);
    }
    match out {
        Ok(out) => out,
        Err(e) => panic!("cycle failed: {:?}", e),
    }
}

fn ran(program: &[u8], cycles: usize) -> Cpu {
    let mut cpu = loaded(program);
    run(&mut cpu, cycles);
    cpu
}

fn count_lit(out: &OutputState) -> usize {
    out.display.iter().map(|row| row.iter().filter(|&&p| p == 1).count()).sum()
}

fn keys_with(pressed: &[usize]) -> [bool; 16] {
    let mut keys = [false; 16];
    for &k in pressed {
        keys[k] = true;
    }
    keys
}

#[test]
fn new_machine_starts_at_the_load_address_with_everything_zero() {
    let cpu = Cpu::new();
    assert_eq!(cpu.program_counter(), 0x200);
    assert_eq!(cpu.index_register(), 0);
    assert_eq!(cpu.delay_timer(), 0);
    assert_eq!(cpu.sound_timer(), 0);
    assert_eq!(cpu.stack_depth(), 0);
    assert!(!cpu.is_waiting());
    for x in 0..16 {
        assert_eq!(cpu.register(x), 0);
    }
    let out = cpu.snapshot();
    assert_eq!(count_lit(&out), 0);
    assert!(!out.display_changed);
    assert!(!out.beep);
}

#[test]
fn new_machine_holds_the_glyphs_at_the_bottom_of_memory() {
    let cpu = Cpu::new();
    let zero = [0xF0, 0x90, 0x90, 0x90, 0xF0];
    let one = [0x20, 0x60, 0x20, 0x20, 0x70];
    let f = [0xF0, 0x80, 0xF0, 0x80, 0x80];
    for i in 0..5 {
        assert_eq!(cpu.memory_at(i), zero[i]);
        assert_eq!(cpu.memory_at(5 + i), one[i]);
        assert_eq!(cpu.memory_at(75 + i), f[i]);
    }
    assert_eq!(cpu.memory_at(80), 0);
    assert_eq!(cpu.memory_at(0x1FF), 0);
    assert_eq!(cpu.memory_at(0xFFF), 0);
}

#[test]
fn load_program_copies_bytes_to_the_load_address() {
    let cpu = loaded(&[0x12, 0x34, 0x56]);
    assert_eq!(cpu.memory_at(0x1FF), 0);
    assert_eq!(cpu.memory_at(0x200), 0x12);
    assert_eq!(cpu.memory_at(0x201), 0x34);
    assert_eq!(cpu.memory_at(0x202), 0x56);
    assert_eq!(cpu.memory_at(0x203), 0);
    assert_eq!(cpu.memory_at(0), 0xF0);
    assert_eq!(cpu.program_counter(), 0x200);
}

#[test]
fn load_program_accepts_a_program_that_just_fits() {
    let program = vec![0xAB; 4096 - 0x200];
    let cpu = loaded(&program);
    assert_eq!(cpu.memory_at(0x200), 0xAB);
    assert_eq!(cpu.memory_at(0xFFF), 0xAB);
    assert_eq!(cpu.memory_at(0x1FF), 0);
}

#[test]
fn load_program_refuses_a_program_that_is_too_large() {
    let program = vec![0xAB; 4096 - 0x200 + 1];
    let mut cpu = Cpu::new();
    assert_eq!(cpu.load_program(&program), Err(CpuError::ProgramTooLarge { len: 3585 }));
    assert_eq!(cpu.memory_at(0x200), 0);
    assert_eq!(cpu.memory_at(0xFFF), 0);
}

#[test]
fn decode_opcode_gives_the_four_digits() {
    assert_eq!(decode_opcode(0xD123), (0xD, 0x1, 0x2, 0x3));
    assert_eq!(decode_opcode(0x00EE), (0x0, 0x0, 0xE, 0xE));
    assert_eq!(decode_opcode(0xFFFF), (0xF, 0xF, 0xF, 0xF));
    assert_eq!(decode_opcode(0x0000), (0, 0, 0, 0));
}

#[test]
fn fetch_opcode_reads_two_bytes_big_endian() {
    let cpu = loaded(&[0xA2, 0xF0]);
    assert_eq!(cpu.fetch_opcode(), 0xA2F0);
}

#[test]
fn skip_if_chooses_between_skip_and_next() {
    assert_eq!(PcInstructions::skip_if(true), PcInstructions::Skip);
    assert_eq!(PcInstructions::skip_if(false), PcInstructions::Next);
}

#[test]
fn three_cycles_clear_load_and_add() {
    let mut cpu = loaded(&[0x00, 0xE0, 0x60, 0x05, 0x70, 0x03, 0x00, 0x00]);
    let first = run(&mut cpu, 1);
    assert!(first.display_changed);
    let out = run(&mut cpu, 2);
    assert_eq!(cpu.register(0), 8);
    assert_eq!(cpu.program_counter(), 0x206);
    assert_eq!(count_lit(&out), 0);
    assert!(!out.display_changed);
}

#[test]
fn add_registers_250_and_10_wraps_to_4_with_carry() {
    let cpu = ran(&[0x60, 0xFA, 0x61, 0x0A, 0x80, 0x14], 3);
    assert_eq!(cpu.register(0), 4);
    assert_eq!(cpu.register(1), 10);
    assert_eq!(cpu.register(0xF), 1);
}

#[test]
fn add_registers_through_the_handlers() {
    let mut cpu = Cpu::new();
    cpu.op_6xkk(0, 250);
    cpu.op_6xkk(1, 10);
    let effect = cpu.exec_opcode(0x8014, &NO_KEYS, 0);
    assert_eq!(effect, PcInstructions::Next);
    assert_eq!(cpu.register(0), 4);
    assert_eq!(cpu.register(0xF), 1);
    assert_eq!(cpu.program_counter(), 0x200);
}

#[test]
fn add_registers_without_overflow_clears_the_flag() {
    // VF is made 1 first so that the add has a stale flag to overwrite.
    let cpu = ran(&[0x6F, 0x01, 0x60, 0x05, 0x61, 0x06, 0x80, 0x14], 4);
    assert_eq!(cpu.register(0), 11);
    assert_eq!(cpu.register(0xF), 0);
}

#[test]
fn add_registers_sum_of_exactly_255_does_not_carry() {
    let cpu = ran(&[0x60, 0xFF, 0x61, 0x00, 0x80, 0x14], 3);
    assert_eq!(cpu.register(0), 255);
    assert_eq!(cpu.register(0xF), 0);
    let cpu = ran(&[0x60, 0xFF, 0x61, 0x01, 0x80, 0x14], 3);
    assert_eq!(cpu.register(0), 0);
    assert_eq!(cpu.register(0xF), 1);
}

#[test]
fn add_registers_into_vf_keeps_the_flag_not_the_sum() {
    let cpu = ran(&[0x6F, 0xFF, 0x61, 0x03, 0x8F, 0x14], 3);
    assert_eq!(cpu.register(0xF), 1);
    let cpu = ran(&[0x6F, 0x07, 0x61, 0x03, 0x8F, 0x14], 3);
    assert_eq!(cpu.register(0xF), 0);
}

#[test]
fn add_byte_wraps_and_leaves_the_flag_alone() {
    let cpu = ran(&[0x6F, 0x01, 0x60, 0xFF, 0x70, 0x02], 3);
    assert_eq!(cpu.register(0), 1);
    assert_eq!(cpu.register(0xF), 1);
}

#[test]
fn subtract_sets_flag_when_minuend_is_greater() {
    let cpu = ran(&[0x60, 0x0A, 0x61, 0x03, 0x80, 0x15], 3);
    assert_eq!(cpu.register(0), 7);
    assert_eq!(cpu.register(0xF), 1);
}

#[test]
fn subtract_wraps_on_underflow_and_clears_flag() {
    let cpu = ran(&[0x6F, 0x01, 0x60, 0x03, 0x61, 0x0A, 0x80, 0x15], 4);
    assert_eq!(cpu.register(0), 249);
    assert_eq!(cpu.register(0xF), 0);
}

#[test]
fn subtract_register_from_itself_gives_zero_and_no_flag() {
    let cpu = ran(&[0x6F, 0x01, 0x60, 0x05, 0x80, 0x05], 3);
    assert_eq!(cpu.register(0), 0);
    assert_eq!(cpu.register(0xF), 0);
    let cpu = ran(&[0x6F, 0x01, 0x60, 0x05, 0x80, 0x07], 3);
    assert_eq!(cpu.register(0), 0);
    assert_eq!(cpu.register(0xF), 0);
}

#[test]
fn subtract_with_vf_as_an_operand_uses_its_old_value() {
    // V0 = 9, VF = 4: V0 - VF = 5 and 9 > 4.
    let cpu = ran(&[0x60, 0x09, 0x6F, 0x04, 0x80, 0xF5], 3);
    assert_eq!(cpu.register(0), 5);
    assert_eq!(cpu.register(0xF), 1);
    // VF = 9, V1 = 4: the difference goes to VF and the flag overwrites it.
    let cpu = ran(&[0x6F, 0x09, 0x61, 0x04, 0x8F, 0x15], 3);
    assert_eq!(cpu.register(0xF), 1);
    let cpu = ran(&[0x6F, 0x04, 0x61, 0x09, 0x8F, 0x15], 3);
    assert_eq!(cpu.register(0xF), 0);
}

#[test]
fn reverse_subtract_takes_vx_from_vy() {
    let cpu = ran(&[0x60, 0x03, 0x61, 0x0A, 0x80, 0x17], 3);
    assert_eq!(cpu.register(0), 7);
    assert_eq!(cpu.register(1), 10);
    assert_eq!(cpu.register(0xF), 1);
    let cpu = ran(&[0x60, 0x0A, 0x61, 0x03, 0x80, 0x17], 3);
    assert_eq!(cpu.register(0), 249);
    assert_eq!(cpu.register(0xF), 0);
}

#[test]
fn shift_right_puts_the_low_bit_in_the_flag() {
    let cpu = ran(&[0x60, 0x05, 0x80, 0x06], 2);
    assert_eq!(cpu.register(0), 2);
    assert_eq!(cpu.register(0xF), 1);
    let cpu = ran(&[0x6F, 0x01, 0x60, 0x04, 0x80, 0x06], 3);
    assert_eq!(cpu.register(0), 2);
    assert_eq!(cpu.register(0xF), 0);
}

#[test]
fn shift_right_of_vf_keeps_the_bit_taken_before_the_shift() {
    // 2 >> 1 == 1, but the bit shifted out of 2 is 0.
    let cpu = ran(&[0x6F, 0x02, 0x8F, 0x06], 2);
    assert_eq!(cpu.register(0xF), 0);
    // 1 >> 1 == 0, and the bit shifted out of 1 is 1.
    let cpu = ran(&[0x6F, 0x01, 0x8F, 0x06], 2);
    assert_eq!(cpu.register(0xF), 1);
}

#[test]
fn shift_left_puts_the_high_bit_in_the_flag() {
    let cpu = ran(&[0x60, 0x81, 0x80, 0x0E], 2);
    assert_eq!(cpu.register(0), 0x02);
    assert_eq!(cpu.register(0xF), 1);
    let cpu = ran(&[0x6F, 0x01, 0x60, 0x41, 0x80, 0x0E], 3);
    assert_eq!(cpu.register(0), 0x82);
    assert_eq!(cpu.register(0xF), 0);
}

#[test]
fn shift_left_of_vf_keeps_the_bit_taken_before_the_shift() {
    // 0x40 << 1 == 0x80, whose high bit is set, but 0x40's is not.
    let cpu = ran(&[0x6F, 0x40, 0x8F, 0x0E], 2);
    assert_eq!(cpu.register(0xF), 0);
    let cpu = ran(&[0x6F, 0x80, 0x8F, 0x0E], 2);
    assert_eq!(cpu.register(0xF), 1);
}

#[test]
fn load_or_and_xor() {
    let cpu = ran(&[0x60, 0x0C, 0x61, 0x0A, 0x82, 0x10, 0x80, 0x11], 4);
    assert_eq!(cpu.register(2), 0x0A);
    assert_eq!(cpu.register(0), 0x0E);
    let cpu = ran(&[0x60, 0x0C, 0x61, 0x0A, 0x80, 0x12], 3);
    assert_eq!(cpu.register(0), 0x08);
    let cpu = ran(&[0x60, 0x0C, 0x61, 0x0A, 0x80, 0x13], 3);
    assert_eq!(cpu.register(0), 0x06);
    assert_eq!(cpu.register(0xF), 0);
}

#[test]
fn skip_if_register_equals_byte() {
    assert_eq!(ran(&[0x60, 0x05, 0x30, 0x05], 2).program_counter(), 0x206);
    assert_eq!(ran(&[0x60, 0x05, 0x30, 0x06], 2).program_counter(), 0x204);
}

#[test]
fn skip_if_register_differs_from_byte() {
    assert_eq!(ran(&[0x60, 0x05, 0x40, 0x05], 2).program_counter(), 0x204);
    assert_eq!(ran(&[0x60, 0x05, 0x40, 0x06], 2).program_counter(), 0x206);
}

#[test]
fn skip_if_registers_are_equal_or_differ() {
    assert_eq!(ran(&[0x60, 0x05, 0x61, 0x05, 0x50, 0x10], 3).program_counter(), 0x208);
    assert_eq!(ran(&[0x60, 0x05, 0x61, 0x06, 0x50, 0x10], 3).program_counter(), 0x206);
    assert_eq!(ran(&[0x60, 0x05, 0x61, 0x05, 0x90, 0x10], 3).program_counter(), 0x206);
    assert_eq!(ran(&[0x60, 0x05, 0x61, 0x06, 0x90, 0x10], 3).program_counter(), 0x208);
}

#[test]
fn jump_sets_the_program_counter() {
    assert_eq!(ran(&[0x1A, 0xBC], 1).program_counter(), 0xABC);
}

#[test]
fn jump_with_offset_adds_v0() {
    assert_eq!(ran(&[0x60, 0x10, 0xB3, 0x00], 2).program_counter(), 0x310);
}

#[test]
fn call_then_return_comes_back_behind_the_call() {
    // 0x200: call 0x206; 0x206: return.
    let mut cpu = loaded(&[0x22, 0x06, 0x60, 0x01, 0x00, 0x00, 0x00, 0xEE]);
    run(&mut cpu, 1);
    assert_eq!(cpu.program_counter(), 0x206);
    assert_eq!(cpu.stack_depth(), 1);
    run(&mut cpu, 1);
    assert_eq!(cpu.program_counter(), 0x202);
    assert_eq!(cpu.stack_depth(), 0);
    run(&mut cpu, 1);
    assert_eq!(cpu.register(0), 1);
}

#[test]
fn nested_calls_return_in_reverse_order() {
    // 0x200: call 0x204; 0x202: nop; 0x204: call 0x208; 0x206: return;
    // 0x208: return.
    let mut cpu = loaded(&[0x22, 0x04, 0x00, 0x00, 0x22, 0x08, 0x00, 0xEE, 0x00, 0xEE]);
    run(&mut cpu, 2);
    assert_eq!(cpu.program_counter(), 0x208);
    assert_eq!(cpu.stack_depth(), 2);
    run(&mut cpu, 1);
    assert_eq!(cpu.program_counter(), 0x206);
    run(&mut cpu, 1);
    assert_eq!(cpu.program_counter(), 0x202);
    assert_eq!(cpu.stack_depth(), 0);
}

#[test]
fn return_on_empty_stack_is_an_error_and_changes_nothing() {
    let mut cpu = loaded(&[0x00, 0xEE]);
    match cpu.cycle(NO_KEYS) {
        Err(e) => assert_eq!(e, CpuError::StackUnderflow { opcode: 0x00EE, pc: 0x200 }),
        Ok(_) => panic!("a return with an empty stack went through"),
    }
    assert_eq!(cpu.program_counter(), 0x200);
    assert_eq!(cpu.stack_depth(), 0);
}

#[test]
fn seventeenth_nested_call_is_an_error() {
    // 0x200: call 0x200.
    let mut cpu = loaded(&[0x22, 0x00]);
    run(&mut cpu, 16);
    assert_eq!(cpu.stack_depth(), 16);
    match cpu.cycle(NO_KEYS) {
        Err(e) => assert_eq!(e, CpuError::StackOverflow { opcode: 0x2200, pc: 0x200 }),
        Ok(_) => panic!("a call with a full stack went through"),
    }
    assert_eq!(cpu.stack_depth(), 16);
    assert_eq!(cpu.program_counter(), 0x200);
}

#[test]
fn program_counter_past_memory_is_an_error() {
    let mut cpu = loaded(&[0x1F, 0xFF]);
    run(&mut cpu, 1);
    assert_eq!(cpu.program_counter(), 0xFFF);
    match cpu.cycle(NO_KEYS) {
        Err(e) => assert_eq!(e, CpuError::PcOutOfBounds { pc: 0xFFF }),
        Ok(_) => panic!("an opcode was fetched across the end of memory"),
    }
    assert_eq!(cpu.program_counter(), 0xFFF);
}

#[test]
fn last_opcode_of_memory_can_still_be_fetched() {
    let mut cpu = loaded(&[0x1F, 0xFE]);
    run(&mut cpu, 2);
    assert_eq!(cpu.program_counter(), 0x1000);
    match cpu.cycle(NO_KEYS) {
        Err(e) => assert_eq!(e, CpuError::PcOutOfBounds { pc: 0x1000 }),
        Ok(_) => panic!("an opcode was fetched past the end of memory"),
    }
}

#[test]
fn jump_with_offset_may_leave_memory() {
    let mut cpu = loaded(&[0x60, 0xFF, 0xBF, 0xFF]);
    run(&mut cpu, 2);
    assert_eq!(cpu.program_counter(), 0xFFF + 0xFF);
    match cpu.cycle(NO_KEYS) {
        Err(e) => assert_eq!(e, CpuError::PcOutOfBounds { pc: 0x10FE }),
        Ok(_) => panic!("an opcode was fetched past the end of memory"),
    }
}

#[test]
fn unknown_opcodes_do_nothing_but_advance() {
    for opcode in [0x0000u16, 0x0123, 0x00E1, 0x5001, 0x8008, 0x800F, 0x9001, 0xE000, 0xE19F, 0xF0FF, 0xF000] {
        let mut cpu = loaded(&[0x63, 0x2A, (opcode >> 8) as u8, (opcode & 0xFF) as u8]);
        let out = run(&mut cpu, 2);
        assert_eq!(cpu.program_counter(), 0x204);
        assert_eq!(cpu.register(3), 0x2A);
        assert_eq!(cpu.register(0), 0);
        assert_eq!(cpu.register(0xF), 0);
        assert_eq!(cpu.index_register(), 0);
        assert_eq!(cpu.stack_depth(), 0);
        assert!(!cpu.is_waiting());
        assert!(!out.display_changed);
    }
}

#[test]
fn set_index_and_add_to_index() {
    let cpu = ran(&[0xA1, 0x00, 0x60, 0x05, 0xF0, 0x1E], 3);
    assert_eq!(cpu.index_register(), 0x105);
    assert_eq!(cpu.register(0xF), 0);
}

#[test]
fn add_to_index_flags_an_index_above_0xf00() {
    let cpu = ran(&[0xAF, 0x00, 0x60, 0x01, 0xF0, 0x1E], 3);
    assert_eq!(cpu.index_register(), 0xF01);
    assert_eq!(cpu.register(0xF), 1);
    let cpu = ran(&[0x6F, 0x01, 0xAE, 0xFF, 0x60, 0x01, 0xF0, 0x1E], 4);
    assert_eq!(cpu.index_register(), 0xF00);
    assert_eq!(cpu.register(0xF), 0);
}

#[test]
fn add_to_index_wraps_at_sixteen_bits() {
    let mut cpu = Cpu::new();
    cpu.op_annn(0xFFF);
    cpu.op_6xkk(0, 0xFF);
    // 0xFFF + 236 * 0xFF == 0xFB13.
    for _ in 0..236 {
        cpu.op_fx1e(0);
    }
    assert_eq!(cpu.index_register(), 0xFB13);
    for _ in 0..5 {
        cpu.op_fx1e(0);
    }
    // 0xFB13 + 5 * 0xFF == 0x1000E, which wraps to 0x000E.
    assert_eq!(cpu.index_register(), 0x000E);
    assert_eq!(cpu.register(0xF), 0);
}

#[test]
fn font_address_is_five_times_the_digit() {
    let cpu = ran(&[0x60, 0x0A, 0xF0, 0x29], 2);
    assert_eq!(cpu.index_register(), 50);
    let cpu = ran(&[0x60, 0xFF, 0xF0, 0x29], 2);
    assert_eq!(cpu.index_register(), 1275);
}

#[test]
fn decimal_digits_are_stored_hundreds_first() {
    let cpu = ran(&[0x60, 0xFE, 0xA3, 0x00, 0xF0, 0x33], 3);
    assert_eq!(cpu.memory_at(0x300), 2);
    assert_eq!(cpu.memory_at(0x301), 5);
    assert_eq!(cpu.memory_at(0x302), 4);
    assert_eq!(cpu.memory_at(0x303), 0);
    assert_eq!(cpu.memory_at(0x2FF), 0);
    let cpu = ran(&[0x60, 0x07, 0xA3, 0x00, 0xF0, 0x33], 3);
    assert_eq!(cpu.memory_at(0x300), 0);
    assert_eq!(cpu.memory_at(0x301), 0);
    assert_eq!(cpu.memory_at(0x302), 7);
}

#[test]
fn store_registers_includes_vx() {
    let cpu = ran(&[0x60, 0x11, 0x61, 0x22, 0x62, 0x33, 0xA3, 0x00, 0xF1, 0x55], 5);
    assert_eq!(cpu.memory_at(0x300), 0x11);
    assert_eq!(cpu.memory_at(0x301), 0x22);
    assert_eq!(cpu.memory_at(0x302), 0);
    assert_eq!(cpu.index_register(), 0x300);
}

#[test]
fn store_registers_with_x_zero_stores_one_register() {
    let cpu = ran(&[0x60, 0x11, 0x61, 0x22, 0xA3, 0x00, 0xF0, 0x55], 4);
    assert_eq!(cpu.memory_at(0x300), 0x11);
    assert_eq!(cpu.memory_at(0x301), 0);
}

#[test]
fn store_and_load_all_sixteen_registers() {
    let mut program = Vec::new();
    for x in 0..16u8 {
        program.push(0x60 | x);
        program.push(0xA0 + x);
    }
    // Store V0..VF at 0x300, then load them back from 0x302.
    program.extend_from_slice(&[0xA3, 0x00, 0xFF, 0x55, 0xA3, 0x02, 0xFF, 0x65]);
    let mut cpu = loaded(&program);
    run(&mut cpu, 18);
    for i in 0..16 {
        assert_eq!(cpu.memory_at(0x300 + i), 0xA0 + i as u8);
    }
    assert_eq!(cpu.memory_at(0x310), 0);
    assert_eq!(cpu.memory_at(0x2FF), 0);
    run(&mut cpu, 2);
    for x in 0..14 {
        assert_eq!(cpu.register(x), 0xA2 + x as u8);
    }
    assert_eq!(cpu.register(14), 0);
    assert_eq!(cpu.register(15), 0);
    assert_eq!(cpu.index_register(), 0x302);
}

#[test]
fn load_registers_includes_vx_and_leaves_the_rest() {
    // Glyph 0 is F0 90 90 90 F0.
    let cpu = ran(&[0x62, 0x77, 0xA0, 0x00, 0xF1, 0x65], 3);
    assert_eq!(cpu.register(0), 0xF0);
    assert_eq!(cpu.register(1), 0x90);
    assert_eq!(cpu.register(2), 0x77);
}

#[test]
fn memory_access_past_the_end_is_an_error() {
    for (program, opcode) in [
        ([0xAF, 0xFF, 0xD0, 0x02], 0xD002u16),
        ([0xAF, 0xFE, 0xF0, 0x33], 0xF033),
        ([0xAF, 0xFF, 0xF1, 0x55], 0xF155),
        ([0xAF, 0xFF, 0xF1, 0x65], 0xF165),
    ] {
        let mut cpu = loaded(&program);
        run(&mut cpu, 1);
        match cpu.cycle(NO_KEYS) {
            Err(e) => assert_eq!(e, CpuError::MemoryOutOfBounds { opcode, pc: 0x202 }),
            Ok(_) => panic!("opcode {:04X} reached past the end of memory", opcode),
        }
        assert_eq!(cpu.program_counter(), 0x202);
        assert_eq!(cpu.register(0xF), 0);
        assert_eq!(cpu.register(1), 0);
    }
}

#[test]
fn memory_access_up_to_the_last_byte_is_fine() {
    for program in [
        [0xAF, 0xFF, 0xD0, 0x01],
        [0xAF, 0xFD, 0xF0, 0x33],
        [0xAF, 0xFF, 0xF0, 0x55],
        [0xAF, 0xFE, 0xF1, 0x65],
        [0xAF, 0xFF, 0xD0, 0x00],
    ] {
        let mut cpu = loaded(&program);
        run(&mut cpu, 2);
        assert_eq!(cpu.program_counter(), 0x204);
    }
}

#[test]
fn error_leaves_the_dirty_flag_of_the_last_cycle() {
    let mut cpu = loaded(&[0x00, 0xE0, 0x00, 0xEE]);
    assert!(run(&mut cpu, 1).display_changed);
    assert!(cpu.cycle(NO_KEYS).is_err());
    assert!(cpu.snapshot().display_changed);
}

#[test]
fn draw_glyph_then_draw_again_erases_it() {
    // I = glyph 0, V0 = 3, V1 = 2, draw 5 rows twice.
    let mut cpu = loaded(&[0xA0, 0x00, 0x60, 0x03, 0x61, 0x02, 0xD0, 0x15, 0xD0, 0x15]);
    let out = run(&mut cpu, 4);
    assert!(out.display_changed);
    assert_eq!(cpu.register(0xF), 0);
    // F0 90 90 90 F0: 4 + 2 + 2 + 2 + 4 pixels.
    assert_eq!(count_lit(&out), 14);
    for c in 0..4 {
        assert_eq!(out.display[2][3 + c], 1);
        assert_eq!(out.display[6][3 + c], 1);
    }
    assert_eq!(out.display[3][3], 1);
    assert_eq!(out.display[3][4], 0);
    assert_eq!(out.display[3][5], 0);
    assert_eq!(out.display[3][6], 1);
    assert_eq!(out.display[2][7], 0);
    let out = run(&mut cpu, 1);
    assert!(out.display_changed);
    assert_eq!(cpu.register(0xF), 1);
    assert_eq!(count_lit(&out), 0);
}

#[test]
fn draw_clears_a_stale_flag_when_nothing_collides() {
    let mut cpu = loaded(&[0x6F, 0x01, 0xA0, 0x00, 0xD0, 0x15]);
    run(&mut cpu, 3);
    assert_eq!(cpu.register(0xF), 0);
}

#[test]
fn draw_at_last_column_wraps_to_the_first() {
    // V0 = 63, V1 = 0, I = glyph 0 whose first row is F0.
    let mut cpu = loaded(&[0x60, 0x3F, 0x61, 0x00, 0xA0, 0x00, 0xD0, 0x11]);
    let out = run(&mut cpu, 4);
    assert_eq!(out.display[0][63], 1);
    assert_eq!(out.display[0][0], 1);
    assert_eq!(out.display[0][1], 1);
    assert_eq!(out.display[0][2], 1);
    assert_eq!(out.display[0][3], 0);
    assert_eq!(out.display[1][0], 0);
    assert_eq!(count_lit(&out), 4);
}

#[test]
fn draw_with_coordinates_past_the_screen_wraps() {
    // V0 = 64 + 5, V1 = 32 + 1.
    let mut cpu = loaded(&[0x60, 0x45, 0x61, 0x21, 0xA0, 0x00, 0xD0, 0x11]);
    let out = run(&mut cpu, 4);
    for c in 5..9 {
        assert_eq!(out.display[1][c], 1);
    }
    assert_eq!(count_lit(&out), 4);
}

#[test]
fn draw_of_no_rows_marks_the_frame_as_changed() {
    let mut cpu = loaded(&[0x6F, 0x01, 0xD0, 0x00]);
    let out = run(&mut cpu, 2);
    assert!(out.display_changed);
    assert_eq!(count_lit(&out), 0);
    assert_eq!(cpu.register(0xF), 0);
}

#[test]
fn draw_reads_its_coordinates_after_clearing_vf() {
    // VF = 9 is the x operand: the flag is cleared first, so column 0.
    let mut cpu = loaded(&[0x6F, 0x09, 0x61, 0x00, 0xA0, 0x00, 0xDF, 0x11]);
    let out = run(&mut cpu, 4);
    assert_eq!(out.display[0][0], 1);
    assert_eq!(out.display[0][9], 0);
    assert_eq!(count_lit(&out), 4);
}

#[test]
fn clear_screen_darkens_the_frame_and_marks_it_changed() {
    let mut cpu = loaded(&[0xA0, 0x00, 0xD0, 0x15, 0x00, 0xE0, 0x00, 0x00]);
    assert_eq!(count_lit(&run(&mut cpu, 2)), 14);
    let out = run(&mut cpu, 1);
    assert_eq!(count_lit(&out), 0);
    assert!(out.display_changed);
    assert!(!run(&mut cpu, 1).display_changed);
}

#[test]
fn skip_if_key_pressed() {
    let mut cpu = loaded(&[0x60, 0x07, 0xE0, 0x9E]);
    run(&mut cpu, 1);
    assert!(cpu.cycle(keys_with(&[7])).is_ok());
    assert_eq!(cpu.program_counter(), 0x206);
    let mut cpu = loaded(&[0x60, 0x07, 0xE0, 0x9E]);
    run(&mut cpu, 1);
    assert!(cpu.cycle(keys_with(&[6, 8])).is_ok());
    assert_eq!(cpu.program_counter(), 0x204);
}

#[test]
fn skip_if_key_not_pressed() {
    let mut cpu = loaded(&[0x60, 0x07, 0xE0, 0xA1]);
    run(&mut cpu, 1);
    assert!(cpu.cycle(keys_with(&[7])).is_ok());
    assert_eq!(cpu.program_counter(), 0x204);
    let mut cpu = loaded(&[0x60, 0x07, 0xE0, 0xA1]);
    run(&mut cpu, 1);
    assert!(cpu.cycle(keys_with(&[6, 8])).is_ok());
    assert_eq!(cpu.program_counter(), 0x206);
}

#[test]
fn a_number_that_is_no_key_counts_as_not_pressed() {
    let mut cpu = loaded(&[0x60, 0x17, 0xE0, 0x9E]);
    run(&mut cpu, 1);
    assert!(cpu.cycle([true; 16]).is_ok());
    assert_eq!(cpu.program_counter(), 0x204);
    let mut cpu = loaded(&[0x60, 0xFF, 0xE0, 0xA1]);
    run(&mut cpu, 1);
    assert!(cpu.cycle([true; 16]).is_ok());
    assert_eq!(cpu.program_counter(), 0x206);
}

#[test]
fn timers_count_down_to_zero_and_stay_there() {
    let mut cpu = loaded(&[0x60, 0x03, 0xF0, 0x15]);
    run(&mut cpu, 2);
    assert_eq!(cpu.delay_timer(), 2);
    run(&mut cpu, 1);
    assert_eq!(cpu.delay_timer(), 1);
    run(&mut cpu, 1);
    assert_eq!(cpu.delay_timer(), 0);
    run(&mut cpu, 1);
    assert_eq!(cpu.delay_timer(), 0);
}

#[test]
fn read_delay_timer_into_register() {
    let cpu = ran(&[0x60, 0x05, 0xF0, 0x15, 0xF1, 0x07], 3);
    assert_eq!(cpu.register(1), 4);
    assert_eq!(cpu.delay_timer(), 3);
}

#[test]
fn beep_while_the_sound_timer_runs() {
    let mut cpu = loaded(&[0x60, 0x02, 0xF0, 0x18]);
    assert!(!run(&mut cpu, 1).beep);
    let out = run(&mut cpu, 1);
    assert_eq!(cpu.sound_timer(), 1);
    assert!(out.beep);
    let out = run(&mut cpu, 1);
    assert_eq!(cpu.sound_timer(), 0);
    assert!(!out.beep);
}

#[test]
fn wait_for_key_stalls_until_a_key_is_pressed() {
    // VA = 5, delay = VA, wait for a key into V3, then V4 = 1.
    let mut cpu = loaded(&[0x6A, 0x05, 0xFA, 0x15, 0x63, 0x2A, 0xF3, 0x0A, 0x64, 0x01]);
    run(&mut cpu, 4);
    assert!(cpu.is_waiting());
    assert_eq!(cpu.program_counter(), 0x208);
    assert_eq!(cpu.delay_timer(), 2);
    for _ in 0..10 {
        let out = run(&mut cpu, 1);
        assert!(!out.display_changed);
        assert!(cpu.is_waiting());
        assert_eq!(cpu.register(3), 0x2A);
        assert_eq!(cpu.program_counter(), 0x208);
        assert_eq!(cpu.delay_timer(), 2);
    }
    assert!(cpu.cycle(keys_with(&[7])).is_ok());
    assert!(!cpu.is_waiting());
    assert_eq!(cpu.register(3), 7);
    // The cycle that sees the key runs no instruction.
    assert_eq!(cpu.program_counter(), 0x208);
    assert_eq!(cpu.register(4), 0);
    assert_eq!(cpu.delay_timer(), 2);
    run(&mut cpu, 1);
    assert_eq!(cpu.register(4), 1);
    assert_eq!(cpu.program_counter(), 0x20A);
    assert_eq!(cpu.delay_timer(), 1);
}

#[test]
fn wait_for_key_takes_the_lowest_key_held_down() {
    let mut cpu = loaded(&[0xF3, 0x0A]);
    run(&mut cpu, 1);
    assert!(cpu.cycle(keys_with(&[12, 4, 9])).is_ok());
    assert_eq!(cpu.register(3), 4);
    let mut cpu = loaded(&[0x63, 0x09, 0xF3, 0x0A]);
    run(&mut cpu, 2);
    assert!(cpu.cycle([true; 16]).is_ok());
    assert_eq!(cpu.register(3), 0);
    let mut cpu = loaded(&[0xF3, 0x0A]);
    run(&mut cpu, 1);
    assert!(cpu.cycle(keys_with(&[15])).is_ok());
    assert_eq!(cpu.register(3), 15);
}

#[test]
fn random_instruction_masks_the_byte_it_is_given() {
    let mut cpu = loaded(&[0xC0, 0x0F, 0xC1, 0xF0]);
    assert!(cpu.draws_random());
    assert!(cpu.cycle_with(NO_KEYS, 0xAB).is_ok());
    assert_eq!(cpu.register(0), 0x0B);
    assert!(cpu.cycle_with(NO_KEYS, 0xAB).is_ok());
    assert_eq!(cpu.register(1), 0xA0);
    assert_eq!(cpu.program_counter(), 0x204);
    assert!(!cpu.draws_random());
}

#[test]
fn random_instruction_stays_under_its_mask() {
    let mut program = Vec::new();
    for _ in 0..100 {
        program.extend_from_slice(&[0xC0, 0x0F, 0xC1, 0x00]);
    }
    let mut cpu = loaded(&program);
    for _ in 0..100 {
        run(&mut cpu, 2);
        assert!(cpu.register(0) < 16);
        assert_eq!(cpu.register(1), 0);
    }
}

#[test]
fn cycle_with_ignores_the_byte_for_other_instructions() {
    let mut a = loaded(&[0x60, 0xFA, 0x61, 0x0A, 0x80, 0x14]);
    let mut b = loaded(&[0x60, 0xFA, 0x61, 0x0A, 0x80, 0x14]);
    for _ in 0..3 {
        assert!(a.cycle_with(NO_KEYS, 0x00).is_ok());
        assert!(b.cycle_with(NO_KEYS, 0xFF).is_ok());
    }
    for x in 0..16 {
        assert_eq!(a.register(x), b.register(x));
    }
    assert_eq!(a.program_counter(), b.program_counter());
}

#[test]
fn check_opcode_finds_the_fault_before_anything_runs() {
    let cpu = Cpu::new();
    assert_eq!(cpu.check_opcode(0x00EE), Some(CpuError::StackUnderflow { opcode: 0x00EE, pc: 0x200 }));
    assert_eq!(cpu.check_opcode(0x2345), None);
    assert_eq!(cpu.check_opcode(0xD005), None);
    assert_eq!(cpu.check_opcode(0xFF55), None);
    assert_eq!(cpu.check_opcode(0x0000), None);
}
