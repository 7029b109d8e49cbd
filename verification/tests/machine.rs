use chip8::cpu::{Chip_8, Effect, State};
use chip8::fault::{ProgramFault, ResourceFault};

fn machine_with(program: &[u8]) -> Chip_8 {
    let mut cpu = Chip_8::build();
    assert_eq!(cpu.read_into_memory(program), Ok(()));
    cpu
}

fn count_lit(cpu: &Chip_8) -> usize {
    let mut n = 0;
    for row in cpu.display.pixels.iter() {
        for &p in row.iter() {
            if p {
                n += 1;
            }
        }
    }
    n
}

fn keys_down(down: &[usize]) -> [bool; 16] {
    let mut keys = [false; 16];
    for &k in down {
        keys[k] = true;
    }
    keys
}

#[test]
fn build_gives_the_initial_machine() {
    let cpu = Chip_8::build();
    assert_eq!(cpu.pc, 0x200);
    assert_eq!(cpu.i, 0);
    assert_eq!(cpu.v, [0u8; 16]);
    assert_eq!(cpu.delay_timer, 0);
    assert_eq!(cpu.sound_timer, 0);
    assert_eq!(cpu.state, State::Running);
    assert_eq!(cpu.stack.len(), 0);
    assert_eq!(count_lit(&cpu), 0);
    assert_eq!(cpu.keyboard.keys, [false; 16]);
}

#[test]
fn build_loads_the_font() {
    let cpu = Chip_8::build();
    assert_eq!(&cpu.ram[0..5], &[0xF0, 0x90, 0x90, 0x90, 0xF0]);
    assert_eq!(&cpu.ram[5..10], &[0x20, 0x60, 0x20, 0x20, 0x70]);
    assert_eq!(&cpu.ram[35..40], &[0xF0, 0x10, 0x20, 0x40, 0x40]);
    assert_eq!(&cpu.ram[75..80], &[0xF0, 0x80, 0xF0, 0x80, 0x80]);
    assert!(cpu.ram[80..].iter().all(|&b| b == 0));
}

#[test]
fn read_into_memory_copies_the_program_to_0x200() {
    let mut cpu = Chip_8::build();
    assert_eq!(cpu.read_into_memory(&[0xAA, 0xBB, 0xCC]), Ok(()));
    assert_eq!(&cpu.ram[0x200..0x203], &[0xAA, 0xBB, 0xCC]);
    assert_eq!(cpu.ram[0x1FF], 0);
    assert_eq!(cpu.ram[0x203], 0);
    assert_eq!(&cpu.ram[0..5], &[0xF0, 0x90, 0x90, 0x90, 0xF0]);
    assert_eq!(cpu.pc, 0x200);
}

#[test]
fn read_into_memory_takes_a_program_that_fills_memory() {
    let mut cpu = Chip_8::build();
    let program = vec![0x5Au8; 4096 - 0x200];
    assert_eq!(cpu.read_into_memory(&program), Ok(()));
    assert_eq!(cpu.ram[0x200], 0x5A);
    assert_eq!(cpu.ram[0xFFF], 0x5A);
}

#[test]
fn read_into_memory_refuses_a_program_that_is_too_long() {
    let mut cpu = Chip_8::build();
    let program = vec![0x5Au8; 4096 - 0x200 + 1];
    assert_eq!(
        cpu.read_into_memory(&program),
        Err(ResourceFault::RomTooLarge(4096 - 0x200 + 1))
    );
    assert!(cpu.ram[0x200..].iter().all(|&b| b == 0));
}

#[test]
fn scenario_add_two_registers() {
    let mut cpu = machine_with(&[0x60, 0x05, 0x61, 0x03, 0x80, 0x14]);
    let start = cpu.pc;
    assert_eq!(cpu.fetch_decode_execute(), Ok(Effect::Nothing));
    assert_eq!(cpu.fetch_decode_execute(), Ok(Effect::Nothing));
    assert_eq!(cpu.fetch_decode_execute(), Ok(Effect::Nothing));
    assert_eq!(cpu.v[0], 8);
    assert_eq!(cpu.v[1], 3);
    assert_eq!(cpu.v[0xF], 0);
    assert_eq!(cpu.pc, start + 6);
}

#[test]
fn scenario_wait_for_key() {
    let mut cpu = machine_with(&[0xF3, 0x0A, 0x60, 0x01]);
    assert_eq!(cpu.fetch_decode_execute(), Ok(Effect::Nothing));
    assert_eq!(cpu.state, State::AwaitingKey(3));
    assert_eq!(cpu.pc, 0x202);
    for _ in 0..5 {
        assert_eq!(cpu.fetch_decode_execute(), Ok(Effect::Nothing));
        assert_eq!(cpu.state, State::AwaitingKey(3));
        assert_eq!(cpu.pc, 0x202);
        assert_eq!(cpu.v[0], 0);
    }
    cpu.see_keys(&keys_down(&[]));
    assert_eq!(cpu.state, State::AwaitingKey(3));
    cpu.see_keys(&keys_down(&[0x7]));
    assert_eq!(cpu.v[3], 0x7);
    assert_eq!(cpu.state, State::Running);
    assert_eq!(cpu.pc, 0x202);
    assert_eq!(cpu.fetch_decode_execute(), Ok(Effect::Nothing));
    assert_eq!(cpu.v[0], 1);
    assert_eq!(cpu.pc, 0x204);
}

#[test]
fn waiting_machine_ignores_a_key_that_was_down_already() {
    let mut cpu = Chip_8::build();
    cpu.see_keys(&keys_down(&[0x5]));
    assert_eq!(cpu.execute(0xF20A), Ok(Effect::Nothing));
    cpu.see_keys(&keys_down(&[0x5]));
    assert_eq!(cpu.state, State::AwaitingKey(2));
    cpu.see_keys(&keys_down(&[0x5, 0xC, 0x9]));
    assert_eq!(cpu.state, State::Running);
    assert_eq!(cpu.v[2], 0x9);
}

#[test]
fn waiting_machine_executes_nothing_but_its_timers_run() {
    let mut cpu = Chip_8::build();
    cpu.delay_timer = 3;
    cpu.sound_timer = 1;
    assert_eq!(cpu.execute(0xF00A), Ok(Effect::Nothing));
    assert_eq!(cpu.execute(0x6A55), Ok(Effect::Nothing));
    assert_eq!(cpu.execute(0x00E0), Ok(Effect::Nothing));
    assert_eq!(cpu.v[0xA], 0);
    assert_eq!(cpu.pc, 0x202);
    cpu.decrement_timers();
    assert_eq!(cpu.delay_timer, 2);
    assert_eq!(cpu.sound_timer, 0);
    assert_eq!(cpu.state, State::AwaitingKey(0));
}

#[test]
fn waiting_with_no_register_resumes_without_a_write() {
    let mut cpu = Chip_8::build();
    cpu.state = State::AwaitingKey(16);
    cpu.see_keys(&keys_down(&[4]));
    assert_eq!(cpu.state, State::Running);
    assert_eq!(cpu.v, [0u8; 16]);
}

#[test]
fn faults_leave_the_machine_as_it_was() {
    let mut cpu = machine_with(&[0xF1, 0x55]);
    cpu.v[0] = 0x11;
    cpu.v[1] = 0x22;
    cpu.i = 0xFFF;
    let ram = cpu.ram;
    assert_eq!(cpu.fetch_decode_execute(), Err(ProgramFault::AddressOutOfRange(0xFFF)));
    assert_eq!(cpu.pc, 0x200);
    assert_eq!(cpu.ram, ram);
    assert_eq!(cpu.v[0], 0x11);
    assert_eq!(cpu.i, 0xFFF);
    assert_eq!(cpu.state, State::Running);
}

#[test]
fn see_keys_on_a_running_machine_only_records_the_keys() {
    let mut cpu = Chip_8::build();
    cpu.see_keys(&keys_down(&[3]));
    assert_eq!(cpu.state, State::Running);
    assert_eq!(cpu.v, [0u8; 16]);
    assert!(cpu.keyboard.key_pressed(3));
}

#[test]
fn timers_count_down_and_stop_at_zero() {
    let mut cpu = Chip_8::build();
    cpu.delay_timer = 2;
    cpu.sound_timer = 1;
    cpu.decrement_timers();
    assert_eq!((cpu.delay_timer, cpu.sound_timer), (1, 0));
    cpu.decrement_timers();
    assert_eq!((cpu.delay_timer, cpu.sound_timer), (0, 0));
    cpu.decrement_timers();
    assert_eq!((cpu.delay_timer, cpu.sound_timer), (0, 0));
}

#[test]
fn add_with_carry() {
    let mut cpu = Chip_8::build();
    cpu.v[1] = 200;
    cpu.v[2] = 100;
    assert_eq!(cpu.execute(0x8124), Ok(Effect::Nothing));
    assert_eq!(cpu.v[1], 44);
    assert_eq!(cpu.v[2], 100);
    assert_eq!(cpu.v[0xF], 1);
}

#[test]
fn add_without_carry_at_the_limit() {
    let mut cpu = Chip_8::build();
    cpu.v[1] = 200;
    cpu.v[2] = 55;
    cpu.v[0xF] = 7;
    assert_eq!(cpu.execute(0x8124), Ok(Effect::Nothing));
    assert_eq!(cpu.v[1], 255);
    assert_eq!(cpu.v[0xF], 0);
}

#[test]
fn add_into_the_flag_register_keeps_the_flag() {
    let mut cpu = Chip_8::build();
    cpu.v[0xF] = 1;
    cpu.v[0] = 1;
    assert_eq!(cpu.execute(0x8F04), Ok(Effect::Nothing));
    assert_eq!(cpu.v[0xF], 0);
}

#[test]
fn subtract_without_borrow() {
    let mut cpu = Chip_8::build();
    cpu.v[3] = 10;
    cpu.v[4] = 10;
    assert_eq!(cpu.execute(0x8345), Ok(Effect::Nothing));
    assert_eq!(cpu.v[3], 0);
    assert_eq!(cpu.v[0xF], 1);
}

#[test]
fn subtract_with_borrow() {
    let mut cpu = Chip_8::build();
    cpu.v[3] = 5;
    cpu.v[4] = 10;
    assert_eq!(cpu.execute(0x8345), Ok(Effect::Nothing));
    assert_eq!(cpu.v[3], 251);
    assert_eq!(cpu.v[0xF], 0);
}

#[test]
fn reverse_subtract() {
    let mut cpu = Chip_8::build();
    cpu.v[3] = 5;
    cpu.v[4] = 10;
    assert_eq!(cpu.execute(0x8347), Ok(Effect::Nothing));
    assert_eq!(cpu.v[3], 5);
    assert_eq!(cpu.v[0xF], 1);
    cpu.v[3] = 20;
    assert_eq!(cpu.execute(0x8347), Ok(Effect::Nothing));
    assert_eq!(cpu.v[3], 246);
    assert_eq!(cpu.v[0xF], 0);
}

#[test]
fn shift_right_keeps_the_lowest_bit_in_the_flag() {
    let mut cpu = Chip_8::build();
    cpu.v[6] = 0b0000_0101;
    assert_eq!(cpu.execute(0x8606), Ok(Effect::Nothing));
    assert_eq!(cpu.v[6], 0b0000_0010);
    assert_eq!(cpu.v[0xF], 1);
    assert_eq!(cpu.execute(0x8606), Ok(Effect::Nothing));
    assert_eq!(cpu.v[6], 0b0000_0001);
    assert_eq!(cpu.v[0xF], 0);
}

#[test]
fn shift_left_keeps_the_highest_bit_in_the_flag() {
    let mut cpu = Chip_8::build();
    cpu.v[6] = 0b1100_0001;
    assert_eq!(cpu.execute(0x860E), Ok(Effect::Nothing));
    assert_eq!(cpu.v[6], 0b1000_0010);
    assert_eq!(cpu.v[0xF], 1);
    cpu.v[6] = 0b0100_0001;
    assert_eq!(cpu.execute(0x860E), Ok(Effect::Nothing));
    assert_eq!(cpu.v[6], 0b1000_0010);
    assert_eq!(cpu.v[0xF], 0);
}

#[test]
fn copy_or_and_xor_leave_the_flag() {
    let mut cpu = Chip_8::build();
    cpu.v[0xF] = 9;
    cpu.v[1] = 0b1100;
    cpu.v[2] = 0b1010;
    assert_eq!(cpu.execute(0x8121), Ok(Effect::Nothing));
    assert_eq!(cpu.v[1], 0b1110);
    cpu.v[1] = 0b1100;
    assert_eq!(cpu.execute(0x8122), Ok(Effect::Nothing));
    assert_eq!(cpu.v[1], 0b1000);
    cpu.v[1] = 0b1100;
    assert_eq!(cpu.execute(0x8123), Ok(Effect::Nothing));
    assert_eq!(cpu.v[1], 0b0110);
    assert_eq!(cpu.execute(0x8120), Ok(Effect::Nothing));
    assert_eq!(cpu.v[1], 0b1010);
    assert_eq!(cpu.v[0xF], 9);
    assert_eq!(cpu.pc, 0x208);
}

#[test]
fn load_and_add_immediate() {
    let mut cpu = Chip_8::build();
    cpu.v[0xF] = 3;
    assert_eq!(cpu.execute(0x6AFE), Ok(Effect::Nothing));
    assert_eq!(cpu.v[0xA], 0xFE);
    assert_eq!(cpu.execute(0x7A05), Ok(Effect::Nothing));
    assert_eq!(cpu.v[0xA], 0x03);
    assert_eq!(cpu.v[0xF], 3);
}

#[test]
fn skips_advance_by_four_when_the_condition_holds() {
    let mut cpu = Chip_8::build();
    cpu.v[1] = 0x42;
    cpu.v[2] = 0x42;
    assert_eq!(cpu.execute(0x3142), Ok(Effect::Nothing));
    assert_eq!(cpu.pc, 0x204);
    assert_eq!(cpu.execute(0x3143), Ok(Effect::Nothing));
    assert_eq!(cpu.pc, 0x206);
    assert_eq!(cpu.execute(0x4143), Ok(Effect::Nothing));
    assert_eq!(cpu.pc, 0x20A);
    assert_eq!(cpu.execute(0x4142), Ok(Effect::Nothing));
    assert_eq!(cpu.pc, 0x20C);
    assert_eq!(cpu.execute(0x5120), Ok(Effect::Nothing));
    assert_eq!(cpu.pc, 0x210);
    assert_eq!(cpu.execute(0x9120), Ok(Effect::Nothing));
    assert_eq!(cpu.pc, 0x212);
    cpu.v[2] = 0x43;
    assert_eq!(cpu.execute(0x5120), Ok(Effect::Nothing));
    assert_eq!(cpu.pc, 0x214);
    assert_eq!(cpu.execute(0x9120), Ok(Effect::Nothing));
    assert_eq!(cpu.pc, 0x218);
}

#[test]
fn key_skips_follow_the_keypad() {
    let mut cpu = Chip_8::build();
    cpu.see_keys(&keys_down(&[0xB]));
    cpu.v[4] = 0xB;
    cpu.v[5] = 0x2;
    assert_eq!(cpu.execute(0xE49E), Ok(Effect::Nothing));
    assert_eq!(cpu.pc, 0x204);
    assert_eq!(cpu.execute(0xE4A1), Ok(Effect::Nothing));
    assert_eq!(cpu.pc, 0x206);
    assert_eq!(cpu.execute(0xE59E), Ok(Effect::Nothing));
    assert_eq!(cpu.pc, 0x208);
    assert_eq!(cpu.execute(0xE5A1), Ok(Effect::Nothing));
    assert_eq!(cpu.pc, 0x20C);
}

#[test]
fn key_skip_on_a_key_that_does_not_exist_is_a_fault() {
    let mut cpu = Chip_8::build();
    cpu.v[4] = 16;
    assert_eq!(cpu.execute(0xE49E), Err(ProgramFault::NoSuchKey(16)));
    assert_eq!(cpu.execute(0xE4A1), Err(ProgramFault::NoSuchKey(16)));
    assert_eq!(cpu.pc, 0x200);
}

#[test]
fn jump_sets_the_program_counter() {
    let mut cpu = Chip_8::build();
    assert_eq!(cpu.execute(0x1ABC), Ok(Effect::Nothing));
    assert_eq!(cpu.pc, 0xABC);
}

#[test]
fn jump_with_offset_adds_register_zero() {
    let mut cpu = Chip_8::build();
    cpu.v[0] = 0x10;
    assert_eq!(cpu.execute(0xB300), Ok(Effect::Nothing));
    assert_eq!(cpu.pc, 0x310);
    cpu.v[0] = 0xFF;
    assert_eq!(cpu.execute(0xBFFF), Ok(Effect::Nothing));
    assert_eq!(cpu.pc, 0x10FE);
}

#[test]
fn call_then_return_goes_on_after_the_call() {
    let mut cpu = machine_with(&[0x23, 0x00]);
    cpu.ram[0x300] = 0x00;
    cpu.ram[0x301] = 0xEE;
    assert_eq!(cpu.fetch_decode_execute(), Ok(Effect::Nothing));
    assert_eq!(cpu.pc, 0x300);
    assert_eq!(cpu.stack.len(), 1);
    assert_eq!(cpu.fetch_decode_execute(), Ok(Effect::Nothing));
    assert_eq!(cpu.pc, 0x202);
    assert_eq!(cpu.stack.len(), 0);
}

#[test]
fn seventeenth_call_is_a_fault() {
    let mut cpu = Chip_8::build();
    for _ in 0..16 {
        assert_eq!(cpu.execute(0x2400), Ok(Effect::Nothing));
    }
    assert_eq!(cpu.stack.len(), 16);
    assert_eq!(cpu.pc, 0x400);
    assert_eq!(cpu.execute(0x2500), Err(ProgramFault::StackOverflow));
    assert_eq!(cpu.pc, 0x400);
    assert_eq!(cpu.stack.len(), 16);
}

#[test]
fn return_without_a_call_is_a_fault() {
    let mut cpu = Chip_8::build();
    assert_eq!(cpu.execute(0x00EE), Err(ProgramFault::StackUnderflow));
    assert_eq!(cpu.pc, 0x200);
}

#[test]
fn unknown_words_are_faults_that_carry_the_word() {
    let mut cpu = Chip_8::build();
    for op in [0x0000u16, 0x0123, 0x00E1, 0x01E0, 0x5121, 0x8128, 0x812F, 0x9121, 0xE19F, 0xE0A2, 0xF100, 0xF1FF] {
        assert_eq!(cpu.execute(op), Err(ProgramFault::UnknownOpcode(op)));
        assert_eq!(cpu.pc, 0x200);
    }
}

#[test]
fn index_register_instructions() {
    let mut cpu = Chip_8::build();
    assert_eq!(cpu.execute(0xA123), Ok(Effect::Nothing));
    assert_eq!(cpu.i, 0x123);
    cpu.v[2] = 0x10;
    assert_eq!(cpu.execute(0xF21E), Ok(Effect::Nothing));
    assert_eq!(cpu.i, 0x133);
    cpu.i = 0xFFFF;
    cpu.v[0xF] = 5;
    assert_eq!(cpu.execute(0xF21E), Ok(Effect::Nothing));
    assert_eq!(cpu.i, 0x000F);
    assert_eq!(cpu.v[0xF], 5);
}

#[test]
fn font_address_is_five_times_the_register() {
    let mut cpu = Chip_8::build();
    cpu.v[3] = 0xA;
    assert_eq!(cpu.execute(0xF329), Ok(Effect::Nothing));
    assert_eq!(cpu.i, 50);
    assert_eq!(&cpu.ram[50..55], &[0xF0, 0x90, 0xF0, 0x90, 0x90]);
    cpu.v[3] = 0;
    assert_eq!(cpu.execute(0xF329), Ok(Effect::Nothing));
    assert_eq!(cpu.i, 0);
}

#[test]
fn timers_are_read_and_written() {
    let mut cpu = Chip_8::build();
    cpu.v[1] = 0x33;
    cpu.v[2] = 0x44;
    assert_eq!(cpu.execute(0xF115), Ok(Effect::Nothing));
    assert_eq!(cpu.execute(0xF218), Ok(Effect::Nothing));
    assert_eq!(cpu.delay_timer, 0x33);
    assert_eq!(cpu.sound_timer, 0x44);
    cpu.decrement_timers();
    assert_eq!(cpu.execute(0xF507), Ok(Effect::Nothing));
    assert_eq!(cpu.v[5], 0x32);
}

#[test]
fn bcd_of_123() {
    let mut cpu = Chip_8::build();
    cpu.v[7] = 123;
    cpu.i = 0x400;
    assert_eq!(cpu.execute(0xF733), Ok(Effect::Nothing));
    assert_eq!(&cpu.ram[0x400..0x403], &[1, 2, 3]);
    assert_eq!(cpu.ram[0x403], 0);
    assert_eq!(cpu.i, 0x400);
}

#[test]
fn bcd_of_small_and_large_values() {
    let mut cpu = Chip_8::build();
    cpu.i = 0x400;
    cpu.v[7] = 255;
    assert_eq!(cpu.execute(0xF733), Ok(Effect::Nothing));
    assert_eq!(&cpu.ram[0x400..0x403], &[2, 5, 5]);
    cpu.v[7] = 7;
    assert_eq!(cpu.execute(0xF733), Ok(Effect::Nothing));
    assert_eq!(&cpu.ram[0x400..0x403], &[0, 0, 7]);
    cpu.v[7] = 40;
    assert_eq!(cpu.execute(0xF733), Ok(Effect::Nothing));
    assert_eq!(&cpu.ram[0x400..0x403], &[0, 4, 0]);
}

#[test]
fn bcd_past_the_end_of_memory_is_a_fault() {
    let mut cpu = Chip_8::build();
    cpu.v[7] = 123;
    cpu.i = 0xFFE;
    assert_eq!(cpu.execute(0xF733), Err(ProgramFault::AddressOutOfRange(0xFFE)));
    assert_eq!(cpu.ram[0xFFE], 0);
    assert_eq!(cpu.pc, 0x200);
    cpu.i = 0xFFD;
    assert_eq!(cpu.execute(0xF733), Ok(Effect::Nothing));
    assert_eq!(&cpu.ram[0xFFD..0x1000], &[1, 2, 3]);
}

#[test]
fn dump_writes_registers_zero_to_x() {
    let mut cpu = Chip_8::build();
    for k in 0..16 {
        cpu.v[k] = 0x10 + k as u8;
    }
    cpu.i = 0x500;
    assert_eq!(cpu.execute(0xF355), Ok(Effect::Nothing));
    assert_eq!(&cpu.ram[0x500..0x504], &[0x10, 0x11, 0x12, 0x13]);
    assert_eq!(cpu.ram[0x504], 0);
    assert_eq!(cpu.i, 0x500);
}

#[test]
fn load_fills_registers_zero_to_x() {
    let mut cpu = Chip_8::build();
    cpu.ram[0x500] = 9;
    cpu.ram[0x501] = 8;
    cpu.ram[0x502] = 7;
    cpu.ram[0x503] = 6;
    cpu.v[3] = 0x77;
    cpu.i = 0x500;
    assert_eq!(cpu.execute(0xF265), Ok(Effect::Nothing));
    assert_eq!(&cpu.v[0..4], &[9, 8, 7, 0x77]);
    assert_eq!(cpu.i, 0x500);
}

#[test]
fn dump_and_load_past_the_end_of_memory_are_faults() {
    let mut cpu = Chip_8::build();
    cpu.i = 0xFFF;
    assert_eq!(cpu.execute(0xF055), Ok(Effect::Nothing));
    assert_eq!(cpu.execute(0xF155), Err(ProgramFault::AddressOutOfRange(0xFFF)));
    assert_eq!(cpu.execute(0xF065), Ok(Effect::Nothing));
    assert_eq!(cpu.execute(0xF165), Err(ProgramFault::AddressOutOfRange(0xFFF)));
    cpu.i = 0x1000;
    assert_eq!(cpu.execute(0xF055), Err(ProgramFault::AddressOutOfRange(0x1000)));
}

#[test]
fn random_byte_is_masked() {
    let mut cpu = Chip_8::build();
    cpu.v[1] = 0xFF;
    assert_eq!(cpu.execute(0xC100), Ok(Effect::Nothing));
    assert_eq!(cpu.v[1], 0);
    for _ in 0..64 {
        assert_eq!(cpu.execute(0xC20F), Ok(Effect::Nothing));
        assert!(cpu.v[2] < 16);
    }
    assert_eq!(cpu.pc, 0x200 + 2 * 65);
}

#[test]
fn given_random_byte_is_masked_into_the_register() {
    let mut cpu = Chip_8::build();
    assert_eq!(cpu.execute_with(0xC1F0, 0xAB), Ok(Effect::Nothing));
    assert_eq!(cpu.v[1], 0xA0);
    assert_eq!(cpu.execute_with(0xC23C, 0xFF), Ok(Effect::Nothing));
    assert_eq!(cpu.v[2], 0x3C);
    assert_eq!(cpu.execute_with(0xCFFF, 0x5A), Ok(Effect::Nothing));
    assert_eq!(cpu.v[0xF], 0x5A);
    assert_eq!(cpu.pc, 0x206);
}

#[test]
fn given_random_byte_is_ignored_by_other_instructions() {
    let mut a = Chip_8::build();
    let mut b = Chip_8::build();
    for op in [0x6112u16, 0x7101, 0x8110, 0xA234, 0xF11E, 0xD015, 0x2300] {
        assert_eq!(a.execute_with(op, 0x00), b.execute_with(op, 0xFF));
    }
    assert_eq!(a.v, b.v);
    assert_eq!(a.i, b.i);
    assert_eq!(a.pc, b.pc);
    assert_eq!(a.ram, b.ram);
    assert_eq!(a.display.pixels, b.display.pixels);
}

#[test]
fn random_bytes_are_not_all_the_same() {
    let mut cpu = Chip_8::build();
    let mut seen = [false; 256];
    for _ in 0..4096 {
        assert_eq!(cpu.execute(0xC3FF), Ok(Effect::Nothing));
        seen[cpu.v[3] as usize] = true;
        cpu.pc = 0x200;
    }
    assert!(seen.iter().filter(|&&s| s).count() > 1);
}

#[test]
fn draw_shows_a_glyph_and_asks_for_the_display() {
    let mut cpu = Chip_8::build();
    cpu.v[0] = 10;
    cpu.v[1] = 4;
    cpu.i = 5;
    assert_eq!(cpu.execute(0xD015), Ok(Effect::Present));
    assert_eq!(cpu.v[0xF], 0);
    assert_eq!(cpu.pc, 0x202);
    let glyph = [0x20u8, 0x60, 0x20, 0x20, 0x70];
    for (i, byte) in glyph.iter().enumerate() {
        for j in 0..8 {
            let bit = (byte >> (7 - j)) & 1 == 1;
            assert_eq!(cpu.display.pixels[4 + i][10 + j], bit);
        }
    }
    assert_eq!(count_lit(&cpu), 1 + 2 + 1 + 1 + 3);
}

#[test]
fn draw_twice_restores_the_display_and_sets_the_flag() {
    let mut cpu = Chip_8::build();
    cpu.v[0] = 10;
    cpu.v[1] = 4;
    cpu.i = 0;
    cpu.display.draw_pixel(40, 20, true);
    assert_eq!(cpu.execute(0xD015), Ok(Effect::Present));
    assert_eq!(cpu.v[0xF], 0);
    assert_eq!(cpu.execute(0xD015), Ok(Effect::Present));
    assert_eq!(cpu.v[0xF], 1);
    assert_eq!(count_lit(&cpu), 1);
    assert!(cpu.display.pixels[20][40]);
}

#[test]
fn draw_origin_wraps_but_the_sprite_is_cut() {
    let mut cpu = Chip_8::build();
    cpu.v[0] = 64 + 62;
    cpu.v[1] = 32 + 31;
    cpu.i = 0;
    assert_eq!(cpu.execute(0xD015), Ok(Effect::Present));
    assert_eq!(count_lit(&cpu), 2);
    assert!(cpu.display.pixels[31][62]);
    assert!(cpu.display.pixels[31][63]);
    assert_eq!(cpu.v[0xF], 0);
}

#[test]
fn draw_of_no_rows_changes_nothing_but_the_flag() {
    let mut cpu = Chip_8::build();
    cpu.v[0xF] = 1;
    assert_eq!(cpu.execute(0xD010), Ok(Effect::Present));
    assert_eq!(count_lit(&cpu), 0);
    assert_eq!(cpu.v[0xF], 0);
}

#[test]
fn draw_past_the_end_of_memory_is_a_fault() {
    let mut cpu = Chip_8::build();
    cpu.i = 0xFFC;
    assert_eq!(cpu.execute(0xD015), Err(ProgramFault::AddressOutOfRange(0xFFC)));
    assert_eq!(count_lit(&cpu), 0);
    assert_eq!(cpu.pc, 0x200);
    cpu.i = 0xFFB;
    assert_eq!(cpu.execute(0xD015), Ok(Effect::Present));
}

#[test]
fn clear_after_draws_leaves_a_dark_display() {
    let mut cpu = Chip_8::build();
    assert_eq!(cpu.execute(0x00E0), Ok(Effect::Present));
    cpu.v[0] = 3;
    cpu.v[1] = 9;
    assert_eq!(cpu.execute(0xD015), Ok(Effect::Present));
    cpu.i = 25;
    assert_eq!(cpu.execute(0xD105), Ok(Effect::Present));
    assert!(count_lit(&cpu) > 0);
    assert_eq!(cpu.execute(0x00E0), Ok(Effect::Present));
    assert_eq!(count_lit(&cpu), 0);
    assert_eq!(cpu.execute(0x00E0), Ok(Effect::Present));
    assert_eq!(count_lit(&cpu), 0);
    assert_eq!(cpu.pc, 0x20A);
}

#[test]
fn fetch_past_the_end_of_memory_is_a_fault() {
    let mut cpu = Chip_8::build();
    cpu.pc = 0xFFF;
    assert_eq!(cpu.fetch_decode_execute(), Err(ProgramFault::AddressOutOfRange(0xFFF)));
    assert_eq!(cpu.pc, 0xFFF);
    cpu.pc = 0xFFE;
    cpu.ram[0xFFE] = 0x61;
    cpu.ram[0xFFF] = 0x09;
    assert_eq!(cpu.fetch_decode_execute(), Ok(Effect::Nothing));
    assert_eq!(cpu.v[1], 9);
    assert_eq!(cpu.pc, 0x1000);
    assert_eq!(cpu.fetch_decode_execute(), Err(ProgramFault::AddressOutOfRange(0x1000)));
}

#[test]
fn fetch_reads_the_high_byte_first() {
    let mut cpu = machine_with(&[0xA2, 0x34]);
    assert_eq!(cpu.fetch_decode_execute(), Ok(Effect::Nothing));
    assert_eq!(cpu.i, 0x234);
}

#[test]
fn program_counter_wraps_at_sixteen_bits() {
    let mut cpu = Chip_8::build();
    cpu.pc = 0xFFFE;
    assert_eq!(cpu.execute(0x6001), Ok(Effect::Nothing));
    assert_eq!(cpu.pc, 0x0000);
}
