use chip8::cpu::instruction_set;
use chip8::cpu::{Chip8Error, Cpu};

fn boot(rom: Vec<u8>) -> Cpu {
    Cpu::new(rom).unwrap()
}

#[test]
fn construction_layout() {
    let cpu = boot(vec![0xAB, 0xCD]);
    assert_eq!(cpu.get_program_counter(), 0x200);
    assert_eq!(cpu.get_stack_pointer(), 0);
    assert!(cpu.get_stack().iter().all(|&w| w == 0));
    assert!(cpu.get_gp_registers().iter().all(|&v| v == 0));
    assert!(cpu.get_screen().iter().all(|&p| p == 0));
    assert_eq!(cpu.get_i_register(), 0);
    assert_eq!(cpu.get_t_register(), 0);
    assert_eq!(cpu.get_s_register(), 0);
    assert_eq!(cpu.memory[0x200], 0xAB);
    assert_eq!(cpu.memory[0x201], 0xCD);
    // Font table at the bottom, zero elsewhere.
    assert_eq!(cpu.memory[0], 0xF0);
    assert_eq!(cpu.memory[79], 0x80);
    assert_eq!(cpu.memory[80], 0);
    assert_eq!(cpu.memory[0x1FF], 0);
    assert_eq!(cpu.memory[0x202], 0);
    assert_eq!(cpu.memory[4095], 0);
}

#[test]
fn rom_boundary_sizes() {
    assert!(Cpu::new(vec![0; 3584]).is_ok());
    match Cpu::new(vec![0; 3585]) {
        Err(e) => assert_eq!(e, Chip8Error::OversizedRom),
        Ok(_) => panic!("an oversized ROM must be rejected"),
    }
}

#[test]
fn exact_fit_rom_reaches_last_byte() {
    let mut rom = vec![0; 3584];
    rom[3583] = 0x77;
    let cpu = boot(rom);
    assert_eq!(cpu.memory[4095], 0x77);
}

#[test]
fn end_to_end_two_steps() {
    let mut cpu = boot(vec![0x60, 0x05, 0x70, 0x03]);
    cpu.clock().unwrap();
    cpu.clock().unwrap();
    assert_eq!(cpu.get_gp_registers()[0], 0x08);
    assert_eq!(cpu.get_program_counter(), 0x204);
}

#[test]
fn call_and_return_round_trip() {
    // 0x200: call 0x208; 0x208: return.
    let mut rom = vec![0; 10];
    rom[0] = 0x22;
    rom[1] = 0x08;
    rom[8] = 0x00;
    rom[9] = 0xEE;
    let mut cpu = boot(rom);

    cpu.clock().unwrap();
    assert_eq!(cpu.get_program_counter(), 0x208);
    assert_eq!(cpu.get_stack_pointer(), 1);
    assert_eq!(cpu.get_stack()[0], 0x202);

    cpu.clock().unwrap();
    assert_eq!(cpu.get_program_counter(), 0x202);
    assert_eq!(cpu.get_stack_pointer(), 0);
}

#[test]
fn key_wait_blocks_until_injection() {
    // F50A: await a keypress for register 5.
    let mut cpu = boot(vec![0xF5, 0x0A]);
    cpu.clock().unwrap();
    assert_eq!(cpu.get_program_counter(), 0x202);
    for _ in 0..5 {
        cpu.clock().unwrap();
        assert_eq!(cpu.get_program_counter(), 0x202);
    }
    cpu.set_key(0xB);
    assert_eq!(cpu.get_gp_registers()[5], 0xB);
    assert_eq!(cpu.awaited_keypress, None);
    // The next step fetches again (bytes at 0x202 are 0x0000: an
    // unsupported pattern), showing execution resumed.
    assert!(cpu.clock().is_err());
}

#[test]
fn font_lookup_through_the_engine() {
    let mut cpu = boot(vec![0x60, 0x0A, 0xF0, 0x29]);
    cpu.clock().unwrap();
    cpu.clock().unwrap();
    assert_eq!(cpu.get_i_register(), 50);
}

#[test]
fn draw_twice_toggles_back_and_reports_collision() {
    let mut cpu = boot(Vec::new());
    cpu.memory[0x300] = 0xFF;
    instruction_set::set_i_to_addr(&mut cpu, 0x300);
    instruction_set::set_register_to_value(&mut cpu, 0, 4);
    instruction_set::set_register_to_value(&mut cpu, 1, 2);

    instruction_set::draw(&mut cpu, 0, 1, 1);
    for col in 0..8 {
        assert_eq!(cpu.get_screen()[4 + col + 2 * 64], 1);
    }
    assert_eq!(cpu.get_gp_registers()[0xF], 0);

    instruction_set::draw(&mut cpu, 0, 1, 1);
    assert!(cpu.get_screen().iter().all(|&p| p == 0));
    assert_eq!(cpu.get_gp_registers()[0xF], 1);
}

#[test]
fn draw_clips_at_the_bottom_of_the_screen() {
    let mut cpu = boot(Vec::new());
    cpu.memory[0x300] = 0xFF;
    cpu.memory[0x301] = 0xFF;
    instruction_set::set_i_to_addr(&mut cpu, 0x300);
    instruction_set::set_register_to_value(&mut cpu, 0, 0);
    instruction_set::set_register_to_value(&mut cpu, 1, 31);

    // Row 31 is the last one; the sprite's second row falls outside and is
    // dropped without wrapping.
    instruction_set::draw(&mut cpu, 0, 1, 2);
    for col in 0..8 {
        assert_eq!(cpu.get_screen()[col + 31 * 64], 1);
    }
    for col in 0..8 {
        assert_eq!(cpu.get_screen()[col], 0);
    }
    assert_eq!(cpu.get_gp_registers()[0xF], 0);
}

#[test]
fn draw_through_the_engine() {
    // D011: draw a 1-row sprite at (V0, V1).
    let mut cpu = boot(vec![0xD0, 0x11]);
    cpu.memory[0x300] = 0x80;
    instruction_set::set_i_to_addr(&mut cpu, 0x300);
    cpu.clock().unwrap();
    assert_eq!(cpu.get_screen()[0], 1);
    assert_eq!(cpu.get_program_counter(), 0x202);
}

#[test]
fn skip_instructions_move_the_program_counter() {
    // 3005: skip when V0 == 5 (it is 0, no skip); then 3000: skip (V0 == 0).
    let mut cpu = boot(vec![0x30, 0x05, 0x30, 0x00, 0x00, 0x00, 0x60, 0x01]);
    cpu.clock().unwrap();
    assert_eq!(cpu.get_program_counter(), 0x202);
    cpu.clock().unwrap();
    assert_eq!(cpu.get_program_counter(), 0x206);
    cpu.clock().unwrap();
    assert_eq!(cpu.get_gp_registers()[0], 1);
}

#[test]
fn key_skip_through_the_engine() {
    // 6503: V5 = 3; E59E: skip when key 3 is pressed.
    let mut cpu = boot(vec![0x65, 0x03, 0xE5, 0x9E, 0x00, 0x00, 0x60, 0x09]);
    cpu.set_key(3);
    cpu.clock().unwrap();
    cpu.clock().unwrap();
    assert_eq!(cpu.get_program_counter(), 0x206);
    cpu.clock().unwrap();
    assert_eq!(cpu.get_gp_registers()[0], 9);
}

#[test]
fn unsupported_opcode_is_reported_and_leaves_state() {
    let mut cpu = boot(vec![0x00, 0x00]);
    match cpu.clock() {
        Err(Chip8Error::UnsupportedOpcode { n1, n2, n3, n4 }) => {
            assert_eq!((n1, n2, n3, n4), (0, 0, 0, 0));
        }
        other => panic!("expected an unsupported-opcode error, got {:?}", other),
    }
    assert_eq!(cpu.get_program_counter(), 0x200);
}

#[test]
fn legacy_machine_call_is_unsupported() {
    // 0333 falls in the legacy machine-call group.
    let mut cpu = boot(vec![0x03, 0x33]);
    match cpu.clock() {
        Err(Chip8Error::UnsupportedOpcode { n1, n2, n3, n4 }) => {
            assert_eq!((n1, n2, n3, n4), (0, 3, 3, 3));
        }
        other => panic!("expected an unsupported-opcode error, got {:?}", other),
    }
}

#[test]
fn stack_underflow_on_return_without_call() {
    let mut cpu = boot(vec![0x00, 0xEE]);
    assert_eq!(cpu.clock(), Err(Chip8Error::StackUnderflow));
    assert_eq!(cpu.get_program_counter(), 0x200);
}

#[test]
fn stack_overflow_on_seventeenth_nested_call() {
    // 2200: call 0x200, repeatedly.
    let mut cpu = boot(vec![0x22, 0x00]);
    for depth in 1..=16 {
        cpu.clock().unwrap();
        assert_eq!(cpu.get_stack_pointer(), depth);
    }
    assert_eq!(cpu.clock(), Err(Chip8Error::StackOverflow));
    assert_eq!(cpu.get_stack_pointer(), 16);
    assert_eq!(cpu.get_program_counter(), 0x200);
}

#[test]
fn out_of_memory_digits_are_an_error() {
    // AFFF: I = 0xFFF; F033: write three digits at I.
    let mut cpu = boot(vec![0xAF, 0xFF, 0xF0, 0x33]);
    cpu.clock().unwrap();
    assert_eq!(cpu.clock(), Err(Chip8Error::InvalidMemoryAccess));
    assert_eq!(cpu.get_program_counter(), 0x202);
}

#[test]
fn out_of_memory_sprite_read_is_an_error() {
    // AFFF: I = 0xFFF; D012: draw two sprite rows read from I.
    let mut cpu = boot(vec![0xAF, 0xFF, 0xD0, 0x12]);
    cpu.clock().unwrap();
    assert_eq!(cpu.clock(), Err(Chip8Error::InvalidMemoryAccess));
}

#[test]
fn out_of_range_key_is_an_error() {
    // 6040: V0 = 0x40, no such key; E09E would index past the key table.
    let mut cpu = boot(vec![0x60, 0x40, 0xE0, 0x9E]);
    cpu.clock().unwrap();
    assert_eq!(cpu.clock(), Err(Chip8Error::InvalidMemoryAccess));
}

#[test]
fn random_masked_with_zero_is_zero() {
    // C000: V0 = random AND 0x00.
    let mut cpu = boot(vec![0xC0, 0x00]);
    instruction_set::set_register_to_value(&mut cpu, 0, 0xAA);
    cpu.clock().unwrap();
    assert_eq!(cpu.get_gp_registers()[0], 0);
}

#[test]
fn random_stays_within_its_mask() {
    // C10F: V1 = random AND 0x0F.
    let mut cpu = boot(vec![0xC1, 0x0F]);
    cpu.seed_random(7);
    cpu.clock().unwrap();
    assert_eq!(cpu.get_gp_registers()[1] & 0xF0, 0);
}

#[test]
fn current_instruction_word() {
    let cpu = boot(vec![0x12, 0x34]);
    assert_eq!(cpu.get_current_instruction(), 0x1234);
}

#[test]
fn register_dump_and_load_through_the_engine() {
    // 600A: V0 = 10; 6114: V1 = 20; A400: I = 0x400; F155: dump V0..V1;
    // 6000/6100: clear; F165: reload.
    let rom = vec![
        0x60, 0x0A, 0x61, 0x14, 0xA4, 0x00, 0xF1, 0x55, 0x60, 0x00, 0x61, 0x00, 0xF1, 0x65,
    ];
    let mut cpu = boot(rom);
    for _ in 0..7 {
        cpu.clock().unwrap();
    }
    assert_eq!(cpu.memory[0x400], 10);
    assert_eq!(cpu.memory[0x401], 20);
    assert_eq!(cpu.get_gp_registers()[0], 10);
    assert_eq!(cpu.get_gp_registers()[1], 20);
}
