use chip8::cpu::instruction_set;
use chip8::cpu::utils;
use chip8::cpu::Cpu;

fn fresh_cpu() -> Cpu {
    Cpu::new(Vec::new()).unwrap()
}

#[test]
fn load_then_read_every_register() {
    let mut cpu = fresh_cpu();
    for x in 0..16u8 {
        for n in [0x00u8, 0x01, 0x7F, 0xAB, 0xFF] {
            instruction_set::set_register_to_value(&mut cpu, x, n);
            assert_eq!(cpu.get_gp_registers()[x as usize], n);
        }
    }
}

#[test]
fn addition_with_carry() {
    let mut cpu = fresh_cpu();
    instruction_set::set_register_to_value(&mut cpu, 0, 0xFF);
    instruction_set::set_register_to_value(&mut cpu, 1, 0x01);
    instruction_set::set_register_as_addition(&mut cpu, 0, 1);
    assert_eq!(cpu.get_gp_registers()[0], 0x00);
    assert_eq!(cpu.get_gp_registers()[0xF], 1);
}

#[test]
fn addition_without_carry() {
    let mut cpu = fresh_cpu();
    instruction_set::set_register_to_value(&mut cpu, 0, 0x12);
    instruction_set::set_register_to_value(&mut cpu, 1, 0x34);
    instruction_set::set_register_as_addition(&mut cpu, 0, 1);
    assert_eq!(cpu.get_gp_registers()[0], 0x46);
    assert_eq!(cpu.get_gp_registers()[0xF], 0);
}

#[test]
fn subtraction_without_borrow() {
    let mut cpu = fresh_cpu();
    instruction_set::set_register_to_value(&mut cpu, 0, 0x05);
    instruction_set::set_register_to_value(&mut cpu, 1, 0x03);
    instruction_set::set_register_as_subtraction(&mut cpu, 0, 1);
    assert_eq!(cpu.get_gp_registers()[0], 0x02);
    assert_eq!(cpu.get_gp_registers()[0xF], 1);
}

#[test]
fn subtraction_with_borrow() {
    let mut cpu = fresh_cpu();
    instruction_set::set_register_to_value(&mut cpu, 0, 0x03);
    instruction_set::set_register_to_value(&mut cpu, 1, 0x05);
    instruction_set::set_register_as_subtraction(&mut cpu, 0, 1);
    assert_eq!(cpu.get_gp_registers()[0], 0xFE);
    assert_eq!(cpu.get_gp_registers()[0xF], 0);
}

#[test]
fn reverse_subtraction_flags() {
    let mut cpu = fresh_cpu();
    instruction_set::set_register_to_value(&mut cpu, 0, 0x03);
    instruction_set::set_register_to_value(&mut cpu, 1, 0x05);
    instruction_set::set_register_as_b_sub_a(&mut cpu, 0, 1);
    assert_eq!(cpu.get_gp_registers()[0], 0x02);
    assert_eq!(cpu.get_gp_registers()[0xF], 1);
}

#[test]
fn shift_right_keeps_low_bit_in_flag() {
    let mut cpu = fresh_cpu();
    instruction_set::set_register_to_value(&mut cpu, 0, 0x03);
    instruction_set::set_register_as_shift_right(&mut cpu, 0);
    assert_eq!(cpu.get_gp_registers()[0], 0x01);
    assert_eq!(cpu.get_gp_registers()[0xF], 1);
}

#[test]
fn shift_left_keeps_high_bit_in_flag() {
    let mut cpu = fresh_cpu();
    instruction_set::set_register_to_value(&mut cpu, 0, 0x81);
    instruction_set::set_register_as_shift_left(&mut cpu, 0);
    assert_eq!(cpu.get_gp_registers()[0], 0x02);
    assert_eq!(cpu.get_gp_registers()[0xF], 1);
}

#[test]
fn bitwise_register_operations() {
    let mut cpu = fresh_cpu();
    instruction_set::set_register_to_value(&mut cpu, 0, 0b1100);
    instruction_set::set_register_to_value(&mut cpu, 1, 0b1010);
    instruction_set::set_register_as_bitwise_or_register(&mut cpu, 0, 1);
    assert_eq!(cpu.get_gp_registers()[0], 0b1110);

    instruction_set::set_register_to_value(&mut cpu, 0, 0b1100);
    instruction_set::set_register_as_bitwise_and_register(&mut cpu, 0, 1);
    assert_eq!(cpu.get_gp_registers()[0], 0b1000);

    instruction_set::set_register_to_value(&mut cpu, 0, 0b1100);
    instruction_set::set_register_as_bitwise_xor_register(&mut cpu, 0, 1);
    assert_eq!(cpu.get_gp_registers()[0], 0b0110);
}

#[test]
fn register_copy() {
    let mut cpu = fresh_cpu();
    instruction_set::set_register_to_value(&mut cpu, 3, 0x77);
    instruction_set::set_reigster_as_register(&mut cpu, 2, 3);
    assert_eq!(cpu.get_gp_registers()[2], 0x77);
}

#[test]
fn add_to_register_wraps() {
    let mut cpu = fresh_cpu();
    instruction_set::set_register_to_value(&mut cpu, 0, 0xFE);
    instruction_set::add_to_register(&mut cpu, 0, 0x03);
    assert_eq!(cpu.get_gp_registers()[0], 0x01);
    // No flag is touched by 7XNN.
    assert_eq!(cpu.get_gp_registers()[0xF], 0);
}

#[test]
fn decimal_digits_written_at_index() {
    let mut cpu = fresh_cpu();
    instruction_set::set_register_to_value(&mut cpu, 4, 159);
    instruction_set::set_i_to_addr(&mut cpu, 0x600);
    instruction_set::register_to_decimal(&mut cpu, 4);
    assert_eq!(cpu.memory[0x600], 1);
    assert_eq!(cpu.memory[0x601], 5);
    assert_eq!(cpu.memory[0x602], 9);
}

#[test]
fn dump_then_load_round_trip() {
    let mut cpu = fresh_cpu();
    for x in 0..8u8 {
        instruction_set::set_register_to_value(&mut cpu, x, 0x10 + x);
    }
    instruction_set::set_i_to_addr(&mut cpu, 0x500);
    instruction_set::register_dump_to_memory(&mut cpu, 7);
    for x in 0..8u8 {
        assert_eq!(cpu.memory[0x500 + x as usize], 0x10 + x);
        instruction_set::set_register_to_value(&mut cpu, x, 0);
    }
    instruction_set::register_load_from_memory(&mut cpu, 7);
    for x in 0..8u8 {
        assert_eq!(cpu.get_gp_registers()[x as usize], 0x10 + x);
    }
    // Registers past X are untouched by FX65.
    assert_eq!(cpu.get_gp_registers()[8], 0);
}

#[test]
fn clear_screen_unlights_everything() {
    let mut cpu = fresh_cpu();
    cpu.screen[0] = 1;
    cpu.screen[2047] = 1;
    instruction_set::clear_screen(&mut cpu);
    assert!(cpu.get_screen().iter().all(|&p| p == 0));
}

#[test]
fn index_register_arithmetic() {
    let mut cpu = fresh_cpu();
    instruction_set::set_i_to_addr(&mut cpu, 0x123);
    assert_eq!(cpu.get_i_register(), 0x123);

    instruction_set::set_register_to_value(&mut cpu, 0, 0x10);
    instruction_set::set_i_to_addr_plus_v0(&mut cpu, 0x200);
    assert_eq!(cpu.get_i_register(), 0x210);

    instruction_set::set_register_to_value(&mut cpu, 2, 0x05);
    instruction_set::add_register_to_iregister(&mut cpu, 2);
    assert_eq!(cpu.get_i_register(), 0x215);
}

#[test]
fn timer_registers_move_through_vx() {
    let mut cpu = fresh_cpu();
    instruction_set::set_register_to_value(&mut cpu, 1, 42);
    instruction_set::set_tregister_to_register(&mut cpu, 1);
    assert_eq!(cpu.get_t_register(), 42);
    instruction_set::set_sregister_to_register(&mut cpu, 1);
    assert_eq!(cpu.get_s_register(), 42);

    instruction_set::set_register_to_value(&mut cpu, 1, 0);
    instruction_set::set_register_to_tregister(&mut cpu, 1);
    assert_eq!(cpu.get_gp_registers()[1], 42);
}

#[test]
fn font_glyph_address() {
    let mut cpu = fresh_cpu();
    instruction_set::set_register_to_value(&mut cpu, 0, 0x0A);
    instruction_set::set_iregister_to_sprite(&mut cpu, 0);
    assert_eq!(cpu.get_i_register(), 50);
}

#[test]
fn opcode_helpers_assemble_operands() {
    assert_eq!(utils::opcode_to_address(0x1, 0x2, 0x3), 0x123);
    assert_eq!(utils::opcode_to_address(0xF, 0xF, 0xF), 0xFFF);
    assert_eq!(utils::opcode_to_address(0x0, 0x0, 0x0), 0x000);
    assert_eq!(utils::opcode_to_value(0xA, 0xB), 0xAB);
    assert_eq!(utils::opcode_to_value(0x0, 0x7), 0x07);
}

#[test]
fn font_table_contents() {
    let font = utils::font_table();
    assert_eq!(font.len(), 80);
    assert_eq!(font[0], 0xF0);
    // Glyph for 0xA starts at byte 50.
    assert_eq!(font[50], 0xF0);
    assert_eq!(&font[50..55], &[0xF0, 0x90, 0xF0, 0x90, 0x90]);
    assert_eq!(font[79], 0x80);
}
