//! The 34 executable instructions. Each one is proved to perform exactly
//! the transition its model counterpart describes; inputs on which the
//! machine cannot act (a full stack, an out-of-range memory index) are
//! excluded here and surfaced as typed errors by the engine's step.

use vstd::prelude::*;

use crate::cpu::model::{
    spec_add_register_to_iregister, spec_add_to_register, spec_clear_screen, spec_draw,
    spec_goto, spec_register_dump_to_memory, spec_register_load_from_memory,
    spec_register_to_decimal, spec_return_from_subroutine, spec_set_i_to_addr,
    spec_set_i_to_addr_plus_v0, spec_set_iregister_to_sprite, spec_set_register_as_addition,
    spec_set_register_as_b_sub_a, spec_set_register_as_bitwise_and_register,
    spec_set_register_as_bitwise_and_with_random, spec_set_register_as_bitwise_or_register,
    spec_set_register_as_bitwise_xor_register, spec_set_register_as_register,
    spec_set_register_as_shift_left, spec_set_register_as_shift_right,
    spec_set_register_as_subtraction, spec_set_register_to_key, spec_set_register_to_tregister,
    spec_set_register_to_value, spec_set_sregister_to_register, spec_set_tregister_to_register,
    spec_skip_if_key_npressed, spec_skip_if_key_pressed, spec_skip_if_register_equals,
    spec_skip_if_register_equals_register, spec_skip_if_register_nequal_register,
    spec_skip_if_register_nequals, spec_call_sub, spec_draw_row, draw_state, sprite_bit, CpuState,
};
use crate::cpu::random;
use crate::cpu::Cpu;

verus! {

/// Opcode 00E0.
pub fn clear_screen(cpu: &mut Cpu)
    requires
        old(cpu).wf(),
    ensures
        final(cpu).wf(),
        final(cpu)@ =~= spec_clear_screen(old(cpu)@),
{
    let mut k: usize = 0;
    while k < 2048
        invariant
            k <= 2048,
            cpu.gp_registers == old(cpu).gp_registers,
            cpu.i_register == old(cpu).i_register,
            cpu.t_register == old(cpu).t_register,
            cpu.s_register == old(cpu).s_register,
            cpu.program_counter == old(cpu).program_counter,
            cpu.stack_pointer == old(cpu).stack_pointer,
            cpu.stack == old(cpu).stack,
            cpu.memory == old(cpu).memory,
            cpu.keyboard == old(cpu).keyboard,
            cpu.awaited_keypress == old(cpu).awaited_keypress,
            cpu.rng == old(cpu).rng,
            forall|j: int| 0 <= j < k ==> cpu.screen@[j] == 0,
            forall|j: int| k <= j < 2048 ==> cpu.screen@[j] == old(cpu).screen@[j],
        decreases 2048 - k,
    {
        cpu.screen[k] = 0;
        k += 1;
    }
    proof {
        assert(cpu@.screen =~= spec_clear_screen(old(cpu)@).screen);
    }
}

/// Opcode 00EE.
pub fn return_from_subroutine(cpu: &mut Cpu)
    requires
        old(cpu).wf(),
        old(cpu).stack_pointer >= 1,
    ensures
        final(cpu).wf(),
        final(cpu)@ =~= spec_return_from_subroutine(old(cpu)@),
{
    cpu.program_counter = cpu.stack[(cpu.stack_pointer - 1) as usize];
    cpu.stack_pointer -= 1;
}

/// Opcode 1NNN.
pub fn goto(cpu: &mut Cpu, address: u16)
    requires
        old(cpu).wf(),
    ensures
        final(cpu).wf(),
        final(cpu)@ =~= spec_goto(old(cpu)@, address),
{
    cpu.program_counter = address;
}

/// Opcode 2NNN.
pub fn call_sub(cpu: &mut Cpu, address: u16)
    requires
        old(cpu).wf(),
        old(cpu).stack_pointer < 16,
    ensures
        final(cpu).wf(),
        final(cpu)@ =~= spec_call_sub(old(cpu)@, address),
{
    cpu.stack[cpu.stack_pointer as usize] = cpu.program_counter;
    cpu.stack_pointer += 1;
    cpu.program_counter = address;
}

/// Opcode 3XNN.
pub fn skip_if_register_equals(cpu: &mut Cpu, register: u8, value: u8)
    requires
        old(cpu).wf(),
        register < 16,
        old(cpu).program_counter + 2 <= u16::MAX,
    ensures
        final(cpu).wf(),
        final(cpu)@ =~= spec_skip_if_register_equals(old(cpu)@, register, value),
{
    if cpu.gp_registers[register as usize] == value {
        cpu.program_counter += 2;
    }
}

/// Opcode 4XNN.
pub fn skip_if_register_nequals(cpu: &mut Cpu, register: u8, value: u8)
    requires
        old(cpu).wf(),
        register < 16,
        old(cpu).program_counter + 2 <= u16::MAX,
    ensures
        final(cpu).wf(),
        final(cpu)@ =~= spec_skip_if_register_nequals(old(cpu)@, register, value),
{
    if cpu.gp_registers[register as usize] != value {
        cpu.program_counter += 2;
    }
}

/// Opcode 5XY0.
pub fn skip_if_register_equals_register(cpu: &mut Cpu, register_a: u8, register_b: u8)
    requires
        old(cpu).wf(),
        register_a < 16,
        register_b < 16,
        old(cpu).program_counter + 2 <= u16::MAX,
    ensures
        final(cpu).wf(),
        final(cpu)@ =~= spec_skip_if_register_equals_register(old(cpu)@, register_a, register_b),
{
    if cpu.gp_registers[register_a as usize] == cpu.gp_registers[register_b as usize] {
        cpu.program_counter += 2;
    }
}

/// Opcode 6XNN.
pub fn set_register_to_value(cpu: &mut Cpu, register: u8, value: u8)
    requires
        old(cpu).wf(),
        register < 16,
    ensures
        final(cpu).wf(),
        final(cpu)@ =~= spec_set_register_to_value(old(cpu)@, register, value),
{
    cpu.gp_registers[register as usize] = value;
}

/// Opcode 7XNN.
pub fn add_to_register(cpu: &mut Cpu, register: u8, value: u8)
    requires
        old(cpu).wf(),
        register < 16,
    ensures
        final(cpu).wf(),
        final(cpu)@ =~= spec_add_to_register(old(cpu)@, register, value),
{
    cpu.gp_registers[register as usize] = cpu.gp_registers[register as usize].wrapping_add(value);
}

/// Opcode 8XY0.
pub fn set_reigster_as_register(cpu: &mut Cpu, register_a: u8, register_b: u8)
    requires
        old(cpu).wf(),
        register_a < 16,
        register_b < 16,
    ensures
        final(cpu).wf(),
        final(cpu)@ =~= spec_set_register_as_register(old(cpu)@, register_a, register_b),
{
    cpu.gp_registers[register_a as usize] = cpu.gp_registers[register_b as usize];
}

/// Opcode 8XY1.
pub fn set_register_as_bitwise_or_register(cpu: &mut Cpu, register_a: u8, register_b: u8)
    requires
        old(cpu).wf(),
        register_a < 16,
        register_b < 16,
    ensures
        final(cpu).wf(),
        final(cpu)@ =~= spec_set_register_as_bitwise_or_register(old(cpu)@, register_a, register_b),
{
    cpu.gp_registers[register_a as usize] = cpu.gp_registers[register_a as usize]
        | cpu.gp_registers[register_b as usize];
}

/// Opcode 8XY2.
pub fn set_register_as_bitwise_and_register(cpu: &mut Cpu, register_a: u8, register_b: u8)
    requires
        old(cpu).wf(),
        register_a < 16,
        register_b < 16,
    ensures
        final(cpu).wf(),
        final(cpu)@ =~= spec_set_register_as_bitwise_and_register(old(cpu)@, register_a, register_b),
{
    cpu.gp_registers[register_a as usize] = cpu.gp_registers[register_a as usize]
        & cpu.gp_registers[register_b as usize];
}

/// Opcode 8XY3.
pub fn set_register_as_bitwise_xor_register(cpu: &mut Cpu, register_a: u8, register_b: u8)
    requires
        old(cpu).wf(),
        register_a < 16,
        register_b < 16,
    ensures
        final(cpu).wf(),
        final(cpu)@ =~= spec_set_register_as_bitwise_xor_register(old(cpu)@, register_a, register_b),
{
    cpu.gp_registers[register_a as usize] = cpu.gp_registers[register_a as usize]
        ^ cpu.gp_registers[register_b as usize];
}

/// Opcode 8XY4.
pub fn set_register_as_addition(cpu: &mut Cpu, register_a: u8, register_b: u8)
    requires
        old(cpu).wf(),
        register_a < 16,
        register_b < 16,
    ensures
        final(cpu).wf(),
        final(cpu)@ =~= spec_set_register_as_addition(old(cpu)@, register_a, register_b),
{
    let vx = cpu.gp_registers[register_a as usize];
    let vy = cpu.gp_registers[register_b as usize];
    let result = vx.wrapping_add(vy);
    let carry: u8 = if (vx as u16) + (vy as u16) > 255 {
        1
    } else {
        0
    };

    cpu.gp_registers[register_a as usize] = result;
    cpu.gp_registers[15] = carry;
}

/// Opcode 8XY5.
pub fn set_register_as_subtraction(cpu: &mut Cpu, register_a: u8, register_b: u8)
    requires
        old(cpu).wf(),
        register_a < 16,
        register_b < 16,
    ensures
        final(cpu).wf(),
        final(cpu)@ =~= spec_set_register_as_subtraction(old(cpu)@, register_a, register_b),
{
    let vx = cpu.gp_registers[register_a as usize];
    let vy = cpu.gp_registers[register_b as usize];

    cpu.gp_registers[register_a as usize] = vx.wrapping_sub(vy);
    cpu.gp_registers[15] = if vx >= vy {
        1
    } else {
        0
    };
}

/// Opcode 8XY6.
pub fn set_register_as_shift_right(cpu: &mut Cpu, register: u8)
    requires
        old(cpu).wf(),
        register < 16,
    ensures
        final(cpu).wf(),
        final(cpu)@ =~= spec_set_register_as_shift_right(old(cpu)@, register),
{
    let lsb = cpu.gp_registers[register as usize] & 1;

    cpu.gp_registers[register as usize] = cpu.gp_registers[register as usize] >> 1;
    cpu.gp_registers[15] = lsb;
}

/// Opcode 8XY7.
pub fn set_register_as_b_sub_a(cpu: &mut Cpu, register_a: u8, register_b: u8)
    requires
        old(cpu).wf(),
        register_a < 16,
        register_b < 16,
    ensures
        final(cpu).wf(),
        final(cpu)@ =~= spec_set_register_as_b_sub_a(old(cpu)@, register_a, register_b),
{
    let vx = cpu.gp_registers[register_a as usize];
    let vy = cpu.gp_registers[register_b as usize];

    cpu.gp_registers[register_a as usize] = vy.wrapping_sub(vx);
    cpu.gp_registers[15] = if vy >= vx {
        1
    } else {
        0
    };
}

/// Opcode 8XYE.
pub fn set_register_as_shift_left(cpu: &mut Cpu, register: u8)
    requires
        old(cpu).wf(),
        register < 16,
    ensures
        final(cpu).wf(),
        final(cpu)@ =~= spec_set_register_as_shift_left(old(cpu)@, register),
{
    let msb = (cpu.gp_registers[register as usize] >> 7) & 1;

    cpu.gp_registers[register as usize] = cpu.gp_registers[register as usize] << 1;
    cpu.gp_registers[15] = msb;
}

/// Opcode 9XY0.
pub fn skip_if_register_nequal_register(cpu: &mut Cpu, register_a: u8, register_b: u8)
    requires
        old(cpu).wf(),
        register_a < 16,
        register_b < 16,
        old(cpu).program_counter + 2 <= u16::MAX,
    ensures
        final(cpu).wf(),
        final(cpu)@ =~= spec_skip_if_register_nequal_register(old(cpu)@, register_a, register_b),
{
    if cpu.gp_registers[register_a as usize] != cpu.gp_registers[register_b as usize] {
        cpu.program_counter += 2;
    }
}

/// Opcode ANNN.
pub fn set_i_to_addr(cpu: &mut Cpu, address: u16)
    requires
        old(cpu).wf(),
    ensures
        final(cpu).wf(),
        final(cpu)@ =~= spec_set_i_to_addr(old(cpu)@, address),
{
    cpu.i_register = address;
}

/// Opcode BNNN.
pub fn set_i_to_addr_plus_v0(cpu: &mut Cpu, address: u16)
    requires
        old(cpu).wf(),
        address < 4096,
    ensures
        final(cpu).wf(),
        final(cpu)@ =~= spec_set_i_to_addr_plus_v0(old(cpu)@, address),
{
    cpu.i_register = address + cpu.gp_registers[0] as u16;
}

/// Opcode CXNN: the immediate is masked with one byte drawn from the
/// machine's random source. Whatever byte comes back, the transition is the
/// model's for that byte.
pub fn set_register_as_bitwise_and_with_random(cpu: &mut Cpu, register: u8, value: u8)
    requires
        old(cpu).wf(),
        register < 16,
    ensures
        final(cpu).wf(),
        exists|b: u8|
            final(cpu)@ =~= #[trigger] spec_set_register_as_bitwise_and_with_random(
                old(cpu)@,
                register,
                value,
                b,
            ),
{
    let random_number = random::next_byte(&mut cpu.rng);

    cpu.gp_registers[register as usize] = value & random_number;
    proof {
        assert(cpu@ =~= spec_set_register_as_bitwise_and_with_random(
            old(cpu)@,
            register,
            value,
            random_number,
        ));
    }
}

/// Opcode DXYN: XOR-draw an 8-wide, N-tall sprite read from memory at the
/// index register onto the framebuffer at (Vx, Vy). Pixels that fall
/// outside the 2048-cell framebuffer are clipped, not wrapped. VF reports
/// a collision (a lit pixel going unlit) and is otherwise left as it was.
pub fn draw(cpu: &mut Cpu, register_a: u8, register_b: u8, sprite_height: u8)
    requires
        old(cpu).wf(),
        register_a < 16,
        register_b < 16,
        sprite_height < 16,
        sprite_height > 0 ==> old(cpu).i_register + sprite_height <= 4096,
    ensures
        final(cpu).wf(),
        final(cpu)@ =~= spec_draw(old(cpu)@, register_a, register_b, sprite_height),
{
    let x = cpu.gp_registers[register_a as usize] as usize;
    let y = cpu.gp_registers[register_b as usize] as usize;
    let height = sprite_height as usize;
    let i0 = cpu.i_register as usize;
    let ghost s0 = cpu@;

    let mut offset: usize = 0;
    while offset < height
        invariant
            s0.wf(),
            offset <= height,
            height == sprite_height,
            height > 0 ==> i0 + height <= 4096,
            x == s0.gp_registers[register_a as int],
            y == s0.gp_registers[register_b as int],
            i0 == s0.i_register,
            x < 256,
            y < 256,
            height < 16,
            cpu.wf(),
            cpu@ =~= draw_state(s0, x as int, y as int, offset as int),
        decreases height - offset,
    {
        let row: u8 = cpu.memory[i0 + offset];
        let ghost base = draw_state(s0, x as int, y as int, offset as int);
        proof {
            assert(row == s0.memory[i0 + offset as int]);
        }

        let mut col: usize = 0;
        while col < 8
            invariant
                s0.wf(),
                col <= 8,
                offset < height,
                height == sprite_height,
                height > 0 ==> i0 + height <= 4096,
                x < 256,
                y < 256,
                height < 16,
                row == s0.memory[i0 + offset as int],
                base == draw_state(s0, x as int, y as int, offset as int),
                cpu.wf(),
                ({
                    let r = spec_draw_row(
                        base.screen,
                        base.gp_registers[15],
                        row,
                        x as int,
                        (y + offset) as int,
                        col as int,
                    );
                    cpu@ =~= (CpuState {
                        screen: r.0,
                        gp_registers: base.gp_registers.update(15, r.1),
                        ..base
                    })
                }),
            decreases 8 - col,
        {
            let idx = (x + col) + ((y + offset) * 64);

            if idx < 2048 {
                let oldpix = cpu.screen[idx];
                let shift: u8 = (7 - col) as u8;
                let bit = (row >> shift) & 1;
                let newpix = bit ^ oldpix;
                proof {
                    assert(bit == sprite_bit(row, col as int));
                    assert(bit <= 1) by (bit_vector)
                        requires
                            bit == (row >> shift) & 1,
                    ;
                    assert((bit ^ oldpix) <= 1) by (bit_vector)
                        requires
                            bit <= 1 && oldpix <= 1,
                    ;
                }

                if oldpix == 1 && newpix == 0 {
                    cpu.gp_registers[15] = 1;
                }
                cpu.screen[idx] = newpix;
            }
            col += 1;
        }
        offset += 1;
    }
}

/// Opcode EX9E.
pub fn skip_if_key_pressed(cpu: &mut Cpu, register: u8)
    requires
        old(cpu).wf(),
        register < 16,
        old(cpu).gp_registers@[register as int] < 16,
        old(cpu).program_counter + 2 <= u16::MAX,
    ensures
        final(cpu).wf(),
        final(cpu)@ =~= spec_skip_if_key_pressed(old(cpu)@, register),
{
    let key = cpu.gp_registers[register as usize];
    if cpu.keyboard[key as usize] {
        cpu.program_counter += 2;
    }
}

/// Opcode EXA1.
pub fn skip_if_key_npressed(cpu: &mut Cpu, register: u8)
    requires
        old(cpu).wf(),
        register < 16,
        old(cpu).gp_registers@[register as int] < 16,
        old(cpu).program_counter + 2 <= u16::MAX,
    ensures
        final(cpu).wf(),
        final(cpu)@ =~= spec_skip_if_key_npressed(old(cpu)@, register),
{
    let key = cpu.gp_registers[register as usize];
    if !cpu.keyboard[key as usize] {
        cpu.program_counter += 2;
    }
}

/// Opcode FX07.
pub fn set_register_to_tregister(cpu: &mut Cpu, register: u8)
    requires
        old(cpu).wf(),
        register < 16,
    ensures
        final(cpu).wf(),
        final(cpu)@ =~= spec_set_register_to_tregister(old(cpu)@, register),
{
    cpu.gp_registers[register as usize] = cpu.t_register;
}

/// Opcode FX0A.
pub fn set_register_to_key(cpu: &mut Cpu, register: u8)
    requires
        old(cpu).wf(),
        register < 16,
    ensures
        final(cpu).wf(),
        final(cpu)@ =~= spec_set_register_to_key(old(cpu)@, register),
{
    cpu.awaited_keypress = Some(register);
}

/// Opcode FX15.
pub fn set_tregister_to_register(cpu: &mut Cpu, register: u8)
    requires
        old(cpu).wf(),
        register < 16,
    ensures
        final(cpu).wf(),
        final(cpu)@ =~= spec_set_tregister_to_register(old(cpu)@, register),
{
    cpu.t_register = cpu.gp_registers[register as usize];
}

/// Opcode FX18.
pub fn set_sregister_to_register(cpu: &mut Cpu, register: u8)
    requires
        old(cpu).wf(),
        register < 16,
    ensures
        final(cpu).wf(),
        final(cpu)@ =~= spec_set_sregister_to_register(old(cpu)@, register),
{
    cpu.s_register = cpu.gp_registers[register as usize];
}

/// Opcode FX1E.
pub fn add_register_to_iregister(cpu: &mut Cpu, register: u8)
    requires
        old(cpu).wf(),
        register < 16,
    ensures
        final(cpu).wf(),
        final(cpu)@ =~= spec_add_register_to_iregister(old(cpu)@, register),
{
    cpu.i_register = cpu.i_register.wrapping_add(cpu.gp_registers[register as usize] as u16);
}

/// Opcode FX29.
pub fn set_iregister_to_sprite(cpu: &mut Cpu, register: u8)
    requires
        old(cpu).wf(),
        register < 16,
    ensures
        final(cpu).wf(),
        final(cpu)@ =~= spec_set_iregister_to_sprite(old(cpu)@, register),
{
    let value = cpu.gp_registers[register as usize];
    cpu.i_register = value as u16 * 5;
}

/// Opcode FX33.
pub fn register_to_decimal(cpu: &mut Cpu, register: u8)
    requires
        old(cpu).wf(),
        register < 16,
        old(cpu).i_register + 2 < 4096,
    ensures
        final(cpu).wf(),
        final(cpu)@ =~= spec_register_to_decimal(old(cpu)@, register),
{
    let i = cpu.i_register as usize;
    let v = cpu.gp_registers[register as usize];
    cpu.memory[i] = (v / 100) % 10;
    cpu.memory[i + 1] = (v / 10) % 10;
    cpu.memory[i + 2] = v % 10;
}

/// Opcode FX55.
pub fn register_dump_to_memory(cpu: &mut Cpu, register: u8)
    requires
        old(cpu).wf(),
        register < 16,
        old(cpu).i_register + register < 4096,
    ensures
        final(cpu).wf(),
        final(cpu)@ =~= spec_register_dump_to_memory(old(cpu)@, register),
{
    let i = cpu.i_register as usize;
    let mut k: usize = 0;
    while k <= register as usize
        invariant
            old(cpu).wf(),
            register < 16,
            old(cpu).i_register + register < 4096,
            i == old(cpu).i_register as int,
            k <= register + 1,
            cpu.gp_registers == old(cpu).gp_registers,
            cpu.i_register == old(cpu).i_register,
            cpu.t_register == old(cpu).t_register,
            cpu.s_register == old(cpu).s_register,
            cpu.program_counter == old(cpu).program_counter,
            cpu.stack_pointer == old(cpu).stack_pointer,
            cpu.stack == old(cpu).stack,
            cpu.screen == old(cpu).screen,
            cpu.keyboard == old(cpu).keyboard,
            cpu.awaited_keypress == old(cpu).awaited_keypress,
            cpu.rng == old(cpu).rng,
            forall|j: int|
                0 <= j < 4096 && !(i <= j < i + k) ==> cpu.memory@[j] == old(cpu).memory@[j],
            forall|j: int| i <= j < i + k ==> cpu.memory@[j] == old(cpu).gp_registers@[j - i],
        decreases register + 1 - k,
    {
        cpu.memory[i + k] = cpu.gp_registers[k];
        k += 1;
    }
    proof {
        assert(cpu@.memory =~= spec_register_dump_to_memory(old(cpu)@, register).memory);
    }
}

/// Opcode FX65.
pub fn register_load_from_memory(cpu: &mut Cpu, register: u8)
    requires
        old(cpu).wf(),
        register < 16,
        old(cpu).i_register + register < 4096,
    ensures
        final(cpu).wf(),
        final(cpu)@ =~= spec_register_load_from_memory(old(cpu)@, register),
{
    let i = cpu.i_register as usize;
    let mut k: usize = 0;
    while k <= register as usize
        invariant
            old(cpu).wf(),
            register < 16,
            old(cpu).i_register + register < 4096,
            i == old(cpu).i_register as int,
            k <= register + 1,
            cpu.memory == old(cpu).memory,
            cpu.i_register == old(cpu).i_register,
            cpu.t_register == old(cpu).t_register,
            cpu.s_register == old(cpu).s_register,
            cpu.program_counter == old(cpu).program_counter,
            cpu.stack_pointer == old(cpu).stack_pointer,
            cpu.stack == old(cpu).stack,
            cpu.screen == old(cpu).screen,
            cpu.keyboard == old(cpu).keyboard,
            cpu.awaited_keypress == old(cpu).awaited_keypress,
            cpu.rng == old(cpu).rng,
            forall|j: int| k <= j < 16 ==> cpu.gp_registers@[j] == old(cpu).gp_registers@[j],
            forall|j: int| 0 <= j < k ==> cpu.gp_registers@[j] == old(cpu).memory@[i + j],
        decreases register + 1 - k,
    {
        cpu.gp_registers[k] = cpu.memory[i + k];
        k += 1;
    }
    proof {
        assert(cpu@.gp_registers =~= spec_register_load_from_memory(old(cpu)@, register).gp_registers);
    }
}

} // verus!
