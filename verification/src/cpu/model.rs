//! The mathematical model of the machine: an abstract state and one pure
//! transition per instruction. The executable engine is proved to follow
//! these transitions exactly.

use vstd::prelude::*;

use crate::cpu::Chip8Error;
use vstd::wrapping::u16_specs;
use vstd::wrapping::u8_specs;

verus! {

/// Abstract machine state: every observable component of the interpreter,
/// with sequences in place of the concrete arrays.
#[verifier::ext_equal]
pub ghost struct CpuState {
    pub gp_registers: Seq<u8>,
    pub i_register: u16,
    pub t_register: u8,
    pub s_register: u8,
    pub program_counter: u16,
    pub stack_pointer: u8,
    pub stack: Seq<u16>,
    pub memory: Seq<u8>,
    pub screen: Seq<u8>,
    pub keyboard: Seq<bool>,
    pub awaited_keypress: Option<u8>,
}

impl CpuState {
    /// Well-formedness: fixed component sizes, a stack pointer within the
    /// 16-level stack, framebuffer cells that are 0 or 1, and a pending
    /// key-wait register (if any) that names one of the 16 registers.
    pub open spec fn wf(self) -> bool {
        &&& self.gp_registers.len() == 16
        &&& self.stack.len() == 16
        &&& self.memory.len() == 4096
        &&& self.screen.len() == 2048
        &&& self.keyboard.len() == 16
        &&& self.stack_pointer <= 16
        &&& forall|i: int| 0 <= i < 2048 ==> self.screen[i] <= 1
        &&& match self.awaited_keypress {
            Some(r) => r < 16,
            None => true,
        }
    }
}

/// High nibble of a byte.
pub open spec fn hi_nibble(b: u8) -> u8 {
    b >> 4
}

/// Low nibble of a byte.
pub open spec fn lo_nibble(b: u8) -> u8 {
    b & 0x0F
}

/// The 12-bit address assembled from three nibbles.
pub open spec fn nibbles_to_addr(a: u8, b: u8, c: u8) -> u16
    recommends
        a < 16,
        b < 16,
        c < 16,
{
    (a * 256 + b * 16 + c) as u16
}

/// The 8-bit immediate assembled from two nibbles.
pub open spec fn nibbles_to_value(a: u8, b: u8) -> u8
    recommends
        a < 16,
        b < 16,
{
    (a * 16 + b) as u8
}

/// The 16-bit instruction word at the program counter.
pub open spec fn spec_instruction_word(s: CpuState) -> u16
    recommends
        s.wf(),
        s.program_counter + 1 < 4096,
{
    (s.memory[s.program_counter as int] * 256 + s.memory[s.program_counter as int + 1]) as u16
}

pub open spec fn with_pc(s: CpuState, pc: u16) -> CpuState {
    CpuState { program_counter: pc, ..s }
}

/// The 80 bytes of the built-in font table: 16 glyphs of 5 bytes each, one
/// glyph per hexadecimal digit, in digit order.
pub open spec fn font_sprites() -> Seq<u8> {
    seq![
        0xF0u8, 0x90, 0x90, 0x90, 0xF0,
        0x20, 0x60, 0x20, 0x20, 0x70,
        0xF0, 0x10, 0xF0, 0x80, 0xF0,
        0xF0, 0x10, 0xF0, 0x10, 0xF0,
        0x90, 0x90, 0xF0, 0x10, 0x10,
        0xF0, 0x80, 0xF0, 0x10, 0xF0,
        0xF0, 0x80, 0xF0, 0x90, 0xF0,
        0xF0, 0x10, 0x20, 0x40, 0x40,
        0xF0, 0x90, 0xF0, 0x90, 0xF0,
        0xF0, 0x90, 0xF0, 0x10, 0xF0,
        0xF0, 0x90, 0xF0, 0x90, 0x90,
        0xE0, 0x90, 0xE0, 0x90, 0xE0,
        0xF0, 0x80, 0x80, 0x80, 0xF0,
        0xE0, 0x90, 0x90, 0x90, 0xE0,
        0xF0, 0x80, 0xF0, 0x80, 0xF0,
        0xF0, 0x80, 0xF0, 0x80, 0x80,
    ]
}

pub open spec fn with_reg(s: CpuState, x: int, v: u8) -> CpuState {
    CpuState { gp_registers: s.gp_registers.update(x, v), ..s }
}

/// 00E0: every framebuffer cell becomes unlit.
pub open spec fn spec_clear_screen(s: CpuState) -> CpuState {
    CpuState { screen: Seq::new(2048, |i: int| 0u8), ..s }
}

/// 00EE: the program counter is restored from the top of the stack and the
/// stack pointer drops by one.
pub open spec fn spec_return_from_subroutine(s: CpuState) -> CpuState
    recommends
        s.wf(),
        s.stack_pointer >= 1,
{
    CpuState {
        program_counter: s.stack[s.stack_pointer as int - 1],
        stack_pointer: (s.stack_pointer - 1) as u8,
        ..s
    }
}

/// 1NNN: the program counter becomes the given address.
pub open spec fn spec_goto(s: CpuState, address: u16) -> CpuState {
    with_pc(s, address)
}

/// 2NNN: the current program counter is pushed and control moves to the
/// given address.
pub open spec fn spec_call_sub(s: CpuState, address: u16) -> CpuState
    recommends
        s.wf(),
        s.stack_pointer < 16,
{
    CpuState {
        stack: s.stack.update(s.stack_pointer as int, s.program_counter),
        stack_pointer: (s.stack_pointer + 1) as u8,
        program_counter: address,
        ..s
    }
}

/// 3XNN: the next instruction is skipped when Vx equals the immediate.
pub open spec fn spec_skip_if_register_equals(s: CpuState, register: u8, value: u8) -> CpuState {
    if s.gp_registers[register as int] == value {
        with_pc(s, (s.program_counter + 2) as u16)
    } else {
        s
    }
}

/// 4XNN: the next instruction is skipped when Vx differs from the immediate.
pub open spec fn spec_skip_if_register_nequals(s: CpuState, register: u8, value: u8) -> CpuState {
    if s.gp_registers[register as int] != value {
        with_pc(s, (s.program_counter + 2) as u16)
    } else {
        s
    }
}

/// 5XY0: the next instruction is skipped when Vx equals Vy.
pub open spec fn spec_skip_if_register_equals_register(
    s: CpuState,
    register_a: u8,
    register_b: u8,
) -> CpuState {
    if s.gp_registers[register_a as int] == s.gp_registers[register_b as int] {
        with_pc(s, (s.program_counter + 2) as u16)
    } else {
        s
    }
}

/// 9XY0: the next instruction is skipped when Vx differs from Vy.
pub open spec fn spec_skip_if_register_nequal_register(
    s: CpuState,
    register_a: u8,
    register_b: u8,
) -> CpuState {
    if s.gp_registers[register_a as int] != s.gp_registers[register_b as int] {
        with_pc(s, (s.program_counter + 2) as u16)
    } else {
        s
    }
}

/// 6XNN: Vx becomes the immediate.
pub open spec fn spec_set_register_to_value(s: CpuState, register: u8, value: u8) -> CpuState {
    with_reg(s, register as int, value)
}

/// 7XNN: the immediate is added to Vx, wrapping modulo 256; no flag.
pub open spec fn spec_add_to_register(s: CpuState, register: u8, value: u8) -> CpuState {
    with_reg(s, register as int, u8_specs::wrapping_add(s.gp_registers[register as int], value))
}

/// 8XY0: Vx becomes Vy.
pub open spec fn spec_set_register_as_register(
    s: CpuState,
    register_a: u8,
    register_b: u8,
) -> CpuState {
    with_reg(s, register_a as int, s.gp_registers[register_b as int])
}

/// 8XY1: Vx becomes Vx OR Vy.
pub open spec fn spec_set_register_as_bitwise_or_register(
    s: CpuState,
    register_a: u8,
    register_b: u8,
) -> CpuState {
    with_reg(
        s,
        register_a as int,
        s.gp_registers[register_a as int] | s.gp_registers[register_b as int],
    )
}

/// 8XY2: Vx becomes Vx AND Vy.
pub open spec fn spec_set_register_as_bitwise_and_register(
    s: CpuState,
    register_a: u8,
    register_b: u8,
) -> CpuState {
    with_reg(
        s,
        register_a as int,
        s.gp_registers[register_a as int] & s.gp_registers[register_b as int],
    )
}

/// 8XY3: Vx becomes Vx XOR Vy.
pub open spec fn spec_set_register_as_bitwise_xor_register(
    s: CpuState,
    register_a: u8,
    register_b: u8,
) -> CpuState {
    with_reg(
        s,
        register_a as int,
        s.gp_registers[register_a as int] ^ s.gp_registers[register_b as int],
    )
}

/// 8XY4: Vx becomes Vx plus Vy modulo 256, and VF becomes the carry bit.
pub open spec fn spec_set_register_as_addition(
    s: CpuState,
    register_a: u8,
    register_b: u8,
) -> CpuState {
    let vx = s.gp_registers[register_a as int];
    let vy = s.gp_registers[register_b as int];
    let carry: u8 = if vx + vy > 255 {
        1
    } else {
        0
    };
    CpuState {
        gp_registers: s.gp_registers.update(
            register_a as int,
            u8_specs::wrapping_add(vx, vy),
        ).update(15, carry),
        ..s
    }
}

/// 8XY5: Vx becomes Vx minus Vy modulo 256, and VF becomes 1 exactly when
/// there is no borrow (Vx >= Vy).
pub open spec fn spec_set_register_as_subtraction(
    s: CpuState,
    register_a: u8,
    register_b: u8,
) -> CpuState {
    let vx = s.gp_registers[register_a as int];
    let vy = s.gp_registers[register_b as int];
    let no_borrow: u8 = if vx >= vy {
        1
    } else {
        0
    };
    CpuState {
        gp_registers: s.gp_registers.update(
            register_a as int,
            u8_specs::wrapping_sub(vx, vy),
        ).update(15, no_borrow),
        ..s
    }
}

/// 8XY6: VF becomes the least significant bit of Vx, and Vx is shifted
/// right by one.
pub open spec fn spec_set_register_as_shift_right(s: CpuState, register: u8) -> CpuState {
    let vx = s.gp_registers[register as int];
    CpuState {
        gp_registers: s.gp_registers.update(register as int, vx >> 1).update(15, vx & 1),
        ..s
    }
}

/// 8XY7: Vx becomes Vy minus Vx modulo 256, and VF becomes 1 exactly when
/// there is no borrow (Vy >= Vx).
pub open spec fn spec_set_register_as_b_sub_a(
    s: CpuState,
    register_a: u8,
    register_b: u8,
) -> CpuState {
    let vx = s.gp_registers[register_a as int];
    let vy = s.gp_registers[register_b as int];
    let no_borrow: u8 = if vy >= vx {
        1
    } else {
        0
    };
    CpuState {
        gp_registers: s.gp_registers.update(
            register_a as int,
            u8_specs::wrapping_sub(vy, vx),
        ).update(15, no_borrow),
        ..s
    }
}

/// 8XYE: VF becomes the most significant bit of Vx, and Vx is shifted left
/// by one.
pub open spec fn spec_set_register_as_shift_left(s: CpuState, register: u8) -> CpuState {
    let vx = s.gp_registers[register as int];
    CpuState {
        gp_registers: s.gp_registers.update(register as int, vx << 1).update(
            15,
            (vx >> 7) & 1,
        ),
        ..s
    }
}

/// ANNN: the index register becomes the given address.
pub open spec fn spec_set_i_to_addr(s: CpuState, address: u16) -> CpuState {
    CpuState { i_register: address, ..s }
}

/// BNNN: the index register becomes the given address plus V0. The address
/// is at most 4095 and V0 at most 255, so the sum stays within 16 bits.
pub open spec fn spec_set_i_to_addr_plus_v0(s: CpuState, address: u16) -> CpuState
    recommends
        address < 4096,
{
    CpuState { i_register: (address + s.gp_registers[0]) as u16, ..s }
}

/// CXNN: Vx becomes the immediate AND a byte from the random source.
pub open spec fn spec_set_register_as_bitwise_and_with_random(
    s: CpuState,
    register: u8,
    value: u8,
    rand: u8,
) -> CpuState {
    with_reg(s, register as int, value & rand)
}

/// EX9E: the next instruction is skipped when key Vx is pressed.
pub open spec fn spec_skip_if_key_pressed(s: CpuState, register: u8) -> CpuState {
    if s.keyboard[s.gp_registers[register as int] as int] {
        with_pc(s, (s.program_counter + 2) as u16)
    } else {
        s
    }
}

/// EXA1: the next instruction is skipped when key Vx is not pressed.
pub open spec fn spec_skip_if_key_npressed(s: CpuState, register: u8) -> CpuState {
    if !s.keyboard[s.gp_registers[register as int] as int] {
        with_pc(s, (s.program_counter + 2) as u16)
    } else {
        s
    }
}

/// FX07: Vx becomes the delay timer.
pub open spec fn spec_set_register_to_tregister(s: CpuState, register: u8) -> CpuState {
    with_reg(s, register as int, s.t_register)
}

/// FX0A: the machine starts awaiting a keypress for register X.
pub open spec fn spec_set_register_to_key(s: CpuState, register: u8) -> CpuState {
    CpuState { awaited_keypress: Some(register), ..s }
}

/// FX15: the delay timer becomes Vx.
pub open spec fn spec_set_tregister_to_register(s: CpuState, register: u8) -> CpuState {
    CpuState { t_register: s.gp_registers[register as int], ..s }
}

/// FX18: the sound timer becomes Vx.
pub open spec fn spec_set_sregister_to_register(s: CpuState, register: u8) -> CpuState {
    CpuState { s_register: s.gp_registers[register as int], ..s }
}

/// FX1E: Vx is added to the index register, wrapping at 16 bits.
pub open spec fn spec_add_register_to_iregister(s: CpuState, register: u8) -> CpuState {
    CpuState {
        i_register: u16_specs::wrapping_add(
            s.i_register,
            s.gp_registers[register as int] as u16,
        ),
        ..s
    }
}

/// FX29: the index register becomes the base address of the font glyph for
/// the value in Vx (5 bytes per glyph).
pub open spec fn spec_set_iregister_to_sprite(s: CpuState, register: u8) -> CpuState {
    CpuState { i_register: (s.gp_registers[register as int] * 5) as u16, ..s }
}

/// FX33: the three decimal digits of Vx are written at the index register:
/// hundreds, then tens, then ones.
pub open spec fn spec_register_to_decimal(s: CpuState, register: u8) -> CpuState
    recommends
        s.wf(),
        s.i_register + 2 < 4096,
{
    let v = s.gp_registers[register as int];
    let i = s.i_register as int;
    CpuState {
        memory: s.memory.update(i, ((v / 100) % 10) as u8).update(
            i + 1,
            ((v / 10) % 10) as u8,
        ).update(i + 2, (v % 10) as u8),
        ..s
    }
}

/// FX55: registers V0 through VX are copied into memory at the index
/// register; the rest of memory is unchanged.
pub open spec fn spec_register_dump_to_memory(s: CpuState, register: u8) -> CpuState
    recommends
        s.wf(),
        s.i_register + register < 4096,
{
    let i = s.i_register as int;
    CpuState {
        memory: Seq::new(
            4096,
            |j: int|
                if i <= j <= i + register {
                    s.gp_registers[j - i]
                } else {
                    s.memory[j]
                },
        ),
        ..s
    }
}

/// FX65: registers V0 through VX are loaded from memory at the index
/// register; the remaining registers are unchanged.
pub open spec fn spec_register_load_from_memory(s: CpuState, register: u8) -> CpuState
    recommends
        s.wf(),
        s.i_register + register < 4096,
{
    let i = s.i_register as int;
    CpuState {
        gp_registers: Seq::new(
            16,
            |j: int|
                if 0 <= j <= register {
                    s.memory[i + j]
                } else {
                    s.gp_registers[j]
                },
        ),
        ..s
    }
}

/// Bit `col` of a sprite row, counting the most significant bit as column 0.
pub open spec fn sprite_bit(row: u8, col: int) -> u8
    recommends
        0 <= col < 8,
{
    (row >> ((7 - col) as u8)) & 1
}

/// One sprite row drawn pixel by pixel: columns 0 up to (excluding) `ncols`
/// of `row` XORed into the framebuffer at row `yrow`, columns `x` onward.
/// A pixel whose cell index falls outside the 2048-cell framebuffer is
/// dropped (clip, no wraparound). The second component is the collision
/// flag: it becomes 1 when some pixel goes lit to unlit, and is otherwise
/// carried through.
pub open spec fn spec_draw_row(
    screen: Seq<u8>,
    vf: u8,
    row: u8,
    x: int,
    yrow: int,
    ncols: int,
) -> (Seq<u8>, u8)
    decreases ncols,
{
    if ncols <= 0 {
        (screen, vf)
    } else {
        let prev = spec_draw_row(screen, vf, row, x, yrow, ncols - 1);
        let col = ncols - 1;
        let idx = x + col + yrow * 64;
        if 0 <= idx < 2048 {
            let oldpix = prev.0[idx];
            let newpix = sprite_bit(row, col) ^ oldpix;
            (
                prev.0.update(idx, newpix),
                if oldpix == 1 && newpix == 0 {
                    1u8
                } else {
                    prev.1
                },
            )
        } else {
            prev
        }
    }
}

/// The first `nrows` sprite rows drawn in order, each 8 pixels wide, with
/// row bytes taken from memory at `i` onward.
pub open spec fn spec_draw_rows(
    screen: Seq<u8>,
    vf: u8,
    mem: Seq<u8>,
    i: int,
    x: int,
    y: int,
    nrows: int,
) -> (Seq<u8>, u8)
    decreases nrows,
{
    if nrows <= 0 {
        (screen, vf)
    } else {
        let prev = spec_draw_rows(screen, vf, mem, i, x, y, nrows - 1);
        spec_draw_row(prev.0, prev.1, mem[i + nrows - 1], x, y + nrows - 1, 8)
    }
}

/// The machine state after drawing `nrows` sprite rows at pixel coordinates
/// `(x, y)`: the framebuffer is redrawn and VF carries the collision flag.
pub open spec fn draw_state(s: CpuState, x: int, y: int, nrows: int) -> CpuState {
    let r = spec_draw_rows(
        s.screen,
        s.gp_registers[15],
        s.memory,
        s.i_register as int,
        x,
        y,
        nrows,
    );
    CpuState { screen: r.0, gp_registers: s.gp_registers.update(15, r.1), ..s }
}

/// DXYN: an 8-by-N sprite at memory index I is XORed onto the framebuffer
/// at (Vx, Vy); VF becomes 1 when a lit pixel is cleared, and keeps its
/// prior value otherwise.
pub open spec fn spec_draw(s: CpuState, register_a: u8, register_b: u8, sprite_height: u8) -> CpuState
    recommends
        s.wf(),
        sprite_height > 0 ==> s.i_register + sprite_height <= 4096,
{
    draw_state(
        s,
        s.gp_registers[register_a as int] as int,
        s.gp_registers[register_b as int] as int,
        sprite_height as int,
    )
}

/// Key injection: the key is marked pressed; when a keypress is being
/// awaited, the awaited register receives the key and the wait ends.
pub open spec fn spec_set_key(s: CpuState, key: u8) -> CpuState
    recommends
        s.wf(),
        key < 16,
{
    match s.awaited_keypress {
        None => CpuState { keyboard: s.keyboard.update(key as int, true), ..s },
        Some(r) => CpuState {
            keyboard: s.keyboard.update(key as int, true),
            gp_registers: s.gp_registers.update(r as int, key),
            awaited_keypress: None,
            ..s
        },
    }
}

/// The state a freshly constructed machine is in: the font table in the
/// bottom 80 bytes, the ROM at offset 512, everything else zeroed, and the
/// program counter at 512.
pub open spec fn spec_initial_state(rom: Seq<u8>) -> CpuState
    recommends
        rom.len() <= 3584,
{
    CpuState {
        gp_registers: Seq::new(16, |i: int| 0u8),
        i_register: 0,
        t_register: 0,
        s_register: 0,
        program_counter: 512,
        stack_pointer: 0,
        stack: Seq::new(16, |i: int| 0u16),
        memory: Seq::new(
            4096,
            |j: int|
                if j < 80 {
                    font_sprites()[j]
                } else if 512 <= j < 512 + rom.len() {
                    rom[j - 512]
                } else {
                    0u8
                },
        ),
        screen: Seq::new(2048, |i: int| 0u8),
        keyboard: Seq::new(16, |i: int| false),
        awaited_keypress: None,
    }
}

/// Dispatch of one decoded instruction on the state `t` (whose program
/// counter has already moved past the instruction). Errors leave no trace:
/// the engine returns the unmodified pre-fetch state alongside them.
pub open spec fn spec_execute(
    t: CpuState,
    n1: u8,
    n2: u8,
    n3: u8,
    n4: u8,
    nnn: u16,
    nn: u8,
    rand: u8,
) -> Result<CpuState, Chip8Error>
    recommends
        t.wf(),
{
    if n1 == 0x0 {
        if n2 == 0x0 && n3 == 0xE && n4 == 0x0 {
            Ok(spec_clear_screen(t))
        } else if n2 == 0x0 && n3 == 0xE && n4 == 0xE {
            if t.stack_pointer == 0 {
                Err(Chip8Error::StackUnderflow)
            } else {
                Ok(spec_return_from_subroutine(t))
            }
        } else {
            Err(Chip8Error::UnsupportedOpcode { n1, n2, n3, n4 })
        }
    } else if n1 == 0x1 {
        Ok(spec_goto(t, nnn))
    } else if n1 == 0x2 {
        if t.stack_pointer >= 16 {
            Err(Chip8Error::StackOverflow)
        } else {
            Ok(spec_call_sub(t, nnn))
        }
    } else if n1 == 0x3 {
        Ok(spec_skip_if_register_equals(t, n2, nn))
    } else if n1 == 0x4 {
        Ok(spec_skip_if_register_nequals(t, n2, nn))
    } else if n1 == 0x5 {
        if n4 == 0x0 {
            Ok(spec_skip_if_register_equals_register(t, n2, n3))
        } else {
            Err(Chip8Error::UnsupportedOpcode { n1, n2, n3, n4 })
        }
    } else if n1 == 0x6 {
        Ok(spec_set_register_to_value(t, n2, nn))
    } else if n1 == 0x7 {
        Ok(spec_add_to_register(t, n2, nn))
    } else if n1 == 0x8 {
        if n4 == 0x0 {
            Ok(spec_set_register_as_register(t, n2, n3))
        } else if n4 == 0x1 {
            Ok(spec_set_register_as_bitwise_or_register(t, n2, n3))
        } else if n4 == 0x2 {
            Ok(spec_set_register_as_bitwise_and_register(t, n2, n3))
        } else if n4 == 0x3 {
            Ok(spec_set_register_as_bitwise_xor_register(t, n2, n3))
        } else if n4 == 0x4 {
            Ok(spec_set_register_as_addition(t, n2, n3))
        } else if n4 == 0x5 {
            Ok(spec_set_register_as_subtraction(t, n2, n3))
        } else if n4 == 0x6 {
            Ok(spec_set_register_as_shift_right(t, n2))
        } else if n4 == 0x7 {
            Ok(spec_set_register_as_b_sub_a(t, n2, n3))
        } else if n4 == 0xE {
            Ok(spec_set_register_as_shift_left(t, n2))
        } else {
            Err(Chip8Error::UnsupportedOpcode { n1, n2, n3, n4 })
        }
    } else if n1 == 0x9 {
        if n4 == 0x0 {
            Ok(spec_skip_if_register_nequal_register(t, n2, n3))
        } else {
            Err(Chip8Error::UnsupportedOpcode { n1, n2, n3, n4 })
        }
    } else if n1 == 0xA {
        Ok(spec_set_i_to_addr(t, nnn))
    } else if n1 == 0xB {
        Ok(spec_set_i_to_addr_plus_v0(t, nnn))
    } else if n1 == 0xC {
        Ok(spec_set_register_as_bitwise_and_with_random(t, n2, nn, rand))
    } else if n1 == 0xD {
        if n4 > 0 && t.i_register + n4 > 4096 {
            Err(Chip8Error::InvalidMemoryAccess)
        } else {
            Ok(spec_draw(t, n2, n3, n4))
        }
    } else if n1 == 0xE {
        if n3 == 0x9 && n4 == 0xE {
            if t.gp_registers[n2 as int] >= 16 {
                Err(Chip8Error::InvalidMemoryAccess)
            } else {
                Ok(spec_skip_if_key_pressed(t, n2))
            }
        } else if n3 == 0xA && n4 == 0x1 {
            if t.gp_registers[n2 as int] >= 16 {
                Err(Chip8Error::InvalidMemoryAccess)
            } else {
                Ok(spec_skip_if_key_npressed(t, n2))
            }
        } else {
            Err(Chip8Error::UnsupportedOpcode { n1, n2, n3, n4 })
        }
    } else if n1 == 0xF {
        if n3 == 0x0 && n4 == 0x7 {
            Ok(spec_set_register_to_tregister(t, n2))
        } else if n3 == 0x0 && n4 == 0xA {
            Ok(spec_set_register_to_key(t, n2))
        } else if n3 == 0x1 && n4 == 0x5 {
            Ok(spec_set_tregister_to_register(t, n2))
        } else if n3 == 0x1 && n4 == 0x8 {
            Ok(spec_set_sregister_to_register(t, n2))
        } else if n3 == 0x1 && n4 == 0xE {
            Ok(spec_add_register_to_iregister(t, n2))
        } else if n3 == 0x2 && n4 == 0x9 {
            Ok(spec_set_iregister_to_sprite(t, n2))
        } else if n3 == 0x3 && n4 == 0x3 {
            if t.i_register + 2 >= 4096 {
                Err(Chip8Error::InvalidMemoryAccess)
            } else {
                Ok(spec_register_to_decimal(t, n2))
            }
        } else if n3 == 0x5 && n4 == 0x5 {
            if t.i_register + n2 >= 4096 {
                Err(Chip8Error::InvalidMemoryAccess)
            } else {
                Ok(spec_register_dump_to_memory(t, n2))
            }
        } else if n3 == 0x6 && n4 == 0x5 {
            if t.i_register + n2 >= 4096 {
                Err(Chip8Error::InvalidMemoryAccess)
            } else {
                Ok(spec_register_load_from_memory(t, n2))
            }
        } else {
            Err(Chip8Error::UnsupportedOpcode { n1, n2, n3, n4 })
        }
    } else {
        Err(Chip8Error::UnsupportedOpcode { n1, n2, n3, n4 })
    }
}

/// One step of the fetch-decode-execute engine. While a keypress is
/// awaited the step is a no-op. Otherwise the two bytes at the program
/// counter are fetched (an out-of-memory fetch is an error), split into
/// four nibbles, the program counter moves past them, and the decoded
/// instruction executes. `rand` is the byte the random source would yield;
/// only the CXNN instruction reads it. An error means the machine is left
/// exactly as it was.
pub open spec fn spec_clock(s: CpuState, rand: u8) -> Result<CpuState, Chip8Error>
    recommends
        s.wf(),
{
    match s.awaited_keypress {
        Some(_) => Ok(s),
        None => {
            if s.program_counter + 1 >= 4096 {
                Err(Chip8Error::InvalidMemoryAccess)
            } else {
                let b0 = s.memory[s.program_counter as int];
                let b1 = s.memory[s.program_counter as int + 1];
                let n1 = hi_nibble(b0);
                let n2 = lo_nibble(b0);
                let n3 = hi_nibble(b1);
                let n4 = lo_nibble(b1);
                spec_execute(
                    with_pc(s, (s.program_counter + 2) as u16),
                    n1,
                    n2,
                    n3,
                    n4,
                    nibbles_to_addr(n2, n3, n4),
                    nibbles_to_value(n3, n4),
                    rand,
                )
            }
        },
    }
}

/// Law: storing a value in a register and then reading that register
/// yields the stored value, for every register and every value.
pub proof fn lemma_register_store_then_load(s: CpuState, register: u8, value: u8)
    requires
        s.wf(),
        register < 16,
    ensures
        spec_set_register_to_value(s, register, value).gp_registers[register as int] == value,
{
}

/// Law: while a keypress is awaited, a step leaves the machine exactly as
/// it is, whatever byte the random source would yield.
pub proof fn lemma_key_wait_blocks(s: CpuState, rand: u8)
    requires
        s.awaited_keypress is Some,
    ensures
        spec_clock(s, rand) == Ok::<CpuState, Chip8Error>(s),
{
}

/// Law: injecting a key while one is awaited stores the key in the awaited
/// register and ends the wait, so execution resumes.
pub proof fn lemma_key_injection_resumes(s: CpuState, key: u8, register: u8)
    requires
        s.wf(),
        key < 16,
        s.awaited_keypress == Some(register),
    ensures
        spec_set_key(s, key).awaited_keypress is None,
        spec_set_key(s, key).gp_registers[register as int] == key,
{
}

/// One all-set sprite row lands on unlit cells: the first `ncols` cells of
/// the row become lit, nothing else changes, and no collision is reported.
proof fn lemma_draw_row_sets(screen: Seq<u8>, vf: u8, x: int, yrow: int, ncols: int)
    requires
        screen.len() == 2048,
        0 <= x,
        0 <= yrow,
        x + 7 + yrow * 64 < 2048,
        0 <= ncols <= 8,
        forall|j: int| x + yrow * 64 <= j < x + ncols + yrow * 64 ==> screen[j] == 0,
    ensures
        ({
            let r = spec_draw_row(screen, vf, 0xFF, x, yrow, ncols);
            &&& r.1 == vf
            &&& r.0.len() == 2048
            &&& forall|j: int|
                0 <= j < 2048 ==> r.0[j] == (if x + yrow * 64 <= j < x + ncols + yrow * 64 {
                    1u8
                } else {
                    screen[j]
                })
        }),
    decreases ncols,
{
    if ncols > 0 {
        lemma_draw_row_sets(screen, vf, x, yrow, ncols - 1);
        let col = ncols - 1;
        let colu = col as u8;
        assert((7 - col) as u8 == (7 - colu) as u8);
        assert((0xFFu8 >> ((7 - colu) as u8)) & 1 == 1 && (((0xFFu8 >> ((7 - colu) as u8)) & 1)
            ^ 0) == 1) by (bit_vector)
            requires
                colu < 8,
        ;
    }
}

/// One all-set sprite row lands on lit cells: the first `ncols` cells of
/// the row go back to unlit, nothing else changes, and a collision is
/// reported.
proof fn lemma_draw_row_clears(screen: Seq<u8>, vf: u8, x: int, yrow: int, ncols: int)
    requires
        screen.len() == 2048,
        0 <= x,
        0 <= yrow,
        x + 7 + yrow * 64 < 2048,
        1 <= ncols <= 8,
        forall|j: int| x + yrow * 64 <= j < x + ncols + yrow * 64 ==> screen[j] == 1,
    ensures
        ({
            let r = spec_draw_row(screen, vf, 0xFF, x, yrow, ncols);
            &&& r.1 == 1
            &&& r.0.len() == 2048
            &&& forall|j: int|
                0 <= j < 2048 ==> r.0[j] == (if x + yrow * 64 <= j < x + ncols + yrow * 64 {
                    0u8
                } else {
                    screen[j]
                })
        }),
    decreases ncols,
{
    reveal_with_fuel(spec_draw_row, 2);
    if ncols > 1 {
        lemma_draw_row_clears(screen, vf, x, yrow, ncols - 1);
    }
    let col = ncols - 1;
    let colu = col as u8;
    assert((7 - col) as u8 == (7 - colu) as u8);
    assert((0xFFu8 >> ((7 - colu) as u8)) & 1 == 1 && (((0xFFu8 >> ((7 - colu) as u8)) & 1) ^ 1)
        == 0) by (bit_vector)
        requires
            colu < 8,
    ;
}

/// Law: drawing an identical all-set one-row sprite twice at the same
/// in-range coordinates, over cells that start unlit, first lights the
/// eight cells and then toggles them back to unlit, reporting the
/// collision in VF on the second draw and leaving every other cell alone.
pub proof fn lemma_draw_twice_restores(s: CpuState, register_a: u8, register_b: u8)
    requires
        s.wf(),
        register_a < 15,
        register_b < 15,
        s.gp_registers[register_a as int] <= 56,
        s.gp_registers[register_b as int] <= 31,
        s.i_register < 4096,
        s.memory[s.i_register as int] == 0xFF,
        forall|j: int|
            s.gp_registers[register_a as int] + s.gp_registers[register_b as int] * 64 <= j
                < s.gp_registers[register_a as int] + 8 + s.gp_registers[register_b as int] * 64
                ==> s.screen[j] == 0,
    ensures
        ({
            let x = s.gp_registers[register_a as int] as int;
            let y = s.gp_registers[register_b as int] as int;
            let s1 = spec_draw(s, register_a, register_b, 1);
            let s2 = spec_draw(s1, register_a, register_b, 1);
            &&& forall|j: int| x + y * 64 <= j < x + 8 + y * 64 ==> s1.screen[j] == 1
            &&& s1.gp_registers[15] == s.gp_registers[15]
            &&& s2.screen =~= s.screen
            &&& s2.gp_registers[15] == 1
        }),
{
    reveal_with_fuel(spec_draw_rows, 2);
    let x = s.gp_registers[register_a as int] as int;
    let y = s.gp_registers[register_b as int] as int;
    let i = s.i_register as int;
    lemma_draw_row_sets(s.screen, s.gp_registers[15], x, y, 8);
    let s1 = spec_draw(s, register_a, register_b, 1);
    assert(s1.screen =~= spec_draw_row(s.screen, s.gp_registers[15], 0xFF, x, y, 8).0);
    lemma_draw_row_clears(s1.screen, s1.gp_registers[15], x, y, 8);
    let s2 = spec_draw(s1, register_a, register_b, 1);
    assert(s2.screen =~= spec_draw_row(s1.screen, s1.gp_registers[15], 0xFF, x, y, 8).0);
    assert(s2.screen =~= s.screen);
}

/// Law: a subroutine call (2NNN) whose target holds a return (00EE) comes
/// back, after the two steps, to the instruction following the call, with
/// the stack pointer restored, whatever bytes the random source would
/// yield.
pub proof fn lemma_call_return_round_trip(s: CpuState, rand1: u8, rand2: u8)
    requires
        s.wf(),
        s.awaited_keypress is None,
        s.program_counter + 1 < 4096,
        s.stack_pointer < 16,
        hi_nibble(s.memory[s.program_counter as int]) == 0x2,
        ({
            let nnn = nibbles_to_addr(
                lo_nibble(s.memory[s.program_counter as int]),
                hi_nibble(s.memory[s.program_counter as int + 1]),
                lo_nibble(s.memory[s.program_counter as int + 1]),
            );
            &&& nnn + 1 < 4096
            &&& s.memory[nnn as int] == 0x00
            &&& s.memory[nnn as int + 1] == 0xEE
        }),
    ensures
        spec_clock(s, rand1) is Ok,
        spec_clock(spec_clock(s, rand1)->Ok_0, rand2) is Ok,
        spec_clock(spec_clock(s, rand1)->Ok_0, rand2)->Ok_0.program_counter == s.program_counter
            + 2,
        spec_clock(spec_clock(s, rand1)->Ok_0, rand2)->Ok_0.stack_pointer == s.stack_pointer,
{
    let pc = s.program_counter;
    let b0 = s.memory[pc as int];
    let b1 = s.memory[pc as int + 1];
    assert(lo_nibble(b0) < 16 && hi_nibble(b1) < 16 && lo_nibble(b1) < 16) by (bit_vector);
    let nnn = nibbles_to_addr(lo_nibble(b0), hi_nibble(b1), lo_nibble(b1));
    let t = with_pc(s, (pc + 2) as u16);
    let s1 = spec_call_sub(t, nnn);
    assert(spec_clock(s, rand1) == Ok::<CpuState, Chip8Error>(s1));

    assert(hi_nibble(0x00u8) == 0x0 && lo_nibble(0x00u8) == 0x0) by (bit_vector);
    assert(hi_nibble(0xEEu8) == 0xE && lo_nibble(0xEEu8) == 0xE) by (bit_vector);
    let t1 = with_pc(s1, (nnn + 2) as u16);
    let s2 = spec_return_from_subroutine(t1);
    assert(spec_clock(s1, rand2) == Ok::<CpuState, Chip8Error>(s2));
    assert(s2.program_counter == s.stack.update(s.stack_pointer as int, (pc + 2) as u16)[
        s.stack_pointer as int
    ]);
}

} // verus!
