//! Helpers around the instruction stream: assembling operands from decoded
//! nibbles, and the built-in font table that construction copies into the
//! bottom of memory.

use vstd::prelude::*;

use crate::cpu::model::{font_sprites, nibbles_to_addr, nibbles_to_value};

verus! {

/// Assemble a 12-bit address from the three low nibbles of an opcode.
pub fn opcode_to_address(opcode_1: u8, opcode_2: u8, opcode_3: u8) -> (address: u16)
    requires
        opcode_1 < 16,
        opcode_2 < 16,
        opcode_3 < 16,
    ensures
        address == nibbles_to_addr(opcode_1, opcode_2, opcode_3),
        address < 4096,
{
    let address: u16 = (opcode_1 as u16) << 8 | (opcode_2 as u16) << 4 | (opcode_3 as u16);
    proof {
        assert((((opcode_1 as u16) << 8 | (opcode_2 as u16) << 4 | (opcode_3 as u16)) == (opcode_1
            * 256 + opcode_2 * 16 + opcode_3) as u16) && (((opcode_1 * 256 + opcode_2 * 16
            + opcode_3) as u16) < 4096)) by (bit_vector)
            requires
                opcode_1 < 16 && opcode_2 < 16 && opcode_3 < 16,
        ;
    }
    address
}

/// Assemble an 8-bit immediate from the two low nibbles of an opcode.
pub fn opcode_to_value(opcode_1: u8, opcode_2: u8) -> (value: u8)
    requires
        opcode_1 < 16,
        opcode_2 < 16,
    ensures
        value == nibbles_to_value(opcode_1, opcode_2),
{
    let value: u8 = opcode_1 << 4 | opcode_2;
    proof {
        assert((opcode_1 << 4 | opcode_2) == (opcode_1 * 16 + opcode_2) as u8) by (bit_vector)
            requires
                opcode_1 < 16 && opcode_2 < 16,
        ;
    }
    value
}

/// The 16 built-in 5-byte glyphs, one per hexadecimal digit, as the bytes
/// that construction places at the bottom of memory.
pub fn font_table() -> (v: Vec<u8>)
    ensures
        v@ == font_sprites(),
{
    let v: Vec<u8> = vec![
        0xF0, 0x90, 0x90, 0x90, 0xF0,
        0x20, 0x60, 0x20, 0x20, 0x70,
        0xF0, 0x10, 0xF0, 0x80, 0xF0,
        0xF0, 0x10, 0xF0, 0x10, 0xF0,
        0x90, 0x90, 0xF0, 0x10, 0x10,
        0xF0, 0x80, 0xF0, 0x10, 0xF0,
        0xF0, 0x80, 0xF0, 0x90, 0xF0,
        0xF0, 0x10, 0x20, 0x40, 0x40,
        0xF0, 0x90, 0xF0, 0x90, 0xF0,
        0xF0, 0x90, 0xF0, 0x10, 0xF0,
        0xF0, 0x90, 0xF0, 0x90, 0x90,
        0xE0, 0x90, 0xE0, 0x90, 0xE0,
        0xF0, 0x80, 0x80, 0x80, 0xF0,
        0xE0, 0x90, 0x90, 0x90, 0xE0,
        0xF0, 0x80, 0xF0, 0x80, 0xF0,
        0xF0, 0x80, 0xF0, 0x80, 0x80,
    ];
    proof {
        assert(v@ =~= font_sprites());
    }
    v
}

} // verus!
