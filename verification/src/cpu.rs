//! The CHIP-8 machine: its state, construction from ROM bytes, key
//! injection, and the fetch-decode-execute step.

pub mod instruction_set;
pub mod model;
pub mod random;
pub mod utils;

use vstd::prelude::*;

use crate::cpu::model::CpuState;

verus! {

/// The conditions under which construction or a step fails. Each is fatal:
/// construction failures prevent a run from starting, step failures are
/// reported to the host, which decides how to halt.
#[derive(Clone, Copy, Debug, PartialEq, Eq, Structural)]
pub enum Chip8Error {
    /// The fetched nibble pattern matches no implemented instruction
    /// (including the legacy machine-call group, which is not implemented).
    UnsupportedOpcode { n1: u8, n2: u8, n3: u8, n4: u8 },
    /// A subroutine call was executed with all 16 stack levels in use.
    StackOverflow,
    /// A return was executed with an empty call stack.
    StackUnderflow,
    /// The ROM source could not be read (used by hosts that load ROM files).
    RomReadError,
    /// The ROM is larger than the 3584 bytes of memory available to it.
    OversizedRom,
    /// An instruction would touch a byte outside the 4096-byte memory, or a
    /// key outside the 16-key table. Surfaced as a typed error so that the
    /// host can halt cleanly instead of aborting.
    InvalidMemoryAccess,
}

/// The machine state: sixteen 8-bit registers, the 16-bit index register,
/// two timer registers, the program counter, a 16-level call stack, 4096
/// bytes of memory, a 64x32 monochrome framebuffer, the 16-key input latch,
/// and the seedable source of randomness used by one instruction.
pub struct Cpu {
    pub gp_registers: [u8; 16],
    pub i_register: u16,
    pub t_register: u8,
    pub s_register: u8,

    pub program_counter: u16,

    pub stack_pointer: u8,
    pub stack: [u16; 16],

    pub memory: [u8; 4096],
    pub screen: [u8; 2048],

    pub keyboard: [bool; 16],

    pub awaited_keypress: Option<u8>,

    pub rng: nanorand::WyRand,
}

impl View for Cpu {
    type V = CpuState;

    open spec fn view(&self) -> CpuState {
        CpuState {
            gp_registers: self.gp_registers@,
            i_register: self.i_register,
            t_register: self.t_register,
            s_register: self.s_register,
            program_counter: self.program_counter,
            stack_pointer: self.stack_pointer,
            stack: self.stack@,
            memory: self.memory@,
            screen: self.screen@,
            keyboard: self.keyboard@,
            awaited_keypress: self.awaited_keypress,
        }
    }
}

impl Cpu {
    pub open spec fn wf(&self) -> bool {
        self@.wf()
    }

    pub fn get_screen(&self) -> (r: &[u8; 2048])
        ensures
            r@ == self@.screen,
    {
        &self.screen
    }

    pub fn get_gp_registers(&self) -> (r: &[u8; 16])
        ensures
            r@ == self@.gp_registers,
    {
        &self.gp_registers
    }

    pub fn get_i_register(&self) -> (r: u16)
        ensures
            r == self@.i_register,
    {
        self.i_register
    }

    pub fn get_t_register(&self) -> (r: u8)
        ensures
            r == self@.t_register,
    {
        self.t_register
    }

    pub fn get_s_register(&self) -> (r: u8)
        ensures
            r == self@.s_register,
    {
        self.s_register
    }

    pub fn get_stack_pointer(&self) -> (r: u8)
        ensures
            r == self@.stack_pointer,
    {
        self.stack_pointer
    }

    pub fn get_stack(&self) -> (r: &[u16; 16])
        ensures
            r@ == self@.stack,
    {
        &self.stack
    }

    pub fn get_program_counter(&self) -> (r: u16)
        ensures
            r == self@.program_counter,
    {
        self.program_counter
    }

    /// The 16-bit instruction word at the program counter, for disassembly
    /// or debug display.
    pub fn get_current_instruction(&self) -> (instruction: u16)
        requires
            self.wf(),
            self.program_counter + 1 < 4096,
        ensures
            instruction == model::spec_instruction_word(self@),
    {
        let hi = self.memory[self.program_counter as usize];
        let lo = self.memory[self.program_counter as usize + 1];
        let instruction: u16 = (hi as u16) << 8 | lo as u16;
        proof {
            assert(((hi as u16) << 8 | (lo as u16)) == (hi * 256 + lo) as u16) by (bit_vector);
        }
        instruction
    }

    /// Build a machine from raw ROM bytes: the font table in the bottom 80
    /// bytes, the ROM copied to offset 512, everything else zeroed and the
    /// program counter at 512. A ROM longer than the 3584 available bytes
    /// is rejected, and only then.
    pub fn new(rom_data: Vec<u8>) -> (r: Result<Cpu, Chip8Error>)
        ensures
            (match r {
                Ok(c) => rom_data@.len() <= 3584 && c.wf() && c@ =~= model::spec_initial_state(
                    rom_data@,
                ),
                Err(e) => rom_data@.len() > 3584 && e == Chip8Error::OversizedRom,
            }),
    {
        if rom_data.len() > 3584 {
            return Err(Chip8Error::OversizedRom);
        }

        let mut memory: [u8; 4096] = [0; 4096];

        let font = utils::font_table();
        let mut k: usize = 0;
        while k < 80
            invariant
                k <= 80,
                font@ == model::font_sprites(),
                forall|j: int| 0 <= j < k ==> memory@[j] == model::font_sprites()[j],
                forall|j: int| k <= j < 4096 ==> memory@[j] == 0,
            decreases 80 - k,
        {
            memory[k] = font[k];
            k += 1;
        }

        let mut j: usize = 0;
        while j < rom_data.len()
            invariant
                rom_data@.len() <= 3584,
                j <= rom_data@.len(),
                forall|m: int| 0 <= m < 80 ==> memory@[m] == model::font_sprites()[m],
                forall|m: int| 512 <= m < 512 + j ==> memory@[m] == rom_data@[m - 512],
                forall|m: int| 80 <= m < 4096 && !(512 <= m < 512 + j) ==> memory@[m] == 0,
            decreases rom_data@.len() - j,
        {
            memory[512 + j] = rom_data[j];
            j += 1;
        }

        let cpu = Cpu {
            gp_registers: [0; 16],
            i_register: 0,
            t_register: 0,
            s_register: 0,
            program_counter: 0x200,

            stack_pointer: 0,
            stack: [0; 16],

            memory,

            screen: [0; 2048],

            keyboard: [false; 16],

            awaited_keypress: None,

            rng: random::fresh_rng(),
        };
        proof {
            assert(cpu@.memory =~= model::spec_initial_state(rom_data@).memory);
            assert(cpu@ =~= model::spec_initial_state(rom_data@));
        }
        Ok(cpu)
    }

    /// Replace the machine's random source with one built from the given
    /// seed, for reproducible runs. The observable state is untouched.
    pub fn seed_random(&mut self, seed: u64)
        ensures
            final(self)@ == old(self)@,
    {
        self.rng = random::seeded_rng(seed);
    }

    /// Mark a key (0-15) as pressed. When a keypress is being awaited, the
    /// awaited register receives the key and execution resumes.
    pub fn set_key(&mut self, key: u8)
        requires
            old(self).wf(),
            key < 16,
        ensures
            final(self).wf(),
            final(self)@ =~= model::spec_set_key(old(self)@, key),
    {
        self.keyboard[key as usize] = true;

        if let Some(reg) = self.awaited_keypress {
            self.gp_registers[reg as usize] = key;
            self.awaited_keypress = None;
        }
    }

    /// One step of the fetch-decode-execute engine, exactly the model's
    /// `spec_clock` transition for some byte of the random source. On an
    /// error the machine is left exactly as it was, so the host can report
    /// the failing program counter and halt cleanly.
    pub fn clock(&mut self) -> (r: Result<(), Chip8Error>)
        requires
            old(self).wf(),
        ensures
            final(self).wf(),
            (match r {
                Ok(()) => exists|b: u8|
                    (#[trigger] model::spec_clock(old(self)@, b)) == Ok::<CpuState, Chip8Error>(
                        final(self)@,
                    ),
                Err(e) => final(self)@ == old(self)@ && model::spec_clock(old(self)@, 0)
                    == Err::<CpuState, Chip8Error>(e),
            }),
    {
        let ghost s0 = self@;

        // The machine is blocked until a key is injected.
        if self.awaited_keypress.is_some() {
            return Ok(());
        }

        // Fetch.
        let pc = self.program_counter;
        if pc >= 4095 {
            return Err(Chip8Error::InvalidMemoryAccess);
        }
        let b0 = self.memory[pc as usize];
        let b1 = self.memory[pc as usize + 1];
        let opcode_1 = b0 >> 4;
        let opcode_2 = b0 & 0x0F;
        let opcode_3 = b1 >> 4;
        let opcode_4 = b1 & 0x0F;
        proof {
            assert(b0 >> 4 < 16 && b0 & 0x0F < 16) by (bit_vector);
            assert(b1 >> 4 < 16 && b1 & 0x0F < 16) by (bit_vector);
        }
        let ghost t = model::with_pc(s0, (pc + 2) as u16);

        // Decode and execute. Error conditions are tested before any state
        // changes, so a failing step leaves the machine untouched.
        match opcode_1 {
            0x0 => {
                if opcode_2 == 0x0 && opcode_3 == 0xE && opcode_4 == 0x0 {
                    self.program_counter = pc + 2;
                    instruction_set::clear_screen(self);
                    proof {
                        assert(model::spec_clock(s0, 0) == Ok::<CpuState, Chip8Error>(self@));
                    }
                    Ok(())
                } else if opcode_2 == 0x0 && opcode_3 == 0xE && opcode_4 == 0xE {
                    if self.stack_pointer == 0 {
                        return Err(Chip8Error::StackUnderflow);
                    }
                    self.program_counter = pc + 2;
                    instruction_set::return_from_subroutine(self);
                    proof {
                        assert(model::spec_clock(s0, 0) == Ok::<CpuState, Chip8Error>(self@));
                    }
                    Ok(())
                } else {
                    Err(
                        Chip8Error::UnsupportedOpcode {
                            n1: opcode_1,
                            n2: opcode_2,
                            n3: opcode_3,
                            n4: opcode_4,
                        },
                    )
                }
            },
            0x1 => {
                let address = utils::opcode_to_address(opcode_2, opcode_3, opcode_4);
                self.program_counter = pc + 2;
                instruction_set::goto(self, address);
                proof {
                    assert(model::spec_clock(s0, 0) == Ok::<CpuState, Chip8Error>(self@));
                }
                Ok(())
            },
            0x2 => {
                if self.stack_pointer >= 16 {
                    return Err(Chip8Error::StackOverflow);
                }
                let address = utils::opcode_to_address(opcode_2, opcode_3, opcode_4);
                self.program_counter = pc + 2;
                instruction_set::call_sub(self, address);
                proof {
                    assert(model::spec_clock(s0, 0) == Ok::<CpuState, Chip8Error>(self@));
                }
                Ok(())
            },
            0x3 => {
                let value = utils::opcode_to_value(opcode_3, opcode_4);
                self.program_counter = pc + 2;
                instruction_set::skip_if_register_equals(self, opcode_2, value);
                proof {
                    assert(model::spec_clock(s0, 0) == Ok::<CpuState, Chip8Error>(self@));
                }
                Ok(())
            },
            0x4 => {
                let value = utils::opcode_to_value(opcode_3, opcode_4);
                self.program_counter = pc + 2;
                instruction_set::skip_if_register_nequals(self, opcode_2, value);
                proof {
                    assert(model::spec_clock(s0, 0) == Ok::<CpuState, Chip8Error>(self@));
                }
                Ok(())
            },
            0x5 => {
                if opcode_4 != 0x0 {
                    return Err(
                        Chip8Error::UnsupportedOpcode {
                            n1: opcode_1,
                            n2: opcode_2,
                            n3: opcode_3,
                            n4: opcode_4,
                        },
                    );
                }
                self.program_counter = pc + 2;
                instruction_set::skip_if_register_equals_register(self, opcode_2, opcode_3);
                proof {
                    assert(model::spec_clock(s0, 0) == Ok::<CpuState, Chip8Error>(self@));
                }
                Ok(())
            },
            0x6 => {
                let value = utils::opcode_to_value(opcode_3, opcode_4);
                self.program_counter = pc + 2;
                instruction_set::set_register_to_value(self, opcode_2, value);
                proof {
                    assert(model::spec_clock(s0, 0) == Ok::<CpuState, Chip8Error>(self@));
                }
                Ok(())
            },
            0x7 => {
                let value = utils::opcode_to_value(opcode_3, opcode_4);
                self.program_counter = pc + 2;
                instruction_set::add_to_register(self, opcode_2, value);
                proof {
                    assert(model::spec_clock(s0, 0) == Ok::<CpuState, Chip8Error>(self@));
                }
                Ok(())
            },
            0x8 => {
                match opcode_4 {
                    0x0 => {
                        self.program_counter = pc + 2;
                        instruction_set::set_reigster_as_register(self, opcode_2, opcode_3);
                        proof {
                            assert(model::spec_clock(s0, 0) == Ok::<CpuState, Chip8Error>(self@));
                        }
                        Ok(())
                    },
                    0x1 => {
                        self.program_counter = pc + 2;
                        instruction_set::set_register_as_bitwise_or_register(
                            self,
                            opcode_2,
                            opcode_3,
                        );
                        proof {
                            assert(model::spec_clock(s0, 0) == Ok::<CpuState, Chip8Error>(self@));
                        }
                        Ok(())
                    },
                    0x2 => {
                        self.program_counter = pc + 2;
                        instruction_set::set_register_as_bitwise_and_register(
                            self,
                            opcode_2,
                            opcode_3,
                        );
                        proof {
                            assert(model::spec_clock(s0, 0) == Ok::<CpuState, Chip8Error>(self@));
                        }
                        Ok(())
                    },
                    0x3 => {
                        self.program_counter = pc + 2;
                        instruction_set::set_register_as_bitwise_xor_register(
                            self,
                            opcode_2,
                            opcode_3,
                        );
                        proof {
                            assert(model::spec_clock(s0, 0) == Ok::<CpuState, Chip8Error>(self@));
                        }
                        Ok(())
                    },
                    0x4 => {
                        self.program_counter = pc + 2;
                        instruction_set::set_register_as_addition(self, opcode_2, opcode_3);
                        proof {
                            assert(model::spec_clock(s0, 0) == Ok::<CpuState, Chip8Error>(self@));
                        }
                        Ok(())
                    },
                    0x5 => {
                        self.program_counter = pc + 2;
                        instruction_set::set_register_as_subtraction(self, opcode_2, opcode_3);
                        proof {
                            assert(model::spec_clock(s0, 0) == Ok::<CpuState, Chip8Error>(self@));
                        }
                        Ok(())
                    },
                    0x6 => {
                        self.program_counter = pc + 2;
                        instruction_set::set_register_as_shift_right(self, opcode_2);
                        proof {
                            assert(model::spec_clock(s0, 0) == Ok::<CpuState, Chip8Error>(self@));
                        }
                        Ok(())
                    },
                    0x7 => {
                        self.program_counter = pc + 2;
                        instruction_set::set_register_as_b_sub_a(self, opcode_2, opcode_3);
                        proof {
                            assert(model::spec_clock(s0, 0) == Ok::<CpuState, Chip8Error>(self@));
                        }
                        Ok(())
                    },
                    0xE => {
                        self.program_counter = pc + 2;
                        instruction_set::set_register_as_shift_left(self, opcode_2);
                        proof {
                            assert(model::spec_clock(s0, 0) == Ok::<CpuState, Chip8Error>(self@));
                        }
                        Ok(())
                    },
                    _ => Err(
                        Chip8Error::UnsupportedOpcode {
                            n1: opcode_1,
                            n2: opcode_2,
                            n3: opcode_3,
                            n4: opcode_4,
                        },
                    ),
                }
            },
            0x9 => {
                if opcode_4 != 0x0 {
                    return Err(
                        Chip8Error::UnsupportedOpcode {
                            n1: opcode_1,
                            n2: opcode_2,
                            n3: opcode_3,
                            n4: opcode_4,
                        },
                    );
                }
                self.program_counter = pc + 2;
                instruction_set::skip_if_register_nequal_register(self, opcode_2, opcode_3);
                proof {
                    assert(model::spec_clock(s0, 0) == Ok::<CpuState, Chip8Error>(self@));
                }
                Ok(())
            },
            0xA => {
                let address = utils::opcode_to_address(opcode_2, opcode_3, opcode_4);
                self.program_counter = pc + 2;
                instruction_set::set_i_to_addr(self, address);
                proof {
                    assert(model::spec_clock(s0, 0) == Ok::<CpuState, Chip8Error>(self@));
                }
                Ok(())
            },
            0xB => {
                let address = utils::opcode_to_address(opcode_2, opcode_3, opcode_4);
                self.program_counter = pc + 2;
                instruction_set::set_i_to_addr_plus_v0(self, address);
                proof {
                    assert(model::spec_clock(s0, 0) == Ok::<CpuState, Chip8Error>(self@));
                }
                Ok(())
            },
            0xC => {
                let value = utils::opcode_to_value(opcode_3, opcode_4);
                self.program_counter = pc + 2;
                instruction_set::set_register_as_bitwise_and_with_random(self, opcode_2, value);
                proof {
                    let b = choose|b: u8|
                        self@ =~= model::spec_set_register_as_bitwise_and_with_random(
                            t,
                            opcode_2,
                            value,
                            b,
                        );
                    assert(model::spec_clock(s0, b) == Ok::<CpuState, Chip8Error>(self@));
                }
                Ok(())
            },
            0xD => {
                if opcode_4 > 0 && self.i_register as usize + opcode_4 as usize > 4096 {
                    return Err(Chip8Error::InvalidMemoryAccess);
                }
                self.program_counter = pc + 2;
                instruction_set::draw(self, opcode_2, opcode_3, opcode_4);
                proof {
                    assert(model::spec_clock(s0, 0) == Ok::<CpuState, Chip8Error>(self@));
                }
                Ok(())
            },
            0xE => {
                if opcode_3 == 0x9 && opcode_4 == 0xE {
                    if self.gp_registers[opcode_2 as usize] >= 16 {
                        return Err(Chip8Error::InvalidMemoryAccess);
                    }
                    self.program_counter = pc + 2;
                    instruction_set::skip_if_key_pressed(self, opcode_2);
                    proof {
                        assert(model::spec_clock(s0, 0) == Ok::<CpuState, Chip8Error>(self@));
                    }
                    Ok(())
                } else if opcode_3 == 0xA && opcode_4 == 0x1 {
                    if self.gp_registers[opcode_2 as usize] >= 16 {
                        return Err(Chip8Error::InvalidMemoryAccess);
                    }
                    self.program_counter = pc + 2;
                    instruction_set::skip_if_key_npressed(self, opcode_2);
                    proof {
                        assert(model::spec_clock(s0, 0) == Ok::<CpuState, Chip8Error>(self@));
                    }
                    Ok(())
                } else {
                    Err(
                        Chip8Error::UnsupportedOpcode {
                            n1: opcode_1,
                            n2: opcode_2,
                            n3: opcode_3,
                            n4: opcode_4,
                        },
                    )
                }
            },
            0xF => {
                if opcode_3 == 0x0 && opcode_4 == 0x7 {
                    self.program_counter = pc + 2;
                    instruction_set::set_register_to_tregister(self, opcode_2);
                    proof {
                        assert(model::spec_clock(s0, 0) == Ok::<CpuState, Chip8Error>(self@));
                    }
                    Ok(())
                } else if opcode_3 == 0x0 && opcode_4 == 0xA {
                    self.program_counter = pc + 2;
                    instruction_set::set_register_to_key(self, opcode_2);
                    proof {
                        assert(model::spec_clock(s0, 0) == Ok::<CpuState, Chip8Error>(self@));
                    }
                    Ok(())
                } else if opcode_3 == 0x1 && opcode_4 == 0x5 {
                    self.program_counter = pc + 2;
                    instruction_set::set_tregister_to_register(self, opcode_2);
                    proof {
                        assert(model::spec_clock(s0, 0) == Ok::<CpuState, Chip8Error>(self@));
                    }
                    Ok(())
                } else if opcode_3 == 0x1 && opcode_4 == 0x8 {
                    self.program_counter = pc + 2;
                    instruction_set::set_sregister_to_register(self, opcode_2);
                    proof {
                        assert(model::spec_clock(s0, 0) == Ok::<CpuState, Chip8Error>(self@));
                    }
                    Ok(())
                } else if opcode_3 == 0x1 && opcode_4 == 0xE {
                    self.program_counter = pc + 2;
                    instruction_set::add_register_to_iregister(self, opcode_2);
                    proof {
                        assert(model::spec_clock(s0, 0) == Ok::<CpuState, Chip8Error>(self@));
                    }
                    Ok(())
                } else if opcode_3 == 0x2 && opcode_4 == 0x9 {
                    self.program_counter = pc + 2;
                    instruction_set::set_iregister_to_sprite(self, opcode_2);
                    proof {
                        assert(model::spec_clock(s0, 0) == Ok::<CpuState, Chip8Error>(self@));
                    }
                    Ok(())
                } else if opcode_3 == 0x3 && opcode_4 == 0x3 {
                    if self.i_register >= 4094 {
                        return Err(Chip8Error::InvalidMemoryAccess);
                    }
                    self.program_counter = pc + 2;
                    instruction_set::register_to_decimal(self, opcode_2);
                    proof {
                        assert(model::spec_clock(s0, 0) == Ok::<CpuState, Chip8Error>(self@));
                    }
                    Ok(())
                } else if opcode_3 == 0x5 && opcode_4 == 0x5 {
                    if self.i_register as usize + opcode_2 as usize >= 4096 {
                        return Err(Chip8Error::InvalidMemoryAccess);
                    }
                    self.program_counter = pc + 2;
                    instruction_set::register_dump_to_memory(self, opcode_2);
                    proof {
                        assert(model::spec_clock(s0, 0) == Ok::<CpuState, Chip8Error>(self@));
                    }
                    Ok(())
                } else if opcode_3 == 0x6 && opcode_4 == 0x5 {
                    if self.i_register as usize + opcode_2 as usize >= 4096 {
                        return Err(Chip8Error::InvalidMemoryAccess);
                    }
                    self.program_counter = pc + 2;
                    instruction_set::register_load_from_memory(self, opcode_2);
                    proof {
                        assert(model::spec_clock(s0, 0) == Ok::<CpuState, Chip8Error>(self@));
                    }
                    Ok(())
                } else {
                    Err(
                        Chip8Error::UnsupportedOpcode {
                            n1: opcode_1,
                            n2: opcode_2,
                            n3: opcode_3,
                            n4: opcode_4,
                        },
                    )
                }
            },
            _ => {
                proof {
                    assert(false);
                }
                Err(
                    Chip8Error::UnsupportedOpcode {
                        n1: opcode_1,
                        n2: opcode_2,
                        n3: opcode_3,
                        n4: opcode_4,
                    },
                )
            },
        }
    }
}

} // verus!
