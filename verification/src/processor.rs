//! The interpreter: fetch, decode and execute, one opcode per cycle.

use crate::memory::Chip8;
use crate::memory::Chip8Error;
use crate::semantics::any_key_pressed;
use crate::semantics::back_pc;
use crate::semantics::fetched;
use crate::semantics::first_key_from;
use crate::semantics::known_opcode;
use crate::semantics::lemma_decode_bits;
use crate::semantics::lemma_pack_bytes;
use crate::semantics::load_regs;
use crate::semantics::op_msb;
use crate::semantics::opcode_at;
use crate::semantics::step;
use crate::semantics::store_regs;
use crate::semantics::MachineV;
use vstd::prelude::*;

verus! {

/// Relies on rand::random: one byte from the process-wide uniform source.
/// Nothing is assumed of the value; callers must hold for every byte.
#[verifier::external_body]
fn random_byte() -> u8 {
    rand::random::<u8>()
}

impl Chip8 {
    /// Reads the two bytes at the program counter as one big-endian opcode
    /// and moves the counter past them. A counter at or past the end of
    /// memory is refused, leaving the machine unchanged.
    pub fn fetch_opcode_from(&mut self) -> (r: Result<u16, Chip8Error>)
        ensures
            r is Ok <==> old(self)@.program_counter + 1 < 4096,
            old(self)@.program_counter + 1 < 4096 ==> r == Ok::<u16, Chip8Error>(
                opcode_at(old(self)@.memory, old(self)@.program_counter as int),
            ) && final(self)@ =~= fetched(old(self)@),
            old(self)@.program_counter + 1 >= 4096 ==> r == Err::<u16, Chip8Error>(
                Chip8Error::OutOfBounds,
            ) && final(self)@ =~= old(self)@,
    {
        if self.program_counter as usize + 1 >= 4096 {
            return Err(Chip8Error::OutOfBounds);
        }

        let most_sig_byte = self.memory[self.program_counter as usize] as u16;
        let last_sig_byte = self.memory[self.program_counter as usize + 1] as u16;

        proof {
            lemma_pack_bytes(most_sig_byte, last_sig_byte);
        }
        let opcode: u16 = (most_sig_byte << 8u16) | last_sig_byte;
        self.program_counter += 2;

        Ok(opcode)
    }

    /// The wait-for-key scan of 0xFx0A: take the lowest pressed key into
    /// Vx, or rewind the program counter so the opcode runs again next
    /// cycle.
    #[verifier::loop_isolation(false)]
    fn wait_for_key(&mut self, x: usize)
        requires
            x < 16,
        ensures
            final(self)@ =~= (if any_key_pressed(old(self)@.keyboard) {
                MachineV {
                    v_reg: old(self)@.v_reg.update(
                        x as int,
                        first_key_from(old(self)@.keyboard, 0) as u8,
                    ),
                    ..old(self)@
                }
            } else {
                MachineV { program_counter: back_pc(old(self)@.program_counter), ..old(self)@ }
            }),
    {
        let mut pressed = false;
        let mut key: u8 = 0;
        let mut k: usize = 0;
        while k < 16
            invariant
                k <= 16,
                pressed ==> any_key_pressed(self@.keyboard) && key < 16 && first_key_from(
                    self@.keyboard,
                    0,
                ) == key as int,
                !pressed ==> forall|m: int| 0 <= m < k ==> !self@.keyboard[m],
                !pressed ==> first_key_from(self@.keyboard, 0) == first_key_from(
                    self@.keyboard,
                    k as int,
                ),
            decreases 16 - k,
        {
            if !pressed && self.keyboard[k] {
                pressed = true;
                key = k as u8;
            }
            k += 1;
        }

        if pressed {
            self.v_reg[x] = key;
        } else {
            assert(!any_key_pressed(self@.keyboard));
            let pc = self.program_counter;
            self.program_counter = pc.wrapping_sub(2);
            assert(self.program_counter == back_pc(old(self)@.program_counter));
        }
    }

    /// Decodes one opcode into its four nibbles and performs exactly one of
    /// the 35 documented instruction forms on the machine; the effect is
    /// the one [`step`] gives. A bit pattern matching no form is refused
    /// with the raw opcode, leaving the machine unchanged. Only the random
    /// opcode 0xCxkk consults the random source, so for every other known
    /// opcode the outcome is the one `step` gives for a zero random byte.
    #[verifier::rlimit(100)]
    pub fn execute(&mut self, opcode: u16) -> (r: Result<(), Chip8Error>)
        requires
            old(self).wf(),
        ensures
            final(self).wf(),
            r is Ok <==> known_opcode(opcode),
            known_opcode(opcode) ==> exists|rb: u8| final(self)@ =~= step(old(self)@, opcode, rb),
            known_opcode(opcode) && op_msb(opcode) != 0xC ==> final(self)@ =~= step(
                old(self)@,
                opcode,
                0,
            ),
            !known_opcode(opcode) ==> final(self)@ =~= old(self)@ && r == Err::<(),
                Chip8Error,
            >(Chip8Error::UnimplementedOpcode(opcode)),
    {
        proof {
            lemma_decode_bits(opcode);
        }
        let msb = (opcode & 0xf000) >> 12u16;
        let sec_b = (opcode & 0x0f00) >> 8u16;
        let thd_b = (opcode & 0x00f0) >> 4u16;
        let lsb = opcode & 0x000f;

        match (msb, sec_b, thd_b, lsb) {
            // do nothing (for sync and timing)
            (0, 0, 0, 0) => {
                proof {
                    assert(self@ =~= step(old(self)@, opcode, 0)) by {
                        reveal(step);
                    }
                }
            },
            // clear screen
            (0, 0, 0xE, 0) => {
                self.display = [false;2048];
                proof {
                    assert(self@ =~= step(old(self)@, opcode, 0)) by {
                        reveal(step);
                    }
                }
            },
            // return from subroutine
            (0, 0, 0xE, 0xE) => {
                let address = self.stack_pop();
                self.program_counter = address;
                proof {
                    assert(self@ =~= step(old(self)@, opcode, 0)) by {
                        reveal(step);
                    }
                }
            },
            // jump to 0x0nnn without storing the return address
            (1, _, _, _) => {
                self.program_counter = opcode & 0x0FFF;
                proof {
                    assert(self@ =~= step(old(self)@, opcode, 0)) by {
                        reveal(step);
                    }
                }
            },
            // call subroutine at nnn
            (2, _, _, _) => {
                let pc = self.program_counter;
                self.stack_push(pc);
                self.program_counter = opcode & 0x0FFF;
                proof {
                    assert(self@ =~= step(old(self)@, opcode, 0)) by {
                        reveal(step);
                    }
                }
            },
            // skip next instruction if V[x] == kk
            (3, _, _, _) => {
                if self.v_reg[sec_b as usize] == (opcode & 0x00FF) as u8 {
                    self.program_counter = self.program_counter.wrapping_add(2);
                }
                proof {
                    assert(self@ =~= step(old(self)@, opcode, 0)) by {
                        reveal(step);
                    }
                }
            },
            // same as the above, but checks != instead of ==
            (4, _, _, _) => {
                if self.v_reg[sec_b as usize] != (opcode & 0x00FF) as u8 {
                    self.program_counter = self.program_counter.wrapping_add(2);
                }
                proof {
                    assert(self@ =~= step(old(self)@, opcode, 0)) by {
                        reveal(step);
                    }
                }
            },
            // skip next instruction if V[x] == V[y]
            (5, _, _, 0) => {
                if self.v_reg[sec_b as usize] == self.v_reg[thd_b as usize] {
                    self.program_counter = self.program_counter.wrapping_add(2);
                }
                proof {
                    assert(self@ =~= step(old(self)@, opcode, 0)) by {
                        reveal(step);
                    }
                }
            },
            // set register V[x] to 0x00kk
            (6, _, _, _) => {
                self.v_reg[sec_b as usize] = (opcode & 0x00FF) as u8;
                proof {
                    assert(self@ =~= step(old(self)@, opcode, 0)) by {
                        reveal(step);
                    }
                }
            },
            // V[x] = V[x] + kk, wrapping, no flag
            (7, _, _, _) => {
                let kk = (opcode & 0x00FF) as u8;
                let vx = self.v_reg[sec_b as usize];
                self.v_reg[sec_b as usize] = vx.wrapping_add(kk);
                proof {
                    assert(self@ =~= step(old(self)@, opcode, 0)) by {
                        reveal(step);
                    }
                }
            },
            // arithmetic and logic between V[x] and V[y]
            (8, _, _, _) => {
                return self.execute_math(opcode);
            },
            // skip next instruction if V[x] != V[y]
            (9, _, _, 0) => {
                if self.v_reg[sec_b as usize] != self.v_reg[thd_b as usize] {
                    self.program_counter = self.program_counter.wrapping_add(2);
                }
                proof {
                    assert(self@ =~= step(old(self)@, opcode, 0)) by {
                        reveal(step);
                    }
                }
            },
            // set I to nnn
            (0xA, _, _, _) => {
                self.i_reg = opcode & 0x0FFF;
                proof {
                    assert(self@ =~= step(old(self)@, opcode, 0)) by {
                        reveal(step);
                    }
                }
            },
            // jump to 0x0nnn + V[0]
            (0xB, _, _, _) => {
                self.program_counter = (opcode & 0x0FFF) + self.v_reg[0] as u16;
                proof {
                    assert(self@ =~= step(old(self)@, opcode, 0)) by {
                        reveal(step);
                    }
                }
            },
            // V[x] = random byte masked with kk
            (0xC, _, _, _) => {
                let rb = random_byte();
                self.v_reg[sec_b as usize] = rb & (opcode & 0x00ff) as u8;
                proof {
                    assert(self@ =~= step(old(self)@, opcode, rb)) by {
                        reveal(step);
                    }
                }
            },
            // draw an n-row sprite at (V[x], V[y])
            (0xD, _, _, _) => {
                self.draw(sec_b as usize, thd_b as usize, lsb);
                proof {
                    assert(self@ =~= step(old(self)@, opcode, 0)) by {
                        reveal(step);
                    }
                }
            },
            // skip next instruction if key V[x] is pressed
            (0xE, _, 9, 0xE) => {
                let key = self.keyboard[self.v_reg[sec_b as usize] as usize % 16];
                if key {
                    self.program_counter = self.program_counter.wrapping_add(2);
                }
                proof {
                    assert(self@ =~= step(old(self)@, opcode, 0)) by {
                        reveal(step);
                    }
                }
            },
            // same as the above, but checks that it is not pressed
            (0xE, _, 0xA, 1) => {
                let key = self.keyboard[self.v_reg[sec_b as usize] as usize % 16];
                if !key {
                    self.program_counter = self.program_counter.wrapping_add(2);
                }
                proof {
                    assert(self@ =~= step(old(self)@, opcode, 0)) by {
                        reveal(step);
                    }
                }
            },
            // timers, waiting, I arithmetic, digits, register block moves
            (0xF, _, _, _) => {
                return self.execute_fx(opcode);
            },
            (_, _, _, _) => {
                return Err(Chip8Error::UnimplementedOpcode(opcode));
            },
        }
        Ok(())
    }

    /// The 0x8xyn family: moves, bitwise operations, add, subtract and
    /// shifts between V[x] and V[y], with the flag register reporting
    /// carry, borrow or the shifted-out bit.
    #[verifier::rlimit(100)]
    fn execute_math(&mut self, opcode: u16) -> (r: Result<(), Chip8Error>)
        requires
            old(self).wf(),
            op_msb(opcode) == 8,
        ensures
            final(self).wf(),
            r is Ok <==> known_opcode(opcode),
            known_opcode(opcode) ==> final(self)@ =~= step(old(self)@, opcode, 0),
            !known_opcode(opcode) ==> final(self)@ =~= old(self)@ && r == Err::<(),
                Chip8Error,
            >(Chip8Error::UnimplementedOpcode(opcode)),
    {
        proof {
            lemma_decode_bits(opcode);
        }
        let sec_b = (opcode & 0x0f00) >> 8u16;
        let thd_b = (opcode & 0x00f0) >> 4u16;
        let lsb = opcode & 0x000f;

        match lsb {
            // set V[x] = V[y]
            0 => {
                self.v_reg[sec_b as usize] = self.v_reg[thd_b as usize];
                proof {
                    assert(self@ =~= step(old(self)@, opcode, 0)) by {
                        reveal(step);
                    }
                }
            },
            // V[x] = V[x] | V[y]
            1 => {
                let vy = self.v_reg[thd_b as usize];
                self.v_reg[sec_b as usize] = self.v_reg[sec_b as usize] | vy;
                proof {
                    assert(self@ =~= step(old(self)@, opcode, 0)) by {
                        reveal(step);
                    }
                }
            },
            // V[x] = V[x] & V[y]
            2 => {
                let vy = self.v_reg[thd_b as usize];
                self.v_reg[sec_b as usize] = self.v_reg[sec_b as usize] & vy;
                proof {
                    assert(self@ =~= step(old(self)@, opcode, 0)) by {
                        reveal(step);
                    }
                }
            },
            // V[x] = V[x] ^ V[y]
            3 => {
                let vy = self.v_reg[thd_b as usize];
                self.v_reg[sec_b as usize] = self.v_reg[sec_b as usize] ^ vy;
                proof {
                    assert(self@ =~= step(old(self)@, opcode, 0)) by {
                        reveal(step);
                    }
                }
            },
            // V[x] = V[x] + V[y] wrapping; VF reports the carry
            4 => {
                let vx = self.v_reg[sec_b as usize];
                let vy = self.v_reg[thd_b as usize];
                let new_vx = vx.wrapping_add(vy);
                let new_vf: u8 = if vx as u16 + vy as u16 > 255 {
                    1
                } else {
                    0
                };
                self.v_reg[sec_b as usize] = new_vx;
                self.v_reg[0xf] = new_vf;
                proof {
                    assert(self@ =~= step(old(self)@, opcode, 0)) by {
                        reveal(step);
                    }
                }
            },
            // V[x] = V[x] - V[y] wrapping; VF = 1 iff no borrow
            5 => {
                let vx = self.v_reg[sec_b as usize];
                let vy = self.v_reg[thd_b as usize];
                let new_vx = vx.wrapping_sub(vy);
                let new_vf: u8 = if vx >= vy {
                    1
                } else {
                    0
                };
                self.v_reg[sec_b as usize] = new_vx;
                self.v_reg[0xf] = new_vf;
                proof {
                    assert(self@ =~= step(old(self)@, opcode, 0)) by {
                        reveal(step);
                    }
                }
            },
            // VF = low bit of V[x], then V[x] = V[x] / 2
            6 => {
                let vx = self.v_reg[sec_b as usize];
                self.v_reg[sec_b as usize] = vx >> 1u8;
                self.v_reg[0xf] = vx & 1;
                proof {
                    assert(self@ =~= step(old(self)@, opcode, 0)) by {
                        reveal(step);
                    }
                }
            },
            // V[x] = V[y] - V[x] wrapping; VF = 1 iff no borrow
            7 => {
                let vx = self.v_reg[sec_b as usize];
                let vy = self.v_reg[thd_b as usize];
                let new_vx = vy.wrapping_sub(vx);
                let new_vf: u8 = if vy >= vx {
                    1
                } else {
                    0
                };
                self.v_reg[sec_b as usize] = new_vx;
                self.v_reg[0xf] = new_vf;
                proof {
                    assert(self@ =~= step(old(self)@, opcode, 0)) by {
                        reveal(step);
                    }
                }
            },
            // VF = high bit of V[x], then V[x] = V[x] * 2 wrapping
            0xE => {
                let vx = self.v_reg[sec_b as usize];
                self.v_reg[sec_b as usize] = vx << 1u8;
                self.v_reg[0xf] = (vx >> 7u8) & 1;
                proof {
                    assert(self@ =~= step(old(self)@, opcode, 0)) by {
                        reveal(step);
                    }
                }
            },
            _ => {
                return Err(Chip8Error::UnimplementedOpcode(opcode));
            },
        }
        Ok(())
    }

    /// The 0xFxnn family: timer reads and writes, the key wait, I
    /// arithmetic, the font glyph base, decimal digits, and the register
    /// block store and load.
    #[verifier::rlimit(100)]
    fn execute_fx(&mut self, opcode: u16) -> (r: Result<(), Chip8Error>)
        requires
            old(self).wf(),
            op_msb(opcode) == 0xF,
        ensures
            final(self).wf(),
            r is Ok <==> known_opcode(opcode),
            known_opcode(opcode) ==> final(self)@ =~= step(old(self)@, opcode, 0),
            !known_opcode(opcode) ==> final(self)@ =~= old(self)@ && r == Err::<(),
                Chip8Error,
            >(Chip8Error::UnimplementedOpcode(opcode)),
    {
        proof {
            lemma_decode_bits(opcode);
        }
        let sec_b = (opcode & 0x0f00) >> 8u16;
        let thd_b = (opcode & 0x00f0) >> 4u16;
        let lsb = opcode & 0x000f;

        match (thd_b, lsb) {
            // V[x] = delay timer
            (0, 7) => {
                self.v_reg[sec_b as usize] = self.delay_timer;
                proof {
                    assert(self@ =~= step(old(self)@, opcode, 0)) by {
                        reveal(step);
                    }
                }
            },
            // wait for a key press, store the key in V[x]
            (0, 0xA) => {
                self.wait_for_key(sec_b as usize);
                proof {
                    assert(self@ =~= step(old(self)@, opcode, 0)) by {
                        reveal(step);
                    }
                }
            },
            // delay timer = V[x]
            (1, 5) => {
                self.delay_timer = self.v_reg[sec_b as usize];
                proof {
                    assert(self@ =~= step(old(self)@, opcode, 0)) by {
                        reveal(step);
                    }
                }
            },
            // sound timer = V[x]
            (1, 8) => {
                self.sound_timer = self.v_reg[sec_b as usize];
                proof {
                    assert(self@ =~= step(old(self)@, opcode, 0)) by {
                        reveal(step);
                    }
                }
            },
            // I = I + V[x], wrapping at 16 bits
            (1, 0xE) => {
                let vx = self.v_reg[sec_b as usize] as u16;
                self.i_reg = self.i_reg.wrapping_add(vx);
                proof {
                    assert(self@ =~= step(old(self)@, opcode, 0)) by {
                        reveal(step);
                    }
                }
            },
            // I = font glyph base address of digit V[x]: five bytes per glyph
            (2, 9) => {
                self.i_reg = self.v_reg[sec_b as usize] as u16 * 5;
                proof {
                    assert(self@ =~= step(old(self)@, opcode, 0)) by {
                        reveal(step);
                    }
                }
            },
            // decimal digits of V[x] stored at I, I+1, I+2
            (3, 3) => {
                let vx = self.v_reg[sec_b as usize];
                let base = self.i_reg as usize;
                self.memory[base % 4096] = vx / 100;
                self.memory[(base + 1) % 4096] = (vx / 10) % 10;
                self.memory[(base + 2) % 4096] = vx % 10;
                proof {
                    assert(self@ =~= step(old(self)@, opcode, 0)) by {
                        reveal(step);
                    }
                }
            },
            // store V[0]..V[x] into memory starting at I
            (5, 5) => {
                self.store_v_to_memory(sec_b as usize);
                proof {
                    assert(self@ =~= step(old(self)@, opcode, 0)) by {
                        reveal(step);
                    }
                }
            },
            // load V[0]..V[x] from memory starting at I
            (6, 5) => {
                self.load_memory_to_v(sec_b as usize);
                proof {
                    assert(self@ =~= step(old(self)@, opcode, 0)) by {
                        reveal(step);
                    }
                }
            },
            (_, _) => {
                return Err(Chip8Error::UnimplementedOpcode(opcode));
            },
        }
        Ok(())
    }

    /// One interpreter cycle: fetch the opcode at the program counter, then
    /// execute it. Fetch and decode failures are passed through.
    pub fn cicle(&mut self) -> (r: Result<(), Chip8Error>)
        requires
            old(self).wf(),
        ensures
            final(self).wf(),
            old(self)@.program_counter + 1 >= 4096 ==> final(self)@ =~= old(self)@ && r == Err::<
                (),
                Chip8Error,
            >(Chip8Error::OutOfBounds),
            old(self)@.program_counter + 1 < 4096 ==> ({
                let op = opcode_at(old(self)@.memory, old(self)@.program_counter as int);
                &&& (r is Ok <==> known_opcode(op))
                &&& known_opcode(op) ==> exists|rb: u8|
                    final(self)@ =~= step(fetched(old(self)@), op, rb)
                &&& known_opcode(op) && op_msb(op) != 0xC ==> final(self)@ =~= step(
                    fetched(old(self)@),
                    op,
                    0,
                )
                &&& !known_opcode(op) ==> final(self)@ =~= fetched(old(self)@) && r == Err::<(),
                    Chip8Error,
                >(Chip8Error::UnimplementedOpcode(op))
            }),
    {
        let actual_opcode = match self.fetch_opcode_from() {
            Ok(op) => op,
            Err(e) => {
                return Err(e);
            },
        };
        self.execute(actual_opcode)
    }

    /// The register store of 0xFx55: V0..Vx copied into memory at I,
    /// addresses mod 4096.
    #[verifier::loop_isolation(false)]
    fn store_v_to_memory(&mut self, x: usize)
        requires
            x < 16,
        ensures
            final(self)@ =~= (MachineV {
                memory: store_regs(
                    old(self)@.memory,
                    old(self)@.v_reg,
                    old(self)@.i_reg,
                    x as int + 1,
                ),
                ..old(self)@
            }),
    {
        let mut i: usize = 0;
        while i <= x
            invariant
                i <= x + 1,
                self@ =~= (MachineV { memory: self.memory@, ..old(self)@ }),
                self.memory@ =~= store_regs(
                    old(self)@.memory,
                    old(self)@.v_reg,
                    old(self)@.i_reg,
                    i as int,
                ),
            decreases x + 1 - i,
        {
            let addr: usize = (self.i_reg as usize + i) % 4096;
            self.memory[addr] = self.v_reg[i];
            proof {
                assert(self.memory@ =~= store_regs(
                    old(self)@.memory,
                    old(self)@.v_reg,
                    old(self)@.i_reg,
                    i as int + 1,
                ));
            }
            i += 1;
        }
    }

    /// The register load of 0xFx65: V0..Vx filled from memory at I,
    /// addresses mod 4096.
    #[verifier::loop_isolation(false)]
    fn load_memory_to_v(&mut self, x: usize)
        requires
            x < 16,
        ensures
            final(self)@ =~= (MachineV {
                v_reg: load_regs(
                    old(self)@.v_reg,
                    old(self)@.memory,
                    old(self)@.i_reg,
                    x as int + 1,
                ),
                ..old(self)@
            }),
    {
        let mut i: usize = 0;
        while i <= x
            invariant
                i <= x + 1,
                self@ =~= (MachineV { v_reg: self.v_reg@, ..old(self)@ }),
                self.v_reg@ =~= load_regs(
                    old(self)@.v_reg,
                    old(self)@.memory,
                    old(self)@.i_reg,
                    i as int,
                ),
            decreases x + 1 - i,
        {
            let addr: usize = (self.i_reg as usize + i) % 4096;
            self.v_reg[i] = self.memory[addr];
            proof {
                assert(self.v_reg@ =~= load_regs(
                    old(self)@.v_reg,
                    old(self)@.memory,
                    old(self)@.i_reg,
                    i as int + 1,
                ));
            }
            i += 1;
        }
    }
}

} // verus!
