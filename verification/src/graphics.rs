//! The sprite draw of opcode 0xDxyn: XOR composition onto the framebuffer,
//! toroidal coordinates, collision reported in the flag register.

use crate::memory::Chip8;
use crate::semantics::collision_upto;
use crate::semantics::display_upto;
use crate::semantics::draw_coord;
use crate::semantics::draw_step;
use crate::semantics::lemma_target_cell_inj;
use crate::semantics::pair_done;
use crate::semantics::sprite_bit;
use crate::semantics::sprite_row;
use crate::semantics::target_cell;
use crate::semantics::toggled_upto;
use crate::semantics::MachineV;
use vstd::prelude::*;

verus! {

/// Toggling the cell of a set sprite bit advances the partial draw by one
/// pair: the bit's cell was not yet toggled by earlier pairs, so one XOR
/// there and an OR of its old value into the collision flag are exactly
/// what the next bound describes.
proof fn lemma_draw_hit_advance(s0: MachineV, xc: int, yc: int, j: int, i: int)
    requires
        s0.display.len() == 2048,
        0 <= xc,
        0 <= yc,
        0 <= j < 32,
        0 <= i < 8,
        sprite_bit(s0.memory, s0.i_reg, j, i),
    ensures
        0 <= target_cell(xc, yc, j, i) < 2048,
        !toggled_upto(s0, xc, yc, j, i, target_cell(xc, yc, j, i)),
        display_upto(s0, xc, yc, j, i + 1) =~= display_upto(s0, xc, yc, j, i).update(
            target_cell(xc, yc, j, i),
            !s0.display[target_cell(xc, yc, j, i)],
        ),
        collision_upto(s0, xc, yc, j, i + 1) == (collision_upto(s0, xc, yc, j, i)
            || s0.display[target_cell(xc, yc, j, i)]),
{
    let c0 = target_cell(xc, yc, j, i);
    assert(0 <= (xc + i) % 64 < 64 && 0 <= (yc + j) % 32 < 32);

    assert(!toggled_upto(s0, xc, yc, j, i, c0)) by {
        if toggled_upto(s0, xc, yc, j, i, c0) {
            let (jj, ii) = choose|jj: int, ii: int|
                pair_done(jj, ii, j, i) && 0 <= jj && 0 <= ii < 8 && sprite_bit(
                    s0.memory,
                    s0.i_reg,
                    jj,
                    ii,
                ) && target_cell(xc, yc, jj, ii) == c0;
            lemma_target_cell_inj(xc, yc, jj, ii, j, i);
            assert(false);
        }
    }

    assert forall|c: int| 0 <= c < 2048 implies #[trigger] display_upto(s0, xc, yc, j, i + 1)[c]
        == display_upto(s0, xc, yc, j, i).update(c0, !s0.display[c0])[c] by {
        if c == c0 {
            assert(pair_done(j, i, j, i + 1));
            assert(toggled_upto(s0, xc, yc, j, i + 1, c0));
        } else {
            assert(toggled_upto(s0, xc, yc, j, i + 1, c) == toggled_upto(s0, xc, yc, j, i, c)) by {
                if toggled_upto(s0, xc, yc, j, i + 1, c) {
                    let (jj, ii) = choose|jj: int, ii: int|
                        pair_done(jj, ii, j, i + 1) && 0 <= jj && 0 <= ii < 8 && sprite_bit(
                            s0.memory,
                            s0.i_reg,
                            jj,
                            ii,
                        ) && target_cell(xc, yc, jj, ii) == c;
                    assert(!(jj == j && ii == i));
                    assert(pair_done(jj, ii, j, i));
                    assert(toggled_upto(s0, xc, yc, j, i, c));
                }
                if toggled_upto(s0, xc, yc, j, i, c) {
                    let (jj, ii) = choose|jj: int, ii: int|
                        pair_done(jj, ii, j, i) && 0 <= jj && 0 <= ii < 8 && sprite_bit(
                            s0.memory,
                            s0.i_reg,
                            jj,
                            ii,
                        ) && target_cell(xc, yc, jj, ii) == c;
                    assert(pair_done(jj, ii, j, i + 1));
                    assert(toggled_upto(s0, xc, yc, j, i + 1, c));
                }
            }
        }
    }
    assert(display_upto(s0, xc, yc, j, i + 1) =~= display_upto(s0, xc, yc, j, i).update(
        c0,
        !s0.display[c0],
    ));

    assert(collision_upto(s0, xc, yc, j, i + 1) == (collision_upto(s0, xc, yc, j, i)
        || s0.display[c0])) by {
        if collision_upto(s0, xc, yc, j, i + 1) {
            let (jj, ii) = choose|jj: int, ii: int|
                pair_done(jj, ii, j, i + 1) && 0 <= jj && 0 <= ii < 8 && sprite_bit(
                    s0.memory,
                    s0.i_reg,
                    jj,
                    ii,
                ) && s0.display[target_cell(xc, yc, jj, ii)];
            if jj == j && ii == i {
                assert(s0.display[c0]);
            } else {
                assert(pair_done(jj, ii, j, i));
                assert(collision_upto(s0, xc, yc, j, i));
            }
        }
        if collision_upto(s0, xc, yc, j, i) {
            let (jj, ii) = choose|jj: int, ii: int|
                pair_done(jj, ii, j, i) && 0 <= jj && 0 <= ii < 8 && sprite_bit(
                    s0.memory,
                    s0.i_reg,
                    jj,
                    ii,
                ) && s0.display[target_cell(xc, yc, jj, ii)];
            assert(pair_done(jj, ii, j, i + 1));
            assert(collision_upto(s0, xc, yc, j, i + 1));
        }
        if s0.display[c0] {
            assert(pair_done(j, i, j, i + 1));
            assert(collision_upto(s0, xc, yc, j, i + 1));
        }
    }
}

/// A clear sprite bit advances the partial draw by one pair with no change
/// at all.
proof fn lemma_draw_miss_advance(s0: MachineV, xc: int, yc: int, j: int, i: int)
    requires
        s0.display.len() == 2048,
        0 <= j,
        0 <= i < 8,
        !sprite_bit(s0.memory, s0.i_reg, j, i),
    ensures
        display_upto(s0, xc, yc, j, i + 1) =~= display_upto(s0, xc, yc, j, i),
        collision_upto(s0, xc, yc, j, i + 1) == collision_upto(s0, xc, yc, j, i),
{
    assert forall|c: int| 0 <= c < 2048 implies #[trigger] display_upto(s0, xc, yc, j, i + 1)[c]
        == display_upto(s0, xc, yc, j, i)[c] by {
        assert(toggled_upto(s0, xc, yc, j, i + 1, c) == toggled_upto(s0, xc, yc, j, i, c)) by {
            if toggled_upto(s0, xc, yc, j, i + 1, c) {
                let (jj, ii) = choose|jj: int, ii: int|
                    pair_done(jj, ii, j, i + 1) && 0 <= jj && 0 <= ii < 8 && sprite_bit(
                        s0.memory,
                        s0.i_reg,
                        jj,
                        ii,
                    ) && target_cell(xc, yc, jj, ii) == c;
                assert(!(jj == j && ii == i));
                assert(pair_done(jj, ii, j, i));
                assert(toggled_upto(s0, xc, yc, j, i, c));
            }
            if toggled_upto(s0, xc, yc, j, i, c) {
                let (jj, ii) = choose|jj: int, ii: int|
                    pair_done(jj, ii, j, i) && 0 <= jj && 0 <= ii < 8 && sprite_bit(
                        s0.memory,
                        s0.i_reg,
                        jj,
                        ii,
                    ) && target_cell(xc, yc, jj, ii) == c;
                assert(pair_done(jj, ii, j, i + 1));
                assert(toggled_upto(s0, xc, yc, j, i + 1, c));
            }
        }
    }
    assert(display_upto(s0, xc, yc, j, i + 1) =~= display_upto(s0, xc, yc, j, i));

    assert(collision_upto(s0, xc, yc, j, i + 1) == collision_upto(s0, xc, yc, j, i)) by {
        if collision_upto(s0, xc, yc, j, i + 1) {
            let (jj, ii) = choose|jj: int, ii: int|
                pair_done(jj, ii, j, i + 1) && 0 <= jj && 0 <= ii < 8 && sprite_bit(
                    s0.memory,
                    s0.i_reg,
                    jj,
                    ii,
                ) && s0.display[target_cell(xc, yc, jj, ii)];
            assert(!(jj == j && ii == i));
            assert(pair_done(jj, ii, j, i));
            assert(collision_upto(s0, xc, yc, j, i));
        }
        if collision_upto(s0, xc, yc, j, i) {
            let (jj, ii) = choose|jj: int, ii: int|
                pair_done(jj, ii, j, i) && 0 <= jj && 0 <= ii < 8 && sprite_bit(
                    s0.memory,
                    s0.i_reg,
                    jj,
                    ii,
                ) && s0.display[target_cell(xc, yc, jj, ii)];
            assert(pair_done(jj, ii, j, i + 1));
            assert(collision_upto(s0, xc, yc, j, i + 1));
        }
    }
}

/// Finishing a row is the same as standing at the start of the next row:
/// a sprite row has exactly 8 bits.
proof fn lemma_draw_row_advance(s0: MachineV, xc: int, yc: int, j: int)
    requires
        s0.display.len() == 2048,
        0 <= j,
    ensures
        display_upto(s0, xc, yc, j, 8) =~= display_upto(s0, xc, yc, j + 1, 0),
        collision_upto(s0, xc, yc, j, 8) == collision_upto(s0, xc, yc, j + 1, 0),
{
    assert forall|c: int| 0 <= c < 2048 implies #[trigger] display_upto(s0, xc, yc, j, 8)[c]
        == display_upto(s0, xc, yc, j + 1, 0)[c] by {
        assert(toggled_upto(s0, xc, yc, j, 8, c) == toggled_upto(s0, xc, yc, j + 1, 0, c)) by {
            if toggled_upto(s0, xc, yc, j, 8, c) {
                let (jj, ii) = choose|jj: int, ii: int|
                    pair_done(jj, ii, j, 8) && 0 <= jj && 0 <= ii < 8 && sprite_bit(
                        s0.memory,
                        s0.i_reg,
                        jj,
                        ii,
                    ) && target_cell(xc, yc, jj, ii) == c;
                assert(pair_done(jj, ii, j + 1, 0));
                assert(toggled_upto(s0, xc, yc, j + 1, 0, c));
            }
            if toggled_upto(s0, xc, yc, j + 1, 0, c) {
                let (jj, ii) = choose|jj: int, ii: int|
                    pair_done(jj, ii, j + 1, 0) && 0 <= jj && 0 <= ii < 8 && sprite_bit(
                        s0.memory,
                        s0.i_reg,
                        jj,
                        ii,
                    ) && target_cell(xc, yc, jj, ii) == c;
                assert(pair_done(jj, ii, j, 8));
                assert(toggled_upto(s0, xc, yc, j, 8, c));
            }
        }
    }
    assert(display_upto(s0, xc, yc, j, 8) =~= display_upto(s0, xc, yc, j + 1, 0));

    assert(collision_upto(s0, xc, yc, j, 8) == collision_upto(s0, xc, yc, j + 1, 0)) by {
        if collision_upto(s0, xc, yc, j, 8) {
            let (jj, ii) = choose|jj: int, ii: int|
                pair_done(jj, ii, j, 8) && 0 <= jj && 0 <= ii < 8 && sprite_bit(
                    s0.memory,
                    s0.i_reg,
                    jj,
                    ii,
                ) && s0.display[target_cell(xc, yc, jj, ii)];
            assert(pair_done(jj, ii, j + 1, 0));
            assert(collision_upto(s0, xc, yc, j + 1, 0));
        }
        if collision_upto(s0, xc, yc, j + 1, 0) {
            let (jj, ii) = choose|jj: int, ii: int|
                pair_done(jj, ii, j + 1, 0) && 0 <= jj && 0 <= ii < 8 && sprite_bit(
                    s0.memory,
                    s0.i_reg,
                    jj,
                    ii,
                ) && s0.display[target_cell(xc, yc, jj, ii)];
            assert(pair_done(jj, ii, j, 8));
            assert(collision_upto(s0, xc, yc, j, 8));
        }
    }
}

impl Chip8 {
    // for the 0xDxyn instruction
    /// Draws the `spr_height`-row sprite at memory address I onto the
    /// framebuffer at the coordinates held in registers `x` and `y`,
    /// wrapping around both screen edges; every set sprite bit toggles its
    /// cell, and the flag register reports whether any lit cell was unset.
    #[verifier::loop_isolation(false)]
    pub fn draw(&mut self, x: usize, y: usize, spr_height: u16)
        requires
            x < 16,
            y < 16,
            spr_height <= 15,
        ensures
            final(self)@ =~= draw_step(old(self)@, x as int, y as int, spr_height as int),
    {
        self.v_reg[0xf] = 0;

        let x_coord = self.v_reg[x] as u16;
        let y_coord = self.v_reg[y] as u16;
        let ghost s0 = old(self)@;
        let ghost xc = draw_coord(s0, x as int);
        let ghost yc = draw_coord(s0, y as int);
        assert(x_coord as int == xc && y_coord as int == yc);

        let mut flipped = false;

        let mut j: u16 = 0;
        while j < spr_height
            invariant
                j <= spr_height,
                self@ =~= (MachineV {
                    display: self.display@,
                    v_reg: s0.v_reg.update(15, 0u8),
                    ..s0
                }),
                self.display@ =~= display_upto(s0, xc, yc, j as int, 0),
                flipped == collision_upto(s0, xc, yc, j as int, 0),
            decreases spr_height - j,
        {
            let address = (self.i_reg as usize + j as usize) % 4096;
            let pixels = self.memory[address];
            assert(pixels == sprite_row(s0.memory, s0.i_reg, j as int));

            let mut i: u8 = 0;
            while i < 8
                invariant
                    i <= 8,
                    j < spr_height,
                    pixels == sprite_row(s0.memory, s0.i_reg, j as int),
                    self@ =~= (MachineV {
                        display: self.display@,
                        v_reg: s0.v_reg.update(15, 0u8),
                        ..s0
                    }),
                    self.display@ =~= display_upto(s0, xc, yc, j as int, i as int),
                    flipped == collision_upto(s0, xc, yc, j as int, i as int),
                decreases 8 - i,
            {
                if pixels & (0x80u8 >> i) != 0 {
                    proof {
                        lemma_draw_hit_advance(s0, xc, yc, j as int, i as int);
                    }
                    let actual_x = (x_coord as usize + i as usize) % 64;
                    let actual_y = (y_coord as usize + j as usize) % 32;
                    let cell = actual_x * 32 + actual_y;
                    assert(cell as int == target_cell(xc, yc, j as int, i as int));

                    let prev = self.display[cell];
                    flipped = flipped || prev;
                    self.display[cell] = !prev;
                    assert(self.display@ =~= display_upto(s0, xc, yc, j as int, i as int + 1));
                } else {
                    proof {
                        lemma_draw_miss_advance(s0, xc, yc, j as int, i as int);
                    }
                }
                i += 1;
            }
            proof {
                lemma_draw_row_advance(s0, xc, yc, j as int);
            }
            j += 1;
        }

        if flipped {
            self.v_reg[0xf] = 1;
        } else {
            self.v_reg[0xf] = 0;
        }
        assert(self@ =~= draw_step(s0, x as int, y as int, spr_height as int));
    }
}

} // verus!
