//! Machine-wide laws of the instruction semantics, each proved once and for
//! all over [`step`]: the carry and borrow flags of the arithmetic opcodes,
//! idempotence of the screen clear, the store/load register round trip, and
//! the self-erasing property of XOR sprite drawing.

use crate::semantics::collision_upto;
use crate::semantics::draw_coord;
use crate::semantics::draw_step;
use crate::semantics::lemma_mod_offset_inj;
use crate::semantics::load_regs;
use crate::semantics::op_msb;
use crate::semantics::op_n;
use crate::semantics::op_x;
use crate::semantics::op_y;
use crate::semantics::pair_done;
use crate::semantics::sprite_bit;
use crate::semantics::step;
use crate::semantics::store_regs;
use crate::semantics::target_cell;
use crate::semantics::toggled_upto;
use crate::semantics::MachineV;
use vstd::prelude::*;

verus! {

/// Executing 0x8xy4 with Vx = a and Vy = b sets Vx to (a + b) mod 256 and
/// the flag register to 1 exactly when a + b overflows a byte. The one
/// register the sum clause cannot speak of is Vx = VF itself, whose sum
/// the flag write overwrites.
pub proof fn lemma_add_sets_carry(s: MachineV, op: u16, rnd: u8)
    requires
        s.wf(),
        op_msb(op) == 8,
        op_n(op) == 4,
    ensures
        op_x(op) != 15 ==> step(s, op, rnd).v_reg[op_x(op) as int] == (s.v_reg[op_x(op) as int]
            + s.v_reg[op_y(op) as int]) % 256,
        step(s, op, rnd).v_reg[15] == (if s.v_reg[op_x(op) as int] + s.v_reg[op_y(op) as int] > 255 {
            1u8
        } else {
            0u8
        }),
{
    reveal(step);
}

/// Executing 0x8xy5 with Vx = a and Vy = b sets Vx to (a - b) mod 256 and
/// the flag register to 1 exactly when no borrow occurs, that is when
/// a >= b. As with the carry law, the difference clause excludes Vx = VF
/// itself, since the flag write overwrites the difference.
pub proof fn lemma_sub_sets_borrow(s: MachineV, op: u16, rnd: u8)
    requires
        s.wf(),
        op_msb(op) == 8,
        op_n(op) == 5,
    ensures
        op_x(op) != 15 ==> step(s, op, rnd).v_reg[op_x(op) as int] == (s.v_reg[op_x(op) as int]
            - s.v_reg[op_y(op) as int]) % 256,
        step(s, op, rnd).v_reg[15] == (if s.v_reg[op_x(op) as int] >= s.v_reg[op_y(op) as int] {
            1u8
        } else {
            0u8
        }),
{
    reveal(step);
}

/// Clearing the screen is idempotent: executing 0x00E0 twice leaves the
/// framebuffer exactly as executing it once does, with every cell off.
pub proof fn lemma_clear_screen_idempotent(s: MachineV, rnd1: u8, rnd2: u8)
    requires
        s.wf(),
    ensures
        step(step(s, 0x00E0, rnd1), 0x00E0, rnd2).display =~= step(s, 0x00E0, rnd1).display,
        forall|c: int| 0 <= c < 2048 ==> !step(s, 0x00E0, rnd1).display[c],
{
    reveal(step);
}

/// `store_regs` keeps the memory size.
proof fn lemma_store_regs_len(mem: Seq<u8>, v: Seq<u8>, ir: u16, c: int)
    requires
        mem.len() == 4096,
    ensures
        store_regs(mem, v, ir, c).len() == 4096,
    decreases c,
{
    if c > 0 {
        lemma_store_regs_len(mem, v, ir, c - 1);
    }
}

/// After storing registers V0..V(c-1) at I, the byte at (I + k) mod 4096
/// holds Vk: the 16 target addresses are distinct, so no later write
/// clobbers an earlier one.
proof fn lemma_store_regs_at(mem: Seq<u8>, v: Seq<u8>, ir: u16, c: int, k: int)
    requires
        mem.len() == 4096,
        0 <= k < c,
        c <= 16,
    ensures
        store_regs(mem, v, ir, c)[(ir + k) % 4096] == v[k],
    decreases c,
{
    lemma_store_regs_len(mem, v, ir, c - 1);
    if k < c - 1 {
        lemma_store_regs_at(mem, v, ir, c - 1, k);
        if (ir + k) % 4096 == (ir + c - 1) % 4096 {
            lemma_mod_offset_inj(ir as int, k, c - 1, 4096);
            assert(false);
        }
    }
}

/// What each register holds after the block load: memory for the loaded
/// prefix, its old value beyond it.
proof fn lemma_load_regs_at(v: Seq<u8>, mem: Seq<u8>, ir: u16, c: int, k: int)
    requires
        v.len() == 16,
        0 <= c <= 16,
        0 <= k < 16,
    ensures
        load_regs(v, mem, ir, c).len() == 16,
        k < c ==> load_regs(v, mem, ir, c)[k] == mem[(ir + k) % 4096],
        k >= c ==> load_regs(v, mem, ir, c)[k] == v[k],
    decreases c,
{
    if c > 0 {
        lemma_load_regs_at(v, mem, ir, c - 1, k);
    }
}

/// Round trip: executing 0xFx55 and then 0xFx65 with the same x and the
/// same I restores every register V0..Vx to its value before the store,
/// and touches no other register.
pub proof fn lemma_store_load_round_trip(s: MachineV, op_store: u16, op_load: u16, rnd1: u8, rnd2: u8)
    requires
        s.wf(),
        op_msb(op_store) == 0xF,
        op_y(op_store) == 5,
        op_n(op_store) == 5,
        op_msb(op_load) == 0xF,
        op_y(op_load) == 6,
        op_n(op_load) == 5,
        op_x(op_load) == op_x(op_store),
    ensures
        step(step(s, op_store, rnd1), op_load, rnd2).v_reg =~= s.v_reg,
{
    reveal(step);
    let x = op_x(op_store) as int;
    let mem1 = store_regs(s.memory, s.v_reg, s.i_reg, x + 1);
    assert forall|k: int| 0 <= k < 16 implies #[trigger] load_regs(s.v_reg, mem1, s.i_reg, x + 1)[k]
        == s.v_reg[k] by {
        lemma_load_regs_at(s.v_reg, mem1, s.i_reg, x + 1, k);
        if k <= x {
            lemma_store_regs_at(s.memory, s.v_reg, s.i_reg, x + 1, k);
        }
    }
    lemma_load_regs_at(s.v_reg, mem1, s.i_reg, x + 1, 0);
    assert(load_regs(s.v_reg, mem1, s.i_reg, x + 1) =~= s.v_reg);
}

/// Drawing the same sprite at the same coordinates twice restores the
/// whole framebuffer, clearing in particular every pixel the first draw
/// set; and whenever the first draw did set some pixel, the second draw
/// unsets it and so reports a collision in the flag register.
pub proof fn lemma_draw_twice_restores(s: MachineV, op: u16, rnd1: u8, rnd2: u8)
    requires
        s.wf(),
        op_msb(op) == 0xD,
    ensures
        step(step(s, op, rnd1), op, rnd2).display =~= s.display,
        (exists|j: int, i: int|
            0 <= j < op_n(op) && 0 <= i < 8 && sprite_bit(s.memory, s.i_reg, j, i) && !s.display[
                target_cell(
                    draw_coord(s, op_x(op) as int),
                    draw_coord(s, op_y(op) as int),
                    j,
                    i,
                )
            ]) ==> step(step(s, op, rnd1), op, rnd2).v_reg[15] == 1,
{
    reveal(step);
    let x = op_x(op) as int;
    let y = op_y(op) as int;
    let n = op_n(op) as int;
    let xc = draw_coord(s, x);
    let yc = draw_coord(s, y);
    let s1 = draw_step(s, x, y, n);
    assert(step(s, op, rnd1) == s1);
    assert(s1.memory == s.memory && s1.i_reg == s.i_reg);
    assert(draw_coord(s1, x) == xc && draw_coord(s1, y) == yc);
    let s2 = draw_step(s1, x, y, n);
    assert(step(s1, op, rnd2) == s2);

    // the same pairs toggle the same cells in both draws
    assert forall|c: int| #[trigger] toggled_upto(s1, xc, yc, n, 0, c) == toggled_upto(
        s,
        xc,
        yc,
        n,
        0,
        c,
    ) by {
        if toggled_upto(s1, xc, yc, n, 0, c) {
            let (jj, ii) = choose|jj: int, ii: int|
                pair_done(jj, ii, n, 0) && 0 <= jj && 0 <= ii < 8 && sprite_bit(
                    s1.memory,
                    s1.i_reg,
                    jj,
                    ii,
                ) && target_cell(xc, yc, jj, ii) == c;
            assert(sprite_bit(s.memory, s.i_reg, jj, ii));
            assert(toggled_upto(s, xc, yc, n, 0, c));
        }
        if toggled_upto(s, xc, yc, n, 0, c) {
            let (jj, ii) = choose|jj: int, ii: int|
                pair_done(jj, ii, n, 0) && 0 <= jj && 0 <= ii < 8 && sprite_bit(
                    s.memory,
                    s.i_reg,
                    jj,
                    ii,
                ) && target_cell(xc, yc, jj, ii) == c;
            assert(sprite_bit(s1.memory, s1.i_reg, jj, ii));
            assert(toggled_upto(s1, xc, yc, n, 0, c));
        }
    }

    // toggling a cell twice restores it
    assert forall|c: int| 0 <= c < 2048 implies #[trigger] s2.display[c] == s.display[c] by {
        assert(s2.display[c] == (s1.display[c] != toggled_upto(s1, xc, yc, n, 0, c)));
        assert(s1.display[c] == (s.display[c] != toggled_upto(s, xc, yc, n, 0, c)));
    }
    assert(s2.display =~= s.display);

    // a pixel the first draw set is lit when the second draw reaches it
    if exists|j: int, i: int|
        0 <= j < n && 0 <= i < 8 && sprite_bit(s.memory, s.i_reg, j, i) && !s.display[target_cell(
            xc,
            yc,
            j,
            i,
        )] {
        let (j, i) = choose|j: int, i: int|
            0 <= j < n && 0 <= i < 8 && sprite_bit(s.memory, s.i_reg, j, i) && !s.display[
                target_cell(xc, yc, j, i)
            ];
        let t = target_cell(xc, yc, j, i);
        assert(pair_done(j, i, n, 0));
        assert(toggled_upto(s, xc, yc, n, 0, t));
        assert(0 <= (xc + i) % 64 < 64 && 0 <= (yc + j) % 32 < 32);
        assert(0 <= t < 2048);
        assert(s1.display[t] == (s.display[t] != toggled_upto(s, xc, yc, n, 0, t)));
        assert(s1.display[t]);
        assert(pair_done(j, i, n, 0) && 0 <= j && 0 <= i < 8 && sprite_bit(s1.memory, s1.i_reg, j, i)
            && s1.display[target_cell(xc, yc, j, i)]);
        assert(collision_upto(s1, xc, yc, n, 0));
        assert(s2.v_reg[15] == 1);
    }
}

} // verus!
