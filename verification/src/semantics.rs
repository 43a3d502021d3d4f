//! The mathematical model of the machine and of every instruction.
//!
//! [`MachineV`] is the ghost view of a [`crate::memory::Chip8`] value, and
//! [`step`] says what executing one opcode does to that view. The executable
//! interpreter in [`crate::processor`] is proved to follow `step` exactly.

use vstd::prelude::*;

verus! {

/// The ghost view of a whole machine. The framebuffer is a flat sequence of
/// 64 * 32 cells; the cell at column `x`, row `y` sits at index `x * 32 + y`.
#[verifier::ext_equal]
pub ghost struct MachineV {
    pub display: Seq<bool>,
    pub memory: Seq<u8>,
    pub keyboard: Seq<bool>,
    pub stack: Seq<u16>,
    pub v_reg: Seq<u8>,
    pub i_reg: u16,
    pub program_counter: u16,
    pub stack_pointer: int,
    pub delay_timer: u8,
    pub sound_timer: u8,
}

impl MachineV {
    /// The sizes every well-formed machine has, and the bound on the stack
    /// pointer that push and pop keep.
    pub open spec fn wf(self) -> bool {
        &&& self.display.len() == 2048
        &&& self.memory.len() == 4096
        &&& self.keyboard.len() == 16
        &&& self.stack.len() == 16
        &&& self.v_reg.len() == 16
        &&& 0 <= self.stack_pointer <= 16
    }
}

/// The machine as `Chip8::new` makes it: everything zeroed but for the
/// font table at the bottom of memory, the program counter at 0x200.
pub open spec fn init_state() -> MachineV {
    MachineV {
        display: Seq::new(2048, |i: int| false),
        memory: crate::font::font_seq() + Seq::new(4016, |i: int| 0u8),
        keyboard: Seq::new(16, |i: int| false),
        stack: Seq::new(16, |i: int| 0u16),
        v_reg: Seq::new(16, |i: int| 0u8),
        i_reg: 0,
        program_counter: 0x200,
        stack_pointer: 0,
        delay_timer: 0,
        sound_timer: 0,
    }
}

/// One host tick: each timer falls by one, stopping at zero.
pub open spec fn timers_ticked(s: MachineV) -> MachineV {
    MachineV {
        delay_timer: (if s.delay_timer > 0 { (s.delay_timer - 1) as u8 } else { 0u8 }),
        sound_timer: (if s.sound_timer > 0 { (s.sound_timer - 1) as u8 } else { 0u8 }),
        ..s
    }
}

/// The slot a push writes. A full stack wraps the pointer back to slot 0,
/// silently overwriting the oldest entry.
pub open spec fn push_slot(sp: int) -> int {
    if sp >= 16 {
        0
    } else {
        sp
    }
}

/// The slot a pop reads. Popping an empty stack is clamped: it reads slot 0
/// and leaves the pointer at 0.
pub open spec fn pop_slot(sp: int) -> int {
    if sp == 0 {
        0
    } else {
        sp - 1
    }
}

/// The machine after `stack_push(value)`.
pub open spec fn stack_pushed(s: MachineV, value: u16) -> MachineV {
    MachineV {
        stack: s.stack.update(push_slot(s.stack_pointer), value),
        stack_pointer: push_slot(s.stack_pointer) + 1,
        ..s
    }
}

/// The machine after `stack_pop()`.
pub open spec fn stack_popped(s: MachineV) -> MachineV {
    MachineV { stack_pointer: pop_slot(s.stack_pointer), ..s }
}

/// The address `stack_pop()` returns.
pub open spec fn popped_value(s: MachineV) -> u16 {
    s.stack[pop_slot(s.stack_pointer)]
}

/// Top nibble of an opcode.
pub open spec fn op_msb(op: u16) -> u16 {
    op / 0x1000
}

/// Second nibble: the `x` register index.
pub open spec fn op_x(op: u16) -> u16 {
    (op / 0x100) % 0x10
}

/// Third nibble: the `y` register index.
pub open spec fn op_y(op: u16) -> u16 {
    (op / 0x10) % 0x10
}

/// Bottom nibble: the `n` immediate.
pub open spec fn op_n(op: u16) -> u16 {
    op % 0x10
}

/// Low byte: the `kk` immediate.
pub open spec fn op_kk(op: u16) -> u16 {
    op % 0x100
}

/// Low twelve bits: the `nnn` address immediate.
pub open spec fn op_nnn(op: u16) -> u16 {
    op % 0x1000
}

/// The opcode fetched at address `pc`: two consecutive bytes, big-endian.
pub open spec fn opcode_at(mem: Seq<u8>, pc: int) -> u16 {
    (mem[pc] * 0x100 + mem[pc + 1]) as u16
}

/// The machine after a fetch: only the program counter has moved, two bytes
/// forward.
pub open spec fn fetched(s: MachineV) -> MachineV {
    MachineV { program_counter: (s.program_counter + 2) as u16, ..s }
}

/// The program counter after a skip: two bytes forward, wrapping at 16 bits.
pub open spec fn skip_pc(pc: u16) -> u16 {
    ((pc + 2) % 0x10000) as u16
}

/// The program counter after the wait-for-key rewind: two bytes back,
/// wrapping at 16 bits.
pub open spec fn back_pc(pc: u16) -> u16 {
    ((pc - 2) % 0x10000) as u16
}

/// The keyboard slot a register value selects; only the low nibble counts,
/// since there are sixteen keys.
pub open spec fn key_slot(v: u8) -> int {
    (v as int) % 16
}

/// Whether any of the sixteen keys is down.
pub open spec fn any_key_pressed(kb: Seq<bool>) -> bool {
    exists|k: int| 0 <= k < 16 && kb[k]
}

/// The lowest pressed key index at or above `k`, or 16 if none is pressed.
pub open spec fn first_key_from(kb: Seq<bool>, k: int) -> int
    decreases 16 - k,
{
    if k < 0 || k >= 16 {
        16
    } else if kb[k] {
        k
    } else {
        first_key_from(kb, k + 1)
    }
}

/// Memory after registers V0..V(count-1) are stored at I, I+1, ...; every
/// address is taken mod 4096.
pub open spec fn store_regs(mem: Seq<u8>, v: Seq<u8>, ir: u16, count: int) -> Seq<u8>
    decreases count,
{
    if count <= 0 {
        mem
    } else {
        store_regs(mem, v, ir, count - 1).update((ir + count - 1) % 4096, v[count - 1])
    }
}

/// Registers after V0..V(count-1) are filled from memory at I, I+1, ...;
/// every address is taken mod 4096.
pub open spec fn load_regs(v: Seq<u8>, mem: Seq<u8>, ir: u16, count: int) -> Seq<u8>
    decreases count,
{
    if count <= 0 {
        v
    } else {
        load_regs(v, mem, ir, count - 1).update(count - 1, mem[(ir + count - 1) % 4096])
    }
}

/// The flat framebuffer index of the cell at column `x`, row `y`.
pub open spec fn cell_index(x: int, y: int) -> int {
    x * 32 + y
}

/// Byte `j` of the sprite at I: memory at (I + j) mod 4096.
pub open spec fn sprite_row(mem: Seq<u8>, ir: u16, j: int) -> u8 {
    mem[(ir + j) % 4096]
}

/// Bit `i` (from the left) of sprite byte `j`.
pub open spec fn sprite_bit(mem: Seq<u8>, ir: u16, j: int, i: int) -> bool {
    sprite_row(mem, ir, j) & (0x80u8 >> (i as u8)) != 0
}

/// The framebuffer cell that sprite bit (j, i) lands on when the sprite is
/// drawn at (xc, yc): coordinates wrap around the screen edges.
pub open spec fn target_cell(xc: int, yc: int, j: int, i: int) -> int {
    cell_index((xc + i) % 64, (yc + j) % 32)
}

/// Whether the pair (row `j`, bit `i`) comes before the bound (jb, ib) in
/// the row-by-row, bit-by-bit order the draw walks.
pub open spec fn pair_done(j: int, i: int, jb: int, ib: int) -> bool {
    j < jb || (j == jb && i < ib)
}

/// Whether the draw's pairs before (jb, ib) toggle cell `c`: some set
/// sprite bit lands there.
pub open spec fn toggled_upto(s: MachineV, xc: int, yc: int, jb: int, ib: int, c: int) -> bool {
    exists|j: int, i: int|
        pair_done(j, i, jb, ib) && 0 <= j && 0 <= i < 8 && sprite_bit(s.memory, s.i_reg, j, i)
            && target_cell(xc, yc, j, i) == c
}

/// The framebuffer after the draw's pairs before (jb, ib): each covered
/// cell is XOR-toggled, every other cell keeps its value.
pub open spec fn display_upto(s: MachineV, xc: int, yc: int, jb: int, ib: int) -> Seq<bool> {
    Seq::new(2048, |c: int| s.display[c] != toggled_upto(s, xc, yc, jb, ib, c))
}

/// Whether the draw's pairs before (jb, ib) hit a lit cell: the collision
/// the flag register reports.
pub open spec fn collision_upto(s: MachineV, xc: int, yc: int, jb: int, ib: int) -> bool {
    exists|j: int, i: int|
        pair_done(j, i, jb, ib) && 0 <= j && 0 <= i < 8 && sprite_bit(s.memory, s.i_reg, j, i)
            && s.display[target_cell(xc, yc, j, i)]
}

/// The coordinate the draw reads from register `r`. The flag register is
/// zeroed before the coordinates are read, so register 15 always reads 0.
pub open spec fn draw_coord(s: MachineV, r: int) -> int {
    if r == 15 {
        0
    } else {
        s.v_reg[r] as int
    }
}

/// The machine after the draw opcode: `n` sprite rows from memory at I,
/// drawn at the coordinates in registers `x` and `y`, toroidally; the flag
/// register reports whether any lit pixel was unset.
pub open spec fn draw_step(s: MachineV, x: int, y: int, n: int) -> MachineV {
    let xc = draw_coord(s, x);
    let yc = draw_coord(s, y);
    MachineV {
        display: display_upto(s, xc, yc, n, 0),
        v_reg: s.v_reg.update(15, if collision_upto(s, xc, yc, n, 0) { 1u8 } else { 0u8 }),
        ..s
    }
}

/// Whether an opcode matches one of the 35 documented instruction forms.
pub open spec fn known_opcode(op: u16) -> bool {
    let m = op_msb(op);
    let x = op_x(op);
    let y = op_y(op);
    let n = op_n(op);
    ||| (m == 0 && x == 0 && y == 0 && n == 0)
    ||| (m == 0 && x == 0 && y == 0xE && n == 0)
    ||| (m == 0 && x == 0 && y == 0xE && n == 0xE)
    ||| m == 1
    ||| m == 2
    ||| m == 3
    ||| m == 4
    ||| (m == 5 && n == 0)
    ||| m == 6
    ||| m == 7
    ||| (m == 8 && (n == 0 || n == 1 || n == 2 || n == 3 || n == 4 || n == 5 || n == 6 || n == 7
        || n == 0xE))
    ||| (m == 9 && n == 0)
    ||| m == 0xA
    ||| m == 0xB
    ||| m == 0xC
    ||| m == 0xD
    ||| (m == 0xE && y == 9 && n == 0xE)
    ||| (m == 0xE && y == 0xA && n == 1)
    ||| (m == 0xF && y == 0 && n == 7)
    ||| (m == 0xF && y == 0 && n == 0xA)
    ||| (m == 0xF && y == 1 && n == 5)
    ||| (m == 0xF && y == 1 && n == 8)
    ||| (m == 0xF && y == 1 && n == 0xE)
    ||| (m == 0xF && y == 2 && n == 9)
    ||| (m == 0xF && y == 3 && n == 3)
    ||| (m == 0xF && y == 5 && n == 5)
    ||| (m == 0xF && y == 6 && n == 5)
}

/// What executing one opcode does to the machine. `rnd` is the byte the
/// random source produced, read only by the 0xCxkk opcode; the result is
/// meaningful only when `known_opcode(op)` holds, and leaves the machine
/// unchanged otherwise. The program counter was already advanced by the
/// fetch, so jumps simply overwrite it and skips move it two further.
#[verifier::opaque]
pub open spec fn step(s: MachineV, op: u16, rnd: u8) -> MachineV {
    let m = op_msb(op);
    let x = op_x(op) as int;
    let y = op_y(op) as int;
    let n = op_n(op);
    let kk = op_kk(op);
    let nnn = op_nnn(op);
    let vx = s.v_reg[x];
    let vy = s.v_reg[y];
    if m == 0 && op_x(op) == 0 && op_y(op) == 0 && n == 0 {
        // 0x0000: no-op
        s
    } else if m == 0 && op_x(op) == 0 && op_y(op) == 0xE && n == 0 {
        // 0x00E0: clear the framebuffer
        MachineV { display: Seq::new(2048, |c: int| false), ..s }
    } else if m == 0 && op_x(op) == 0 && op_y(op) == 0xE && n == 0xE {
        // 0x00EE: return from subroutine
        MachineV { program_counter: popped_value(s), ..stack_popped(s) }
    } else if m == 1 {
        // 0x1nnn: jump
        MachineV { program_counter: nnn, ..s }
    } else if m == 2 {
        // 0x2nnn: call subroutine
        MachineV { program_counter: nnn, ..stack_pushed(s, s.program_counter) }
    } else if m == 3 {
        // 0x3xkk: skip if Vx == kk
        if vx == kk {
            MachineV { program_counter: skip_pc(s.program_counter), ..s }
        } else {
            s
        }
    } else if m == 4 {
        // 0x4xkk: skip if Vx != kk
        if vx != kk {
            MachineV { program_counter: skip_pc(s.program_counter), ..s }
        } else {
            s
        }
    } else if m == 5 && n == 0 {
        // 0x5xy0: skip if Vx == Vy
        if vx == vy {
            MachineV { program_counter: skip_pc(s.program_counter), ..s }
        } else {
            s
        }
    } else if m == 6 {
        // 0x6xkk: Vx = kk
        MachineV { v_reg: s.v_reg.update(x, kk as u8), ..s }
    } else if m == 7 {
        // 0x7xkk: Vx += kk, wrapping, no flag
        MachineV { v_reg: s.v_reg.update(x, ((vx + kk) % 0x100) as u8), ..s }
    } else if m == 8 && n == 0 {
        // 0x8xy0: Vx = Vy
        MachineV { v_reg: s.v_reg.update(x, vy), ..s }
    } else if m == 8 && n == 1 {
        // 0x8xy1: Vx |= Vy
        MachineV { v_reg: s.v_reg.update(x, vx | vy), ..s }
    } else if m == 8 && n == 2 {
        // 0x8xy2: Vx &= Vy
        MachineV { v_reg: s.v_reg.update(x, vx & vy), ..s }
    } else if m == 8 && n == 3 {
        // 0x8xy3: Vx ^= Vy
        MachineV { v_reg: s.v_reg.update(x, vx ^ vy), ..s }
    } else if m == 8 && n == 4 {
        // 0x8xy4: Vx += Vy wrapping; VF = carry
        MachineV {
            v_reg: s.v_reg.update(x, ((vx + vy) % 0x100) as u8).update(
                15,
                if vx + vy > 255 {
                    1u8
                } else {
                    0u8
                },
            ),
            ..s
        }
    } else if m == 8 && n == 5 {
        // 0x8xy5: Vx -= Vy wrapping; VF = 1 iff no borrow
        MachineV {
            v_reg: s.v_reg.update(x, ((vx - vy) % 0x100) as u8).update(
                15,
                if vx >= vy {
                    1u8
                } else {
                    0u8
                },
            ),
            ..s
        }
    } else if m == 8 && n == 6 {
        // 0x8xy6: VF = low bit of Vx; Vx >>= 1
        MachineV { v_reg: s.v_reg.update(x, vx >> 1u8).update(15, vx & 1), ..s }
    } else if m == 8 && n == 7 {
        // 0x8xy7: Vx = Vy - Vx wrapping; VF = 1 iff no borrow
        MachineV {
            v_reg: s.v_reg.update(x, ((vy - vx) % 0x100) as u8).update(
                15,
                if vy >= vx {
                    1u8
                } else {
                    0u8
                },
            ),
            ..s
        }
    } else if m == 8 && n == 0xE {
        // 0x8xyE: VF = high bit of Vx; Vx <<= 1 wrapping
        MachineV { v_reg: s.v_reg.update(x, vx << 1u8).update(15, (vx >> 7u8) & 1), ..s }
    } else if m == 9 && n == 0 {
        // 0x9xy0: skip if Vx != Vy
        if vx != vy {
            MachineV { program_counter: skip_pc(s.program_counter), ..s }
        } else {
            s
        }
    } else if m == 0xA {
        // 0xAnnn: I = nnn
        MachineV { i_reg: nnn, ..s }
    } else if m == 0xB {
        // 0xBnnn: jump to nnn + V0
        MachineV { program_counter: (nnn + s.v_reg[0]) as u16, ..s }
    } else if m == 0xC {
        // 0xCxkk: Vx = random byte AND kk
        MachineV { v_reg: s.v_reg.update(x, rnd & (kk as u8)), ..s }
    } else if m == 0xD {
        // 0xDxyn: draw
        draw_step(s, x, y, n as int)
    } else if m == 0xE && op_y(op) == 9 && n == 0xE {
        // 0xEx9E: skip if key Vx is pressed
        if s.keyboard[key_slot(vx)] {
            MachineV { program_counter: skip_pc(s.program_counter), ..s }
        } else {
            s
        }
    } else if m == 0xE && op_y(op) == 0xA && n == 1 {
        // 0xExA1: skip if key Vx is not pressed
        if !s.keyboard[key_slot(vx)] {
            MachineV { program_counter: skip_pc(s.program_counter), ..s }
        } else {
            s
        }
    } else if m == 0xF && op_y(op) == 0 && n == 7 {
        // 0xFx07: Vx = delay timer
        MachineV { v_reg: s.v_reg.update(x, s.delay_timer), ..s }
    } else if m == 0xF && op_y(op) == 0 && n == 0xA {
        // 0xFx0A: wait for a key: take the lowest pressed key, or rewind
        if any_key_pressed(s.keyboard) {
            MachineV { v_reg: s.v_reg.update(x, first_key_from(s.keyboard, 0) as u8), ..s }
        } else {
            MachineV { program_counter: back_pc(s.program_counter), ..s }
        }
    } else if m == 0xF && op_y(op) == 1 && n == 5 {
        // 0xFx15: delay timer = Vx
        MachineV { delay_timer: vx, ..s }
    } else if m == 0xF && op_y(op) == 1 && n == 8 {
        // 0xFx18: sound timer = Vx
        MachineV { sound_timer: vx, ..s }
    } else if m == 0xF && op_y(op) == 1 && n == 0xE {
        // 0xFx1E: I += Vx, wrapping at 16 bits
        MachineV { i_reg: ((s.i_reg + vx) % 0x10000) as u16, ..s }
    } else if m == 0xF && op_y(op) == 2 && n == 9 {
        // 0xFx29: I = font glyph base of digit Vx
        MachineV { i_reg: (vx * 5) as u16, ..s }
    } else if m == 0xF && op_y(op) == 3 && n == 3 {
        // 0xFx33: decimal digits of Vx at I, I+1, I+2
        MachineV {
            memory: s.memory.update((s.i_reg as int) % 4096, vx / 100).update(
                (s.i_reg + 1) % 4096,
                (vx / 10) % 10,
            ).update((s.i_reg + 2) % 4096, vx % 10),
            ..s
        }
    } else if m == 0xF && op_y(op) == 5 && n == 5 {
        // 0xFx55: store V0..Vx at I
        MachineV { memory: store_regs(s.memory, s.v_reg, s.i_reg, x + 1), ..s }
    } else if m == 0xF && op_y(op) == 6 && n == 5 {
        // 0xFx65: load V0..Vx from I
        MachineV { v_reg: load_regs(s.v_reg, s.memory, s.i_reg, x + 1), ..s }
    } else {
        s
    }
}

/// The nibble fields of an opcode, as the executable decoder computes them
/// with masks and shifts, agree with the division form used in the
/// specification functions.
pub proof fn lemma_decode_bits(op: u16)
    ensures
        (op & 0xf000) >> 12u16 == op_msb(op),
        (op & 0x0f00) >> 8u16 == op_x(op),
        (op & 0x00f0) >> 4u16 == op_y(op),
        op & 0x000f == op_n(op),
        op & 0x00ff == op_kk(op),
        op & 0x0fff == op_nnn(op),
{
    assert((op & 0xf000) >> 12u16 == op / 0x1000) by (bit_vector);
    assert((op & 0x0f00) >> 8u16 == (op / 0x100) % 0x10) by (bit_vector);
    assert((op & 0x00f0) >> 4u16 == (op / 0x10) % 0x10) by (bit_vector);
    assert(op & 0x000f == op % 0x10) by (bit_vector);
    assert(op & 0x00ff == op % 0x100) by (bit_vector);
    assert(op & 0x0fff == op % 0x1000) by (bit_vector);
}

/// Adding distinct offsets below `m` to the same base gives distinct
/// residues mod `m`.
pub proof fn lemma_mod_offset_inj(base: int, k1: int, k2: int, m: int)
    requires
        0 <= base,
        0 <= k1 < m,
        0 <= k2 < m,
        (base + k1) % m == (base + k2) % m,
    ensures
        k1 == k2,
{
    let q1 = (base + k1) / m;
    let q2 = (base + k2) / m;
    vstd::arithmetic::div_mod::lemma_fundamental_div_mod(base + k1, m);
    vstd::arithmetic::div_mod::lemma_fundamental_div_mod(base + k2, m);
    assert(k1 - k2 == m * q1 - m * q2);
    assert(m * q1 - m * q2 == m * (q1 - q2)) by (nonlinear_arith);
    if q1 > q2 {
        assert(m * (q1 - q2) >= m) by (nonlinear_arith)
            requires
                0 < m,
                q1 - q2 >= 1,
        ;
        assert(false);
    }
    if q2 > q1 {
        assert(m * (q1 - q2) <= -m) by (nonlinear_arith)
            requires
                0 < m,
                q2 - q1 >= 1,
        ;
        assert(false);
    }
}

/// Two sprite bits land on the same framebuffer cell only if they are the
/// same bit: columns wrap at 64 but a sprite is 8 wide, rows wrap at 32 and
/// a sprite is at most 15 tall.
pub proof fn lemma_target_cell_inj(xc: int, yc: int, j1: int, i1: int, j2: int, i2: int)
    requires
        0 <= xc,
        0 <= yc,
        0 <= i1 < 8,
        0 <= i2 < 8,
        0 <= j1 < 32,
        0 <= j2 < 32,
        target_cell(xc, yc, j1, i1) == target_cell(xc, yc, j2, i2),
    ensures
        j1 == j2,
        i1 == i2,
{
    let a1 = (xc + i1) % 64;
    let b1 = (yc + j1) % 32;
    let a2 = (xc + i2) % 64;
    let b2 = (yc + j2) % 32;
    assert(0 <= a1 < 64 && 0 <= a2 < 64 && 0 <= b1 < 32 && 0 <= b2 < 32);
    assert(a1 * 32 + b1 == a2 * 32 + b2);
    assert(a1 == a2 && b1 == b2);
    lemma_mod_offset_inj(xc, i1, i2, 64);
    lemma_mod_offset_inj(yc, j1, j2, 32);
}

/// Packing two bytes big-endian with a shift and an or is the same as the
/// arithmetic form `opcode_at` uses.
pub proof fn lemma_pack_bytes(a: u16, b: u16)
    requires
        a < 256,
        b < 256,
    ensures
        ((a << 8u16) | b) == a * 0x100 + b,
{
    assert(a < 256 && b < 256 ==> ((a << 8u16) | b) == a * 0x100 + b) by (bit_vector);
}

} // verus!
