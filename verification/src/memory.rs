//! The machine state: memory, registers, stack, timers, keyboard latch and
//! framebuffer, with the invariant-preserving accessors the interpreter and
//! the host use.

use crate::font::font_seq;
use crate::font::FONT_SET;
use crate::semantics::init_state;
use crate::semantics::popped_value;
use crate::semantics::stack_popped;
use crate::semantics::stack_pushed;
use crate::semantics::timers_ticked;
use crate::semantics::MachineV;
use vstd::prelude::*;

verus! {

pub const SCREEN_WIDTH: usize = 64;

pub const SCREEN_HEIGHT: usize = 32;

pub const KEYBOARD_SIZE: usize = 16;

/// Why a machine operation was refused.
#[derive(Clone, Copy, Debug, PartialEq, Eq, Structural)]
pub enum Chip8Error {
    /// The ROM is larger than the 3584 bytes of memory above 0x200.
    CapacityError,
    /// A fetch was attempted with the program counter at or past the end of
    /// memory.
    OutOfBounds,
    /// The opcode matches none of the 35 documented instruction forms; the
    /// raw opcode is carried along.
    UnimplementedOpcode(u16),
}

/// One CHIP-8 machine. The framebuffer is stored flat, column first: the
/// cell at column `x`, row `y` lives at `display[x * 32 + y]`.
pub struct Chip8 {
    pub display: [bool; 2048],
    pub memory: [u8; 4096],
    pub keyboard: [bool; 16],
    pub stack: [u16; 16],
    pub v_reg: [u8; 16],
    pub i_reg: u16,
    pub program_counter: u16,
    pub stack_pointer: usize,
    pub delay_timer: u8,
    pub sound_timer: u8,
}

impl View for Chip8 {
    type V = MachineV;

    open spec fn view(&self) -> MachineV {
        MachineV {
            display: self.display@,
            memory: self.memory@,
            keyboard: self.keyboard@,
            stack: self.stack@,
            v_reg: self.v_reg@,
            i_reg: self.i_reg,
            program_counter: self.program_counter,
            stack_pointer: self.stack_pointer as int,
            delay_timer: self.delay_timer,
            sound_timer: self.sound_timer,
        }
    }
}

// general functions
impl Chip8 {
    /// The bound on the stack pointer that every operation keeps.
    pub open spec fn wf(&self) -> bool {
        self.stack_pointer <= 16
    }

    /// A fresh machine: registers, stack, timers and framebuffer zeroed,
    /// the font copied into low memory, program counter at 0x200.
    pub fn new() -> (machine: Self)
        ensures
            machine.wf(),
            machine@ =~= init_state(),
    {
        let mut machine = Chip8 {
            display: [false; 2048],
            memory: [0; 4096],
            keyboard: [false; 16],
            stack: [0; 16],
            v_reg: [0; 16],
            i_reg: 0,
            program_counter: 0x200,
            stack_pointer: 0,
            delay_timer: 0,
            sound_timer: 0,
        };
        machine.load_font();
        assert(machine@.memory =~= init_state().memory);
        machine
    }

    /// One host tick: the delay and sound timers each fall by one, stopping
    /// at zero and never wrapping. The host observes the sound timer going
    /// from 1 to 0 by reading `sound_timer` around the call.
    pub fn tick_timers(&mut self)
        ensures
            final(self)@ =~= timers_ticked(old(self)@),
    {
        if self.delay_timer > 0 {
            self.delay_timer -= 1;
        }

        if self.sound_timer > 0 {
            self.sound_timer -= 1;
        }
    }

    /// The host's write to the keyboard latch: key `keycode` is now pressed
    /// or released.
    pub fn keypress(&mut self, keycode: usize, status: bool)
        requires
            keycode < 16,
        ensures
            final(self)@ =~= (MachineV {
                keyboard: old(self)@.keyboard.update(keycode as int, status),
                ..old(self)@
            }),
    {
        self.keyboard[keycode] = status;
    }
}

// file & memory management
impl Chip8 {
    /// Copies the 80-byte hexadecimal font into memory at address 0x000 and
    /// returns the whole memory image.
    #[verifier::loop_isolation(false)]
    pub fn load_font(&mut self) -> (mem: [u8; 4096])
        ensures
            final(self)@ =~= (MachineV {
                memory: font_seq() + old(self)@.memory.skip(80),
                ..old(self)@
            }),
            mem@ == final(self)@.memory,
    {
        let mut i: usize = 0;
        while i < 80
            invariant
                i <= 80,
                self@ =~= (MachineV { memory: self.memory@, ..old(self)@ }),
                forall|k: int| 0 <= k < i ==> self.memory@[k] == font_seq()[k],
                forall|k: int| i <= k < 4096 ==> self.memory@[k] == old(self).memory@[k],
            decreases 80 - i,
        {
            self.memory[i] = FONT_SET[i];
            i += 1;
        }

        assert(self.memory@ =~= font_seq() + old(self)@.memory.skip(80));
        self.memory
    }

    /// Copies a ROM image into memory at address 0x200, after loading the
    /// font at 0x000. A ROM longer than the 3584 bytes of memory above
    /// 0x200 is refused whole, leaving the machine unchanged.
    #[verifier::loop_isolation(false)]
    pub fn load_rom(&mut self, rom: &Vec<u8>) -> (r: Result<(), Chip8Error>)
        ensures
            r is Ok <==> rom@.len() <= 3584,
            rom@.len() > 3584 ==> final(self)@ =~= old(self)@ && r == Err::<(),
                Chip8Error,
            >(Chip8Error::CapacityError),
            rom@.len() <= 3584 ==> final(self)@ =~= (MachineV {
                memory: font_seq() + old(self)@.memory.subrange(80, 0x200) + rom@ + old(
                    self,
                )@.memory.skip(0x200 + rom@.len() as int),
                ..old(self)@
            }),
    {
        if rom.len() > 3584 {
            return Err(Chip8Error::CapacityError);
        }

        self.load_font();

        let ghost fonted: Seq<u8> = self@.memory;
        let mut i: usize = 0;
        while i < rom.len()
            invariant
                i <= rom@.len(),
                self@ =~= (MachineV { memory: self.memory@, ..old(self)@ }),
                forall|k: int| 0 <= k < 0x200 ==> self.memory@[k] == fonted[k],
                forall|k: int| 0 <= k < i ==> self.memory@[0x200 + k] == rom@[k],
                forall|k: int| 0x200 + i <= k < 4096 ==> self.memory@[k] == fonted[k],
            decreases rom@.len() - i,
        {
            self.memory[0x200 + i] = rom[i];
            i += 1;
        }

        proof {
            let target = font_seq() + old(self)@.memory.subrange(80, 0x200) + rom@ + old(
                self,
            )@.memory.skip(0x200 + rom@.len() as int);
            assert(target.len() == 4096);
            assert forall|k: int| 0 <= k < 4096 implies self.memory@[k] == target[k] by {
                if k < 80 {
                    assert(target[k] == font_seq()[k]);
                    assert(self.memory@[k] == fonted[k]);
                } else if k < 0x200 {
                    assert(target[k] == old(self)@.memory.subrange(80, 0x200)[k - 80]);
                    assert(self.memory@[k] == fonted[k]);
                    assert(fonted[k] == old(self)@.memory.skip(80)[k - 80]);
                } else if k < 0x200 + rom@.len() {
                    assert(target[k] == rom@[k - 0x200]);
                } else {
                    assert(target[k] == old(self)@.memory.skip(0x200 + rom@.len() as int)[k - 0x200
                        - rom@.len()]);
                    assert(self.memory@[k] == fonted[k]);
                    assert(fonted[k] == old(self)@.memory.skip(80)[k - 80]);
                }
            }
            assert(self.memory@ =~= target);
        }
        Ok(())
    }
}

// stack management
impl Chip8 {
    /// Pushes a return address. When the stack is full the pointer wraps
    /// back to slot 0 and the oldest entry is silently overwritten; pushing
    /// never fails.
    pub fn stack_push(&mut self, value: u16)
        requires
            old(self).wf(),
        ensures
            final(self).wf(),
            final(self)@ =~= stack_pushed(old(self)@, value),
    {
        if self.stack_pointer >= 16 {
            self.stack_pointer = 0;
        }
        self.stack[self.stack_pointer] = value;
        self.stack_pointer += 1;
    }

    /// Pops a return address. Popping an empty stack is clamped: it returns
    /// whatever slot 0 holds and leaves the pointer at 0; popping never
    /// reads out of bounds.
    pub fn stack_pop(&mut self) -> (addr: u16)
        requires
            old(self).wf(),
        ensures
            final(self).wf(),
            final(self)@ =~= stack_popped(old(self)@),
            addr == popped_value(old(self)@),
    {
        if self.stack_pointer == 0 {
            self.stack_pointer = 1;
        }
        self.stack_pointer -= 1;
        self.stack[self.stack_pointer]
    }
}

} // verus!
