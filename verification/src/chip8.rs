//! The CHIP-8 machine state: memory, registers, stack, timers, key latches
//! and the monochrome framebuffer, together with the operations the host
//! adapter drives that do not involve instruction decoding.

use vstd::prelude::*;
use vstd::pervasive::VecAdditionalExecFns;

verus! {

/// Total bytes of machine memory.
pub const MEMORY_SIZE: usize = 4096;
/// Programs are loaded starting at this address; below it the space is
/// reserved for the interpreter and the font table.
pub const ROM_BASE: usize = 512;
/// Framebuffer width in pixels.
pub const GFX_W: usize = 64;
/// Framebuffer height in pixels.
pub const GFX_H: usize = 32;
/// Total pixels in the framebuffer.
pub const GFX_SIZE: usize = 64 * 32;
/// Number of general registers V0..VF.
pub const NUM_REGS: usize = 16;
/// Depth of the subroutine return stack.
pub const STACK_DEPTH: usize = 16;
/// Number of hex keys on the input device.
pub const NUM_KEYS: usize = 16;
/// Base address of the font table; each glyph is `FONT_GLYPH_SIZE` bytes.
pub const FONT_BASE: u16 = 0x50;
/// Bytes per font glyph.
pub const FONT_GLYPH_SIZE: u16 = 5;

/// The tri-state key-wait latch entered by the wait-for-key opcode.
#[derive(Clone, Copy, PartialEq, Eq, Structural, Debug)]
pub enum KeyWait {
    /// Instructions execute normally.
    Idle,
    /// A wait-for-key opcode named register `x`; stepping is suspended.
    Waiting { x: u8 },
    /// A key press arrived while waiting; the next step stores `key` in
    /// register `x` and resumes.
    Captured { x: u8, key: u8 },
}

/// Errors surfaced to the caller; the machine state is left unchanged
/// whenever one is reported.
#[derive(Clone, Copy, PartialEq, Eq, Structural, Debug)]
pub enum Chip8Error {
    /// The fetched instruction word belongs to no opcode family.
    UnknownOpcode { opcode: u16, pc: u16 },
    /// A call was executed with the return stack already full.
    StackOverflow { opcode: u16, pc: u16 },
    /// A return was executed with the return stack empty.
    StackUnderflow { opcode: u16, pc: u16 },
    /// An opcode's operands imply a memory access past the end of memory.
    MemoryOutOfRange { opcode: u16, pc: u16 },
    /// The ROM handed to `load` does not fit between `ROM_BASE` and the end
    /// of memory.
    RomTooLarge { len: usize },
}

/// The full mutable state of the virtual CPU.
pub struct CHIP8 {
    /// The most recently fetched instruction word.
    pub opcode: u16,
    /// 4096 bytes of memory; programs start at `ROM_BASE`.
    pub memory: Vec<u8>,
    /// The sixteen 8-bit registers V0..VF; VF doubles as the carry,
    /// borrow and collision flag.
    pub v: Vec<u8>,
    /// The 16-bit index register.
    pub i: u16,
    /// The program counter; always the address of the next fetch.
    pub pc: u16,
    /// The framebuffer, one byte per pixel, each 0 or 1.
    pub gfx: Vec<u8>,
    /// Countdown timer read by `Fx07`.
    pub delay_timer: u8,
    /// Countdown timer whose 1 -> 0 transition signals a beep.
    pub sound_timer: u8,
    /// Return addresses of active subroutine calls.
    pub stack: Vec<u16>,
    /// Number of active entries in `stack`.
    pub sp: u16,
    /// One latch per hex key; true while the key is held.
    pub keys: Vec<bool>,
    /// The key-wait latch.
    pub wait: KeyWait,
    /// Raised whenever the framebuffer changes; cleared by `draw`.
    pub draw_flag: bool,
}

impl CHIP8 {
    /// Structural well-formedness: every buffer has its fixed size, the
    /// stack pointer is within the stack, pixels are bits, and the key-wait
    /// latch only names valid registers and keys.
    pub open spec fn wf(self) -> bool {
        &&& self.memory@.len() == MEMORY_SIZE
        &&& self.v@.len() == NUM_REGS
        &&& self.stack@.len() == STACK_DEPTH
        &&& self.gfx@.len() == GFX_SIZE
        &&& self.keys@.len() == NUM_KEYS
        &&& self.sp <= STACK_DEPTH
        &&& forall |p: int| 0 <= p < GFX_SIZE ==> self.gfx@[p] <= 1
        &&& match self.wait {
            KeyWait::Idle => true,
            KeyWait::Waiting { x } => x < 16,
            KeyWait::Captured { x, key } => x < 16 && key < 16,
        }
    }

    /// The state right after `new` or `reset`: everything zeroed, the
    /// program counter at `ROM_BASE`, no wait pending, no redraw pending.
    pub open spec fn is_initial(self) -> bool {
        &&& self.opcode == 0
        &&& self.i == 0
        &&& self.pc == 0x200
        &&& self.delay_timer == 0
        &&& self.sound_timer == 0
        &&& self.sp == 0
        &&& self.wait == KeyWait::Idle
        &&& self.draw_flag == false
        &&& forall |a: int| 0 <= a < MEMORY_SIZE ==> self.memory@[a] == 0
        &&& forall |r: int| 0 <= r < NUM_REGS ==> self.v@[r] == 0
        &&& forall |s: int| 0 <= s < STACK_DEPTH ==> self.stack@[s] == 0
        &&& forall |p: int| 0 <= p < GFX_SIZE ==> self.gfx@[p] == 0
        &&& forall |k: int| 0 <= k < NUM_KEYS ==> self.keys@[k] == false
    }
}

/// Memory holds the same bytes in both states.
pub open spec fn same_mem(a: CHIP8, b: CHIP8) -> bool {
    b.memory@ == a.memory@
}

/// The registers hold the same values in both states.
pub open spec fn same_v(a: CHIP8, b: CHIP8) -> bool {
    b.v@ == a.v@
}

/// The framebuffer and the redraw flag agree in both states.
pub open spec fn same_gfx(a: CHIP8, b: CHIP8) -> bool {
    b.gfx@ == a.gfx@ && b.draw_flag == a.draw_flag
}

/// The stack contents and the stack pointer agree in both states.
pub open spec fn same_stack(a: CHIP8, b: CHIP8) -> bool {
    b.stack@ == a.stack@ && b.sp == a.sp
}

/// The index register agrees in both states.
pub open spec fn same_i(a: CHIP8, b: CHIP8) -> bool {
    b.i == a.i
}

/// Both timers agree in both states.
pub open spec fn same_timers(a: CHIP8, b: CHIP8) -> bool {
    b.delay_timer == a.delay_timer && b.sound_timer == a.sound_timer
}

/// The key latches agree in both states.
pub open spec fn same_keys(a: CHIP8, b: CHIP8) -> bool {
    b.keys@ == a.keys@
}

/// The key-wait latch agrees in both states.
pub open spec fn same_wait(a: CHIP8, b: CHIP8) -> bool {
    b.wait == a.wait
}

/// The program counter agrees in both states.
pub open spec fn same_pc(a: CHIP8, b: CHIP8) -> bool {
    b.pc == a.pc
}

/// Nothing an instruction can touch differs between the two states.
/// (The `opcode` latch is bookkept separately by `step`.)
pub open spec fn unchanged(a: CHIP8, b: CHIP8) -> bool {
    &&& same_mem(a, b)
    &&& same_v(a, b)
    &&& same_gfx(a, b)
    &&& same_stack(a, b)
    &&& same_i(a, b)
    &&& same_timers(a, b)
    &&& same_keys(a, b)
    &&& same_wait(a, b)
    &&& same_pc(a, b)
}

/// A vector of `n` copies of `val`.
pub(crate) fn filled_u8(n: usize, val: u8) -> (out: Vec<u8>)
    ensures
        out@.len() == n,
        forall |k: int| 0 <= k < n ==> out@[k] == val,
{
    let mut out: Vec<u8> = Vec::new();
    let mut k: usize = 0;
    while k < n
        invariant
            k <= n,
            out@.len() == k,
            forall |q: int| 0 <= q < k ==> out@[q] == val,
        decreases n - k,
    {
        out.push(val);
        k += 1;
    }
    out
}

/// A vector of `n` copies of `val`.
fn filled_u16(n: usize, val: u16) -> (out: Vec<u16>)
    ensures
        out@.len() == n,
        forall |k: int| 0 <= k < n ==> out@[k] == val,
{
    let mut out: Vec<u16> = Vec::new();
    let mut k: usize = 0;
    while k < n
        invariant
            k <= n,
            out@.len() == k,
            forall |q: int| 0 <= q < k ==> out@[q] == val,
        decreases n - k,
    {
        out.push(val);
        k += 1;
    }
    out
}

/// A vector of `n` copies of `val`.
fn filled_bool(n: usize, val: bool) -> (out: Vec<bool>)
    ensures
        out@.len() == n,
        forall |k: int| 0 <= k < n ==> out@[k] == val,
{
    let mut out: Vec<bool> = Vec::new();
    let mut k: usize = 0;
    while k < n
        invariant
            k <= n,
            out@.len() == k,
            forall |q: int| 0 <= q < k ==> out@[q] == val,
        decreases n - k,
    {
        out.push(val);
        k += 1;
    }
    out
}

/// How `load` changes the state: a ROM that fits is copied to `ROM_BASE`
/// and nothing else moves; one that does not fit is rejected outright.
pub open spec fn load_effect(pre: CHIP8, post: CHIP8, data: Seq<u8>, r: Result<(), Chip8Error>) -> bool {
    if data.len() <= MEMORY_SIZE - ROM_BASE {
        &&& r == Ok::<(), Chip8Error>(())
        &&& post.memory@.len() == MEMORY_SIZE
        &&& forall |k: int| 0 <= k < data.len() ==> post.memory@[ROM_BASE + k] == data[k]
        &&& forall |a: int| 0 <= a < MEMORY_SIZE && !(ROM_BASE <= a < ROM_BASE + data.len())
                ==> post.memory@[a] == pre.memory@[a]
        &&& same_v(pre, post)
        &&& same_gfx(pre, post)
        &&& same_stack(pre, post)
        &&& same_i(pre, post)
        &&& same_timers(pre, post)
        &&& same_keys(pre, post)
        &&& same_wait(pre, post)
        &&& same_pc(pre, post)
        &&& post.opcode == pre.opcode
    } else {
        &&& r == Err::<(), Chip8Error>(Chip8Error::RomTooLarge { len: data.len() as usize })
        &&& unchanged(pre, post)
        &&& post.opcode == pre.opcode
    }
}

/// How one 60 Hz timer tick changes the state: each nonzero timer drops by
/// exactly one, and the beep signal is raised exactly when the sound timer
/// makes its 1 -> 0 transition.
pub open spec fn tick_effect(pre: CHIP8, post: CHIP8, beep: bool) -> bool {
    &&& post.delay_timer == (if pre.delay_timer > 0 { (pre.delay_timer - 1) as u8 } else { 0u8 })
    &&& post.sound_timer == (if pre.sound_timer > 0 { (pre.sound_timer - 1) as u8 } else { 0u8 })
    &&& beep == (pre.sound_timer == 1)
    &&& same_mem(pre, post)
    &&& same_v(pre, post)
    &&& same_gfx(pre, post)
    &&& same_stack(pre, post)
    &&& same_i(pre, post)
    &&& same_keys(pre, post)
    &&& same_wait(pre, post)
    &&& same_pc(pre, post)
    &&& post.opcode == pre.opcode
}

/// How a key event changes the state: the latch for `key` is set to
/// `pressed`, and a press resolves a pending key wait into a capture.
pub open spec fn set_input_effect(pre: CHIP8, post: CHIP8, key: u8, pressed: bool) -> bool {
    &&& post.keys@ == pre.keys@.update(key as int, pressed)
    &&& post.wait == (if pressed {
            match pre.wait {
                KeyWait::Waiting { x } => KeyWait::Captured { x, key },
                other => other,
            }
        } else {
            pre.wait
        })
    &&& same_mem(pre, post)
    &&& same_v(pre, post)
    &&& same_gfx(pre, post)
    &&& same_stack(pre, post)
    &&& same_i(pre, post)
    &&& same_timers(pre, post)
    &&& same_pc(pre, post)
    &&& post.opcode == pre.opcode
}

impl CHIP8 {
    /// A fresh machine: memory zeroed (the font area holds the host's table,
    /// which for this core is the all-zero table), PC at `ROM_BASE`.
    pub fn new() -> (m: CHIP8)
        ensures
            m.wf(),
            m.is_initial(),
    {
        CHIP8 {
            opcode: 0,
            memory: filled_u8(MEMORY_SIZE, 0),
            v: filled_u8(NUM_REGS, 0),
            i: 0,
            pc: 0x200,
            gfx: filled_u8(GFX_SIZE, 0),
            delay_timer: 0,
            sound_timer: 0,
            stack: filled_u16(STACK_DEPTH, 0),
            sp: 0,
            keys: filled_bool(NUM_KEYS, false),
            wait: KeyWait::Idle,
            draw_flag: false,
        }
    }

    /// Restore the post-`new` state: memory, registers, stack, PC, timers,
    /// key latches, framebuffer and the wait latch are all reinitialized.
    pub fn reset(&mut self)
        ensures
            final(self).wf(),
            final(self).is_initial(),
    {
        self.opcode = 0;
        self.memory = filled_u8(MEMORY_SIZE, 0);
        self.v = filled_u8(NUM_REGS, 0);
        self.i = 0;
        self.pc = 0x200;
        self.gfx = filled_u8(GFX_SIZE, 0);
        self.delay_timer = 0;
        self.sound_timer = 0;
        self.stack = filled_u16(STACK_DEPTH, 0);
        self.sp = 0;
        self.keys = filled_bool(NUM_KEYS, false);
        self.wait = KeyWait::Idle;
        self.draw_flag = false;
    }

    /// Copy a ROM image into memory starting at `ROM_BASE`; reject it
    /// without touching memory if it does not fit.
    pub fn load(&mut self, data: Vec<u8>) -> (r: Result<(), Chip8Error>)
        requires
            old(self).wf(),
        ensures
            final(self).wf(),
            load_effect(*old(self), *final(self), data@, r),
    {
        if data.len() > MEMORY_SIZE - ROM_BASE {
            return Err(Chip8Error::RomTooLarge { len: data.len() });
        }
        let mut k: usize = 0;
        while k < data.len()
            invariant
                k <= data@.len(),
                data@.len() <= MEMORY_SIZE - ROM_BASE,
                self.memory@.len() == MEMORY_SIZE,
                forall |q: int| 0 <= q < k ==> self.memory@[ROM_BASE + q] == data@[q],
                forall |a: int| 0 <= a < MEMORY_SIZE && !(ROM_BASE <= a < ROM_BASE + k)
                    ==> self.memory@[a] == old(self).memory@[a],
                self.v == old(self).v,
                self.gfx == old(self).gfx,
                self.stack == old(self).stack,
                self.sp == old(self).sp,
                self.i == old(self).i,
                self.pc == old(self).pc,
                self.delay_timer == old(self).delay_timer,
                self.sound_timer == old(self).sound_timer,
                self.keys == old(self).keys,
                self.wait == old(self).wait,
                self.draw_flag == old(self).draw_flag,
                self.opcode == old(self).opcode,
            decreases data@.len() - k,
        {
            self.memory.set(ROM_BASE + k, data[k]);
            k += 1;
        }
        Ok(())
    }

    /// One 60 Hz timer tick; returns whether a beep should be emitted.
    pub fn tick_timers(&mut self) -> (beep: bool)
        requires
            old(self).wf(),
        ensures
            final(self).wf(),
            tick_effect(*old(self), *final(self), beep),
    {
        if self.delay_timer > 0 {
            self.delay_timer = self.delay_timer - 1;
        }
        let beep = self.sound_timer == 1;
        if self.sound_timer > 0 {
            self.sound_timer = self.sound_timer - 1;
        }
        beep
    }

    /// Record a key press or release; a press resolves a pending key wait.
    pub fn set_input(&mut self, key: u8, pressed: bool)
        requires
            old(self).wf(),
            key < 16,
        ensures
            final(self).wf(),
            set_input_effect(*old(self), *final(self), key, pressed),
    {
        self.keys.set(key as usize, pressed);
        if pressed {
            match self.wait {
                KeyWait::Waiting { x } => {
                    self.wait = KeyWait::Captured { x, key };
                }
                _ => {}
            }
        }
    }

    /// The host has consumed the framebuffer: clear the redraw flag.
    /// Nothing else changes.
    pub fn draw(&mut self)
        requires
            old(self).wf(),
        ensures
            final(self).wf(),
            final(self).draw_flag == false,
            same_mem(*old(self), *final(self)),
            same_v(*old(self), *final(self)),
            final(self).gfx@ == old(self).gfx@,
            same_stack(*old(self), *final(self)),
            same_i(*old(self), *final(self)),
            same_timers(*old(self), *final(self)),
            same_keys(*old(self), *final(self)),
            same_wait(*old(self), *final(self)),
            same_pc(*old(self), *final(self)),
            final(self).opcode == old(self).opcode,
    {
        self.draw_flag = false;
    }

    /// Read-only access to the framebuffer, one byte per pixel in row-major
    /// order, each 0 or 1.
    pub fn framebuffer(&self) -> (fb: &Vec<u8>)
        ensures
            fb@ == self.gfx@,
    {
        &self.gfx
    }

    /// Whether the framebuffer changed since the host last called `draw`.
    pub fn redraw_pending(&self) -> (b: bool)
        ensures
            b == self.draw_flag,
    {
        self.draw_flag
    }

    /// Configuration hook reserved for future parameters (quirks modes and
    /// the like); currently nothing is consulted and the state is untouched.
    pub fn set_metadata(&mut self, metadata: Vec<(String, String)>)
        ensures
            *final(self) == *old(self),
    {
        let _ = metadata;
    }
}

} // verus!
