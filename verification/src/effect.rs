//! The meaning of every opcode: a relation between the machine state before
//! and after one execute, the result it reports, and the instruction word.
//! `exec::execute_op` is proved to realize exactly this relation.

use vstd::prelude::*;
use crate::chip8::{
    CHIP8, Chip8Error, KeyWait, MEMORY_SIZE, GFX_SIZE, NUM_REGS, FONT_BASE, FONT_GLYPH_SIZE,
    same_mem, same_v, same_gfx, same_stack, same_i, same_timers, same_keys, same_wait, unchanged,
};
use crate::decode::{fam, op_x, op_y, op_n, op_nn, op_nnn, wrap8, wrap16};

verus! {

/// Everything but the registers and the program counter is unchanged.
pub open spec fn frame_v_pc(pre: CHIP8, post: CHIP8) -> bool {
    &&& same_mem(pre, post)
    &&& same_gfx(pre, post)
    &&& same_stack(pre, post)
    &&& same_i(pre, post)
    &&& same_timers(pre, post)
    &&& same_keys(pre, post)
    &&& same_wait(pre, post)
}

/// A register write: V[x] becomes `val`, PC advances by 2, nothing else
/// moves.
pub open spec fn reg_write(pre: CHIP8, post: CHIP8, x: int, val: u8) -> bool {
    &&& frame_v_pc(pre, post)
    &&& post.v@ == pre.v@.update(x, val)
    &&& post.pc == wrap16(pre.pc + 2)
}

/// A register write followed by the flag write into VF, in that order;
/// PC advances by 2, nothing else moves.
pub open spec fn reg_write_flag(pre: CHIP8, post: CHIP8, x: int, val: u8, flag: u8) -> bool {
    &&& frame_v_pc(pre, post)
    &&& post.v@ == pre.v@.update(x, val).update(15, flag)
    &&& post.pc == wrap16(pre.pc + 2)
}

/// A conditional skip: PC advances by 4 when `cond` holds, by 2 otherwise;
/// nothing else moves.
pub open spec fn skip_if(pre: CHIP8, post: CHIP8, cond: bool) -> bool {
    &&& frame_v_pc(pre, post)
    &&& same_v(pre, post)
    &&& post.pc == wrap16(pre.pc + (if cond { 4int } else { 2int }))
}

/// The instruction word is recognized by no opcode family: the error names
/// it and the PC it was executed at, and the state is untouched.
pub open spec fn unknown_op(pre: CHIP8, post: CHIP8, w: u16, r: Result<(), Chip8Error>) -> bool {
    &&& r == Err::<(), Chip8Error>(Chip8Error::UnknownOpcode { opcode: w, pc: pre.pc })
    &&& unchanged(pre, post)
}

/// The framebuffer pixel the sprite write number `t` lands on, drawing an
/// 8-wide sprite at `(x0, y0)`: write `t` paints bit `t % 8` of sprite row
/// `t / 8`, wrapping at both screen edges.
pub open spec fn tgt(x0: int, y0: int, t: int) -> int {
    ((y0 + t / 8) % 32) * 64 + ((x0 + t % 8) % 64)
}

/// Bit `j` of a sprite byte, counted from the most significant (leftmost
/// pixel) end.
pub open spec fn sbit(b: u8, j: int) -> u8 {
    (b >> ((7 - j) as u8)) & 1
}

/// The sprite bit that write number `t` paints, for a sprite read from
/// `mem[ia..]`.
pub open spec fn spr(mem: Seq<u8>, ia: int, t: int) -> u8 {
    sbit(mem[ia + t / 8], t % 8)
}

/// Pixel `p` is painted by one of the first `k` sprite writes.
pub open spec fn covered(x0: int, y0: int, k: int, p: int) -> bool {
    exists |t: int| 0 <= t < k && p == #[trigger] tgt(x0, y0, t)
}

/// One of the first `k` sprite writes unsets a previously set pixel: the
/// XOR collision the draw opcode reports in VF.
pub open spec fn hits(g: Seq<u8>, mem: Seq<u8>, ia: int, x0: int, y0: int, k: int) -> bool {
    exists |t: int| 0 <= t < k && g[#[trigger] tgt(x0, y0, t)] == 1 && spr(mem, ia, t) == 1
}

/// The framebuffer after the first `k` sprite writes: every painted pixel
/// is XORed with its sprite bit, every other pixel keeps its value.
pub open spec fn draw_gfx(g0: Seq<u8>, g1: Seq<u8>, mem: Seq<u8>, ia: int, x0: int, y0: int, k: int) -> bool {
    &&& g1.len() == g0.len()
    &&& forall |t: int| 0 <= t < k ==>
            g1[#[trigger] tgt(x0, y0, t)] == g0[tgt(x0, y0, t)] ^ spr(mem, ia, t)
    &&& forall |p: int| 0 <= p < g0.len() && !covered(x0, y0, k, p) ==> g1[p] == g0[p]
}

/// The state transition of one executed instruction word `w`, relating the
/// prior state, the new state and the reported result. Every error leaves
/// the state untouched. The `opcode` latch is not constrained here: it
/// belongs to `step`'s fetch.
pub open spec fn op_effect(pre: CHIP8, post: CHIP8, w: u16, r: Result<(), Chip8Error>) -> bool {
    let x = op_x(w) as int;
    let y = op_y(w) as int;
    let n = op_n(w) as int;
    let nn = op_nn(w);
    let nnn = op_nnn(w);
    let vx = pre.v@[x];
    let vy = pre.v@[y];
    let ok = Ok::<(), Chip8Error>(());
    match fam(w) {
        0x0 => {
            if w == 0x00E0 {
                // Clear the framebuffer and raise the redraw flag.
                &&& r == ok
                &&& post.gfx@.len() == GFX_SIZE
                &&& forall |p: int| 0 <= p < GFX_SIZE ==> post.gfx@[p] == 0
                &&& post.draw_flag == true
                &&& post.pc == wrap16(pre.pc + 2)
                &&& same_mem(pre, post)
                &&& same_v(pre, post)
                &&& same_stack(pre, post)
                &&& same_i(pre, post)
                &&& same_timers(pre, post)
                &&& same_keys(pre, post)
                &&& same_wait(pre, post)
            } else if w == 0x00EE {
                // Return: pop the stored address into PC.
                if pre.sp == 0 {
                    &&& r == Err::<(), Chip8Error>(Chip8Error::StackUnderflow { opcode: w, pc: pre.pc })
                    &&& unchanged(pre, post)
                } else {
                    &&& r == ok
                    &&& post.pc == pre.stack@[pre.sp - 1]
                    &&& post.sp == pre.sp - 1
                    &&& post.stack@ == pre.stack@
                    &&& same_mem(pre, post)
                    &&& same_v(pre, post)
                    &&& same_gfx(pre, post)
                    &&& same_i(pre, post)
                    &&& same_timers(pre, post)
                    &&& same_keys(pre, post)
                    &&& same_wait(pre, post)
                }
            } else {
                unknown_op(pre, post, w, r)
            }
        }
        0x1 => {
            // Jump.
            &&& r == ok
            &&& post.pc == nnn
            &&& frame_v_pc(pre, post)
            &&& same_v(pre, post)
        }
        0x2 => {
            // Call: push the address of the following instruction.
            if pre.sp == 16 {
                &&& r == Err::<(), Chip8Error>(Chip8Error::StackOverflow { opcode: w, pc: pre.pc })
                &&& unchanged(pre, post)
            } else {
                &&& r == ok
                &&& post.stack@ == pre.stack@.update(pre.sp as int, wrap16(pre.pc + 2))
                &&& post.sp == pre.sp + 1
                &&& post.pc == nnn
                &&& same_mem(pre, post)
                &&& same_v(pre, post)
                &&& same_gfx(pre, post)
                &&& same_i(pre, post)
                &&& same_timers(pre, post)
                &&& same_keys(pre, post)
                &&& same_wait(pre, post)
            }
        }
        0x3 => r == ok && skip_if(pre, post, vx == nn),
        0x4 => r == ok && skip_if(pre, post, vx != nn),
        0x5 => {
            if n == 0 {
                r == ok && skip_if(pre, post, vx == vy)
            } else {
                unknown_op(pre, post, w, r)
            }
        }
        0x6 => r == ok && reg_write(pre, post, x, nn),
        0x7 => r == ok && reg_write(pre, post, x, wrap8(vx + nn)),
        0x8 => {
            match op_n(w) {
                0x0 => r == ok && reg_write(pre, post, x, vy),
                0x1 => r == ok && reg_write(pre, post, x, vx | vy),
                0x2 => r == ok && reg_write(pre, post, x, vx & vy),
                0x3 => r == ok && reg_write(pre, post, x, vx ^ vy),
                0x4 => r == ok && reg_write_flag(pre, post, x, wrap8(vx + vy),
                        if vx + vy > 255 { 1u8 } else { 0u8 }),
                0x5 => r == ok && reg_write_flag(pre, post, x, wrap8(vx - vy),
                        if vx >= vy { 1u8 } else { 0u8 }),
                0x6 => r == ok && reg_write_flag(pre, post, x, vx >> 1, vx & 1),
                0x7 => r == ok && reg_write_flag(pre, post, x, wrap8(vy - vx),
                        if vy >= vx { 1u8 } else { 0u8 }),
                0xE => r == ok && reg_write_flag(pre, post, x, wrap8(vx + vx), vx >> 7),
                _ => unknown_op(pre, post, w, r),
            }
        }
        0x9 => {
            if n == 0 {
                r == ok && skip_if(pre, post, vx != vy)
            } else {
                unknown_op(pre, post, w, r)
            }
        }
        0xA => {
            // I <- nnn.
            &&& r == ok
            &&& post.i == nnn
            &&& post.pc == wrap16(pre.pc + 2)
            &&& same_mem(pre, post)
            &&& same_v(pre, post)
            &&& same_gfx(pre, post)
            &&& same_stack(pre, post)
            &&& same_timers(pre, post)
            &&& same_keys(pre, post)
            &&& same_wait(pre, post)
        }
        0xB => {
            // PC <- V0 + nnn.
            &&& r == ok
            &&& post.pc == wrap16(pre.v@[0] + nnn)
            &&& frame_v_pc(pre, post)
            &&& same_v(pre, post)
        }
        0xC => {
            // V[x] <- random byte AND nn; only the mask is promised.
            &&& r == ok
            &&& (exists |rb: u8| post.v@ == pre.v@.update(x, #[trigger] (rb & nn)))
            &&& post.pc == wrap16(pre.pc + 2)
            &&& frame_v_pc(pre, post)
        }
        0xD => {
            // Draw an 8-wide, n-row sprite from memory[I..I+n] at
            // (V[x], V[y]), XOR composition, wrapping at the screen edges;
            // VF reports whether any set pixel was unset.
            let ia = pre.i as int;
            if ia + n > MEMORY_SIZE {
                &&& r == Err::<(), Chip8Error>(Chip8Error::MemoryOutOfRange { opcode: w, pc: pre.pc })
                &&& unchanged(pre, post)
            } else {
                &&& r == ok
                &&& draw_gfx(pre.gfx@, post.gfx@, pre.memory@, ia, vx as int, vy as int, 8 * n)
                &&& post.v@ == pre.v@.update(15,
                        if hits(pre.gfx@, pre.memory@, ia, vx as int, vy as int, 8 * n) { 1u8 } else { 0u8 })
                &&& post.draw_flag == true
                &&& post.pc == wrap16(pre.pc + 2)
                &&& same_mem(pre, post)
                &&& same_stack(pre, post)
                &&& same_i(pre, post)
                &&& same_timers(pre, post)
                &&& same_keys(pre, post)
                &&& same_wait(pre, post)
            }
        }
        0xE => {
            // Skip on the state of key V[x] (low nibble).
            let pressed = pre.keys@[(vx % 16) as int];
            if nn == 0x9E {
                r == ok && skip_if(pre, post, pressed)
            } else if nn == 0xA1 {
                r == ok && skip_if(pre, post, !pressed)
            } else {
                unknown_op(pre, post, w, r)
            }
        }
        0xF => {
            match nn {
                0x07 => r == ok && reg_write(pre, post, x, pre.delay_timer),
                0x0A => {
                    // Suspend until a key press; PC stays on this opcode.
                    &&& r == ok
                    &&& post.wait == KeyWait::Waiting { x: op_x(w) as u8 }
                    &&& post.pc == pre.pc
                    &&& same_mem(pre, post)
                    &&& same_v(pre, post)
                    &&& same_gfx(pre, post)
                    &&& same_stack(pre, post)
                    &&& same_i(pre, post)
                    &&& same_timers(pre, post)
                    &&& same_keys(pre, post)
                }
                0x15 => {
                    &&& r == ok
                    &&& post.delay_timer == vx
                    &&& post.sound_timer == pre.sound_timer
                    &&& post.pc == wrap16(pre.pc + 2)
                    &&& same_mem(pre, post)
                    &&& same_v(pre, post)
                    &&& same_gfx(pre, post)
                    &&& same_stack(pre, post)
                    &&& same_i(pre, post)
                    &&& same_keys(pre, post)
                    &&& same_wait(pre, post)
                }
                0x18 => {
                    &&& r == ok
                    &&& post.sound_timer == vx
                    &&& post.delay_timer == pre.delay_timer
                    &&& post.pc == wrap16(pre.pc + 2)
                    &&& same_mem(pre, post)
                    &&& same_v(pre, post)
                    &&& same_gfx(pre, post)
                    &&& same_stack(pre, post)
                    &&& same_i(pre, post)
                    &&& same_keys(pre, post)
                    &&& same_wait(pre, post)
                }
                0x1E => {
                    // I <- I + V[x], wrapping within 16 bits.
                    &&& r == ok
                    &&& post.i == wrap16(pre.i + vx)
                    &&& post.pc == wrap16(pre.pc + 2)
                    &&& same_mem(pre, post)
                    &&& same_v(pre, post)
                    &&& same_gfx(pre, post)
                    &&& same_stack(pre, post)
                    &&& same_timers(pre, post)
                    &&& same_keys(pre, post)
                    &&& same_wait(pre, post)
                }
                0x29 => {
                    // I <- font glyph address of hex digit V[x].
                    &&& r == ok
                    &&& post.i == FONT_BASE + FONT_GLYPH_SIZE * (vx % 16)
                    &&& post.pc == wrap16(pre.pc + 2)
                    &&& same_mem(pre, post)
                    &&& same_v(pre, post)
                    &&& same_gfx(pre, post)
                    &&& same_stack(pre, post)
                    &&& same_timers(pre, post)
                    &&& same_keys(pre, post)
                    &&& same_wait(pre, post)
                }
                0x33 => {
                    // Binary-coded decimal of V[x] at memory[I..I+3].
                    let ia = pre.i as int;
                    if ia + 3 > MEMORY_SIZE {
                        &&& r == Err::<(), Chip8Error>(Chip8Error::MemoryOutOfRange { opcode: w, pc: pre.pc })
                        &&& unchanged(pre, post)
                    } else {
                        &&& r == ok
                        &&& post.memory@ == pre.memory@
                                .update(ia, (vx / 100) as u8)
                                .update(ia + 1, ((vx / 10) % 10) as u8)
                                .update(ia + 2, (vx % 10) as u8)
                        &&& post.pc == wrap16(pre.pc + 2)
                        &&& same_v(pre, post)
                        &&& same_gfx(pre, post)
                        &&& same_stack(pre, post)
                        &&& same_i(pre, post)
                        &&& same_timers(pre, post)
                        &&& same_keys(pre, post)
                        &&& same_wait(pre, post)
                    }
                }
                0x55 => {
                    // Copy V[0..=x] into memory[I..I+x+1].
                    let ia = pre.i as int;
                    if ia + x + 1 > MEMORY_SIZE {
                        &&& r == Err::<(), Chip8Error>(Chip8Error::MemoryOutOfRange { opcode: w, pc: pre.pc })
                        &&& unchanged(pre, post)
                    } else {
                        &&& r == ok
                        &&& post.memory@.len() == MEMORY_SIZE
                        &&& forall |q: int| 0 <= q <= x ==> post.memory@[ia + q] == pre.v@[q]
                        &&& forall |a: int| 0 <= a < MEMORY_SIZE && !(ia <= a <= ia + x)
                                ==> post.memory@[a] == pre.memory@[a]
                        &&& post.pc == wrap16(pre.pc + 2)
                        &&& same_v(pre, post)
                        &&& same_gfx(pre, post)
                        &&& same_stack(pre, post)
                        &&& same_i(pre, post)
                        &&& same_timers(pre, post)
                        &&& same_keys(pre, post)
                        &&& same_wait(pre, post)
                    }
                }
                0x65 => {
                    // Copy memory[I..I+x+1] into V[0..=x].
                    let ia = pre.i as int;
                    if ia + x + 1 > MEMORY_SIZE {
                        &&& r == Err::<(), Chip8Error>(Chip8Error::MemoryOutOfRange { opcode: w, pc: pre.pc })
                        &&& unchanged(pre, post)
                    } else {
                        &&& r == ok
                        &&& post.v@.len() == NUM_REGS
                        &&& forall |q: int| 0 <= q <= x ==> post.v@[q] == pre.memory@[ia + q]
                        &&& forall |q: int| x < q < NUM_REGS ==> post.v@[q] == pre.v@[q]
                        &&& post.pc == wrap16(pre.pc + 2)
                        &&& same_mem(pre, post)
                        &&& same_gfx(pre, post)
                        &&& same_stack(pre, post)
                        &&& same_i(pre, post)
                        &&& same_timers(pre, post)
                        &&& same_keys(pre, post)
                        &&& same_wait(pre, post)
                    }
                }
                _ => unknown_op(pre, post, w, r),
            }
        }
        _ => false,
    }
}

} // verus!
