//! General laws of the interpreter, proved from the transition relations
//! alone: register-set exactness, XOR-draw involution and its collision
//! flag, the subroutine round trip and its overflow guard, timer and beep
//! behaviour, and the key-wait protocol.

use vstd::prelude::*;
use crate::chip8::{CHIP8, Chip8Error, KeyWait, tick_effect, unchanged};
use crate::decode::{fam, op_x, op_y, op_n, op_nn, wrap16, lemma_op_fields};
use crate::effect::{op_effect, covered, tgt, spr, hits};
use crate::exec::{step_effect, lemma_xor_cancel};

verus! {

/// For every valid register index and byte value, executing `6xnn` leaves
/// exactly `nn` in V[x] and advances PC by 2; it never fails.
pub proof fn lemma_set_register(pre: CHIP8, post: CHIP8, w: u16, r: Result<(), Chip8Error>)
    requires
        pre.wf(),
        fam(w) == 0x6,
        op_effect(pre, post, w, r),
    ensures
        r == Ok::<(), Chip8Error>(()),
        post.v@[op_x(w) as int] == op_nn(w),
        forall |q: int| 0 <= q < 16 && q != op_x(w) as int ==> post.v@[q] == pre.v@[q],
        post.pc == wrap16(pre.pc + 2),
{
    lemma_op_fields(w);
}

/// After a successful draw, VF is 0 exactly when no XOR collision
/// occurred: no write of this sprite unset a previously set pixel.
pub proof fn lemma_draw_collision_flag(pre: CHIP8, post: CHIP8, w: u16)
    requires
        pre.wf(),
        fam(w) == 0xD,
        op_effect(pre, post, w, Ok(())),
    ensures
        post.v@[15] == 0 <==> !hits(pre.gfx@, pre.memory@, pre.i as int,
            pre.v@[op_x(w) as int] as int, pre.v@[op_y(w) as int] as int, 8 * op_n(w)),
        post.v@[15] == 0 || post.v@[15] == 1,
{
    lemma_op_fields(w);
}

/// Drawing the identical sprite at the identical position twice restores
/// the framebuffer exactly (XOR is an involution), and the second draw's
/// VF is the collision result of that undraw. The hypothesis keeps VF out
/// of the coordinate registers, since the first draw overwrites VF.
pub proof fn lemma_draw_twice_restores(s0: CHIP8, s1: CHIP8, s2: CHIP8, w: u16)
    requires
        s0.wf(),
        fam(w) == 0xD,
        op_x(w) != 15,
        op_y(w) != 15,
        op_effect(s0, s1, w, Ok(())),
        op_effect(s1, s2, w, Ok(())),
    ensures
        s2.gfx@ == s0.gfx@,
        s2.v@[15] == 1 <==> hits(s1.gfx@, s0.memory@, s0.i as int,
            s0.v@[op_x(w) as int] as int, s0.v@[op_y(w) as int] as int, 8 * op_n(w)),
{
    lemma_op_fields(w);
    let x = op_x(w) as int;
    let y = op_y(w) as int;
    let x0 = s0.v@[x] as int;
    let y0 = s0.v@[y] as int;
    let ia = s0.i as int;
    let k = 8 * op_n(w) as int;
    assert(s1.v@[x] == s0.v@[x]);
    assert(s1.v@[y] == s0.v@[y]);
    assert(s1.i == s0.i);
    assert(s1.memory@ == s0.memory@);
    assert forall |p: int| 0 <= p < s0.gfx@.len() implies s2.gfx@[p] == s0.gfx@[p] by {
        if covered(x0, y0, k, p) {
            let t = choose |t: int| 0 <= t < k && p == #[trigger] tgt(x0, y0, t);
            assert(s1.gfx@[tgt(x0, y0, t)] == s0.gfx@[tgt(x0, y0, t)] ^ spr(s0.memory@, ia, t));
            assert(s2.gfx@[tgt(x0, y0, t)] == s1.gfx@[tgt(x0, y0, t)] ^ spr(s1.memory@, ia, t));
            lemma_xor_cancel(s0.gfx@[tgt(x0, y0, t)], spr(s0.memory@, ia, t));
        }
    }
    assert(s2.gfx@ =~= s0.gfx@);
}

/// The subroutine round trip: a call `2nnn` followed by a return `00EE`
/// brings PC to the call's address plus 2, restores the stack depth, and
/// touches neither registers nor memory. It holds at every depth at which
/// the call succeeds.
pub proof fn lemma_call_return(s0: CHIP8, s1: CHIP8, s2: CHIP8, w: u16)
    requires
        s0.wf(),
        fam(w) == 0x2,
        op_effect(s0, s1, w, Ok(())),
        op_effect(s1, s2, 0x00EE, Ok(())),
    ensures
        s2.pc == wrap16(s0.pc + 2),
        s2.sp == s0.sp,
        s2.v@ == s0.v@,
        s2.memory@ == s0.memory@,
        s2.gfx@ == s0.gfx@,
{
    lemma_op_fields(w);
    assert(0x00EEu16 >> 12 == 0) by (bit_vector);
    assert(s0.sp < 16);
    assert(s1.stack@[s0.sp as int] == wrap16(s0.pc + 2));
}

/// The seventeenth nested call: with the stack already full, `2nnn`
/// reports a stack overflow naming the opcode and PC, and corrupts
/// nothing — the sixteen stored return addresses are untouched.
pub proof fn lemma_call_overflow(s0: CHIP8, s1: CHIP8, w: u16, r: Result<(), Chip8Error>)
    requires
        s0.wf(),
        fam(w) == 0x2,
        s0.sp == 16,
        op_effect(s0, s1, w, r),
    ensures
        r == Err::<(), Chip8Error>(Chip8Error::StackOverflow { opcode: w, pc: s0.pc }),
        s1.stack@ == s0.stack@,
        s1.sp == s0.sp,
        unchanged(s0, s1),
{
}

/// A return with the stack empty reports a stack underflow and changes
/// nothing.
pub proof fn lemma_return_underflow(s0: CHIP8, s1: CHIP8, r: Result<(), Chip8Error>)
    requires
        s0.wf(),
        s0.sp == 0,
        op_effect(s0, s1, 0x00EE, r),
    ensures
        r == Err::<(), Chip8Error>(Chip8Error::StackUnderflow { opcode: 0x00EE, pc: s0.pc }),
        unchanged(s0, s1),
{
    assert(0x00EEu16 >> 12 == 0) by (bit_vector);
}

/// Timer monotonicity over two consecutive ticks: each tick lowers a
/// nonzero timer by exactly one and never drives it below zero, and the
/// beep fires on the sound timer's 1 -> 0 transition only — so never on
/// two consecutive ticks.
pub proof fn lemma_timer_monotone(s0: CHIP8, s1: CHIP8, s2: CHIP8, b1: bool, b2: bool)
    requires
        tick_effect(s0, s1, b1),
        tick_effect(s1, s2, b2),
    ensures
        s0.delay_timer > 0 ==> s1.delay_timer == s0.delay_timer - 1,
        s0.delay_timer == 0 ==> s1.delay_timer == 0,
        s0.sound_timer > 0 ==> s1.sound_timer == s0.sound_timer - 1,
        s0.sound_timer == 0 ==> s1.sound_timer == 0,
        b1 <==> s0.sound_timer == 1,
        !(b1 && b2),
{
}

/// While a key wait is pending, a step is a no-op: PC, the registers and
/// the wait latch are all left exactly as they were.
pub proof fn lemma_wait_suspends(pre: CHIP8, post: CHIP8, r: Result<(), Chip8Error>)
    requires
        pre.wf(),
        pre.wait matches KeyWait::Waiting { .. },
        step_effect(pre, post, r),
    ensures
        r == Ok::<(), Chip8Error>(()),
        post.pc == pre.pc,
        post.v@ == pre.v@,
        post.wait == pre.wait,
        post.gfx@ == pre.gfx@,
        post.memory@ == pre.memory@,
{
}

/// Once a key press has been captured, the next step delivers it: V[x]
/// becomes the pressed key's index, PC advances by 2, and the machine
/// resumes normal execution.
pub proof fn lemma_key_delivery(pre: CHIP8, post: CHIP8, x: u8, key: u8, r: Result<(), Chip8Error>)
    requires
        pre.wf(),
        pre.wait == (KeyWait::Captured { x, key }),
        step_effect(pre, post, r),
    ensures
        r == Ok::<(), Chip8Error>(()),
        post.v@[x as int] == key,
        forall |q: int| 0 <= q < 16 && q != x as int ==> post.v@[q] == pre.v@[q],
        post.pc == wrap16(pre.pc + 2),
        post.wait == KeyWait::Idle,
{
}

} // verus!

