//! The instruction engine: execute one decoded instruction word, fetch and
//! step, and the combined update (one step plus one timer tick), each proved
//! to realize the transition relations of `effect` and of this module.

use vstd::prelude::*;
use vstd::pervasive::VecAdditionalExecFns;
use vstd::arithmetic::div_mod::{
    lemma_fundamental_div_mod, lemma_fundamental_div_mod_converse, lemma_mod_bound,
};
use crate::chip8::{
    CHIP8, Chip8Error, KeyWait, MEMORY_SIZE, GFX_SIZE, FONT_BASE, FONT_GLYPH_SIZE,
    same_mem, same_v, same_gfx, same_stack, same_i, same_timers, same_keys, same_wait,
    unchanged, filled_u8,
};
use crate::decode::{
    fam, op_x, op_y, op_n, op_nn, op_nnn, be16, wrap16, lemma_op_fields, add16e, add8e, sub8e,
    be16e,
};
use crate::effect::{op_effect, tgt, sbit, spr, covered, hits};

verus! {

/// Relies on rand::random: one uniformly distributed random byte. Nothing
/// is promised of its value.
#[verifier::external_body]
fn random_byte() -> u8 {
    rand::random::<u8>()
}

/// XOR undoes itself, and the XOR of two bits is a bit.
pub proof fn lemma_xor_cancel(a: u8, b: u8)
    ensures
        (a ^ b) ^ b == a,
        a <= 1 && b <= 1 ==> (a ^ b) <= 1,
{
    assert(((a ^ b) ^ b) == a) by (bit_vector);
    assert(a <= 1 && b <= 1 ==> (a ^ b) <= 1) by (bit_vector);
}

/// A sprite bit is a bit.
proof fn lemma_sbit_le1(b: u8, j: int)
    requires
        0 <= j < 8,
    ensures
        sbit(b, j) <= 1,
{
    let s = (7 - j) as u8;
    assert((b >> s) & 1 <= 1) by (bit_vector);
}

/// Two distinct offsets below the modulus land on distinct residues.
proof fn lemma_mod_ne(base: int, a: int, b: int, m: int)
    requires
        0 < m,
        0 <= a < m,
        0 <= b < m,
        a != b,
    ensures
        (base + a) % m != (base + b) % m,
{
    if a < b {
        lemma_mod_ne_lt(base, a, b, m);
    } else {
        lemma_mod_ne_lt(base, b, a, m);
    }
}

proof fn lemma_mod_ne_lt(base: int, a: int, b: int, m: int)
    requires
        0 < m,
        0 <= a < b < m,
    ensures
        (base + a) % m != (base + b) % m,
{
    lemma_fundamental_div_mod(base + a, m);
    lemma_fundamental_div_mod(base + b, m);
    let q1 = (base + a) / m;
    let q2 = (base + b) / m;
    if (base + a) % m == (base + b) % m {
        assert(m * q2 - m * q1 == m * (q2 - q1)) by (nonlinear_arith);
        assert(b - a == m * (q2 - q1));
        assert(q2 - q1 >= 1 ==> m * (q2 - q1) >= m) by (nonlinear_arith)
            requires 0 < m;
        assert(q2 - q1 <= 0 ==> m * (q2 - q1) <= 0) by (nonlinear_arith)
            requires 0 < m;
        assert(false);
    }
}

/// Every sprite write lands inside the framebuffer.
proof fn lemma_tgt_bound(x0: int, y0: int, t: int)
    requires
        0 <= x0,
        0 <= y0,
        0 <= t,
    ensures
        0 <= tgt(x0, y0, t) < GFX_SIZE,
{
    lemma_mod_bound(y0 + t / 8, 32);
    lemma_mod_bound(x0 + t % 8, 64);
}

/// Distinct sprite writes of one draw land on distinct pixels: the sprite
/// is at most 15 rows tall and 8 pixels wide, so wrapping cannot make two
/// writes coincide.
proof fn lemma_tgt_inj(x0: int, y0: int, t1: int, t2: int)
    requires
        0 <= x0,
        0 <= y0,
        0 <= t1 < 128,
        0 <= t2 < 128,
        t1 != t2,
    ensures
        tgt(x0, y0, t1) != tgt(x0, y0, t2),
{
    lemma_fundamental_div_mod(t1, 8);
    lemma_fundamental_div_mod(t2, 8);
    lemma_mod_bound(t1, 8);
    lemma_mod_bound(t2, 8);
    let i1 = t1 / 8;
    let j1 = t1 % 8;
    let i2 = t2 / 8;
    let j2 = t2 % 8;
    assert(0 <= i1 < 16 && 0 <= i2 < 16);
    lemma_mod_bound(y0 + i1, 32);
    lemma_mod_bound(y0 + i2, 32);
    lemma_mod_bound(x0 + j1, 64);
    lemma_mod_bound(x0 + j2, 64);
    if i1 != i2 {
        lemma_mod_ne(y0, i1, i2, 32);
    } else {
        assert(j1 != j2);
        lemma_mod_ne(x0, j1, j2, 64);
    }
}

/// During a draw, everything except the framebuffer contents stays put and
/// pixels stay bits.
pub open spec fn draw_frame(pre: CHIP8, cur: CHIP8) -> bool {
    &&& cur.memory == pre.memory
    &&& cur.v == pre.v
    &&& cur.stack == pre.stack
    &&& cur.sp == pre.sp
    &&& cur.i == pre.i
    &&& cur.pc == pre.pc
    &&& cur.delay_timer == pre.delay_timer
    &&& cur.sound_timer == pre.sound_timer
    &&& cur.keys == pre.keys
    &&& cur.wait == pre.wait
    &&& cur.draw_flag == pre.draw_flag
    &&& cur.opcode == pre.opcode
    &&& cur.gfx@.len() == GFX_SIZE
    &&& forall |p: int| 0 <= p < GFX_SIZE ==> cur.gfx@[p] <= 1
}

impl CHIP8 {
    /// Execute one instruction word against the current state. The whole
    /// behaviour, family by family, is `op_effect`.
    #[verifier::spinoff_prover]
    #[verifier::rlimit(100)]
    pub fn execute_op(&mut self, w: u16) -> (r: Result<(), Chip8Error>)
        requires
            old(self).wf(),
        ensures
            final(self).wf(),
            op_effect(*old(self), *final(self), w, r),
            final(self).opcode == old(self).opcode,
    {
        proof {
            lemma_op_fields(w);
            assert(w & 0xFF < 256) by (bit_vector);
        }
        let xi: usize = ((w >> 8) & 0xF) as usize;
        let yi: usize = ((w >> 4) & 0xF) as usize;
        let nn: u8 = (w & 0xFF) as u8;
        let nnn: u16 = w & 0xFFF;
        let fam_v: u16 = w >> 12;
        proof {
            assert(xi == op_x(w) as usize);
            assert(yi == op_y(w) as usize);
            assert(nn == op_nn(w));
            assert(nnn == op_nnn(w));
            assert(fam_v == fam(w));
        }
        match fam_v {
            0x0 => {
                if w == 0x00E0 {
                    self.gfx = filled_u8(GFX_SIZE, 0);
                    self.draw_flag = true;
                    self.pc = add16e(self.pc, 2);
                    Ok(())
                } else if w == 0x00EE {
                    if self.sp == 0 {
                        Err(Chip8Error::StackUnderflow { opcode: w, pc: self.pc })
                    } else {
                        self.pc = self.stack[(self.sp - 1) as usize];
                        self.sp = self.sp - 1;
                        Ok(())
                    }
                } else {
                    Err(Chip8Error::UnknownOpcode { opcode: w, pc: self.pc })
                }
            }
            0x1 => {
                self.pc = nnn;
                Ok(())
            }
            0x2 => {
                if self.sp == 16 {
                    Err(Chip8Error::StackOverflow { opcode: w, pc: self.pc })
                } else {
                    let ret = add16e(self.pc, 2);
                    self.stack.set(self.sp as usize, ret);
                    self.sp = self.sp + 1;
                    self.pc = nnn;
                    Ok(())
                }
            }
            0x3 => {
                let cond = self.v[xi] == nn;
                self.pc = add16e(self.pc, if cond { 4 } else { 2 });
                Ok(())
            }
            0x4 => {
                let cond = self.v[xi] != nn;
                self.pc = add16e(self.pc, if cond { 4 } else { 2 });
                Ok(())
            }
            0x5 => {
                if w & 0xF == 0 {
                    let cond = self.v[xi] == self.v[yi];
                    self.pc = add16e(self.pc, if cond { 4 } else { 2 });
                    Ok(())
                } else {
                    Err(Chip8Error::UnknownOpcode { opcode: w, pc: self.pc })
                }
            }
            0x6 => {
                self.v.set(xi, nn);
                self.pc = add16e(self.pc, 2);
                Ok(())
            }
            0x7 => {
                let sum = add8e(self.v[xi], nn);
                self.v.set(xi, sum);
                self.pc = add16e(self.pc, 2);
                Ok(())
            }
            0x8 => {
                let vx = self.v[xi];
                let vy = self.v[yi];
                match w & 0xF {
                    0x0 => {
                        self.v.set(xi, vy);
                        self.pc = add16e(self.pc, 2);
                        Ok(())
                    }
                    0x1 => {
                        self.v.set(xi, vx | vy);
                        self.pc = add16e(self.pc, 2);
                        Ok(())
                    }
                    0x2 => {
                        self.v.set(xi, vx & vy);
                        self.pc = add16e(self.pc, 2);
                        Ok(())
                    }
                    0x3 => {
                        self.v.set(xi, vx ^ vy);
                        self.pc = add16e(self.pc, 2);
                        Ok(())
                    }
                    0x4 => {
                        let carry: u8 = if (vx as u16) + (vy as u16) > 255 { 1 } else { 0 };
                        let sum = add8e(vx, vy);
                        self.v.set(xi, sum);
                        self.v.set(15, carry);
                        self.pc = add16e(self.pc, 2);
                        Ok(())
                    }
                    0x5 => {
                        let no_borrow: u8 = if vx >= vy { 1 } else { 0 };
                        let diff = sub8e(vx, vy);
                        self.v.set(xi, diff);
                        self.v.set(15, no_borrow);
                        self.pc = add16e(self.pc, 2);
                        Ok(())
                    }
                    0x6 => {
                        self.v.set(xi, vx >> 1u8);
                        self.v.set(15, vx & 1);
                        self.pc = add16e(self.pc, 2);
                        Ok(())
                    }
                    0x7 => {
                        let no_borrow: u8 = if vy >= vx { 1 } else { 0 };
                        let diff = sub8e(vy, vx);
                        self.v.set(xi, diff);
                        self.v.set(15, no_borrow);
                        self.pc = add16e(self.pc, 2);
                        Ok(())
                    }
                    0xE => {
                        let msb: u8 = vx >> 7u8;
                        let doubled = add8e(vx, vx);
                        self.v.set(xi, doubled);
                        self.v.set(15, msb);
                        self.pc = add16e(self.pc, 2);
                        Ok(())
                    }
                    _ => Err(Chip8Error::UnknownOpcode { opcode: w, pc: self.pc }),
                }
            }
            0x9 => {
                if w & 0xF == 0 {
                    let cond = self.v[xi] != self.v[yi];
                    self.pc = add16e(self.pc, if cond { 4 } else { 2 });
                    Ok(())
                } else {
                    Err(Chip8Error::UnknownOpcode { opcode: w, pc: self.pc })
                }
            }
            0xA => {
                self.i = nnn;
                self.pc = add16e(self.pc, 2);
                Ok(())
            }
            0xB => {
                self.pc = add16e(self.v[0] as u16, nnn);
                Ok(())
            }
            0xC => {
                let rb = random_byte();
                self.v.set(xi, rb & nn);
                self.pc = add16e(self.pc, 2);
                proof {
                    assert(self.v@ == old(self).v@.update(op_x(w) as int, rb & nn));
                }
                Ok(())
            }
            0xD => self.op_draw(w),
            0xE => {
                let key_idx: usize = (self.v[xi] % 16) as usize;
                let pressed = self.keys[key_idx];
                if nn == 0x9E {
                    self.pc = add16e(self.pc, if pressed { 4 } else { 2 });
                    Ok(())
                } else if nn == 0xA1 {
                    self.pc = add16e(self.pc, if pressed { 2 } else { 4 });
                    Ok(())
                } else {
                    Err(Chip8Error::UnknownOpcode { opcode: w, pc: self.pc })
                }
            }
            0xF => {
                match nn {
                    0x07 => {
                        self.v.set(xi, self.delay_timer);
                        self.pc = add16e(self.pc, 2);
                        Ok(())
                    }
                    0x0A => {
                        self.wait = KeyWait::Waiting { x: xi as u8 };
                        Ok(())
                    }
                    0x15 => {
                        self.delay_timer = self.v[xi];
                        self.pc = add16e(self.pc, 2);
                        Ok(())
                    }
                    0x18 => {
                        self.sound_timer = self.v[xi];
                        self.pc = add16e(self.pc, 2);
                        Ok(())
                    }
                    0x1E => {
                        self.i = add16e(self.i, self.v[xi] as u16);
                        self.pc = add16e(self.pc, 2);
                        Ok(())
                    }
                    0x29 => {
                        let digit: u16 = (self.v[xi] % 16) as u16;
                        self.i = FONT_BASE + FONT_GLYPH_SIZE * digit;
                        self.pc = add16e(self.pc, 2);
                        Ok(())
                    }
                    0x33 => {
                        let ia = self.i as usize;
                        if ia + 3 > MEMORY_SIZE {
                            Err(Chip8Error::MemoryOutOfRange { opcode: w, pc: self.pc })
                        } else {
                            let vx = self.v[xi];
                            self.memory.set(ia, vx / 100);
                            self.memory.set(ia + 1, (vx / 10) % 10);
                            self.memory.set(ia + 2, vx % 10);
                            self.pc = add16e(self.pc, 2);
                            Ok(())
                        }
                    }
                    0x55 => self.op_store_regs(w),
                    0x65 => self.op_load_regs(w),
                    _ => Err(Chip8Error::UnknownOpcode { opcode: w, pc: self.pc }),
                }
            }
            _ => {
                proof {
                    assert(false);
                }
                Err(Chip8Error::UnknownOpcode { opcode: w, pc: self.pc })
            }
        }
    }

    /// The draw opcode `Dxyn`: XOR-blit an 8-wide, n-row sprite read from
    /// memory at I onto the framebuffer at (V[x], V[y]), wrapping at both
    /// screen edges, and report a collision in VF.
    #[verifier::loop_isolation(false)]
    #[verifier::rlimit(60)]
    fn op_draw(&mut self, w: u16) -> (r: Result<(), Chip8Error>)
        requires
            old(self).wf(),
            fam(w) == 0xD,
        ensures
            final(self).wf(),
            op_effect(*old(self), *final(self), w, r),
            final(self).opcode == old(self).opcode,
    {
        proof {
            lemma_op_fields(w);
        }
        let xi: usize = ((w >> 8) & 0xF) as usize;
        let yi: usize = ((w >> 4) & 0xF) as usize;
        let n: usize = (w & 0xF) as usize;
        let ia: usize = self.i as usize;
        if ia + n > MEMORY_SIZE {
            return Err(Chip8Error::MemoryOutOfRange { opcode: w, pc: self.pc });
        }
        let x0: usize = self.v[xi] as usize;
        let y0: usize = self.v[yi] as usize;
        let ghost x0i: int = x0 as int;
        let ghost y0i: int = y0 as int;
        let ghost iai: int = ia as int;
        let ghost g0: Seq<u8> = self.gfx@;
        let ghost mem0: Seq<u8> = self.memory@;
        let mut vf: u8 = 0;
        let mut row: usize = 0;
        while row < n
            invariant
                draw_frame(*old(self), *self),
                old(self).wf(),
                row <= n,
                n < 16,
                ia + n <= MEMORY_SIZE,
                ia == old(self).i as usize,
                g0 == old(self).gfx@,
                mem0 == old(self).memory@,
                vf <= 1,
                forall |t: int| 0 <= t < 8 * row ==>
                    self.gfx@[#[trigger] tgt(x0i, y0i, t)] == g0[tgt(x0i, y0i, t)] ^ spr(mem0, iai, t),
                forall |p: int| 0 <= p < GFX_SIZE && !covered(x0i, y0i, 8 * row, p)
                    ==> self.gfx@[p] == g0[p],
                vf == 1 <==> hits(g0, mem0, iai, x0i, y0i, 8 * row),
            decreases n - row,
        {
            let byte: u8 = self.memory[ia + row];
            let mut jj: usize = 0;
            while jj < 8
                invariant
                    draw_frame(*old(self), *self),
                    old(self).wf(),
                    jj <= 8,
                    row < n,
                    n < 16,
                    ia + n <= MEMORY_SIZE,
                    ia == old(self).i as usize,
                    g0 == old(self).gfx@,
                    mem0 == old(self).memory@,
                    byte == mem0[iai + row],
                    vf <= 1,
                    forall |t: int| 0 <= t < 8 * row + jj ==>
                        self.gfx@[#[trigger] tgt(x0i, y0i, t)] == g0[tgt(x0i, y0i, t)] ^ spr(mem0, iai, t),
                    forall |p: int| 0 <= p < GFX_SIZE && !covered(x0i, y0i, 8 * row + jj, p)
                        ==> self.gfx@[p] == g0[p],
                    vf == 1 <==> hits(g0, mem0, iai, x0i, y0i, 8 * row + jj),
                decreases 8 - jj,
            {
                let sh_amt: u8 = (7 - jj) as u8;
                let bit: u8 = (byte >> sh_amt) & 1;
                let rr: usize = (y0 + row) % 32;
                let cc: usize = (x0 + jj) % 64;
                let idx: usize = rr * 64 + cc;
                let ghost k: int = 8 * (row as int) + (jj as int);
                proof {
                    lemma_fundamental_div_mod_converse(k, 8, row as int, jj as int);
                    assert(idx == tgt(x0i, y0i, k));
                    assert(bit == spr(mem0, iai, k));
                    lemma_sbit_le1(mem0[iai + k / 8], k % 8);
                    lemma_tgt_bound(x0i, y0i, k);
                    if covered(x0i, y0i, k, idx as int) {
                        let t = choose |t: int| 0 <= t < k && idx as int == tgt(x0i, y0i, t);
                        lemma_tgt_inj(x0i, y0i, t, k);
                        assert(false);
                    }
                    assert(self.gfx@[idx as int] == g0[idx as int]);
                }
                let px: u8 = self.gfx[idx];
                if px == 1 && bit == 1 {
                    vf = 1;
                }
                self.gfx.set(idx, px ^ bit);
                proof {
                    lemma_xor_cancel(px, bit);
                    assert forall |t: int| 0 <= t < k + 1 implies
                        self.gfx@[#[trigger] tgt(x0i, y0i, t)] == g0[tgt(x0i, y0i, t)] ^ spr(mem0, iai, t)
                    by {
                        if t < k {
                            lemma_tgt_inj(x0i, y0i, t, k);
                            lemma_tgt_bound(x0i, y0i, t);
                        }
                    }
                    assert forall |p: int| 0 <= p < GFX_SIZE && !covered(x0i, y0i, k + 1, p) implies
                        self.gfx@[p] == g0[p]
                    by {
                        assert(!covered(x0i, y0i, k, p)) by {
                            if covered(x0i, y0i, k, p) {
                                let t = choose |t: int| 0 <= t < k && p == tgt(x0i, y0i, t);
                                assert(0 <= t < k + 1 && p == tgt(x0i, y0i, t));
                                assert(covered(x0i, y0i, k + 1, p));
                            }
                        }
                        assert(p != idx as int) by {
                            if p == idx as int {
                                assert(0 <= k < k + 1 && p == tgt(x0i, y0i, k));
                                assert(covered(x0i, y0i, k + 1, p));
                            }
                        }
                    }
                    if px == 1 && bit == 1 {
                        assert(g0[tgt(x0i, y0i, k)] == 1 && spr(mem0, iai, k) == 1);
                        assert(hits(g0, mem0, iai, x0i, y0i, k + 1));
                    } else {
                        assert(vf == 1 <==> hits(g0, mem0, iai, x0i, y0i, k + 1)) by {
                            if hits(g0, mem0, iai, x0i, y0i, k + 1) {
                                let t = choose |t: int| 0 <= t < k + 1
                                    && g0[#[trigger] tgt(x0i, y0i, t)] == 1 && spr(mem0, iai, t) == 1;
                                if t == k {
                                    assert(false);
                                } else {
                                    assert(hits(g0, mem0, iai, x0i, y0i, k));
                                }
                            }
                            if hits(g0, mem0, iai, x0i, y0i, k) {
                                let t = choose |t: int| 0 <= t < k
                                    && g0[#[trigger] tgt(x0i, y0i, t)] == 1 && spr(mem0, iai, t) == 1;
                                assert(0 <= t < k + 1 && g0[tgt(x0i, y0i, t)] == 1
                                    && spr(mem0, iai, t) == 1);
                                assert(hits(g0, mem0, iai, x0i, y0i, k + 1));
                            }
                        }
                    }
                }
                jj += 1;
            }
            row += 1;
        }
        self.v.set(15, vf);
        self.pc = add16e(self.pc, 2);
        self.draw_flag = true;
        proof {
            assert(self.v@ == old(self).v@.update(15,
                if hits(g0, mem0, iai, x0i, y0i, 8 * op_n(w) as int) { 1u8 } else { 0u8 }));
        }
        Ok(())
    }

    /// The `Fx55` opcode: copy V[0..=x] into memory at I.
    #[verifier::loop_isolation(false)]
    fn op_store_regs(&mut self, w: u16) -> (r: Result<(), Chip8Error>)
        requires
            old(self).wf(),
            fam(w) == 0xF,
            op_nn(w) == 0x55,
        ensures
            final(self).wf(),
            op_effect(*old(self), *final(self), w, r),
            final(self).opcode == old(self).opcode,
    {
        proof {
            lemma_op_fields(w);
        }
        let xi: usize = ((w >> 8) & 0xF) as usize;
        let ia: usize = self.i as usize;
        if ia + xi + 1 > MEMORY_SIZE {
            return Err(Chip8Error::MemoryOutOfRange { opcode: w, pc: self.pc });
        }
        let mut q: usize = 0;
        while q < xi + 1
            invariant
                q <= xi + 1,
                xi < 16,
                ia + xi + 1 <= MEMORY_SIZE,
                self.memory@.len() == MEMORY_SIZE,
                forall |u: int| 0 <= u < q ==> self.memory@[ia + u] == old(self).v@[u],
                forall |a: int| 0 <= a < MEMORY_SIZE && !(ia <= a < ia + q)
                    ==> self.memory@[a] == old(self).memory@[a],
                self.v == old(self).v,
                old(self).wf(),
                self.gfx == old(self).gfx,
                self.stack == old(self).stack,
                self.sp == old(self).sp,
                self.i == old(self).i,
                self.pc == old(self).pc,
                self.delay_timer == old(self).delay_timer,
                self.sound_timer == old(self).sound_timer,
                self.keys == old(self).keys,
                self.wait == old(self).wait,
                self.draw_flag == old(self).draw_flag,
                self.opcode == old(self).opcode,
                ia == old(self).i as usize,
            decreases xi + 1 - q,
        {
            self.memory.set(ia + q, self.v[q]);
            q += 1;
        }
        self.pc = add16e(self.pc, 2);
        Ok(())
    }

    /// The `Fx65` opcode: copy memory at I into V[0..=x].
    #[verifier::loop_isolation(false)]
    fn op_load_regs(&mut self, w: u16) -> (r: Result<(), Chip8Error>)
        requires
            old(self).wf(),
            fam(w) == 0xF,
            op_nn(w) == 0x65,
        ensures
            final(self).wf(),
            op_effect(*old(self), *final(self), w, r),
            final(self).opcode == old(self).opcode,
    {
        proof {
            lemma_op_fields(w);
        }
        let xi: usize = ((w >> 8) & 0xF) as usize;
        let ia: usize = self.i as usize;
        if ia + xi + 1 > MEMORY_SIZE {
            return Err(Chip8Error::MemoryOutOfRange { opcode: w, pc: self.pc });
        }
        let mut q: usize = 0;
        while q < xi + 1
            invariant
                q <= xi + 1,
                xi < 16,
                ia + xi + 1 <= MEMORY_SIZE,
                self.v@.len() == 16,
                forall |u: int| 0 <= u < q ==> self.v@[u] == old(self).memory@[ia + u],
                forall |u: int| q <= u < 16 ==> self.v@[u] == old(self).v@[u],
                self.memory == old(self).memory,
                old(self).wf(),
                self.gfx == old(self).gfx,
                self.stack == old(self).stack,
                self.sp == old(self).sp,
                self.i == old(self).i,
                self.pc == old(self).pc,
                self.delay_timer == old(self).delay_timer,
                self.sound_timer == old(self).sound_timer,
                self.keys == old(self).keys,
                self.wait == old(self).wait,
                self.draw_flag == old(self).draw_flag,
                self.opcode == old(self).opcode,
                ia == old(self).i as usize,
            decreases xi + 1 - q,
        {
            let b = self.memory[ia + q];
            self.v.set(q, b);
            q += 1;
        }
        self.pc = add16e(self.pc, 2);
        Ok(())
    }
}

/// The transition of one `step` call: a pending wait suspends execution, a
/// captured key is delivered into its register, and otherwise one
/// instruction is fetched big-endian at PC and executed.
pub open spec fn step_effect(pre: CHIP8, post: CHIP8, r: Result<(), Chip8Error>) -> bool {
    match pre.wait {
        KeyWait::Waiting { x } => {
            &&& r == Ok::<(), Chip8Error>(())
            &&& unchanged(pre, post)
            &&& post.opcode == pre.opcode
        }
        KeyWait::Captured { x, key } => {
            &&& r == Ok::<(), Chip8Error>(())
            &&& post.v@ == pre.v@.update(x as int, key)
            &&& post.pc == wrap16(pre.pc + 2)
            &&& post.wait == KeyWait::Idle
            &&& same_mem(pre, post)
            &&& same_gfx(pre, post)
            &&& same_stack(pre, post)
            &&& same_i(pre, post)
            &&& same_timers(pre, post)
            &&& same_keys(pre, post)
            &&& post.opcode == pre.opcode
        }
        KeyWait::Idle => {
            if pre.pc as int + 1 >= MEMORY_SIZE {
                &&& r == Err::<(), Chip8Error>(Chip8Error::MemoryOutOfRange { opcode: 0, pc: pre.pc })
                &&& unchanged(pre, post)
                &&& post.opcode == pre.opcode
            } else {
                let w = be16(pre.memory@[pre.pc as int], pre.memory@[pre.pc as int + 1]);
                &&& post.opcode == w
                &&& op_effect(pre, post, w, r)
            }
        }
    }
}

/// The transition of one `update` call: one `step`, then one timer tick.
/// The timers tick even when the step reports an error; the beep signal is
/// returned on success.
pub open spec fn update_effect(pre: CHIP8, post: CHIP8, r: Result<bool, Chip8Error>) -> bool {
    exists |mid: CHIP8, beep: bool| {
        &&& #[trigger] tick_effect_at(mid, post, beep)
        &&& match r {
            Ok(b) => step_effect(pre, mid, Ok(())) && b == beep,
            Err(e) => step_effect(pre, mid, Err(e)),
        }
    }
}

/// The timer-tick transition, restated here so `update_effect` has a
/// trigger of its own.
pub open spec fn tick_effect_at(pre: CHIP8, post: CHIP8, beep: bool) -> bool {
    crate::chip8::tick_effect(pre, post, beep)
}

impl CHIP8 {
    /// One fetch-decode-execute cycle, honouring the key-wait latch.
    pub fn step(&mut self) -> (r: Result<(), Chip8Error>)
        requires
            old(self).wf(),
        ensures
            final(self).wf(),
            step_effect(*old(self), *final(self), r),
    {
        match self.wait {
            KeyWait::Waiting { .. } => Ok(()),
            KeyWait::Captured { x, key } => {
                self.v.set(x as usize, key);
                self.pc = add16e(self.pc, 2);
                self.wait = KeyWait::Idle;
                Ok(())
            }
            KeyWait::Idle => {
                let pc_us = self.pc as usize;
                if pc_us + 1 >= MEMORY_SIZE {
                    return Err(Chip8Error::MemoryOutOfRange { opcode: 0, pc: self.pc });
                }
                let hi = self.memory[pc_us];
                let lo = self.memory[pc_us + 1];
                let w = be16e(hi, lo);
                self.opcode = w;
                self.execute_op(w)
            }
        }
    }

    /// One step followed by one timer tick, the unit a host drives when it
    /// ties the two rates together; returns the beep signal, or the step's
    /// error after the timers have still ticked.
    pub fn update(&mut self) -> (r: Result<bool, Chip8Error>)
        requires
            old(self).wf(),
        ensures
            final(self).wf(),
            update_effect(*old(self), *final(self), r),
    {
        let step_r = self.step();
        let ghost mid = *self;
        let beep = self.tick_timers();
        proof {
            assert(tick_effect_at(mid, *self, beep));
        }
        match step_r {
            Ok(()) => Ok(beep),
            Err(e) => Err(e),
        }
    }
}

} // verus!
