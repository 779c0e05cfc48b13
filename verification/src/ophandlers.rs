//! The instruction handlers: one method per recognized instruction, each
//! proved against its arm of `instr_rel`.

use vstd::prelude::*;

verus! {

use crate::state::{EmuView, EmuError};
use crate::state::{RAM_SIZE, NUM_KEYS, STACK_SIZE, SCREEN_WIDTH, SCREEN_HEIGHT, SCREEN_CELLS};
use crate::decode::{Instr, op_nn, op_nnn, lemma_op_field_bounds};
use crate::semantics::{
    instr_rel, set_reg, set_reg_flag, skip_if, bool_flag, sprite_row_bit, draw_target, draw_covers,
    draw_screen, draw_collision, draw_pair_before, draw_covers_upto, draw_collision_upto,
    lemma_draw_row_roll, lemma_collision_row_roll, lemma_draw_covers_full,
    lemma_draw_collision_full, lemma_draw_target_inj, lemma_draw_target_bounds, any_pressed,
    first_pressed, lemma_first_pressed_found, lemma_rand_intro,
};
use crate::emu::{Emu, filled};

/// The lowest pressed key index, or nothing when no key is pressed.
fn first_pressed_key(keys: &Vec<bool>) -> (r: Option<u8>)
    requires
        keys@.len() == NUM_KEYS,
    ensures
        any_pressed(keys@) ==> r == Some(first_pressed(keys@) as u8),
        !any_pressed(keys@) ==> r == Option::<u8>::None,
{
    let mut i: usize = 0;
    while i < NUM_KEYS
        invariant
            i <= NUM_KEYS,
            keys@.len() == NUM_KEYS,
            forall|j: int| 0 <= j < i ==> !keys@[j],
        decreases NUM_KEYS - i,
    {
        if keys[i] {
            proof {
                lemma_first_pressed_found(keys@, i as int);
            }
            return Some(i as u8);
        }
        i = i + 1;
    }
    proof {
        assert(!any_pressed(keys@));
    }
    None
}

impl Emu {
    /// 00E0: set every screen cell dark.
    pub fn clear_screen(&mut self)
        requires
            old(self).wf(),
        ensures
            final(self).wf(),
            instr_rel(old(self)@, Instr::Cls, final(self)@, Ok(())),
    {
        self.screen = filled(SCREEN_CELLS, false);
        proof {
            assert(self@ =~= (EmuView { screen: crate::state::blank_screen(), ..old(self)@ }));
        }
    }

    /// 00EE: pop a return address off the stack into the program counter.
    /// Popping an empty stack is the fatal underflow error.
    pub fn ret(&mut self) -> (r: Result<(), EmuError>)
        requires
            old(self).wf(),
        ensures
            final(self).wf(),
            instr_rel(old(self)@, Instr::Ret, final(self)@, r),
    {
        if self.sp == 0 {
            return Err(EmuError::StackUnderflow);
        }
        let addr: u16 = self.pop();
        self.pc = addr;
        proof {
            assert(self@ =~= (EmuView {
                pc: old(self)@.stack[old(self)@.sp - 1],
                sp: (old(self)@.sp - 1) as u16,
                ..old(self)@
            }));
        }
        Ok(())
    }

    /// 1NNN: jump to the absolute address in the low 12 bits of the word.
    pub fn jmp(&mut self, op: u16)
        requires
            old(self).wf(),
        ensures
            final(self).wf(),
            instr_rel(old(self)@, Instr::Jmp { nnn: op_nnn(op) }, final(self)@, Ok(())),
    {
        self.pc = op & 0x0FFF;
        proof {
            assert(self@ =~= (EmuView { pc: op_nnn(op), ..old(self)@ }));
        }
    }

    /// 2NNN: push the program counter, then jump. Pushing onto a full stack
    /// is the fatal overflow error.
    pub fn call(&mut self, op: u16) -> (r: Result<(), EmuError>)
        requires
            old(self).wf(),
        ensures
            final(self).wf(),
            instr_rel(old(self)@, Instr::Call { nnn: op_nnn(op) }, final(self)@, r),
    {
        if self.sp as usize >= STACK_SIZE {
            return Err(EmuError::StackOverflow);
        }
        let pc: u16 = self.pc;
        self.push(pc);
        self.pc = op & 0x0FFF;
        proof {
            assert(self@ =~= (EmuView {
                stack: old(self)@.stack.update(old(self)@.sp as int, old(self)@.pc),
                sp: (old(self)@.sp + 1) as u16,
                pc: op_nnn(op),
                ..old(self)@
            }));
        }
        Ok(())
    }

    /// 3XNN: skip the next instruction word if register X equals NN.
    pub fn skip_vx_eq_nn(&mut self, op: u16)
        requires
            old(self).wf(),
            old(self)@.pc + 2 <= u16::MAX,
        ensures
            final(self).wf(),
            instr_rel(
                old(self)@,
                Instr::SkipEqNn { x: old(self).d2 as u8, nn: op_nn(op) },
                final(self)@,
                Ok(()),
            ),
    {
        let x: usize = self.d2 as usize;
        let nn: u8 = (op & 0x00FF) as u8;
        if self.v_reg[x] == nn {
            self.pc = self.pc + 2;
        }
        proof {
            assert(self@ =~= skip_if(old(self)@, old(self)@.v_reg[x as int] == nn));
        }
    }

    /// 4XNN: skip the next instruction word if register X differs from NN.
    pub fn skip_vx_neq_nn(&mut self, op: u16)
        requires
            old(self).wf(),
            old(self)@.pc + 2 <= u16::MAX,
        ensures
            final(self).wf(),
            instr_rel(
                old(self)@,
                Instr::SkipNeNn { x: old(self).d2 as u8, nn: op_nn(op) },
                final(self)@,
                Ok(()),
            ),
    {
        let x: usize = self.d2 as usize;
        let nn: u8 = (op & 0x00FF) as u8;
        if self.v_reg[x] != nn {
            self.pc = self.pc + 2;
        }
        proof {
            assert(self@ =~= skip_if(old(self)@, old(self)@.v_reg[x as int] != nn));
        }
    }

    /// 5XY0: skip the next instruction word if registers X and Y are equal.
    pub fn skip_vx_eq_vy(&mut self)
        requires
            old(self).wf(),
            old(self)@.pc + 2 <= u16::MAX,
        ensures
            final(self).wf(),
            instr_rel(
                old(self)@,
                Instr::SkipEqReg { x: old(self).d2 as u8, y: old(self).d3 as u8 },
                final(self)@,
                Ok(()),
            ),
    {
        let x: usize = self.d2 as usize;
        let y: usize = self.d3 as usize;
        if self.v_reg[x] == self.v_reg[y] {
            self.pc = self.pc + 2;
        }
        proof {
            assert(self@ =~= skip_if(
                old(self)@,
                old(self)@.v_reg[x as int] == old(self)@.v_reg[y as int],
            ));
        }
    }

    /// 9XY0: skip the next instruction word if registers X and Y differ.
    pub fn skip_vx_neq_vy(&mut self)
        requires
            old(self).wf(),
            old(self)@.pc + 2 <= u16::MAX,
        ensures
            final(self).wf(),
            instr_rel(
                old(self)@,
                Instr::SkipNeReg { x: old(self).d2 as u8, y: old(self).d3 as u8 },
                final(self)@,
                Ok(()),
            ),
    {
        let x: usize = self.d2 as usize;
        let y: usize = self.d3 as usize;
        if self.v_reg[x] != self.v_reg[y] {
            self.pc = self.pc + 2;
        }
        proof {
            assert(self@ =~= skip_if(
                old(self)@,
                old(self)@.v_reg[x as int] != old(self)@.v_reg[y as int],
            ));
        }
    }

    /// 6XNN: register X := NN.
    pub fn set_vx_to_nn(&mut self, op: u16)
        requires
            old(self).wf(),
        ensures
            final(self).wf(),
            instr_rel(
                old(self)@,
                Instr::SetNn { x: old(self).d2 as u8, nn: op_nn(op) },
                final(self)@,
                Ok(()),
            ),
    {
        let x: usize = self.d2 as usize;
        let nn: u8 = (op & 0x00FF) as u8;
        self.v_reg.set(x, nn);
        proof {
            assert(self@ =~= set_reg(old(self)@, x as int, nn));
        }
    }

    /// 7XNN: register X := X + NN with 8-bit wraparound, no flag effect.
    pub fn add_vx_to_nn(&mut self, op: u16)
        requires
            old(self).wf(),
        ensures
            final(self).wf(),
            instr_rel(
                old(self)@,
                Instr::AddNn { x: old(self).d2 as u8, nn: op_nn(op) },
                final(self)@,
                Ok(()),
            ),
    {
        let x: usize = self.d2 as usize;
        let nn: u8 = (op & 0x00FF) as u8;
        let s: u16 = self.v_reg[x] as u16 + nn as u16;
        self.v_reg.set(x, (s % 256) as u8);
        proof {
            assert(self@ =~= set_reg(
                old(self)@,
                x as int,
                ((old(self)@.v_reg[x as int] + op_nn(op)) % 256) as u8,
            ));
        }
    }

    /// 8XY0: register X := register Y.
    pub fn set_vx_to_vy(&mut self)
        requires
            old(self).wf(),
        ensures
            final(self).wf(),
            instr_rel(
                old(self)@,
                Instr::MovReg { x: old(self).d2 as u8, y: old(self).d3 as u8 },
                final(self)@,
                Ok(()),
            ),
    {
        let x: usize = self.d2 as usize;
        let y: usize = self.d3 as usize;
        let vy: u8 = self.v_reg[y];
        self.v_reg.set(x, vy);
        proof {
            assert(self@ =~= set_reg(old(self)@, x as int, old(self)@.v_reg[y as int]));
        }
    }

    /// 8XY1: register X := X | Y.
    pub fn vx_or_vy(&mut self)
        requires
            old(self).wf(),
        ensures
            final(self).wf(),
            instr_rel(
                old(self)@,
                Instr::OrReg { x: old(self).d2 as u8, y: old(self).d3 as u8 },
                final(self)@,
                Ok(()),
            ),
    {
        let x: usize = self.d2 as usize;
        let y: usize = self.d3 as usize;
        let v: u8 = self.v_reg[x] | self.v_reg[y];
        self.v_reg.set(x, v);
        proof {
            assert(self@ =~= set_reg(
                old(self)@,
                x as int,
                old(self)@.v_reg[x as int] | old(self)@.v_reg[y as int],
            ));
        }
    }

    /// 8XY2: register X := X & Y.
    pub fn vx_and_vy(&mut self)
        requires
            old(self).wf(),
        ensures
            final(self).wf(),
            instr_rel(
                old(self)@,
                Instr::AndReg { x: old(self).d2 as u8, y: old(self).d3 as u8 },
                final(self)@,
                Ok(()),
            ),
    {
        let x: usize = self.d2 as usize;
        let y: usize = self.d3 as usize;
        let v: u8 = self.v_reg[x] & self.v_reg[y];
        self.v_reg.set(x, v);
        proof {
            assert(self@ =~= set_reg(
                old(self)@,
                x as int,
                old(self)@.v_reg[x as int] & old(self)@.v_reg[y as int],
            ));
        }
    }

    /// 8XY3: register X := X ^ Y.
    pub fn vx_xor_vy(&mut self)
        requires
            old(self).wf(),
        ensures
            final(self).wf(),
            instr_rel(
                old(self)@,
                Instr::XorReg { x: old(self).d2 as u8, y: old(self).d3 as u8 },
                final(self)@,
                Ok(()),
            ),
    {
        let x: usize = self.d2 as usize;
        let y: usize = self.d3 as usize;
        let v: u8 = self.v_reg[x] ^ self.v_reg[y];
        self.v_reg.set(x, v);
        proof {
            assert(self@ =~= set_reg(
                old(self)@,
                x as int,
                old(self)@.v_reg[x as int] ^ old(self)@.v_reg[y as int],
            ));
        }
    }

    /// 8XY4: register X := X + Y with 8-bit wraparound; the flag register
    /// records whether the unsigned addition overflowed.
    pub fn add_vx_to_vy(&mut self)
        requires
            old(self).wf(),
        ensures
            final(self).wf(),
            instr_rel(
                old(self)@,
                Instr::AddReg { x: old(self).d2 as u8, y: old(self).d3 as u8 },
                final(self)@,
                Ok(()),
            ),
    {
        let x: usize = self.d2 as usize;
        let y: usize = self.d3 as usize;
        let s: u16 = self.v_reg[x] as u16 + self.v_reg[y] as u16;
        let new_vf: u8 = if s >= 256 {
            1
        } else {
            0
        };
        self.v_reg.set(x, (s % 256) as u8);
        self.v_reg.set(15, new_vf);
        proof {
            let sum = old(self)@.v_reg[x as int] + old(self)@.v_reg[y as int];
            assert(self@ =~= set_reg_flag(
                old(self)@,
                x as int,
                (sum % 256) as u8,
                bool_flag(sum >= 256),
            ));
        }
    }

    /// 8XY5: register X := X - Y with 8-bit wraparound; the flag register
    /// records that the subtraction did not borrow (X was at least Y).
    pub fn sub_vx_from_vy(&mut self)
        requires
            old(self).wf(),
        ensures
            final(self).wf(),
            instr_rel(
                old(self)@,
                Instr::SubReg { x: old(self).d2 as u8, y: old(self).d3 as u8 },
                final(self)@,
                Ok(()),
            ),
    {
        let x: usize = self.d2 as usize;
        let y: usize = self.d3 as usize;
        let vx: u8 = self.v_reg[x];
        let vy: u8 = self.v_reg[y];
        let s: u16 = 256 + vx as u16 - vy as u16;
        let new_vf: u8 = if vx >= vy {
            1
        } else {
            0
        };
        self.v_reg.set(x, (s % 256) as u8);
        self.v_reg.set(15, new_vf);
        proof {
            vstd::arithmetic::div_mod::lemma_mod_add_multiples_vanish(vx - vy, 256);
            assert(self@ =~= set_reg_flag(
                old(self)@,
                x as int,
                ((vx - vy) % 256) as u8,
                bool_flag(vx >= vy),
            ));
        }
    }

    /// 8XY6: the flag register records the low bit of X; register X := X >> 1.
    pub fn shr_vx(&mut self)
        requires
            old(self).wf(),
        ensures
            final(self).wf(),
            instr_rel(old(self)@, Instr::ShrReg { x: old(self).d2 as u8 }, final(self)@, Ok(())),
    {
        let x: usize = self.d2 as usize;
        let vx: u8 = self.v_reg[x];
        let lsb: u8 = vx % 2;
        self.v_reg.set(x, vx / 2);
        self.v_reg.set(15, lsb);
        proof {
            assert(self@ =~= set_reg_flag(old(self)@, x as int, (vx / 2) as u8, (vx % 2) as u8));
        }
    }

    /// 8XY7: register X := Y - X with 8-bit wraparound; the flag register
    /// records that the subtraction did not borrow (Y was at least X).
    pub fn sub_vy_from_vx(&mut self)
        requires
            old(self).wf(),
        ensures
            final(self).wf(),
            instr_rel(
                old(self)@,
                Instr::SubFrom { x: old(self).d2 as u8, y: old(self).d3 as u8 },
                final(self)@,
                Ok(()),
            ),
    {
        let x: usize = self.d2 as usize;
        let y: usize = self.d3 as usize;
        let vx: u8 = self.v_reg[x];
        let vy: u8 = self.v_reg[y];
        let s: u16 = 256 + vy as u16 - vx as u16;
        let new_vf: u8 = if vy >= vx {
            1
        } else {
            0
        };
        self.v_reg.set(x, (s % 256) as u8);
        self.v_reg.set(15, new_vf);
        proof {
            vstd::arithmetic::div_mod::lemma_mod_add_multiples_vanish(vy - vx, 256);
            assert(self@ =~= set_reg_flag(
                old(self)@,
                x as int,
                ((vy - vx) % 256) as u8,
                bool_flag(vy >= vx),
            ));
        }
    }

    /// 8XYE: the flag register records the high bit of X; register X := X << 1
    /// with the high bit discarded.
    pub fn shl_vx(&mut self)
        requires
            old(self).wf(),
        ensures
            final(self).wf(),
            instr_rel(old(self)@, Instr::ShlReg { x: old(self).d2 as u8 }, final(self)@, Ok(())),
    {
        let x: usize = self.d2 as usize;
        let vx: u8 = self.v_reg[x];
        let msb: u8 = vx / 128;
        let s: u16 = vx as u16 * 2;
        self.v_reg.set(x, (s % 256) as u8);
        self.v_reg.set(15, msb);
        proof {
            assert(self@ =~= set_reg_flag(
                old(self)@,
                x as int,
                ((vx * 2) % 256) as u8,
                (vx / 128) as u8,
            ));
        }
    }

    /// ANNN: address register := NNN.
    pub fn set_i_to_nnn(&mut self, op: u16)
        requires
            old(self).wf(),
        ensures
            final(self).wf(),
            instr_rel(old(self)@, Instr::SetI { nnn: op_nnn(op) }, final(self)@, Ok(())),
    {
        self.i_reg = op & 0x0FFF;
        proof {
            assert(self@ =~= (EmuView { i_reg: op_nnn(op), ..old(self)@ }));
        }
    }

    /// BNNN: jump to NNN plus the value of register 0.
    pub fn jmp_v0_nnn(&mut self, op: u16)
        requires
            old(self).wf(),
        ensures
            final(self).wf(),
            instr_rel(old(self)@, Instr::JmpV0 { nnn: op_nnn(op) }, final(self)@, Ok(())),
    {
        proof {
            lemma_op_field_bounds(op);
        }
        let nnn: u16 = op & 0x0FFF;
        self.pc = self.v_reg[0] as u16 + nnn;
        proof {
            assert(self@ =~= (EmuView {
                pc: (old(self)@.v_reg[0] + op_nnn(op)) as u16,
                ..old(self)@
            }));
        }
    }

    /// CXNN: register X := (random byte) & NN. The byte comes from the
    /// process-wide generator; `set_vx_to_rand_byte` is the deterministic
    /// rest, for replay with a caller-supplied byte.
    pub fn set_vx_to_rand(&mut self, op: u16)
        requires
            old(self).wf(),
        ensures
            final(self).wf(),
            instr_rel(
                old(self)@,
                Instr::Rand { x: old(self).d2 as u8, nn: op_nn(op) },
                final(self)@,
                Ok(()),
            ),
    {
        let b: u8 = crate::rng::random_byte();
        self.set_vx_to_rand_byte(op, b);
        proof {
            lemma_rand_intro(old(self)@, old(self).d2 as u8, op_nn(op), b, self@);
        }
    }

    /// The deterministic part of CXNN: register X := B & NN for a given
    /// byte B, enabling deterministic replay.
    pub fn set_vx_to_rand_byte(&mut self, op: u16, b: u8)
        requires
            old(self).wf(),
        ensures
            final(self).wf(),
            final(self)@ == set_reg(old(self)@, old(self).d2 as int, b & op_nn(op)),
    {
        let x: usize = self.d2 as usize;
        let nn: u8 = (op & 0x00FF) as u8;
        self.v_reg.set(x, b & nn);
        proof {
            assert(self@ =~= set_reg(old(self)@, x as int, b & nn));
        }
    }

    /// DXYN: draw the N-row sprite at the address register at the position
    /// held in registers X and Y. Every set sprite bit toggles its screen
    /// cell; both coordinates wrap per axis; the flag register records
    /// whether some already-lit cell was toggled. Sprite rows outside
    /// memory are the fatal out-of-bounds error.
    pub fn draw(&mut self) -> (r: Result<(), EmuError>)
        requires
            old(self).wf(),
        ensures
            final(self).wf(),
            instr_rel(
                old(self)@,
                Instr::Draw {
                    x: old(self).d2 as u8,
                    y: old(self).d3 as u8,
                    n: old(self).d4 as u8,
                },
                final(self)@,
                r,
            ),
    {
        let n: usize = self.d4 as usize;
        let i: usize = self.i_reg as usize;
        if n != 0 && i + n > RAM_SIZE {
            return Err(EmuError::MemOutOfBounds);
        }
        let bx: u8 = self.v_reg[self.d2 as usize];
        let by: u8 = self.v_reg[self.d3 as usize];
        let mut flipped: bool = false;
        let mut yl: usize = 0;
        while yl < n
            invariant
                self.wf(),
                n == old(self).d4,
                i == old(self).i_reg,
                n == 0 || i + n <= RAM_SIZE,
                bx == old(self)@.v_reg[old(self).d2 as int],
                by == old(self)@.v_reg[old(self).d3 as int],
                old(self).wf(),
                self@ == (EmuView { screen: self@.screen, ..old(self)@ }),
                yl <= n,
                forall|j: int|
                    0 <= j < SCREEN_CELLS ==> self@.screen[j] == (old(self)@.screen[j]
                        != draw_covers_upto(old(self)@.ram, i as int, bx, by, yl as int, 0, j)),
                flipped == draw_collision_upto(
                    old(self)@.screen,
                    old(self)@.ram,
                    i as int,
                    bx,
                    by,
                    yl as int,
                    0,
                ),
            decreases n - yl,
        {
            let pixels: u8 = self.ram[i + yl];
            let mut xl: usize = 0;
            while xl < 8
                invariant
                    self.wf(),
                    n == old(self).d4,
                    i == old(self).i_reg,
                    i + n <= RAM_SIZE,
                    0 < n,
                    yl < n,
                    bx == old(self)@.v_reg[old(self).d2 as int],
                    by == old(self)@.v_reg[old(self).d3 as int],
                    old(self).wf(),
                    self@ == (EmuView { screen: self@.screen, ..old(self)@ }),
                    pixels == old(self)@.ram[i + yl],
                    xl <= 8,
                    forall|j: int|
                        0 <= j < SCREEN_CELLS ==> self@.screen[j] == (old(self)@.screen[j]
                            != draw_covers_upto(
                            old(self)@.ram,
                            i as int,
                            bx,
                            by,
                            yl as int,
                            xl as int,
                            j,
                        )),
                    flipped == draw_collision_upto(
                        old(self)@.screen,
                        old(self)@.ram,
                        i as int,
                        bx,
                        by,
                        yl as int,
                        xl as int,
                    ),
                decreases 8 - xl,
            {
                let ghost pre = old(self)@;
                let ghost ii = i as int;
                let ghost rr = yl as int;
                let ghost cc = xl as int;
                let mask: u8 = 0x80u8 >> (xl as u8);
                if pixels & mask != 0 {
                    assert(sprite_row_bit(pre.ram[ii + rr], cc));
                    let x: usize = (bx as usize + xl) % SCREEN_WIDTH;
                    let y: usize = (by as usize + yl) % SCREEN_HEIGHT;
                    let idx: usize = x + SCREEN_WIDTH * y;
                    proof {
                        lemma_draw_target_bounds(bx, by, rr, cc);
                        assert(idx == draw_target(bx, by, rr, cc));
                        assert(idx < SCREEN_CELLS);
                        if draw_covers_upto(pre.ram, ii, bx, by, rr, cc, idx as int) {
                            let (r2, c2) = choose|r2: int, c2: int|
                                0 <= r2 && 0 <= c2 < 8 && draw_pair_before(r2, c2, rr, cc)
                                    && sprite_row_bit(pre.ram[ii + r2], c2) && draw_target(
                                    bx,
                                    by,
                                    r2,
                                    c2,
                                ) == idx as int;
                            lemma_draw_target_inj(bx, by, r2, c2, rr, cc);
                            assert(false);
                        }
                    }
                    let cur: bool = self.screen[idx];
                    assert(cur == pre.screen[idx as int]);
                    flipped = flipped || cur;
                    self.screen.set(idx, !cur);
                    proof {
                        assert forall|j: int| 0 <= j < SCREEN_CELLS implies self@.screen[j] == (
                        pre.screen[j] != draw_covers_upto(
                            pre.ram,
                            ii,
                            bx,
                            by,
                            rr,
                            cc + 1,
                            j,
                        )) by {
                            if j == idx as int {
                                assert(draw_pair_before(rr, cc, rr, cc + 1));
                                assert(draw_covers_upto(pre.ram, ii, bx, by, rr, cc + 1, j));
                            } else {
                                if draw_covers_upto(pre.ram, ii, bx, by, rr, cc + 1, j) {
                                    let (r2, c2) = choose|r2: int, c2: int|
                                        0 <= r2 && 0 <= c2 < 8 && draw_pair_before(
                                            r2,
                                            c2,
                                            rr,
                                            cc + 1,
                                        ) && sprite_row_bit(pre.ram[ii + r2], c2) && draw_target(
                                            bx,
                                            by,
                                            r2,
                                            c2,
                                        ) == j;
                                    assert(draw_pair_before(r2, c2, rr, cc));
                                    assert(draw_covers_upto(pre.ram, ii, bx, by, rr, cc, j));
                                }
                                if draw_covers_upto(pre.ram, ii, bx, by, rr, cc, j) {
                                    let (r2, c2) = choose|r2: int, c2: int|
                                        0 <= r2 && 0 <= c2 < 8 && draw_pair_before(r2, c2, rr, cc)
                                            && sprite_row_bit(pre.ram[ii + r2], c2) && draw_target(
                                            bx,
                                            by,
                                            r2,
                                            c2,
                                        ) == j;
                                    assert(draw_pair_before(r2, c2, rr, cc + 1));
                                    assert(draw_covers_upto(pre.ram, ii, bx, by, rr, cc + 1, j));
                                }
                            }
                        };
                        if pre.screen[idx as int] {
                            assert(draw_collision_upto(pre.screen, pre.ram, ii, bx, by, rr, cc + 1));
                        }
                        if draw_collision_upto(pre.screen, pre.ram, ii, bx, by, rr, cc + 1) {
                            let (r2, c2) = choose|r2: int, c2: int|
                                0 <= r2 && 0 <= c2 < 8 && draw_pair_before(r2, c2, rr, cc + 1)
                                    && sprite_row_bit(pre.ram[ii + r2], c2) && pre.screen[
                                draw_target(bx, by, r2, c2)];
                            if !draw_pair_before(r2, c2, rr, cc) {
                                assert(r2 == rr && c2 == cc);
                                assert(pre.screen[idx as int]);
                            }
                        }
                    }
                } else {
                    proof {
                        assert(!sprite_row_bit(pre.ram[ii + rr], cc));
                        assert forall|j: int|
                            draw_covers_upto(pre.ram, ii, bx, by, rr, cc + 1, j)
                                == draw_covers_upto(pre.ram, ii, bx, by, rr, cc, j) by {
                            if draw_covers_upto(pre.ram, ii, bx, by, rr, cc + 1, j) {
                                let (r2, c2) = choose|r2: int, c2: int|
                                    0 <= r2 && 0 <= c2 < 8 && draw_pair_before(r2, c2, rr, cc + 1)
                                        && sprite_row_bit(pre.ram[ii + r2], c2) && draw_target(
                                        bx,
                                        by,
                                        r2,
                                        c2,
                                    ) == j;
                                assert(draw_pair_before(r2, c2, rr, cc));
                                assert(draw_covers_upto(pre.ram, ii, bx, by, rr, cc, j));
                            }
                            if draw_covers_upto(pre.ram, ii, bx, by, rr, cc, j) {
                                let (r2, c2) = choose|r2: int, c2: int|
                                    0 <= r2 && 0 <= c2 < 8 && draw_pair_before(r2, c2, rr, cc)
                                        && sprite_row_bit(pre.ram[ii + r2], c2) && draw_target(
                                        bx,
                                        by,
                                        r2,
                                        c2,
                                    ) == j;
                                assert(draw_pair_before(r2, c2, rr, cc + 1));
                                assert(draw_covers_upto(pre.ram, ii, bx, by, rr, cc + 1, j));
                            }
                        };
                        if draw_collision_upto(pre.screen, pre.ram, ii, bx, by, rr, cc + 1) {
                            let (r2, c2) = choose|r2: int, c2: int|
                                0 <= r2 && 0 <= c2 < 8 && draw_pair_before(r2, c2, rr, cc + 1)
                                    && sprite_row_bit(pre.ram[ii + r2], c2) && pre.screen[
                                draw_target(bx, by, r2, c2)];
                            assert(draw_pair_before(r2, c2, rr, cc));
                            assert(draw_collision_upto(pre.screen, pre.ram, ii, bx, by, rr, cc));
                        }
                        if draw_collision_upto(pre.screen, pre.ram, ii, bx, by, rr, cc) {
                            let (r2, c2) = choose|r2: int, c2: int|
                                0 <= r2 && 0 <= c2 < 8 && draw_pair_before(r2, c2, rr, cc)
                                    && sprite_row_bit(pre.ram[ii + r2], c2) && pre.screen[
                                draw_target(bx, by, r2, c2)];
                            assert(draw_pair_before(r2, c2, rr, cc + 1));
                            assert(draw_collision_upto(pre.screen, pre.ram, ii, bx, by, rr, cc + 1));
                        }
                    }
                }
                xl = xl + 1;
            }
            proof {
                assert forall|j: int| 0 <= j < SCREEN_CELLS implies self@.screen[j] == (old(
                self,
                )@.screen[j] != draw_covers_upto(
                    old(self)@.ram,
                    i as int,
                    bx,
                    by,
                    yl as int + 1,
                    0,
                    j,
                )) by {
                    lemma_draw_row_roll(old(self)@.ram, i as int, bx, by, yl as int, j);
                };
                lemma_collision_row_roll(
                    old(self)@.screen,
                    old(self)@.ram,
                    i as int,
                    bx,
                    by,
                    yl as int,
                );
            }
            yl = yl + 1;
        }
        proof {
            assert forall|j: int| 0 <= j < SCREEN_CELLS implies self@.screen[j] == (old(
            self,
            )@.screen[j] != draw_covers(old(self)@.ram, i as int, bx, by, n as int, j)) by {
                lemma_draw_covers_full(old(self)@.ram, i as int, bx, by, n as int, j);
            };
            lemma_draw_collision_full(
                old(self)@.screen,
                old(self)@.ram,
                i as int,
                bx,
                by,
                n as int,
            );
        }
        let new_vf: u8 = if flipped {
            1
        } else {
            0
        };
        self.v_reg.set(15, new_vf);
        proof {
            let pre = old(self)@;
            let nn = n as int;
            assert(self@.screen =~= draw_screen(pre.screen, pre.ram, i as int, bx, by, nn));
            assert(self@ =~= (EmuView {
                screen: draw_screen(pre.screen, pre.ram, i as int, bx, by, nn),
                v_reg: pre.v_reg.update(
                    15,
                    bool_flag(draw_collision(pre.screen, pre.ram, i as int, bx, by, nn)),
                ),
                ..pre
            }));
        }
        Ok(())
    }

    /// EX9E: skip the next instruction word if the key indexed by the value
    /// of register X is pressed. A value outside the latch is fatal.
    pub fn skip_key_pressed(&mut self) -> (r: Result<(), EmuError>)
        requires
            old(self).wf(),
            old(self)@.pc + 2 <= u16::MAX,
        ensures
            final(self).wf(),
            instr_rel(old(self)@, Instr::SkipKey { x: old(self).d2 as u8 }, final(self)@, r),
    {
        let x: usize = self.d2 as usize;
        let vx: u8 = self.v_reg[x];
        if vx as usize >= NUM_KEYS {
            return Err(EmuError::KeyOutOfBounds);
        }
        let key: bool = self.keys[vx as usize];
        if key {
            self.pc = self.pc + 2;
        }
        proof {
            assert(self@ =~= skip_if(old(self)@, old(self)@.keys[vx as int]));
        }
        Ok(())
    }

    /// EXA1: skip the next instruction word if that key is not pressed.
    /// A value outside the latch is fatal.
    pub fn skip_key_released(&mut self) -> (r: Result<(), EmuError>)
        requires
            old(self).wf(),
            old(self)@.pc + 2 <= u16::MAX,
        ensures
            final(self).wf(),
            instr_rel(old(self)@, Instr::SkipNoKey { x: old(self).d2 as u8 }, final(self)@, r),
    {
        let x: usize = self.d2 as usize;
        let vx: u8 = self.v_reg[x];
        if vx as usize >= NUM_KEYS {
            return Err(EmuError::KeyOutOfBounds);
        }
        let key: bool = self.keys[vx as usize];
        if !key {
            self.pc = self.pc + 2;
        }
        proof {
            assert(self@ =~= skip_if(old(self)@, !old(self)@.keys[vx as int]));
        }
        Ok(())
    }

    /// FX07: register X := delay timer.
    pub fn set_vx_to_dt(&mut self)
        requires
            old(self).wf(),
        ensures
            final(self).wf(),
            instr_rel(old(self)@, Instr::GetDelay { x: old(self).d2 as u8 }, final(self)@, Ok(())),
    {
        let x: usize = self.d2 as usize;
        let dt: u8 = self.dt;
        self.v_reg.set(x, dt);
        proof {
            assert(self@ =~= set_reg(old(self)@, x as int, old(self)@.dt));
        }
    }

    /// FX0A: scan the keyboard latch in ascending order; capture the lowest
    /// pressed key index into register X, or rewind the program counter so
    /// the same instruction is fetched again. The caller keeps stepping; the
    /// instruction blocks without blocking.
    pub fn wait_key(&mut self)
        requires
            old(self).wf(),
            old(self)@.pc >= 2,
        ensures
            final(self).wf(),
            instr_rel(old(self)@, Instr::WaitKey { x: old(self).d2 as u8 }, final(self)@, Ok(())),
    {
        let x: usize = self.d2 as usize;
        match first_pressed_key(&self.keys) {
            Some(k) => {
                self.v_reg.set(x, k);
                proof {
                    assert(self@ =~= set_reg(
                        old(self)@,
                        x as int,
                        first_pressed(old(self)@.keys) as u8,
                    ));
                }
            },
            None => {
                self.pc = self.pc - 2;
                proof {
                    assert(self@ =~= (EmuView { pc: (old(self)@.pc - 2) as u16, ..old(self)@ }));
                }
            },
        }
    }

    /// FX15: delay timer := register X.
    pub fn set_dt_to_vx(&mut self)
        requires
            old(self).wf(),
        ensures
            final(self).wf(),
            instr_rel(old(self)@, Instr::SetDelay { x: old(self).d2 as u8 }, final(self)@, Ok(())),
    {
        let x: usize = self.d2 as usize;
        self.dt = self.v_reg[x];
        proof {
            assert(self@ =~= (EmuView { dt: old(self)@.v_reg[x as int], ..old(self)@ }));
        }
    }

    /// FX18: sound timer := register X.
    pub fn set_st_to_vx(&mut self)
        requires
            old(self).wf(),
        ensures
            final(self).wf(),
            instr_rel(old(self)@, Instr::SetSound { x: old(self).d2 as u8 }, final(self)@, Ok(())),
    {
        let x: usize = self.d2 as usize;
        self.st = self.v_reg[x];
        proof {
            assert(self@ =~= (EmuView { st: old(self)@.v_reg[x as int], ..old(self)@ }));
        }
    }

    /// FX1E: address register := address register + X, 16-bit wraparound,
    /// no flag effect.
    pub fn add_i_to_vx(&mut self)
        requires
            old(self).wf(),
        ensures
            final(self).wf(),
            instr_rel(old(self)@, Instr::AddI { x: old(self).d2 as u8 }, final(self)@, Ok(())),
    {
        let x: usize = self.d2 as usize;
        let s: u32 = self.i_reg as u32 + self.v_reg[x] as u32;
        self.i_reg = (s % 0x10000) as u16;
        proof {
            assert(self@ =~= (EmuView {
                i_reg: ((old(self)@.i_reg + old(self)@.v_reg[x as int]) % 0x10000) as u16,
                ..old(self)@
            }));
        }
    }

    /// FX29: address register := address of the built-in glyph for the
    /// value of register X; each glyph occupies five consecutive bytes.
    pub fn set_i_to_font(&mut self)
        requires
            old(self).wf(),
        ensures
            final(self).wf(),
            instr_rel(old(self)@, Instr::FontChar { x: old(self).d2 as u8 }, final(self)@, Ok(())),
    {
        let x: usize = self.d2 as usize;
        let c: u16 = self.v_reg[x] as u16;
        self.i_reg = c * 5;
        proof {
            assert(self@ =~= (EmuView {
                i_reg: (old(self)@.v_reg[x as int] * 5) as u16,
                ..old(self)@
            }));
        }
    }

    /// FX33: store the hundreds, tens and ones digits of register X at the
    /// address register and the two bytes after it. The three bytes must be
    /// in memory; anything else is fatal.
    pub fn bcd(&mut self) -> (r: Result<(), EmuError>)
        requires
            old(self).wf(),
        ensures
            final(self).wf(),
            instr_rel(old(self)@, Instr::Bcd { x: old(self).d2 as u8 }, final(self)@, r),
    {
        let i: usize = self.i_reg as usize;
        if i + 2 >= RAM_SIZE {
            return Err(EmuError::MemOutOfBounds);
        }
        let x: usize = self.d2 as usize;
        let vx: u8 = self.v_reg[x];
        let hundreds: u8 = vx / 100;
        let tens: u8 = (vx / 10) % 10;
        let ones: u8 = vx % 10;
        self.ram.set(i, hundreds);
        self.ram.set(i + 1, tens);
        self.ram.set(i + 2, ones);
        proof {
            let pre = old(self)@;
            assert(self@ =~= (EmuView {
                ram: pre.ram.update(i as int, (vx / 100) as u8).update(
                    i as int + 1,
                    ((vx / 10) % 10) as u8,
                ).update(i as int + 2, (vx % 10) as u8),
                ..pre
            }));
        }
        Ok(())
    }

    /// FX55: copy registers 0 through X inclusive into memory starting at
    /// the address register, in ascending register order. The target bytes
    /// must be in memory; anything else is fatal.
    pub fn store_sub_v0_from_vx(&mut self) -> (r: Result<(), EmuError>)
        requires
            old(self).wf(),
        ensures
            final(self).wf(),
            instr_rel(old(self)@, Instr::StoreRegs { x: old(self).d2 as u8 }, final(self)@, r),
    {
        let x: usize = self.d2 as usize;
        let i: usize = self.i_reg as usize;
        if i + x >= RAM_SIZE {
            return Err(EmuError::MemOutOfBounds);
        }
        let mut idx: usize = 0;
        while idx <= x
            invariant
                self.wf(),
                old(self).wf(),
                x == old(self).d2,
                i == old(self).i_reg,
                i + x < RAM_SIZE,
                idx <= x + 1,
                self@ == (EmuView { ram: self@.ram, ..old(self)@ }),
                forall|j: int| i <= j < i + idx ==> self@.ram[j] == old(self)@.v_reg[j - i],
                forall|j: int|
                    0 <= j < RAM_SIZE && !(i <= j < i + idx) ==> self@.ram[j] == old(self)@.ram[j],
            decreases x + 1 - idx,
        {
            let v: u8 = self.v_reg[idx];
            self.ram.set(i + idx, v);
            idx = idx + 1;
        }
        proof {
            let pre = old(self)@;
            assert(self@.ram =~= Seq::new(
                RAM_SIZE as nat,
                |j: int|
                    if i <= j <= i + x {
                        pre.v_reg[j - i]
                    } else {
                        pre.ram[j]
                    },
            ));
            assert(self@ =~= (EmuView {
                ram: Seq::new(
                    RAM_SIZE as nat,
                    |j: int|
                        if i <= j <= i + x {
                            pre.v_reg[j - i]
                        } else {
                            pre.ram[j]
                        },
                ),
                ..pre
            }));
        }
        Ok(())
    }

    /// FX65: copy memory starting at the address register into registers
    /// 0 through X inclusive. The source bytes must be in memory; anything
    /// else is fatal.
    pub fn load_sub_v0_from_vx(&mut self) -> (r: Result<(), EmuError>)
        requires
            old(self).wf(),
        ensures
            final(self).wf(),
            instr_rel(old(self)@, Instr::LoadRegs { x: old(self).d2 as u8 }, final(self)@, r),
    {
        let x: usize = self.d2 as usize;
        let i: usize = self.i_reg as usize;
        if i + x >= RAM_SIZE {
            return Err(EmuError::MemOutOfBounds);
        }
        let mut idx: usize = 0;
        while idx <= x
            invariant
                self.wf(),
                old(self).wf(),
                x == old(self).d2,
                x < 16,
                i == old(self).i_reg,
                i + x < RAM_SIZE,
                idx <= x + 1,
                self@ == (EmuView { v_reg: self@.v_reg, ..old(self)@ }),
                forall|j: int| 0 <= j < idx ==> self@.v_reg[j] == old(self)@.ram[i + j],
                forall|j: int| idx <= j < 16 ==> self@.v_reg[j] == old(self)@.v_reg[j],
            decreases x + 1 - idx,
        {
            let v: u8 = self.ram[i + idx];
            self.v_reg.set(idx, v);
            idx = idx + 1;
        }
        proof {
            let pre = old(self)@;
            assert(self@.v_reg =~= Seq::new(
                16 as nat,
                |j: int|
                    if j <= x {
                        pre.ram[i + j]
                    } else {
                        pre.v_reg[j]
                    },
            ));
            assert(self@ =~= (EmuView {
                v_reg: Seq::new(
                    16 as nat,
                    |j: int|
                        if j <= x {
                            pre.ram[i + j]
                        } else {
                            pre.v_reg[j]
                        },
                ),
                ..pre
            }));
        }
        Ok(())
    }
}

} // verus!
