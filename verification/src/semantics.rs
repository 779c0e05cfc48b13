//! The meaning of every instruction, as a relation between the machine view
//! before and after one execution step. These spec functions are the single
//! statement of the interpreter's behaviour: the instruction handlers, the
//! dispatcher and the fetch-execute cycle are all proved against them.

use vstd::prelude::*;

verus! {

use crate::state::{EmuView, EmuError, wf, blank_screen};
use crate::state::{RAM_SIZE, NUM_REGS, NUM_KEYS, STACK_SIZE, SCREEN_WIDTH, SCREEN_HEIGHT};
use crate::decode::{Instr, spec_decode, nib1, nib2, nib3, nib4};

/// The view with register `x` replaced by `val` and nothing else changed.
pub open spec fn set_reg(pre: EmuView, x: int, val: u8) -> EmuView {
    EmuView { v_reg: pre.v_reg.update(x, val), ..pre }
}

/// The view with register `x` replaced by `val` and then the flag register
/// (register 15) replaced by `flag`; when `x` is 15 the flag write wins.
pub open spec fn set_reg_flag(pre: EmuView, x: int, val: u8, flag: u8) -> EmuView {
    EmuView { v_reg: pre.v_reg.update(x, val).update(15, flag), ..pre }
}

/// The view after a conditional skip: the program counter advanced over one
/// instruction word when the condition holds, untouched otherwise.
pub open spec fn skip_if(pre: EmuView, cond: bool) -> EmuView {
    if cond {
        EmuView { pc: (pre.pc + 2) as u16, ..pre }
    } else {
        pre
    }
}

/// 1 when the condition holds, else 0: the encoding of carry, borrow and
/// collision outcomes in the flag register.
pub open spec fn bool_flag(b: bool) -> u8 {
    if b {
        1u8
    } else {
        0u8
    }
}

/// Whether bit `c` of a sprite row byte is set, counting the most
/// significant bit as column 0.
pub open spec fn sprite_row_bit(row: u8, c: int) -> bool {
    row & (0x80u8 >> (c as u8)) != 0
}

/// The screen cell written by sprite bit (row `r`, column `c`) of a sprite
/// based at (`bx`, `by`): both coordinates wrap independently per axis.
pub open spec fn draw_target(bx: u8, by: u8, r: int, c: int) -> int {
    (bx as int + c) % (SCREEN_WIDTH as int) + (SCREEN_WIDTH as int) * ((by as int + r) % (
    SCREEN_HEIGHT as int))
}

/// Whether some set sprite bit of the `n`-row sprite at memory address `i`
/// lands on screen cell `idx`.
pub open spec fn draw_covers(ram: Seq<u8>, i: int, bx: u8, by: u8, n: int, idx: int) -> bool {
    exists|r: int, c: int|
        0 <= r < n && 0 <= c < 8 && sprite_row_bit(ram[i + r], c) && draw_target(bx, by, r, c)
            == idx
}

/// The screen after drawing the sprite: every covered cell is toggled, every
/// other cell keeps its value.
pub open spec fn draw_screen(screen: Seq<bool>, ram: Seq<u8>, i: int, bx: u8, by: u8, n: int) -> Seq<
    bool,
> {
    Seq::new(screen.len(), |idx: int| screen[idx] != draw_covers(ram, i, bx, by, n, idx))
}

/// Whether the sprite toggles some cell that was already lit: the collision
/// outcome reported in the flag register.
pub open spec fn draw_collision(
    screen: Seq<bool>,
    ram: Seq<u8>,
    i: int,
    bx: u8,
    by: u8,
    n: int,
) -> bool {
    exists|r: int, c: int|
        0 <= r < n && 0 <= c < 8 && sprite_row_bit(ram[i + r], c) && screen[draw_target(
            bx,
            by,
            r,
            c,
        )]
}

/// The sprite bits already processed after `r` full rows and `c` bits of
/// row `r`, in the row-major order the drawing loop walks them.
pub open spec fn draw_pair_before(r2: int, c2: int, r: int, c: int) -> bool {
    r2 < r || (r2 == r && c2 < c)
}

/// Whether some already-processed set sprite bit lands on cell `idx`:
/// the drawing loop's partial version of `draw_covers`.
pub open spec fn draw_covers_upto(
    ram: Seq<u8>,
    i: int,
    bx: u8,
    by: u8,
    r: int,
    c: int,
    idx: int,
) -> bool {
    exists|r2: int, c2: int|
        0 <= r2 && 0 <= c2 < 8 && draw_pair_before(r2, c2, r, c) && sprite_row_bit(ram[i + r2], c2)
            && draw_target(bx, by, r2, c2) == idx
}

/// Whether some already-processed set sprite bit lands on a lit cell of
/// `screen`: the drawing loop's partial version of `draw_collision`.
pub open spec fn draw_collision_upto(
    screen: Seq<bool>,
    ram: Seq<u8>,
    i: int,
    bx: u8,
    by: u8,
    r: int,
    c: int,
) -> bool {
    exists|r2: int, c2: int|
        0 <= r2 && 0 <= c2 < 8 && draw_pair_before(r2, c2, r, c) && sprite_row_bit(ram[i + r2], c2)
            && screen[draw_target(bx, by, r2, c2)]
}

/// Finishing row `r` is the same as standing at the start of row `r + 1`.
pub proof fn lemma_draw_row_roll(ram: Seq<u8>, i: int, bx: u8, by: u8, r: int, idx: int)
    ensures
        draw_covers_upto(ram, i, bx, by, r, 8, idx) == draw_covers_upto(ram, i, bx, by, r + 1, 0, idx),
{
    if draw_covers_upto(ram, i, bx, by, r, 8, idx) {
        let (r2, c2) = choose|r2: int, c2: int|
            0 <= r2 && 0 <= c2 < 8 && draw_pair_before(r2, c2, r, 8) && sprite_row_bit(
                ram[i + r2],
                c2,
            ) && draw_target(bx, by, r2, c2) == idx;
        assert(draw_pair_before(r2, c2, r + 1, 0));
        assert(draw_covers_upto(ram, i, bx, by, r + 1, 0, idx));
    }
    if draw_covers_upto(ram, i, bx, by, r + 1, 0, idx) {
        let (r2, c2) = choose|r2: int, c2: int|
            0 <= r2 && 0 <= c2 < 8 && draw_pair_before(r2, c2, r + 1, 0) && sprite_row_bit(
                ram[i + r2],
                c2,
            ) && draw_target(bx, by, r2, c2) == idx;
        assert(draw_pair_before(r2, c2, r, 8));
        assert(draw_covers_upto(ram, i, bx, by, r, 8, idx));
    }
}

/// Same, for the partial collision outcome.
pub proof fn lemma_collision_row_roll(
    screen: Seq<bool>,
    ram: Seq<u8>,
    i: int,
    bx: u8,
    by: u8,
    r: int,
)
    ensures
        draw_collision_upto(screen, ram, i, bx, by, r, 8) == draw_collision_upto(
            screen,
            ram,
            i,
            bx,
            by,
            r + 1,
            0,
        ),
{
    if draw_collision_upto(screen, ram, i, bx, by, r, 8) {
        let (r2, c2) = choose|r2: int, c2: int|
            0 <= r2 && 0 <= c2 < 8 && draw_pair_before(r2, c2, r, 8) && sprite_row_bit(
                ram[i + r2],
                c2,
            ) && screen[draw_target(bx, by, r2, c2)];
        assert(draw_pair_before(r2, c2, r + 1, 0));
        assert(draw_collision_upto(screen, ram, i, bx, by, r + 1, 0));
    }
    if draw_collision_upto(screen, ram, i, bx, by, r + 1, 0) {
        let (r2, c2) = choose|r2: int, c2: int|
            0 <= r2 && 0 <= c2 < 8 && draw_pair_before(r2, c2, r + 1, 0) && sprite_row_bit(
                ram[i + r2],
                c2,
            ) && screen[draw_target(bx, by, r2, c2)];
        assert(draw_pair_before(r2, c2, r, 8));
        assert(draw_collision_upto(screen, ram, i, bx, by, r, 8));
    }
}

/// Having processed all `n` rows is covering the whole sprite.
pub proof fn lemma_draw_covers_full(ram: Seq<u8>, i: int, bx: u8, by: u8, n: int, idx: int)
    ensures
        draw_covers_upto(ram, i, bx, by, n, 0, idx) == draw_covers(ram, i, bx, by, n, idx),
{
    if draw_covers_upto(ram, i, bx, by, n, 0, idx) {
        let (r2, c2) = choose|r2: int, c2: int|
            0 <= r2 && 0 <= c2 < 8 && draw_pair_before(r2, c2, n, 0) && sprite_row_bit(
                ram[i + r2],
                c2,
            ) && draw_target(bx, by, r2, c2) == idx;
        assert(0 <= r2 < n);
        assert(draw_covers(ram, i, bx, by, n, idx));
    }
    if draw_covers(ram, i, bx, by, n, idx) {
        let (r2, c2) = choose|r2: int, c2: int|
            0 <= r2 < n && 0 <= c2 < 8 && sprite_row_bit(ram[i + r2], c2) && draw_target(
                bx,
                by,
                r2,
                c2,
            ) == idx;
        assert(draw_pair_before(r2, c2, n, 0));
        assert(draw_covers_upto(ram, i, bx, by, n, 0, idx));
    }
}

/// Same, for the collision outcome.
pub proof fn lemma_draw_collision_full(
    screen: Seq<bool>,
    ram: Seq<u8>,
    i: int,
    bx: u8,
    by: u8,
    n: int,
)
    ensures
        draw_collision_upto(screen, ram, i, bx, by, n, 0) == draw_collision(
            screen,
            ram,
            i,
            bx,
            by,
            n,
        ),
{
    if draw_collision_upto(screen, ram, i, bx, by, n, 0) {
        let (r2, c2) = choose|r2: int, c2: int|
            0 <= r2 && 0 <= c2 < 8 && draw_pair_before(r2, c2, n, 0) && sprite_row_bit(
                ram[i + r2],
                c2,
            ) && screen[draw_target(bx, by, r2, c2)];
        assert(0 <= r2 < n);
        assert(draw_collision(screen, ram, i, bx, by, n));
    }
    if draw_collision(screen, ram, i, bx, by, n) {
        let (r2, c2) = choose|r2: int, c2: int|
            0 <= r2 < n && 0 <= c2 < 8 && sprite_row_bit(ram[i + r2], c2) && screen[draw_target(
                bx,
                by,
                r2,
                c2,
            )];
        assert(draw_pair_before(r2, c2, n, 0));
        assert(draw_collision_upto(screen, ram, i, bx, by, n, 0));
    }
}

/// Whether any key of the latch is currently pressed.
pub open spec fn any_pressed(keys: Seq<bool>) -> bool {
    exists|k: int| 0 <= k < NUM_KEYS && keys[k]
}

/// The lowest pressed key index at or above `k`, or 16 when none is.
pub open spec fn first_pressed_from(keys: Seq<bool>, k: int) -> int
    decreases NUM_KEYS - k,
{
    if k < 0 || k >= NUM_KEYS {
        16
    } else if keys[k] {
        k
    } else {
        first_pressed_from(keys, k + 1)
    }
}

/// The lowest pressed key index, or 16 when no key is pressed.
pub open spec fn first_pressed(keys: Seq<bool>) -> int {
    first_pressed_from(keys, 0)
}

/// What the randomize instruction guarantees: register `x` now holds some
/// byte masked with `nn`, and nothing else changed. Which byte it was is
/// not specified: it came from the random source.
pub open spec fn rand_rel(pre: EmuView, x: u8, nn: u8, post: EmuView) -> bool {
    exists|b: u8| post == set_reg(pre, x as int, b & nn)
}

/// The timers after one tick: each decremented only while nonzero, so each
/// saturates at zero and never wraps.
pub open spec fn tick_timers_view(pre: EmuView) -> EmuView {
    EmuView {
        dt: if pre.dt > 0 {
            (pre.dt - 1) as u8
        } else {
            0u8
        },
        st: if pre.st > 0 {
            (pre.st - 1) as u8
        } else {
            0u8
        },
        ..pre
    }
}

/// What one instruction does: the relation between the view before (`pre`)
/// and after (`post`) executing `i`, together with the reported outcome `r`.
/// Fatal conditions leave the state unchanged and name their error; every
/// non-fatal execution pins `post` down exactly, except that a fresh random
/// byte is unconstrained.
pub open spec fn instr_rel(pre: EmuView, i: Instr, post: EmuView, r: Result<(), EmuError>) -> bool {
    match i {
        Instr::Nop => post == pre && r == Ok::<(), EmuError>(()),
        Instr::Cls => post == (EmuView { screen: blank_screen(), ..pre }) && r == Ok::<(),
            EmuError,
        >(()),
        Instr::Ret => if pre.sp > 0 {
            post == (EmuView { pc: pre.stack[pre.sp - 1], sp: (pre.sp - 1) as u16, ..pre }) && r
                == Ok::<(), EmuError>(())
        } else {
            post == pre && r == Err::<(), EmuError>(EmuError::StackUnderflow)
        },
        Instr::Jmp { nnn } => post == (EmuView { pc: nnn, ..pre }) && r == Ok::<(), EmuError>(()),
        Instr::Call { nnn } => if pre.sp < STACK_SIZE {
            post == (EmuView {
                stack: pre.stack.update(pre.sp as int, pre.pc),
                sp: (pre.sp + 1) as u16,
                pc: nnn,
                ..pre
            }) && r == Ok::<(), EmuError>(())
        } else {
            post == pre && r == Err::<(), EmuError>(EmuError::StackOverflow)
        },
        Instr::SkipEqNn { x, nn } => post == skip_if(pre, pre.v_reg[x as int] == nn) && r == Ok::<
            (),
            EmuError,
        >(()),
        Instr::SkipNeNn { x, nn } => post == skip_if(pre, pre.v_reg[x as int] != nn) && r == Ok::<
            (),
            EmuError,
        >(()),
        Instr::SkipEqReg { x, y } => post == skip_if(pre, pre.v_reg[x as int] == pre.v_reg[y as int])
            && r == Ok::<(), EmuError>(()),
        Instr::SkipNeReg { x, y } => post == skip_if(pre, pre.v_reg[x as int] != pre.v_reg[y as int])
            && r == Ok::<(), EmuError>(()),
        Instr::SetNn { x, nn } => post == set_reg(pre, x as int, nn) && r == Ok::<(), EmuError>(()),
        Instr::AddNn { x, nn } => post == set_reg(
            pre,
            x as int,
            ((pre.v_reg[x as int] + nn) % 256) as u8,
        ) && r == Ok::<(), EmuError>(()),
        Instr::MovReg { x, y } => post == set_reg(pre, x as int, pre.v_reg[y as int]) && r == Ok::<
            (),
            EmuError,
        >(()),
        Instr::OrReg { x, y } => post == set_reg(
            pre,
            x as int,
            pre.v_reg[x as int] | pre.v_reg[y as int],
        ) && r == Ok::<(), EmuError>(()),
        Instr::AndReg { x, y } => post == set_reg(
            pre,
            x as int,
            pre.v_reg[x as int] & pre.v_reg[y as int],
        ) && r == Ok::<(), EmuError>(()),
        Instr::XorReg { x, y } => post == set_reg(
            pre,
            x as int,
            pre.v_reg[x as int] ^ pre.v_reg[y as int],
        ) && r == Ok::<(), EmuError>(()),
        Instr::AddReg { x, y } => {
            let s = pre.v_reg[x as int] + pre.v_reg[y as int];
            post == set_reg_flag(pre, x as int, (s % 256) as u8, bool_flag(s >= 256)) && r == Ok::<
                (),
                EmuError,
            >(())
        },
        Instr::SubReg { x, y } => {
            let a = pre.v_reg[x as int];
            let b = pre.v_reg[y as int];
            post == set_reg_flag(pre, x as int, ((a - b) % 256) as u8, bool_flag(a >= b)) && r
                == Ok::<(), EmuError>(())
        },
        Instr::ShrReg { x } => {
            let a = pre.v_reg[x as int];
            post == set_reg_flag(pre, x as int, (a / 2) as u8, (a % 2) as u8) && r == Ok::<
                (),
                EmuError,
            >(())
        },
        Instr::SubFrom { x, y } => {
            let a = pre.v_reg[x as int];
            let b = pre.v_reg[y as int];
            post == set_reg_flag(pre, x as int, ((b - a) % 256) as u8, bool_flag(b >= a)) && r
                == Ok::<(), EmuError>(())
        },
        Instr::ShlReg { x } => {
            let a = pre.v_reg[x as int];
            post == set_reg_flag(pre, x as int, ((a * 2) % 256) as u8, (a / 128) as u8) && r
                == Ok::<(), EmuError>(())
        },
        Instr::SetI { nnn } => post == (EmuView { i_reg: nnn, ..pre }) && r == Ok::<(), EmuError>(
            (),
        ),
        Instr::JmpV0 { nnn } => post == (EmuView { pc: (pre.v_reg[0] + nnn) as u16, ..pre }) && r
            == Ok::<(), EmuError>(()),
        Instr::Rand { x, nn } => rand_rel(pre, x, nn, post) && r == Ok::<(), EmuError>(()),
        Instr::Draw { x, y, n } => {
            let bx = pre.v_reg[x as int];
            let by = pre.v_reg[y as int];
            let i = pre.i_reg as int;
            if n == 0 || i + n <= RAM_SIZE {
                post == (EmuView {
                    screen: draw_screen(pre.screen, pre.ram, i, bx, by, n as int),
                    v_reg: pre.v_reg.update(
                        15,
                        bool_flag(draw_collision(pre.screen, pre.ram, i, bx, by, n as int)),
                    ),
                    ..pre
                }) && r == Ok::<(), EmuError>(())
            } else {
                post == pre && r == Err::<(), EmuError>(EmuError::MemOutOfBounds)
            }
        },
        Instr::SkipKey { x } => {
            let vx = pre.v_reg[x as int];
            if vx < NUM_KEYS {
                post == skip_if(pre, pre.keys[vx as int]) && r == Ok::<(), EmuError>(())
            } else {
                post == pre && r == Err::<(), EmuError>(EmuError::KeyOutOfBounds)
            }
        },
        Instr::SkipNoKey { x } => {
            let vx = pre.v_reg[x as int];
            if vx < NUM_KEYS {
                post == skip_if(pre, !pre.keys[vx as int]) && r == Ok::<(), EmuError>(())
            } else {
                post == pre && r == Err::<(), EmuError>(EmuError::KeyOutOfBounds)
            }
        },
        Instr::GetDelay { x } => post == set_reg(pre, x as int, pre.dt) && r == Ok::<(), EmuError>(
            (),
        ),
        Instr::WaitKey { x } => if any_pressed(pre.keys) {
            post == set_reg(pre, x as int, first_pressed(pre.keys) as u8) && r == Ok::<(), EmuError>(
                (),
            )
        } else {
            post == (EmuView { pc: (pre.pc - 2) as u16, ..pre }) && r == Ok::<(), EmuError>(())
        },
        Instr::SetDelay { x } => post == (EmuView { dt: pre.v_reg[x as int], ..pre }) && r == Ok::<
            (),
            EmuError,
        >(()),
        Instr::SetSound { x } => post == (EmuView { st: pre.v_reg[x as int], ..pre }) && r == Ok::<
            (),
            EmuError,
        >(()),
        Instr::AddI { x } => post == (EmuView {
            i_reg: ((pre.i_reg + pre.v_reg[x as int]) % 0x10000) as u16,
            ..pre
        }) && r == Ok::<(), EmuError>(()),
        Instr::FontChar { x } => post == (EmuView { i_reg: (pre.v_reg[x as int] * 5) as u16, ..pre })
            && r == Ok::<(), EmuError>(()),
        Instr::Bcd { x } => {
            let i = pre.i_reg as int;
            let vx = pre.v_reg[x as int];
            if i + 2 < RAM_SIZE {
                post == (EmuView {
                    ram: pre.ram.update(i, (vx / 100) as u8).update(
                        i + 1,
                        ((vx / 10) % 10) as u8,
                    ).update(i + 2, (vx % 10) as u8),
                    ..pre
                }) && r == Ok::<(), EmuError>(())
            } else {
                post == pre && r == Err::<(), EmuError>(EmuError::MemOutOfBounds)
            }
        },
        Instr::StoreRegs { x } => {
            let i = pre.i_reg as int;
            if i + x < RAM_SIZE {
                post == (EmuView {
                    ram: Seq::new(
                        RAM_SIZE as nat,
                        |j: int|
                            if i <= j <= i + x {
                                pre.v_reg[j - i]
                            } else {
                                pre.ram[j]
                            },
                    ),
                    ..pre
                }) && r == Ok::<(), EmuError>(())
            } else {
                post == pre && r == Err::<(), EmuError>(EmuError::MemOutOfBounds)
            }
        },
        Instr::LoadRegs { x } => {
            let i = pre.i_reg as int;
            if i + x < RAM_SIZE {
                post == (EmuView {
                    v_reg: Seq::new(
                        NUM_REGS as nat,
                        |j: int|
                            if j <= x {
                                pre.ram[i + j]
                            } else {
                                pre.v_reg[j]
                            },
                    ),
                    ..pre
                }) && r == Ok::<(), EmuError>(())
            } else {
                post == pre && r == Err::<(), EmuError>(EmuError::MemOutOfBounds)
            }
        },
    }
}

/// The view with the four scratch nibbles replaced by those of `op`, as the
/// dispatcher records them before dispatching.
pub open spec fn with_nibbles(pre: EmuView, op: u16) -> EmuView {
    EmuView { d1: nib1(op), d2: nib2(op), d3: nib3(op), d4: nib4(op), ..pre }
}

/// What decoding and executing the word `op` does: the nibbles are recorded,
/// then the decoded instruction acts as `instr_rel` says; a word that
/// decodes to nothing is the unknown-opcode fatal error.
pub open spec fn exec_rel(pre: EmuView, op: u16, post: EmuView, r: Result<(), EmuError>) -> bool {
    match spec_decode(op) {
        Some(i) => instr_rel(with_nibbles(pre, op), i, post, r),
        None => post == with_nibbles(pre, op) && r == Err::<(), EmuError>(
            EmuError::UnknownOpcode(op),
        ),
    }
}

/// Whether the program counter addresses two in-bounds memory bytes.
pub open spec fn fetch_ok(pre: EmuView) -> bool {
    pre.pc + 1 < RAM_SIZE
}

/// The instruction word at the program counter, big-endian.
pub open spec fn fetched_op(pre: EmuView) -> u16 {
    ((pre.ram[pre.pc as int] as u16) << 8) | (pre.ram[pre.pc as int + 1] as u16)
}

/// The view after a successful fetch: the program counter advanced by 2.
pub open spec fn after_fetch(pre: EmuView) -> EmuView {
    EmuView { pc: (pre.pc + 2) as u16, ..pre }
}

/// One full fetch-decode-execute cycle: an out-of-bounds fetch is fatal and
/// changes nothing; otherwise the fetched word acts from the advanced view.
pub open spec fn tick_rel(pre: EmuView, post: EmuView, r: Result<(), EmuError>) -> bool {
    if fetch_ok(pre) {
        exec_rel(after_fetch(pre), fetched_op(pre), post, r)
    } else {
        post == pre && r == Err::<(), EmuError>(EmuError::PcOutOfBounds)
    }
}

/// What the dispatcher asks of the program counter: a skip must be able to
/// advance it without leaving the 16-bit range, and the wait-for-key rewind
/// must not take it below zero. Both hold of any counter a fetch produced.
pub open spec fn execute_req(pre: EmuView, op: u16) -> bool {
    match spec_decode(op) {
        Some(i) => match i {
            Instr::WaitKey { .. } => pre.pc >= 2,
            Instr::SkipEqNn { .. } => pre.pc + 2 <= u16::MAX,
            Instr::SkipNeNn { .. } => pre.pc + 2 <= u16::MAX,
            Instr::SkipEqReg { .. } => pre.pc + 2 <= u16::MAX,
            Instr::SkipNeReg { .. } => pre.pc + 2 <= u16::MAX,
            Instr::SkipKey { .. } => pre.pc + 2 <= u16::MAX,
            Instr::SkipNoKey { .. } => pre.pc + 2 <= u16::MAX,
            _ => true,
        },
        None => true,
    }
}

/// When a key at or above `k` is pressed and none below `k` within the scan
/// is, the scan from 0 finds exactly `k`.
pub proof fn lemma_first_pressed_found(keys: Seq<bool>, k: int)
    requires
        0 <= k < NUM_KEYS,
        keys[k],
        forall|j: int| 0 <= j < k ==> !keys[j],
    ensures
        first_pressed(keys) == k,
{
    lemma_first_pressed_from(keys, 0, k);
}

/// A machine that stored some masked byte into register `x` satisfies the
/// randomize instruction's relation, whatever the byte was.
pub proof fn lemma_rand_intro(pre: EmuView, x: u8, nn: u8, b: u8, post: EmuView)
    requires
        post == set_reg(pre, x as int, b & nn),
    ensures
        instr_rel(pre, Instr::Rand { x, nn }, post, Ok(())),
{
    assert(exists|b2: u8| post == set_reg(pre, x as int, b2 & nn));
    assert(rand_rel(pre, x, nn, post));
}

/// Two numbers closer together than the modulus and congruent under it are
/// equal.
pub proof fn lemma_mod_eq_close(a: int, b: int, m: int)
    requires
        m > 0,
        a % m == b % m,
        -m < a - b < m,
    ensures
        a == b,
{
    vstd::arithmetic::div_mod::lemma_fundamental_div_mod(a, m);
    vstd::arithmetic::div_mod::lemma_fundamental_div_mod(b, m);
    let qa = a / m;
    let qb = b / m;
    let rem = a % m;
    assert(a == m * qa + rem);
    assert(b == m * qb + rem);
    assert(a - b == m * (qa - qb)) by (nonlinear_arith)
        requires
            a == m * qa + rem,
            b == m * qb + rem,
    ;
    assert(qa - qb == 0) by (nonlinear_arith)
        requires
            m > 0,
            -m < m * (qa - qb) < m,
    ;
}

/// Within one sprite, distinct bits land on distinct screen cells: rows are
/// fewer than the screen height and columns fewer than its width, so the
/// per-axis wraparound cannot make two bits coincide.
pub proof fn lemma_draw_target_inj(bx: u8, by: u8, r1: int, c1: int, r2: int, c2: int)
    requires
        0 <= r1 < SCREEN_HEIGHT,
        0 <= r2 < SCREEN_HEIGHT,
        0 <= c1 < 8,
        0 <= c2 < 8,
        draw_target(bx, by, r1, c1) == draw_target(bx, by, r2, c2),
    ensures
        r1 == r2,
        c1 == c2,
{
    let w = SCREEN_WIDTH as int;
    let h = SCREEN_HEIGHT as int;
    let x1 = (bx as int + c1) % w;
    let y1 = (by as int + r1) % h;
    let x2 = (bx as int + c2) % w;
    let y2 = (by as int + r2) % h;
    vstd::arithmetic::div_mod::lemma_mod_division_less_than_divisor(bx as int + c1, w);
    vstd::arithmetic::div_mod::lemma_mod_division_less_than_divisor(bx as int + c2, w);
    vstd::arithmetic::div_mod::lemma_mod_division_less_than_divisor(by as int + r1, h);
    vstd::arithmetic::div_mod::lemma_mod_division_less_than_divisor(by as int + r2, h);
    assert(x1 + w * y1 == x2 + w * y2);
    assert(y1 == y2 && x1 == x2);
    lemma_mod_eq_close(bx as int + c1, bx as int + c2, w);
    lemma_mod_eq_close(by as int + r1, by as int + r2, h);
}

/// The target cell of every sprite bit is inside the screen buffer.
pub proof fn lemma_draw_target_bounds(bx: u8, by: u8, r: int, c: int)
    ensures
        0 <= draw_target(bx, by, r, c) < SCREEN_WIDTH * SCREEN_HEIGHT,
{
    let w = SCREEN_WIDTH as int;
    let h = SCREEN_HEIGHT as int;
    vstd::arithmetic::div_mod::lemma_mod_division_less_than_divisor(bx as int + c, w);
    vstd::arithmetic::div_mod::lemma_mod_division_less_than_divisor(by as int + r, h);
}

proof fn lemma_first_pressed_from(keys: Seq<bool>, i: int, k: int)
    requires
        0 <= i <= k < NUM_KEYS,
        keys[k],
        forall|j: int| i <= j < k ==> !keys[j],
    ensures
        first_pressed_from(keys, i) == k,
    decreases k - i,
{
    if i < k {
        lemma_first_pressed_from(keys, i + 1, k);
    }
}

} // verus!
