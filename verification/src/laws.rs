//! Laws of the interpreter: properties that relate several operations or
//! hold of every state, stated over the semantic relations and proved.

use vstd::prelude::*;

verus! {

use crate::state::{EmuView, EmuError, wf, SCREEN_CELLS, NUM_KEYS};
use crate::decode::{Instr, spec_decode};
use crate::semantics::{
    instr_rel, tick_rel, with_nibbles, after_fetch, fetch_ok, fetched_op, draw_screen, draw_covers,
    draw_collision, draw_target, sprite_row_bit, bool_flag, set_reg, any_pressed, first_pressed,
    first_pressed_from, tick_timers_view, lemma_draw_target_bounds,
};

/// Adding register Y into register X wraps modulo 256 and reports the carry
/// in the flag register: the flag is 1 exactly when the unsigned sum
/// overflowed 8 bits. When X is the flag register itself, the carry
/// overwrites the sum, so the sum clause excludes that register.
pub proof fn lemma_add_registers(pre: EmuView, x: u8, y: u8, post: EmuView)
    requires
        wf(pre),
        x < 16,
        y < 16,
        instr_rel(pre, Instr::AddReg { x, y }, post, Ok(())),
    ensures
        x != 15 ==> post.v_reg[x as int] == (pre.v_reg[x as int] + pre.v_reg[y as int]) % 256,
        post.v_reg[15] == bool_flag(pre.v_reg[x as int] + pre.v_reg[y as int] >= 256),
{
}

/// Subtracting register Y from register X wraps modulo 256 and reports the
/// absence of a borrow in the flag register: the flag is 1 exactly when X
/// held at least Y. When X is the flag register itself, the flag overwrites
/// the difference, so the difference clause excludes that register.
pub proof fn lemma_subtract(pre: EmuView, x: u8, y: u8, post: EmuView)
    requires
        wf(pre),
        x < 16,
        y < 16,
        instr_rel(pre, Instr::SubReg { x, y }, post, Ok(())),
    ensures
        x != 15 ==> post.v_reg[x as int] == (pre.v_reg[x as int] - pre.v_reg[y as int]) % 256,
        post.v_reg[15] == bool_flag(pre.v_reg[x as int] >= pre.v_reg[y as int]),
{
}

/// Drawing the same sprite at the same position twice restores every screen
/// cell to its value before the first draw: each covered cell is toggled
/// twice, each other cell never.
pub proof fn lemma_draw_twice_restores(
    screen: Seq<bool>,
    ram: Seq<u8>,
    i: int,
    bx: u8,
    by: u8,
    n: int,
)
    requires
        screen.len() == SCREEN_CELLS,
    ensures
        draw_screen(draw_screen(screen, ram, i, bx, by, n), ram, i, bx, by, n) == screen,
{
    let s1 = draw_screen(screen, ram, i, bx, by, n);
    let s2 = draw_screen(s1, ram, i, bx, by, n);
    assert(s2 =~= screen);
}

/// The collision outcome of the second of two identical draws: it reports
/// exactly the sprite bits whose cells the first draw turned on, that is,
/// those whose cells were dark before. On a dark screen the second draw
/// overlaps its own lit image wherever the sprite has a set bit.
pub proof fn lemma_redraw_collision(
    screen: Seq<bool>,
    ram: Seq<u8>,
    i: int,
    bx: u8,
    by: u8,
    n: int,
)
    requires
        screen.len() == SCREEN_CELLS,
    ensures
        draw_collision(draw_screen(screen, ram, i, bx, by, n), ram, i, bx, by, n) == (exists|
            r: int,
            c: int,
        |
            0 <= r < n && 0 <= c < 8 && sprite_row_bit(ram[i + r], c) && !screen[draw_target(
                bx,
                by,
                r,
                c,
            )]),
{
    let s1 = draw_screen(screen, ram, i, bx, by, n);
    if draw_collision(s1, ram, i, bx, by, n) {
        let (r, c) = choose|r: int, c: int|
            0 <= r < n && 0 <= c < 8 && sprite_row_bit(ram[i + r], c) && s1[draw_target(
                bx,
                by,
                r,
                c,
            )];
        lemma_draw_target_bounds(bx, by, r, c);
        assert(draw_covers(ram, i, bx, by, n, draw_target(bx, by, r, c)));
        assert(!screen[draw_target(bx, by, r, c)]);
    }
    if exists|r: int, c: int|
        0 <= r < n && 0 <= c < 8 && sprite_row_bit(ram[i + r], c) && !screen[draw_target(
            bx,
            by,
            r,
            c,
        )] {
        let (r, c) = choose|r: int, c: int|
            0 <= r < n && 0 <= c < 8 && sprite_row_bit(ram[i + r], c) && !screen[draw_target(
                bx,
                by,
                r,
                c,
            )];
        lemma_draw_target_bounds(bx, by, r, c);
        assert(draw_covers(ram, i, bx, by, n, draw_target(bx, by, r, c)));
        assert(s1[draw_target(bx, by, r, c)]);
        assert(draw_collision(s1, ram, i, bx, by, n));
    }
}

/// Sprite coordinates wrap independently per axis: a sprite based at the
/// rightmost column writes its high bit at column 63 of its row and every
/// later bit wraps to columns 0 upward of the same row, never off screen.
pub proof fn lemma_sprite_wraps_at_right_edge(by: u8, r: int, c: int)
    requires
        0 <= c < 8,
    ensures
        draw_target(63, by, r, c) == (if c == 0 {
            63int
        } else {
            c - 1
        }) + 64 * ((by + r) % 32),
{
    if c == 0 {
        vstd::arithmetic::div_mod::lemma_small_mod(63nat, 64nat);
    } else {
        vstd::arithmetic::div_mod::lemma_fundamental_div_mod_converse_mod(63 + c, 64, 1, c - 1);
    }
}

/// Storing registers 0 through X at the address register and then loading
/// registers 0 through X back from the same address restores every data
/// register to its value before the store.
pub proof fn lemma_store_load_roundtrip(pre: EmuView, x: u8, mid: EmuView, post: EmuView)
    requires
        wf(pre),
        x < 16,
        instr_rel(pre, Instr::StoreRegs { x }, mid, Ok(())),
        instr_rel(mid, Instr::LoadRegs { x }, post, Ok(())),
    ensures
        post.v_reg == pre.v_reg,
        post.ram == mid.ram,
{
    assert(post.v_reg =~= pre.v_reg);
}

/// The timers never go below zero: a tick decrements each timer only while
/// it is nonzero, so a zero timer stays exactly zero and a nonzero timer
/// loses exactly one.
pub proof fn lemma_timers_floor_at_zero(pre: EmuView)
    ensures
        0 <= tick_timers_view(pre).dt <= pre.dt,
        0 <= tick_timers_view(pre).st <= pre.st,
        pre.dt == 0 ==> tick_timers_view(pre).dt == 0,
        pre.st == 0 ==> tick_timers_view(pre).st == 0,
        pre.dt > 0 ==> tick_timers_view(pre).dt == pre.dt - 1,
        pre.st > 0 ==> tick_timers_view(pre).st == pre.st - 1,
{
}

/// The lowest pressed key: when any key is pressed, the scan finds a
/// pressed index below which no key is pressed.
pub proof fn lemma_first_pressed_is_lowest(keys: Seq<bool>)
    requires
        keys.len() == NUM_KEYS,
        any_pressed(keys),
    ensures
        0 <= first_pressed(keys) < NUM_KEYS,
        keys[first_pressed(keys)],
        forall|j: int| 0 <= j < first_pressed(keys) ==> !keys[j],
{
    lemma_first_pressed_from_props(keys, 0);
    if first_pressed(keys) == 16 {
        let k = choose|k: int| 0 <= k < NUM_KEYS && keys[k];
        assert(false);
    }
}

proof fn lemma_first_pressed_from_props(keys: Seq<bool>, i: int)
    requires
        0 <= i <= NUM_KEYS,
    ensures
        first_pressed_from(keys, i) == 16 ==> forall|j: int| i <= j < NUM_KEYS ==> !keys[j],
        first_pressed_from(keys, i) != 16 ==> i <= first_pressed_from(keys, i) < NUM_KEYS
            && keys[first_pressed_from(keys, i)] && forall|j: int|
            i <= j < first_pressed_from(keys, i) ==> !keys[j],
    decreases NUM_KEYS - i,
{
    if i < NUM_KEYS && !keys[i] {
        lemma_first_pressed_from_props(keys, i + 1);
    }
}

/// The wait-for-key instruction blocks without blocking: a step that
/// fetches it with no key pressed returns successfully and leaves the whole
/// machine unchanged (the program counter in particular, so the same word
/// is fetched again), except for the recorded scratch nibbles. As soon as
/// a key is pressed, the same step advances the program counter exactly
/// once past the instruction and captures the lowest pressed key index in
/// register X.
pub proof fn lemma_wait_key_spins_until_pressed(
    pre: EmuView,
    post: EmuView,
    r: Result<(), EmuError>,
    x: u8,
)
    requires
        wf(pre),
        fetch_ok(pre),
        spec_decode(fetched_op(pre)) == Some(Instr::WaitKey { x }),
        tick_rel(pre, post, r),
    ensures
        r == Ok::<(), EmuError>(()),
        !any_pressed(pre.keys) ==> post == with_nibbles(pre, fetched_op(pre)),
        !any_pressed(pre.keys) ==> post.pc == pre.pc && post.v_reg == pre.v_reg && post.ram
            == pre.ram && post.keys == pre.keys,
        any_pressed(pre.keys) ==> post.pc == pre.pc + 2 && post.v_reg == pre.v_reg.update(
            x as int,
            first_pressed(pre.keys) as u8,
        ) && post.ram == pre.ram && post.keys == pre.keys,
{
    let op = fetched_op(pre);
    let mid = with_nibbles(after_fetch(pre), op);
    assert(instr_rel(mid, Instr::WaitKey { x }, post, r));
    if !any_pressed(pre.keys) {
        assert(post == (EmuView { pc: (mid.pc - 2) as u16, ..mid }));
        assert(post =~= with_nibbles(pre, op));
    } else {
        assert(post == set_reg(mid, x as int, first_pressed(mid.keys) as u8));
    }
}

} // verus!
