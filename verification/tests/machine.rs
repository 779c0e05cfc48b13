//! Lifecycle, timers, program loading, the fetch-execute cycle, and
//! end-to-end scenarios.

use chip8::emu::Emu;
use chip8::state::EmuError;

#[test]
fn new_machine_starts_at_load_base() {
    let emu = Emu::new();
    assert_eq!(emu.pc, 0x200);
    assert_eq!(emu.i_reg, 0);
    assert_eq!(emu.sp, 0);
    assert_eq!(emu.dt, 0);
    assert_eq!(emu.st, 0);
    assert!(emu.v_reg.iter().all(|&v| v == 0));
    assert!(emu.keys.iter().all(|&k| !k));
    assert!(emu.stack.iter().all(|&a| a == 0));
}

#[test]
fn new_machine_has_font_loaded() {
    let emu = Emu::new();
    assert_eq!(emu.ram[0], 0xF0);
    assert_eq!(emu.ram[4], 0xF0);
    assert_eq!(emu.ram[5], 0x20);
    assert_eq!(emu.ram[79], 0x80);
    // Everything after the font region is zero.
    assert!(emu.ram[80..].iter().all(|&b| b == 0));
}

#[test]
fn new_machine_screen_is_dark() {
    let emu = Emu::new();
    let screen = emu.get_display();
    assert_eq!(screen.len(), 64 * 32);
    assert!(screen.iter().all(|&p| !p));
}

#[test]
fn load_places_program_at_base() {
    let mut emu = Emu::new();
    emu.load(&[1, 2, 3]);
    assert_eq!(emu.ram[0x200], 1);
    assert_eq!(emu.ram[0x201], 2);
    assert_eq!(emu.ram[0x202], 3);
    assert_eq!(emu.ram[0x203], 0);
}

#[test]
fn reset_restores_power_on_state() {
    let mut emu = Emu::new();
    emu.load(&[0x60, 0x2A, 0x12, 0x00]);
    assert!(emu.tick().is_ok());
    emu.keypress(4, true);
    emu.dt = 9;
    emu.reset();
    let fresh = Emu::new();
    assert_eq!(emu.pc, fresh.pc);
    assert_eq!(emu.ram, fresh.ram);
    assert_eq!(emu.v_reg, fresh.v_reg);
    assert_eq!(emu.keys, fresh.keys);
    assert_eq!(emu.dt, 0);
}

#[test]
fn keypress_sets_and_clears_latch() {
    let mut emu = Emu::new();
    emu.keypress(0xC, true);
    assert!(emu.keys[0xC]);
    emu.keypress(0xC, false);
    assert!(!emu.keys[0xC]);
}

#[test]
fn timers_floor_at_zero() {
    let mut emu = Emu::new();
    emu.dt = 2;
    emu.st = 1;
    emu.tick_timers();
    assert_eq!((emu.dt, emu.st), (1, 0));
    emu.tick_timers();
    assert_eq!((emu.dt, emu.st), (0, 0));
    emu.tick_timers();
    assert_eq!((emu.dt, emu.st), (0, 0));
}

#[test]
fn tick_executes_nop_and_advances() {
    let mut emu = Emu::new();
    // Memory at the base address is zero: opcode 0000, the no-op.
    assert!(emu.tick().is_ok());
    assert_eq!(emu.pc, 0x202);
}

#[test]
fn tick_reports_fetch_out_of_bounds() {
    let mut emu = Emu::new();
    emu.pc = 4095;
    assert_eq!(emu.tick(), Err(EmuError::PcOutOfBounds));
    assert_eq!(emu.pc, 4095);
    emu.pc = 4096;
    assert_eq!(emu.tick(), Err(EmuError::PcOutOfBounds));
}

#[test]
fn tick_reports_unknown_opcode() {
    let mut emu = Emu::new();
    emu.load(&[0x50, 0x01]);
    assert_eq!(emu.tick(), Err(EmuError::UnknownOpcode(0x5001)));
}

#[test]
fn wait_key_spins_in_place_until_pressed() {
    let mut emu = Emu::new();
    emu.load(&[0xF5, 0x0A]);
    for _ in 0..3 {
        assert!(emu.tick().is_ok());
        assert_eq!(emu.pc, 0x200);
    }
    emu.keypress(9, true);
    emu.keypress(3, true);
    assert!(emu.tick().is_ok());
    assert_eq!(emu.pc, 0x202);
    // The lowest pressed index is captured.
    assert_eq!(emu.v_reg[5], 3);
}

#[test]
fn wait_key_prefers_lowest_index() {
    let mut emu = Emu::new();
    emu.load(&[0xF0, 0x0A]);
    emu.keypress(0xF, true);
    emu.keypress(0x7, true);
    emu.keypress(0xA, true);
    assert!(emu.tick().is_ok());
    assert_eq!(emu.v_reg[0], 7);
}

#[test]
fn add_immediate_wraps_and_loops() {
    // CLS; LD V0,5; ADD V0,250; JP 0x200 — four steps end with register 0
    // holding (5 + 250) mod 256 and the counter back at the base address.
    let mut emu = Emu::new();
    emu.load(&[0x00, 0xE0, 0x60, 0x05, 0x70, 0xFA, 0x12, 0x00]);
    for _ in 0..4 {
        assert!(emu.tick().is_ok());
    }
    assert_eq!(emu.v_reg[0], 255);
    assert_eq!(emu.pc, 0x200);
}

#[test]
fn call_and_return_round_trip() {
    let mut emu = Emu::new();
    // 0x200: CALL 0x206; 0x206: RET.
    emu.load(&[0x22, 0x06, 0x00, 0x00, 0x00, 0x00, 0x00, 0xEE]);
    assert!(emu.tick().is_ok());
    assert_eq!(emu.pc, 0x206);
    assert_eq!(emu.sp, 1);
    assert_eq!(emu.stack[0], 0x202);
    assert!(emu.tick().is_ok());
    assert_eq!(emu.pc, 0x202);
    assert_eq!(emu.sp, 0);
}

#[test]
fn return_with_empty_stack_is_fatal() {
    let mut emu = Emu::new();
    assert_eq!(emu.execute(0x00EE), Err(EmuError::StackUnderflow));
    assert_eq!(emu.pc, 0x200);
    assert_eq!(emu.sp, 0);
}

#[test]
fn call_past_capacity_is_fatal() {
    let mut emu = Emu::new();
    for _ in 0..16 {
        assert!(emu.execute(0x2300).is_ok());
    }
    assert_eq!(emu.sp, 16);
    assert_eq!(emu.execute(0x2300), Err(EmuError::StackOverflow));
    assert_eq!(emu.sp, 16);
}

#[test]
fn random_byte_is_masked() {
    let mut emu = Emu::new();
    for _ in 0..32 {
        assert!(emu.execute(0xC1F0).is_ok());
        assert_eq!(emu.v_reg[1] & 0x0F, 0);
    }
}

#[test]
fn random_replay_with_given_byte_is_deterministic() {
    let mut emu = Emu::new();
    emu.d2 = 1;
    emu.set_vx_to_rand_byte(0xC1F0, 0xAB);
    assert_eq!(emu.v_reg[1], 0xA0);
    emu.set_vx_to_rand_byte(0xC10F, 0xAB);
    assert_eq!(emu.v_reg[1], 0x0B);
}
