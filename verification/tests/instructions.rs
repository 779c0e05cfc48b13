//! Per-instruction behaviour: decoding, arithmetic and flags, skips,
//! memory instructions, and sprite drawing.

use chip8::decode::{decode, Instr};
use chip8::emu::Emu;
use chip8::state::EmuError;

#[test]
fn decode_recognizes_each_pattern() {
    assert_eq!(decode(0x0000), Some(Instr::Nop));
    assert_eq!(decode(0x00E0), Some(Instr::Cls));
    assert_eq!(decode(0x00EE), Some(Instr::Ret));
    assert_eq!(decode(0x1ABC), Some(Instr::Jmp { nnn: 0xABC }));
    assert_eq!(decode(0x2123), Some(Instr::Call { nnn: 0x123 }));
    assert_eq!(decode(0x3A42), Some(Instr::SkipEqNn { x: 0xA, nn: 0x42 }));
    assert_eq!(decode(0x4A42), Some(Instr::SkipNeNn { x: 0xA, nn: 0x42 }));
    assert_eq!(decode(0x5AB0), Some(Instr::SkipEqReg { x: 0xA, y: 0xB }));
    assert_eq!(decode(0x6A42), Some(Instr::SetNn { x: 0xA, nn: 0x42 }));
    assert_eq!(decode(0x7A42), Some(Instr::AddNn { x: 0xA, nn: 0x42 }));
    assert_eq!(decode(0x8AB0), Some(Instr::MovReg { x: 0xA, y: 0xB }));
    assert_eq!(decode(0x8AB1), Some(Instr::OrReg { x: 0xA, y: 0xB }));
    assert_eq!(decode(0x8AB2), Some(Instr::AndReg { x: 0xA, y: 0xB }));
    assert_eq!(decode(0x8AB3), Some(Instr::XorReg { x: 0xA, y: 0xB }));
    assert_eq!(decode(0x8AB4), Some(Instr::AddReg { x: 0xA, y: 0xB }));
    assert_eq!(decode(0x8AB5), Some(Instr::SubReg { x: 0xA, y: 0xB }));
    assert_eq!(decode(0x8AB6), Some(Instr::ShrReg { x: 0xA }));
    assert_eq!(decode(0x8AB7), Some(Instr::SubFrom { x: 0xA, y: 0xB }));
    assert_eq!(decode(0x8ABE), Some(Instr::ShlReg { x: 0xA }));
    assert_eq!(decode(0x9AB0), Some(Instr::SkipNeReg { x: 0xA, y: 0xB }));
    assert_eq!(decode(0xA123), Some(Instr::SetI { nnn: 0x123 }));
    assert_eq!(decode(0xB123), Some(Instr::JmpV0 { nnn: 0x123 }));
    assert_eq!(decode(0xCA42), Some(Instr::Rand { x: 0xA, nn: 0x42 }));
    assert_eq!(decode(0xDAB5), Some(Instr::Draw { x: 0xA, y: 0xB, n: 5 }));
    assert_eq!(decode(0xEA9E), Some(Instr::SkipKey { x: 0xA }));
    assert_eq!(decode(0xEAA1), Some(Instr::SkipNoKey { x: 0xA }));
    assert_eq!(decode(0xFA07), Some(Instr::GetDelay { x: 0xA }));
    assert_eq!(decode(0xFA0A), Some(Instr::WaitKey { x: 0xA }));
    assert_eq!(decode(0xFA15), Some(Instr::SetDelay { x: 0xA }));
    assert_eq!(decode(0xFA18), Some(Instr::SetSound { x: 0xA }));
    assert_eq!(decode(0xFA1E), Some(Instr::AddI { x: 0xA }));
    assert_eq!(decode(0xFA29), Some(Instr::FontChar { x: 0xA }));
    assert_eq!(decode(0xFA33), Some(Instr::Bcd { x: 0xA }));
    assert_eq!(decode(0xFA55), Some(Instr::StoreRegs { x: 0xA }));
    assert_eq!(decode(0xFA65), Some(Instr::LoadRegs { x: 0xA }));
}

#[test]
fn decode_rejects_unrecognized_patterns() {
    assert_eq!(decode(0x0001), None);
    assert_eq!(decode(0x0123), None);
    assert_eq!(decode(0x5AB1), None);
    assert_eq!(decode(0x8AB8), None);
    assert_eq!(decode(0x9AB1), None);
    assert_eq!(decode(0xEA00), None);
    assert_eq!(decode(0xFA00), None);
    assert_eq!(decode(0xFFFF), None);
}

#[test]
fn clear_screen_darkens_everything() {
    let mut emu = Emu::new();
    emu.screen[100] = true;
    emu.screen[2047] = true;
    assert!(emu.execute(0x00E0).is_ok());
    assert!(emu.get_display().iter().all(|&p| !p));
}

#[test]
fn jump_sets_counter() {
    let mut emu = Emu::new();
    assert!(emu.execute(0x1ABC).is_ok());
    assert_eq!(emu.pc, 0xABC);
}

#[test]
fn jump_relative_adds_register_zero() {
    let mut emu = Emu::new();
    emu.v_reg[0] = 0x10;
    assert!(emu.execute(0xB300).is_ok());
    assert_eq!(emu.pc, 0x310);
}

#[test]
fn skip_equal_immediate() {
    let mut emu = Emu::new();
    emu.v_reg[0] = 5;
    assert!(emu.execute(0x3005).is_ok());
    assert_eq!(emu.pc, 0x202);
    assert!(emu.execute(0x3006).is_ok());
    assert_eq!(emu.pc, 0x202);
}

#[test]
fn skip_not_equal_immediate() {
    let mut emu = Emu::new();
    emu.v_reg[0] = 5;
    assert!(emu.execute(0x4005).is_ok());
    assert_eq!(emu.pc, 0x200);
    assert!(emu.execute(0x4006).is_ok());
    assert_eq!(emu.pc, 0x202);
}

#[test]
fn skip_register_comparisons() {
    let mut emu = Emu::new();
    emu.v_reg[1] = 7;
    emu.v_reg[2] = 7;
    emu.v_reg[3] = 9;
    assert!(emu.execute(0x5120).is_ok());
    assert_eq!(emu.pc, 0x202);
    assert!(emu.execute(0x5130).is_ok());
    assert_eq!(emu.pc, 0x202);
    assert!(emu.execute(0x9130).is_ok());
    assert_eq!(emu.pc, 0x204);
    assert!(emu.execute(0x9120).is_ok());
    assert_eq!(emu.pc, 0x204);
}

#[test]
fn set_and_add_immediate() {
    let mut emu = Emu::new();
    assert!(emu.execute(0x6A42).is_ok());
    assert_eq!(emu.v_reg[0xA], 0x42);
    assert!(emu.execute(0x7A01).is_ok());
    assert_eq!(emu.v_reg[0xA], 0x43);
    // 8-bit wraparound, no flag effect.
    emu.v_reg[0xA] = 0xFF;
    emu.v_reg[0xF] = 7;
    assert!(emu.execute(0x7A03).is_ok());
    assert_eq!(emu.v_reg[0xA], 2);
    assert_eq!(emu.v_reg[0xF], 7);
}

#[test]
fn register_move_and_bitwise() {
    let mut emu = Emu::new();
    emu.v_reg[1] = 0b1100;
    emu.v_reg[2] = 0b1010;
    assert!(emu.execute(0x8120).is_ok());
    assert_eq!(emu.v_reg[1], 0b1010);
    emu.v_reg[1] = 0b1100;
    assert!(emu.execute(0x8121).is_ok());
    assert_eq!(emu.v_reg[1], 0b1110);
    emu.v_reg[1] = 0b1100;
    assert!(emu.execute(0x8122).is_ok());
    assert_eq!(emu.v_reg[1], 0b1000);
    emu.v_reg[1] = 0b1100;
    assert!(emu.execute(0x8123).is_ok());
    assert_eq!(emu.v_reg[1], 0b0110);
}

#[test]
fn add_registers_sets_carry_flag() {
    let mut emu = Emu::new();
    emu.v_reg[0] = 200;
    emu.v_reg[1] = 100;
    assert!(emu.execute(0x8014).is_ok());
    assert_eq!(emu.v_reg[0], 44);
    assert_eq!(emu.v_reg[0xF], 1);
    emu.v_reg[0] = 200;
    emu.v_reg[1] = 55;
    assert!(emu.execute(0x8014).is_ok());
    assert_eq!(emu.v_reg[0], 255);
    assert_eq!(emu.v_reg[0xF], 0);
}

#[test]
fn subtract_sets_no_borrow_flag() {
    let mut emu = Emu::new();
    emu.v_reg[0] = 7;
    emu.v_reg[1] = 5;
    assert!(emu.execute(0x8015).is_ok());
    assert_eq!(emu.v_reg[0], 2);
    assert_eq!(emu.v_reg[0xF], 1);
    emu.v_reg[0] = 5;
    emu.v_reg[1] = 7;
    assert!(emu.execute(0x8015).is_ok());
    assert_eq!(emu.v_reg[0], 254);
    assert_eq!(emu.v_reg[0xF], 0);
    // Equal operands do not borrow.
    emu.v_reg[0] = 9;
    emu.v_reg[1] = 9;
    assert!(emu.execute(0x8015).is_ok());
    assert_eq!(emu.v_reg[0], 0);
    assert_eq!(emu.v_reg[0xF], 1);
}

#[test]
fn subtract_reversed_sets_no_borrow_flag() {
    let mut emu = Emu::new();
    emu.v_reg[0] = 5;
    emu.v_reg[1] = 7;
    assert!(emu.execute(0x8017).is_ok());
    assert_eq!(emu.v_reg[0], 2);
    assert_eq!(emu.v_reg[0xF], 1);
    emu.v_reg[0] = 7;
    emu.v_reg[1] = 5;
    assert!(emu.execute(0x8017).is_ok());
    assert_eq!(emu.v_reg[0], 254);
    assert_eq!(emu.v_reg[0xF], 0);
}

#[test]
fn shift_right_captures_low_bit() {
    let mut emu = Emu::new();
    emu.v_reg[2] = 0x03;
    assert!(emu.execute(0x8206).is_ok());
    assert_eq!(emu.v_reg[2], 0x01);
    assert_eq!(emu.v_reg[0xF], 1);
    emu.v_reg[2] = 0x04;
    assert!(emu.execute(0x8206).is_ok());
    assert_eq!(emu.v_reg[2], 0x02);
    assert_eq!(emu.v_reg[0xF], 0);
}

#[test]
fn shift_left_captures_high_bit() {
    let mut emu = Emu::new();
    emu.v_reg[2] = 0x81;
    assert!(emu.execute(0x820E).is_ok());
    assert_eq!(emu.v_reg[2], 0x02);
    assert_eq!(emu.v_reg[0xF], 1);
    emu.v_reg[2] = 0x41;
    assert!(emu.execute(0x820E).is_ok());
    assert_eq!(emu.v_reg[2], 0x82);
    assert_eq!(emu.v_reg[0xF], 0);
}

#[test]
fn address_register_instructions() {
    let mut emu = Emu::new();
    assert!(emu.execute(0xA123).is_ok());
    assert_eq!(emu.i_reg, 0x123);
    emu.v_reg[0] = 0x10;
    assert!(emu.execute(0xF01E).is_ok());
    assert_eq!(emu.i_reg, 0x133);
    // 16-bit wraparound.
    emu.i_reg = 0xFFFF;
    emu.v_reg[0] = 2;
    assert!(emu.execute(0xF01E).is_ok());
    assert_eq!(emu.i_reg, 1);
}

#[test]
fn font_character_address() {
    let mut emu = Emu::new();
    emu.v_reg[3] = 0xA;
    assert!(emu.execute(0xF329).is_ok());
    assert_eq!(emu.i_reg, 50);
    // The glyph for 0 sits at the bottom of memory.
    emu.v_reg[3] = 0;
    assert!(emu.execute(0xF329).is_ok());
    assert_eq!(emu.i_reg, 0);
}

#[test]
fn delay_and_sound_timer_instructions() {
    let mut emu = Emu::new();
    emu.v_reg[3] = 7;
    assert!(emu.execute(0xF315).is_ok());
    assert_eq!(emu.dt, 7);
    assert!(emu.execute(0xF318).is_ok());
    assert_eq!(emu.st, 7);
    emu.dt = 9;
    assert!(emu.execute(0xF407).is_ok());
    assert_eq!(emu.v_reg[4], 9);
}

#[test]
fn bcd_decomposes_decimal_digits() {
    let mut emu = Emu::new();
    emu.i_reg = 0x400;
    emu.v_reg[3] = 255;
    assert!(emu.execute(0xF333).is_ok());
    assert_eq!(&emu.ram[0x400..0x403], &[2u8, 5, 5][..]);
    emu.v_reg[3] = 0;
    assert!(emu.execute(0xF333).is_ok());
    assert_eq!(&emu.ram[0x400..0x403], &[0u8, 0, 0][..]);
    emu.v_reg[3] = 42;
    assert!(emu.execute(0xF333).is_ok());
    assert_eq!(&emu.ram[0x400..0x403], &[0u8, 4, 2][..]);
}

#[test]
fn bcd_out_of_memory_is_fatal() {
    let mut emu = Emu::new();
    emu.i_reg = 4094;
    assert_eq!(emu.execute(0xF033), Err(EmuError::MemOutOfBounds));
}

#[test]
fn store_and_load_registers_round_trip() {
    let mut emu = Emu::new();
    emu.i_reg = 0x400;
    emu.v_reg[0] = 10;
    emu.v_reg[1] = 20;
    emu.v_reg[2] = 30;
    emu.v_reg[3] = 40;
    assert!(emu.execute(0xF355).is_ok());
    assert_eq!(&emu.ram[0x400..0x404], &[10u8, 20, 30, 40][..]);
    // Only registers 0 through X are stored.
    assert_eq!(emu.ram[0x404], 0);
    emu.v_reg[0] = 0;
    emu.v_reg[1] = 0;
    emu.v_reg[2] = 0;
    emu.v_reg[3] = 0;
    assert!(emu.execute(0xF365).is_ok());
    assert_eq!(&emu.v_reg[0..4], &[10u8, 20, 30, 40][..]);
    // Registers above X are untouched by the load.
    assert_eq!(emu.v_reg[4], 0);
}

#[test]
fn store_registers_out_of_memory_is_fatal() {
    let mut emu = Emu::new();
    emu.i_reg = 4090;
    assert_eq!(emu.execute(0xFF55), Err(EmuError::MemOutOfBounds));
    emu.i_reg = 4090;
    assert_eq!(emu.execute(0xFF65), Err(EmuError::MemOutOfBounds));
}

#[test]
fn skip_on_key_state() {
    let mut emu = Emu::new();
    emu.v_reg[0] = 0xB;
    emu.keypress(0xB, true);
    assert!(emu.execute(0xE09E).is_ok());
    assert_eq!(emu.pc, 0x202);
    assert!(emu.execute(0xE0A1).is_ok());
    assert_eq!(emu.pc, 0x202);
    emu.keypress(0xB, false);
    assert!(emu.execute(0xE09E).is_ok());
    assert_eq!(emu.pc, 0x202);
    assert!(emu.execute(0xE0A1).is_ok());
    assert_eq!(emu.pc, 0x204);
}

#[test]
fn skip_on_key_with_bad_index_is_fatal() {
    let mut emu = Emu::new();
    emu.v_reg[0] = 200;
    assert_eq!(emu.execute(0xE09E), Err(EmuError::KeyOutOfBounds));
    assert_eq!(emu.execute(0xE0A1), Err(EmuError::KeyOutOfBounds));
}

#[test]
fn draw_renders_glyph_and_reports_no_collision_on_dark_screen() {
    let mut emu = Emu::new();
    // Draw the built-in glyph for 0 (5 rows at address 0) at (10, 5).
    emu.v_reg[0] = 10;
    emu.v_reg[1] = 5;
    emu.i_reg = 0;
    assert!(emu.execute(0xD015).is_ok());
    assert_eq!(emu.v_reg[0xF], 0);
    let screen = emu.get_display();
    // Top row of the glyph is 0xF0: four lit cells.
    assert!(screen[10 + 64 * 5]);
    assert!(screen[11 + 64 * 5]);
    assert!(screen[12 + 64 * 5]);
    assert!(screen[13 + 64 * 5]);
    assert!(!screen[14 + 64 * 5]);
    // Second row is 0x90: ends lit, middle dark.
    assert!(screen[10 + 64 * 6]);
    assert!(!screen[11 + 64 * 6]);
    assert!(!screen[12 + 64 * 6]);
    assert!(screen[13 + 64 * 6]);
}

#[test]
fn draw_twice_restores_screen_and_reports_collision() {
    let mut emu = Emu::new();
    emu.v_reg[0] = 10;
    emu.v_reg[1] = 5;
    emu.i_reg = 0;
    assert!(emu.execute(0xD015).is_ok());
    assert_eq!(emu.v_reg[0xF], 0);
    assert!(emu.execute(0xD015).is_ok());
    // The second identical draw toggles every lit cell back off...
    assert!(emu.get_display().iter().all(|&p| !p));
    // ...and collides with the image the first draw left.
    assert_eq!(emu.v_reg[0xF], 1);
}

#[test]
fn draw_wraps_horizontally_at_right_edge() {
    let mut emu = Emu::new();
    emu.i_reg = 0x300;
    emu.ram[0x300] = 0xFF;
    emu.v_reg[0] = 63;
    emu.v_reg[1] = 0;
    assert!(emu.execute(0xD011).is_ok());
    let screen = emu.get_display();
    // The high bit lands on column 63; the rest wrap to columns 0..=6.
    assert!(screen[63]);
    for x in 0..7 {
        assert!(screen[x]);
    }
    assert!(!screen[7]);
    // Nothing bleeds into the next row.
    assert!(!screen[64 + 63]);
}

#[test]
fn draw_wraps_vertically_at_bottom_edge() {
    let mut emu = Emu::new();
    emu.i_reg = 0x300;
    emu.ram[0x300] = 0x80;
    emu.ram[0x301] = 0x80;
    emu.v_reg[0] = 0;
    emu.v_reg[1] = 31;
    assert!(emu.execute(0xD012).is_ok());
    let screen = emu.get_display();
    // Row 0 of the sprite is on the last screen row; row 1 wraps to the top.
    assert!(screen[64 * 31]);
    assert!(screen[0]);
}

#[test]
fn draw_collision_only_when_lit_cell_toggles() {
    let mut emu = Emu::new();
    emu.i_reg = 0x300;
    emu.ram[0x300] = 0x80;
    emu.v_reg[0] = 0;
    emu.v_reg[1] = 0;
    assert!(emu.execute(0xD011).is_ok());
    assert_eq!(emu.v_reg[0xF], 0);
    // A second sprite whose set bit misses the lit cell: still no collision.
    emu.ram[0x301] = 0x40;
    emu.i_reg = 0x301;
    assert!(emu.execute(0xD011).is_ok());
    assert_eq!(emu.v_reg[0xF], 0);
    // A sprite that toggles the lit cell: collision.
    emu.i_reg = 0x300;
    assert!(emu.execute(0xD011).is_ok());
    assert_eq!(emu.v_reg[0xF], 1);
}

#[test]
fn draw_sprite_rows_past_memory_end_is_fatal() {
    let mut emu = Emu::new();
    emu.i_reg = 4090;
    assert_eq!(emu.execute(0xD01F), Err(EmuError::MemOutOfBounds));
    // A height that stays inside memory is fine.
    emu.i_reg = 4090;
    assert!(emu.execute(0xD016).is_ok());
}

#[test]
fn draw_zero_height_sprite_does_nothing() {
    let mut emu = Emu::new();
    emu.v_reg[0xF] = 1;
    assert!(emu.execute(0xD010).is_ok());
    assert!(emu.get_display().iter().all(|&p| !p));
    assert_eq!(emu.v_reg[0xF], 0);
}
