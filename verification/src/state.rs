//! The mathematical model of the machine: a ghost view of the whole state,
//! its well-formedness, the power-on contents, and the fatal error taxonomy.

use vstd::prelude::*;

verus! {

/// Width of the monochrome screen, in cells.
pub const SCREEN_WIDTH: usize = 64;

/// Height of the monochrome screen, in cells.
pub const SCREEN_HEIGHT: usize = 32;

/// Number of cells in the flat, row-major screen buffer.
pub const SCREEN_CELLS: usize = 2048;

/// Size of the byte-addressable memory.
pub const RAM_SIZE: usize = 4096;

/// Number of general-purpose 8-bit data registers.
pub const NUM_REGS: usize = 16;

/// Capacity of the return-address stack.
pub const STACK_SIZE: usize = 16;

/// Number of logical keys in the keyboard latch.
pub const NUM_KEYS: usize = 16;

/// Number of bytes of built-in glyph data at the bottom of memory.
pub const FONTSET_SIZE: usize = 80;

/// Address at which program images are staged and execution begins.
pub const START_ADDR: u16 = 0x200;

/// Every fatal condition the interpreter can report. Each one indicates a
/// malformed program or a caller precondition violation; none is recoverable.
#[derive(Clone, Copy, Debug, PartialEq, Eq, Structural)]
pub enum EmuError {
    /// The program counter does not address two in-bounds memory bytes.
    PcOutOfBounds,
    /// An instruction addressed memory outside the 4096-byte space.
    MemOutOfBounds,
    /// A call was made with the return-address stack already full.
    StackOverflow,
    /// A return was made with the return-address stack empty.
    StackUnderflow,
    /// A key-skip instruction named a key index outside the latch.
    KeyOutOfBounds,
    /// The fetched word matches no recognized instruction pattern.
    UnknownOpcode(u16),
}

/// The complete machine state as mathematical values: every contract of the
/// interpreter is an equation over values of this type.
#[verifier::ext_equal]
pub struct EmuView {
    /// Program counter: address of the next instruction word to fetch.
    pub pc: u16,
    /// The 4096 memory bytes.
    pub ram: Seq<u8>,
    /// The 64x32 screen cells, row-major: cell (x, y) at index x + 64 * y.
    pub screen: Seq<bool>,
    /// The 16 data registers; register 15 doubles as the flag register.
    pub v_reg: Seq<u8>,
    /// Address register, used as a memory pointer.
    pub i_reg: u16,
    /// Stack pointer: number of return addresses on the stack.
    pub sp: u16,
    /// The 16 return-address slots.
    pub stack: Seq<u16>,
    /// Keyboard latch: which of the 16 logical keys are currently pressed.
    pub keys: Seq<bool>,
    /// Delay timer, decremented once per timer tick while nonzero.
    pub dt: u8,
    /// Sound timer, decremented once per timer tick while nonzero.
    pub st: u8,
    /// Most significant nibble of the most recently decoded word.
    pub d1: u16,
    /// Second nibble of the most recently decoded word.
    pub d2: u16,
    /// Third nibble of the most recently decoded word.
    pub d3: u16,
    /// Least significant nibble of the most recently decoded word.
    pub d4: u16,
}

/// Well-formedness of a machine state: fixed sizes, stack pointer within
/// capacity, decoded nibbles in nibble range.
pub open spec fn wf(v: EmuView) -> bool {
    &&& v.ram.len() == RAM_SIZE
    &&& v.screen.len() == SCREEN_CELLS
    &&& v.v_reg.len() == NUM_REGS
    &&& v.stack.len() == STACK_SIZE
    &&& v.keys.len() == NUM_KEYS
    &&& v.sp <= STACK_SIZE
    &&& v.d1 < 16
    &&& v.d2 < 16
    &&& v.d3 < 16
    &&& v.d4 < 16
}

/// The built-in glyph data: sixteen 5-byte glyphs for the hexadecimal digits.
pub open spec fn font_seq() -> Seq<u8> {
    seq![
        0xF0u8, 0x90, 0x90, 0x90, 0xF0, // 0
        0x20, 0x60, 0x20, 0x20, 0x70, // 1
        0xF0, 0x10, 0xF0, 0x80, 0xF0, // 2
        0xF0, 0x10, 0xF0, 0x10, 0xF0, // 3
        0x90, 0x90, 0xF0, 0x10, 0x10, // 4
        0xF0, 0x80, 0xF0, 0x10, 0xF0, // 5
        0xF0, 0x80, 0xF0, 0x90, 0xF0, // 6
        0xF0, 0x10, 0x20, 0x40, 0x40, // 7
        0xF0, 0x90, 0xF0, 0x90, 0xF0, // 8
        0xF0, 0x90, 0xF0, 0x10, 0xF0, // 9
        0xF0, 0x90, 0xF0, 0x90, 0x90, // A
        0xE0, 0x90, 0xE0, 0x90, 0xE0, // B
        0xF0, 0x80, 0x80, 0x80, 0xF0, // C
        0xE0, 0x90, 0x90, 0x90, 0xE0, // D
        0xF0, 0x80, 0xF0, 0x80, 0xF0, // E
        0xF0, 0x80, 0xF0, 0x80, 0x80, // F
    ]
}

/// Memory at power-on: the glyph data in bytes [0, 80), zero elsewhere.
pub open spec fn initial_ram() -> Seq<u8> {
    Seq::new(RAM_SIZE as nat, |i: int| if i < FONTSET_SIZE { font_seq()[i] } else { 0u8 })
}

/// An all-dark screen buffer.
pub open spec fn blank_screen() -> Seq<bool> {
    Seq::new(SCREEN_CELLS as nat, |i: int| false)
}

/// The machine state established by construction and restored by reset:
/// memory zeroed except the glyph region, everything else cleared, and the
/// program counter at the program-load base address.
pub open spec fn initial_view() -> EmuView {
    EmuView {
        pc: START_ADDR,
        ram: initial_ram(),
        screen: blank_screen(),
        v_reg: Seq::new(NUM_REGS as nat, |i: int| 0u8),
        i_reg: 0,
        sp: 0,
        stack: Seq::new(STACK_SIZE as nat, |i: int| 0u16),
        keys: Seq::new(NUM_KEYS as nat, |i: int| false),
        dt: 0,
        st: 0,
        d1: 0,
        d2: 0,
        d3: 0,
        d4: 0,
    }
}

/// The initial state is well-formed.
pub proof fn lemma_initial_view_wf()
    ensures
        wf(initial_view()),
{
}

} // verus!
