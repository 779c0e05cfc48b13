//! The machine state and its lifecycle, and the fetch-decode-execute cycle.

use vstd::prelude::*;

verus! {

use crate::state::{EmuView, EmuError, initial_view, initial_ram, font_seq};
use crate::state::{
    RAM_SIZE, NUM_REGS, NUM_KEYS, STACK_SIZE, SCREEN_CELLS, FONTSET_SIZE, START_ADDR,
};
use crate::semantics::{
    exec_rel, tick_rel, execute_req, fetch_ok, fetched_op, after_fetch, with_nibbles,
    tick_timers_view,
};
use crate::decode::{Instr, decode, lemma_op_field_bounds};

/// The complete mutable state of the virtual machine. It is owned
/// exclusively by its caller; the instruction engine mutates everything but
/// the keyboard latch, which only `keypress` writes.
pub struct Emu {
    /// Program counter.
    pub pc: u16,
    /// The 4096 bytes of memory.
    pub ram: Vec<u8>,
    /// The 64x32 screen cells, row-major.
    pub screen: Vec<bool>,
    /// The 16 data registers; register 15 is the flag register.
    pub v_reg: Vec<u8>,
    /// Address register.
    pub i_reg: u16,
    /// Stack pointer.
    pub sp: u16,
    /// The 16 return-address slots.
    pub stack: Vec<u16>,
    /// Keyboard latch.
    pub keys: Vec<bool>,
    /// Delay timer.
    pub dt: u8,
    /// Sound timer.
    pub st: u8,
    /// Most significant nibble of the most recently decoded word.
    pub d1: u16,
    /// Second nibble of the most recently decoded word.
    pub d2: u16,
    /// Third nibble of the most recently decoded word.
    pub d3: u16,
    /// Least significant nibble of the most recently decoded word.
    pub d4: u16,
}

impl View for Emu {
    type V = EmuView;

    open spec fn view(&self) -> EmuView {
        EmuView {
            pc: self.pc,
            ram: self.ram@,
            screen: self.screen@,
            v_reg: self.v_reg@,
            i_reg: self.i_reg,
            sp: self.sp,
            stack: self.stack@,
            keys: self.keys@,
            dt: self.dt,
            st: self.st,
            d1: self.d1,
            d2: self.d2,
            d3: self.d3,
            d4: self.d4,
        }
    }
}

/// A vector of `n` copies of `val`.
pub(crate) fn filled<T: Copy>(n: usize, val: T) -> (v: Vec<T>)
    ensures
        v@ == Seq::new(n as nat, |i: int| val),
{
    let mut v: Vec<T> = Vec::new();
    while v.len() < n
        invariant
            v@.len() <= n,
            forall|i: int| 0 <= i < v@.len() ==> v@[i] == val,
        decreases n - v.len(),
    {
        v.push(val);
    }
    proof {
        assert(v@ =~= Seq::new(n as nat, |i: int| val));
    }
    v
}

/// Memory at power-on: the sixteen 5-byte glyphs, then zeroes.
fn build_ram() -> (v: Vec<u8>)
    ensures
        v@ == initial_ram(),
{
    let mut v: Vec<u8> = Vec::new();
    v.push(0xF0);
    v.push(0x90);
    v.push(0x90);
    v.push(0x90);
    v.push(0xF0);
    v.push(0x20);
    v.push(0x60);
    v.push(0x20);
    v.push(0x20);
    v.push(0x70);
    v.push(0xF0);
    v.push(0x10);
    v.push(0xF0);
    v.push(0x80);
    v.push(0xF0);
    v.push(0xF0);
    v.push(0x10);
    v.push(0xF0);
    v.push(0x10);
    v.push(0xF0);
    v.push(0x90);
    v.push(0x90);
    v.push(0xF0);
    v.push(0x10);
    v.push(0x10);
    v.push(0xF0);
    v.push(0x80);
    v.push(0xF0);
    v.push(0x10);
    v.push(0xF0);
    v.push(0xF0);
    v.push(0x80);
    v.push(0xF0);
    v.push(0x90);
    v.push(0xF0);
    v.push(0xF0);
    v.push(0x10);
    v.push(0x20);
    v.push(0x40);
    v.push(0x40);
    v.push(0xF0);
    v.push(0x90);
    v.push(0xF0);
    v.push(0x90);
    v.push(0xF0);
    v.push(0xF0);
    v.push(0x90);
    v.push(0xF0);
    v.push(0x10);
    v.push(0xF0);
    v.push(0xF0);
    v.push(0x90);
    v.push(0xF0);
    v.push(0x90);
    v.push(0x90);
    v.push(0xE0);
    v.push(0x90);
    v.push(0xE0);
    v.push(0x90);
    v.push(0xE0);
    v.push(0xF0);
    v.push(0x80);
    v.push(0x80);
    v.push(0x80);
    v.push(0xF0);
    v.push(0xE0);
    v.push(0x90);
    v.push(0x90);
    v.push(0x90);
    v.push(0xE0);
    v.push(0xF0);
    v.push(0x80);
    v.push(0xF0);
    v.push(0x80);
    v.push(0xF0);
    v.push(0xF0);
    v.push(0x80);
    v.push(0xF0);
    v.push(0x80);
    v.push(0x80);
    proof {
        assert(v@ =~= font_seq());
    }
    while v.len() < RAM_SIZE
        invariant
            FONTSET_SIZE <= v@.len() <= RAM_SIZE,
            forall|i: int| 0 <= i < FONTSET_SIZE ==> v@[i] == font_seq()[i],
            forall|i: int| FONTSET_SIZE <= i < v@.len() ==> v@[i] == 0u8,
        decreases RAM_SIZE - v.len(),
    {
        v.push(0);
    }
    proof {
        assert(v@ =~= initial_ram());
    }
    v
}

impl Emu {
    /// Well-formedness: the fixed sizes of the machine's arrays, a stack
    /// pointer within capacity, and nibble-sized decode scratch fields.
    pub open spec fn wf(&self) -> bool {
        crate::state::wf(self@)
    }

    /// A new machine: program counter at the load base address, memory
    /// zeroed except the glyph font, everything else cleared.
    pub fn new() -> (r: Emu)
        ensures
            r.wf(),
            r@ == initial_view(),
    {
        let e = Emu {
            pc: START_ADDR,
            ram: build_ram(),
            screen: filled(SCREEN_CELLS, false),
            v_reg: filled(NUM_REGS, 0u8),
            i_reg: 0,
            sp: 0,
            stack: filled(STACK_SIZE, 0u16),
            keys: filled(NUM_KEYS, false),
            dt: 0,
            st: 0,
            d1: 0,
            d2: 0,
            d3: 0,
            d4: 0,
        };
        proof {
            assert(e@ =~= initial_view());
        }
        e
    }

    /// Restore exactly the construct-time state in place, erasing any
    /// loaded program and all execution progress.
    pub fn reset(&mut self)
        ensures
            final(self).wf(),
            final(self)@ == initial_view(),
    {
        self.pc = START_ADDR;
        self.ram = build_ram();
        self.screen = filled(SCREEN_CELLS, false);
        self.v_reg = filled(NUM_REGS, 0u8);
        self.i_reg = 0;
        self.sp = 0;
        self.stack = filled(STACK_SIZE, 0u16);
        self.keys = filled(NUM_KEYS, false);
        self.dt = 0;
        self.st = 0;
        self.d1 = 0;
        self.d2 = 0;
        self.d3 = 0;
        self.d4 = 0;
        proof {
            assert(self@ =~= initial_view());
        }
    }

    /// Push a return address. The stack must not be full: the dispatcher
    /// checks before calling and reports overflow as a fatal error.
    pub fn push(&mut self, val: u16)
        requires
            old(self).wf(),
            old(self)@.sp < STACK_SIZE,
        ensures
            final(self).wf(),
            final(self)@ == (EmuView {
                stack: old(self)@.stack.update(old(self)@.sp as int, val),
                sp: (old(self)@.sp + 1) as u16,
                ..old(self)@
            }),
    {
        let sp: usize = self.sp as usize;
        self.stack.set(sp, val);
        self.sp = self.sp + 1;
    }

    /// Pop the most recently pushed return address. The stack must not be
    /// empty: the dispatcher checks and reports underflow as a fatal error.
    pub fn pop(&mut self) -> (r: u16)
        requires
            old(self).wf(),
            old(self)@.sp > 0,
        ensures
            final(self).wf(),
            r == old(self)@.stack[old(self)@.sp - 1],
            final(self)@ == (EmuView { sp: (old(self)@.sp - 1) as u16, ..old(self)@ }),
    {
        self.sp = self.sp - 1;
        self.stack[self.sp as usize]
    }

    /// One full fetch-decode-execute cycle, `tick_rel` being its meaning:
    /// a fatal condition is reported and leaves the machine unchanged except
    /// for the recorded nibbles of the offending word.
    pub fn tick(&mut self) -> (r: Result<(), EmuError>)
        requires
            old(self).wf(),
        ensures
            final(self).wf(),
            tick_rel(old(self)@, final(self)@, r),
    {
        let op = match self.fetch() {
            Ok(op) => op,
            Err(e) => {
                return Err(e);
            },
        };
        self.execute(op)
    }

    /// The current screen buffer, for rendering: 2048 booleans, row-major.
    pub fn get_display(&self) -> (r: &Vec<bool>)
        ensures
            r@ == self@.screen,
    {
        &self.screen
    }

    /// Mirror one physical key's state into the keyboard latch.
    pub fn keypress(&mut self, idx: usize, pressed: bool)
        requires
            old(self).wf(),
            idx < NUM_KEYS,
        ensures
            final(self).wf(),
            final(self)@ == (EmuView {
                keys: old(self)@.keys.update(idx as int, pressed),
                ..old(self)@
            }),
    {
        self.keys.set(idx, pressed);
    }

    /// Copy a program image into memory at the load base address. The image
    /// must fit below the end of memory.
    pub fn load(&mut self, data: &[u8])
        requires
            old(self).wf(),
            data@.len() <= RAM_SIZE - START_ADDR,
        ensures
            final(self).wf(),
            final(self)@ == (EmuView {
                ram: Seq::new(
                    RAM_SIZE as nat,
                    |j: int|
                        if START_ADDR <= j < START_ADDR + data@.len() {
                            data@[j - START_ADDR]
                        } else {
                            old(self)@.ram[j]
                        },
                ),
                ..old(self)@
            }),
    {
        let base: usize = START_ADDR as usize;
        let mut k: usize = 0;
        while k < data.len()
            invariant
                old(self).wf(),
                self.wf(),
                base == START_ADDR,
                k <= data@.len() <= RAM_SIZE - START_ADDR,
                self@ == (EmuView { ram: self@.ram, ..old(self)@ }),
                forall|j: int| base <= j < base + k ==> self@.ram[j] == data@[j - base],
                forall|j: int|
                    0 <= j < RAM_SIZE && !(base <= j < base + k) ==> self@.ram[j] == old(
                        self,
                    )@.ram[j],
            decreases data@.len() - k,
        {
            self.ram.set(base + k, data[k]);
            k = k + 1;
        }
        proof {
            assert(self@.ram =~= Seq::new(
                RAM_SIZE as nat,
                |j: int|
                    if START_ADDR <= j < START_ADDR + data@.len() {
                        data@[j - START_ADDR]
                    } else {
                        old(self)@.ram[j]
                    },
            ));
            assert(self@ =~= (EmuView {
                ram: Seq::new(
                    RAM_SIZE as nat,
                    |j: int|
                        if START_ADDR <= j < START_ADDR + data@.len() {
                            data@[j - START_ADDR]
                        } else {
                            old(self)@.ram[j]
                        },
                ),
                ..old(self)@
            }));
        }
    }

    /// Advance both timers one tick: each decrements only while nonzero,
    /// saturating at zero. The sound timer reaching zero is the host's cue
    /// to stop the tone.
    pub fn tick_timers(&mut self)
        requires
            old(self).wf(),
        ensures
            final(self).wf(),
            final(self)@ == tick_timers_view(old(self)@),
    {
        if self.dt > 0 {
            self.dt = self.dt - 1;
        }
        if self.st > 0 {
            self.st = self.st - 1;
        }
    }

    /// Read the two memory bytes at the program counter, combine them
    /// big-endian, and advance the counter past them. A counter that does
    /// not address two in-bounds bytes is the fatal fetch error.
    pub fn fetch(&mut self) -> (r: Result<u16, EmuError>)
        requires
            old(self).wf(),
        ensures
            final(self).wf(),
            fetch_ok(old(self)@) ==> r == Ok::<u16, EmuError>(fetched_op(old(self)@))
                && final(self)@ == after_fetch(old(self)@),
            !fetch_ok(old(self)@) ==> r == Err::<u16, EmuError>(EmuError::PcOutOfBounds)
                && final(self)@ == old(self)@,
    {
        let pc: usize = self.pc as usize;
        if pc + 1 >= RAM_SIZE {
            return Err(EmuError::PcOutOfBounds);
        }
        let higher_byte: u16 = self.ram[pc] as u16;
        let lower_byte: u16 = self.ram[pc + 1] as u16;
        let op: u16 = (higher_byte << 8) | lower_byte;
        self.pc = self.pc + 2;
        Ok(op)
    }

    /// Decode `op` into its nibbles and dispatch to exactly one instruction
    /// handler; a word matching no pattern is the fatal unknown-opcode
    /// error. `exec_rel` is the meaning of the whole step.
    pub fn execute(&mut self, op: u16) -> (r: Result<(), EmuError>)
        requires
            old(self).wf(),
            execute_req(old(self)@, op),
        ensures
            final(self).wf(),
            exec_rel(old(self)@, op, final(self)@, r),
    {
        self.d1 = (op & 0xF000) >> 12;
        self.d2 = (op & 0x0F00) >> 8;
        self.d3 = (op & 0x00F0) >> 4;
        self.d4 = op & 0x000F;
        proof {
            lemma_op_field_bounds(op);
            assert(self@ =~= with_nibbles(old(self)@, op));
        }
        match decode(op) {
            None => Err(EmuError::UnknownOpcode(op)),
            Some(instr) => match instr {
                Instr::Nop => Ok(()),
                Instr::Cls => {
                    self.clear_screen();
                    Ok(())
                },
                Instr::Ret => self.ret(),
                Instr::Jmp { .. } => {
                    self.jmp(op);
                    Ok(())
                },
                Instr::Call { .. } => self.call(op),
                Instr::SkipEqNn { .. } => {
                    self.skip_vx_eq_nn(op);
                    Ok(())
                },
                Instr::SkipNeNn { .. } => {
                    self.skip_vx_neq_nn(op);
                    Ok(())
                },
                Instr::SkipEqReg { .. } => {
                    self.skip_vx_eq_vy();
                    Ok(())
                },
                Instr::SetNn { .. } => {
                    self.set_vx_to_nn(op);
                    Ok(())
                },
                Instr::AddNn { .. } => {
                    self.add_vx_to_nn(op);
                    Ok(())
                },
                Instr::MovReg { .. } => {
                    self.set_vx_to_vy();
                    Ok(())
                },
                Instr::OrReg { .. } => {
                    self.vx_or_vy();
                    Ok(())
                },
                Instr::AndReg { .. } => {
                    self.vx_and_vy();
                    Ok(())
                },
                Instr::XorReg { .. } => {
                    self.vx_xor_vy();
                    Ok(())
                },
                Instr::AddReg { .. } => {
                    self.add_vx_to_vy();
                    Ok(())
                },
                Instr::SubReg { .. } => {
                    self.sub_vx_from_vy();
                    Ok(())
                },
                Instr::ShrReg { .. } => {
                    self.shr_vx();
                    Ok(())
                },
                Instr::SubFrom { .. } => {
                    self.sub_vy_from_vx();
                    Ok(())
                },
                Instr::ShlReg { .. } => {
                    self.shl_vx();
                    Ok(())
                },
                Instr::SkipNeReg { .. } => {
                    self.skip_vx_neq_vy();
                    Ok(())
                },
                Instr::SetI { .. } => {
                    self.set_i_to_nnn(op);
                    Ok(())
                },
                Instr::JmpV0 { .. } => {
                    self.jmp_v0_nnn(op);
                    Ok(())
                },
                Instr::Rand { .. } => {
                    self.set_vx_to_rand(op);
                    Ok(())
                },
                Instr::Draw { .. } => self.draw(),
                Instr::SkipKey { .. } => self.skip_key_pressed(),
                Instr::SkipNoKey { .. } => self.skip_key_released(),
                Instr::GetDelay { .. } => {
                    self.set_vx_to_dt();
                    Ok(())
                },
                Instr::WaitKey { .. } => {
                    self.wait_key();
                    Ok(())
                },
                Instr::SetDelay { .. } => {
                    self.set_dt_to_vx();
                    Ok(())
                },
                Instr::SetSound { .. } => {
                    self.set_st_to_vx();
                    Ok(())
                },
                Instr::AddI { .. } => {
                    self.add_i_to_vx();
                    Ok(())
                },
                Instr::FontChar { .. } => {
                    self.set_i_to_font();
                    Ok(())
                },
                Instr::Bcd { .. } => self.bcd(),
                Instr::StoreRegs { .. } => self.store_sub_v0_from_vx(),
                Instr::LoadRegs { .. } => self.load_sub_v0_from_vx(),
            },
        }
    }
}

} // verus!
