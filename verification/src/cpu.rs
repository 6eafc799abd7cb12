//! The guest register file.

use vstd::prelude::*;

verus! {

/// RFLAGS bit 1, which always reads as one.
pub const FLAG_RESERVED_ONE: u64 = 0x2;

/// Carry flag.
pub const FLAG_CF: u64 = 0x1;

/// Zero flag.
pub const FLAG_ZF: u64 = 0x40;

/// Direction flag.
pub const FLAG_DF: u64 = 0x400;

/// A general-purpose register, in encoding order.
#[derive(Clone, Copy, Debug, PartialEq, Eq, Structural)]
pub enum Reg {
    Rax,
    Rcx,
    Rdx,
    Rbx,
    Rsp,
    Rbp,
    Rsi,
    Rdi,
    R8,
    R9,
    R10,
    R11,
    R12,
    R13,
    R14,
    R15,
}

impl Reg {
    /// The register's encoding number.
    pub open spec fn spec_index(self) -> usize {
        match self {
            Reg::Rax => 0,
            Reg::Rcx => 1,
            Reg::Rdx => 2,
            Reg::Rbx => 3,
            Reg::Rsp => 4,
            Reg::Rbp => 5,
            Reg::Rsi => 6,
            Reg::Rdi => 7,
            Reg::R8 => 8,
            Reg::R9 => 9,
            Reg::R10 => 10,
            Reg::R11 => 11,
            Reg::R12 => 12,
            Reg::R13 => 13,
            Reg::R14 => 14,
            Reg::R15 => 15,
        }
    }

    /// The register's encoding number.
    pub fn index(self) -> (i: usize)
        ensures
            i == self.spec_index(),
            i < 16,
    {
        match self {
            Reg::Rax => 0,
            Reg::Rcx => 1,
            Reg::Rdx => 2,
            Reg::Rbx => 3,
            Reg::Rsp => 4,
            Reg::Rbp => 5,
            Reg::Rsi => 6,
            Reg::Rdi => 7,
            Reg::R8 => 8,
            Reg::R9 => 9,
            Reg::R10 => 10,
            Reg::R11 => 11,
            Reg::R12 => 12,
            Reg::R13 => 13,
            Reg::R14 => 14,
            Reg::R15 => 15,
        }
    }
}

/// The architectural state of one guest thread.
#[derive(Clone, Copy)]
pub struct CpuState {
    /// General-purpose registers, by encoding number.
    pub gpr: [u64; 16],
    pub rip: u64,
    pub rflags: u64,
    /// Low halves of the vector registers.
    pub xmm: [u128; 16],
    /// High halves of the vector registers.
    pub ymm_high: [u128; 16],
    pub fs_base: u64,
    pub gs_base: u64,
}

/// A register file as mathematics.
pub struct CpuView {
    pub gpr: Seq<u64>,
    pub rip: u64,
    pub rflags: u64,
    pub xmm: Seq<u128>,
    pub ymm_high: Seq<u128>,
    pub fs_base: u64,
    pub gs_base: u64,
}

impl CpuView {
    /// The value of a register.
    pub open spec fn reg(self, r: Reg) -> u64 {
        self.gpr[r.spec_index() as int]
    }

    /// The stack pointer.
    pub open spec fn rsp(self) -> u64 {
        self.reg(Reg::Rsp)
    }

    /// The state with one register replaced.
    pub open spec fn with_reg(self, r: Reg, v: u64) -> CpuView {
        CpuView { gpr: self.gpr.update(r.spec_index() as int, v), ..self }
    }

    /// The state with another stack pointer.
    pub open spec fn with_rsp(self, v: u64) -> CpuView {
        self.with_reg(Reg::Rsp, v)
    }

    /// The state with another instruction pointer.
    pub open spec fn with_rip(self, v: u64) -> CpuView {
        CpuView { rip: v, ..self }
    }

    /// The state of a thread that has not run: only the reserved flag is set.
    pub open spec fn fresh() -> CpuView {
        CpuView {
            gpr: Seq::new(16, |i: int| 0u64),
            rip: 0,
            rflags: FLAG_RESERVED_ONE,
            xmm: Seq::new(16, |i: int| 0u128),
            ymm_high: Seq::new(16, |i: int| 0u128),
            fs_base: 0,
            gs_base: 0,
        }
    }
}

impl View for CpuState {
    type V = CpuView;

    open spec fn view(&self) -> CpuView {
        CpuView {
            gpr: self.gpr@,
            rip: self.rip,
            rflags: self.rflags,
            xmm: self.xmm@,
            ymm_high: self.ymm_high@,
            fs_base: self.fs_base,
            gs_base: self.gs_base,
        }
    }
}

impl Default for CpuState {
    fn default() -> (s: CpuState)
        ensures
            s@ == CpuView::fresh(),
    {
        CpuState::new()
    }
}

impl CpuState {
    /// The state of a thread that has not run.
    pub fn new() -> (s: CpuState)
        ensures
            s@ == CpuView::fresh(),
    {
        let s = CpuState {
            gpr: [0u64; 16],
            rip: 0,
            rflags: FLAG_RESERVED_ONE,
            xmm: [0u128; 16],
            ymm_high: [0u128; 16],
            fs_base: 0,
            gs_base: 0,
        };
        assert(s.gpr@ =~= Seq::new(16, |i: int| 0u64));
        assert(s.xmm@ =~= Seq::new(16, |i: int| 0u128));
        assert(s.ymm_high@ =~= Seq::new(16, |i: int| 0u128));
        s
    }

    /// The value of a register.
    pub fn reg(&self, r: Reg) -> (v: u64)
        ensures
            v == self@.reg(r),
    {
        self.gpr[r.index()]
    }

    /// Replace the value of a register.
    pub fn set_reg(&mut self, r: Reg, v: u64)
        ensures
            final(self)@ == old(self)@.with_reg(r, v),
    {
        let i: usize = r.index();
        self.gpr[i] = v;
    }

    /// The stack pointer.
    pub fn rsp(&self) -> (v: u64)
        ensures
            v == self@.rsp(),
    {
        self.reg(Reg::Rsp)
    }

    /// Replace the stack pointer.
    pub fn set_rsp(&mut self, v: u64)
        ensures
            final(self)@ == old(self)@.with_rsp(v),
    {
        self.set_reg(Reg::Rsp, v);
    }

    /// The low half of vector register `n`.
    pub fn xmm(&self, n: u8) -> (v: u128)
        requires
            n < 16,
        ensures
            v == self@.xmm[n as int],
    {
        self.xmm[n as usize]
    }

    /// Replace the low half of vector register `n`, keeping its high half.
    pub fn set_xmm_keep_upper(&mut self, n: u8, v: u128)
        requires
            n < 16,
        ensures
            final(self)@ == (CpuView { xmm: old(self)@.xmm.update(n as int, v), ..old(self)@ }),
    {
        self.xmm[n as usize] = v;
    }
}

/// The low half of a vector register.
pub open spec fn low_half(v: u128) -> u64 {
    (v % 0x1_0000_0000_0000_0000) as u64
}

/// The high half of a vector register.
pub open spec fn high_half(v: u128) -> u64 {
    (v / 0x1_0000_0000_0000_0000) as u64
}

/// The vector register of two halves.
pub open spec fn join_halves(lo: u64, hi: u64) -> u128 {
    (lo + hi * 0x1_0000_0000_0000_0000) as u128
}

/// The low half of a vector register.
pub fn low_of(v: u128) -> (r: u64)
    ensures
        r == low_half(v),
{
    (v % 0x1_0000_0000_0000_0000) as u64
}

/// The high half of a vector register.
pub fn high_of(v: u128) -> (r: u64)
    ensures
        r == high_half(v),
{
    (v / 0x1_0000_0000_0000_0000) as u64
}

/// The vector register of two halves.
pub fn join(lo: u64, hi: u64) -> (r: u128)
    ensures
        r == join_halves(lo, hi),
{
    lo as u128 + hi as u128 * 0x1_0000_0000_0000_0000
}

/// Half `k` of a list of vector registers: even halves are low, odd ones high.
pub open spec fn half_at(xmm: Seq<u128>, k: int) -> u64 {
    if k % 2 == 0 {
        low_half(xmm[k / 2])
    } else {
        high_half(xmm[k / 2])
    }
}

} // verus!
