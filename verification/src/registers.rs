//! The register file: fourteen 16-bit cells, addressed by name.

use crate::isa::Reg;
use vstd::prelude::*;

verus! {

/// The sum of two 16-bit values modulo 2^16.
pub open spec fn wrap_add(a: u16, b: u16) -> u16 {
    ((a + b) % 0x1_0000) as u16
}

/// The difference of two 16-bit values modulo 2^16.
pub open spec fn wrap_sub(a: u16, b: u16) -> u16 {
    ((a - b) % 0x1_0000) as u16
}

/// The product of two 16-bit values modulo 2^16.
pub open spec fn wrap_mul(a: u16, b: u16) -> u16 {
    ((a * b) % 0x1_0000) as u16
}

/// Adds modulo 2^16.
pub fn add16(a: u16, b: u16) -> (r: u16)
    ensures
        r == wrap_add(a, b),
{
    ((a as u32 + b as u32) % 0x1_0000) as u16
}

/// Subtracts modulo 2^16.
pub fn sub16(a: u16, b: u16) -> (r: u16)
    ensures
        r == wrap_sub(a, b),
{
    ((a as u32 + 0x1_0000 - b as u32) % 0x1_0000) as u16
}

/// Multiplies modulo 2^16.
pub fn mul16(a: u16, b: u16) -> (r: u16)
    ensures
        r == wrap_mul(a, b),
{
    assert(a * b <= 0xFFFF * 0xFFFF) by (nonlinear_arith)
        requires
            a <= 0xFFFF,
            b <= 0xFFFF,
    ;
    ((a as u32 * b as u32) % 0x1_0000) as u16
}

/// One 16-bit cell.
#[derive(Copy, Clone, Debug, PartialEq, Eq, Structural)]
pub struct Register(pub u16);

impl View for Register {
    type V = u16;

    open spec fn view(&self) -> u16 {
        self.0
    }
}

impl Register {
    /// Reads the cell.
    pub fn load(&self) -> (val: u16)
        ensures
            val == self@,
    {
        self.0
    }

    /// Overwrites the cell.
    pub fn store(&mut self, val: u16)
        ensures
            final(self)@ == val,
    {
        self.0 = val;
    }

    /// Adds to the cell, modulo 2^16.
    pub fn add(&mut self, val: u16)
        ensures
            final(self)@ == wrap_add(old(self)@, val),
    {
        self.0 = add16(self.0, val);
    }

    /// Subtracts from the cell, modulo 2^16.
    pub fn sub(&mut self, val: u16)
        ensures
            final(self)@ == wrap_sub(old(self)@, val),
    {
        self.0 = sub16(self.0, val);
    }
}

/// The register file.
#[derive(Copy, Clone, Debug, PartialEq, Eq, Structural)]
pub struct Registers {
    /// Program counter.
    pub pc: Register,
    /// Memory-address register.
    pub mar: Register,
    /// Memory-data register.
    pub mdr: Register,
    /// Remainder of the last division.
    pub im: Register,
    /// Stack pointer.
    pub sp: Register,
    /// Comparison flags.
    pub flgs: Register,
    /// General-purpose register.
    pub a: Register,
    /// General-purpose register.
    pub b: Register,
    /// General-purpose register.
    pub c: Register,
    /// General-purpose register.
    pub d: Register,
    /// General-purpose register.
    pub e: Register,
    /// General-purpose register.
    pub f: Register,
    /// General-purpose register.
    pub g: Register,
    /// General-purpose register.
    pub h: Register,
}

impl Registers {
    /// The value held in register `r`.
    pub open spec fn value(self, r: Reg) -> u16 {
        match r {
            Reg::Pc => self.pc@,
            Reg::Mar => self.mar@,
            Reg::Mdr => self.mdr@,
            Reg::Im => self.im@,
            Reg::Sp => self.sp@,
            Reg::Flgs => self.flgs@,
            Reg::A => self.a@,
            Reg::B => self.b@,
            Reg::C => self.c@,
            Reg::D => self.d@,
            Reg::E => self.e@,
            Reg::F => self.f@,
            Reg::G => self.g@,
            Reg::H => self.h@,
        }
    }

    /// The register file with `val` in register `r` and every other cell as
    /// it is.
    pub open spec fn with(self, r: Reg, val: u16) -> Registers {
        match r {
            Reg::Pc => Registers { pc: Register(val), ..self },
            Reg::Mar => Registers { mar: Register(val), ..self },
            Reg::Mdr => Registers { mdr: Register(val), ..self },
            Reg::Im => Registers { im: Register(val), ..self },
            Reg::Sp => Registers { sp: Register(val), ..self },
            Reg::Flgs => Registers { flgs: Register(val), ..self },
            Reg::A => Registers { a: Register(val), ..self },
            Reg::B => Registers { b: Register(val), ..self },
            Reg::C => Registers { c: Register(val), ..self },
            Reg::D => Registers { d: Register(val), ..self },
            Reg::E => Registers { e: Register(val), ..self },
            Reg::F => Registers { f: Register(val), ..self },
            Reg::G => Registers { g: Register(val), ..self },
            Reg::H => Registers { h: Register(val), ..self },
        }
    }

    /// The register file in which every cell holds `val`.
    pub open spec fn filled(val: u16) -> Registers {
        Registers {
            pc: Register(val),
            mar: Register(val),
            mdr: Register(val),
            im: Register(val),
            sp: Register(val),
            flgs: Register(val),
            a: Register(val),
            b: Register(val),
            c: Register(val),
            d: Register(val),
            e: Register(val),
            f: Register(val),
            g: Register(val),
            h: Register(val),
        }
    }

    /// A register file of zeros.
    pub fn new() -> (regs: Registers)
        ensures
            regs == Registers::filled(0),
    {
        Registers {
            pc: Register(0),
            mar: Register(0),
            mdr: Register(0),
            im: Register(0),
            sp: Register(0),
            flgs: Register(0),
            a: Register(0),
            b: Register(0),
            c: Register(0),
            d: Register(0),
            e: Register(0),
            f: Register(0),
            g: Register(0),
            h: Register(0),
        }
    }

    /// The cell of register `r`.
    pub fn get(&self, r: Reg) -> (cell: &Register)
        ensures
            cell@ == self.value(r),
    {
        match r {
            Reg::Pc => &self.pc,
            Reg::Mar => &self.mar,
            Reg::Mdr => &self.mdr,
            Reg::Im => &self.im,
            Reg::Sp => &self.sp,
            Reg::Flgs => &self.flgs,
            Reg::A => &self.a,
            Reg::B => &self.b,
            Reg::C => &self.c,
            Reg::D => &self.d,
            Reg::E => &self.e,
            Reg::F => &self.f,
            Reg::G => &self.g,
            Reg::H => &self.h,
        }
    }

    /// Writes `val` to register `r`.
    pub fn set(&mut self, r: Reg, val: u16)
        ensures
            *final(self) == old(self).with(r, val),
    {
        match r {
            Reg::Pc => self.pc.store(val),
            Reg::Mar => self.mar.store(val),
            Reg::Mdr => self.mdr.store(val),
            Reg::Im => self.im.store(val),
            Reg::Sp => self.sp.store(val),
            Reg::Flgs => self.flgs.store(val),
            Reg::A => self.a.store(val),
            Reg::B => self.b.store(val),
            Reg::C => self.c.store(val),
            Reg::D => self.d.store(val),
            Reg::E => self.e.store(val),
            Reg::F => self.f.store(val),
            Reg::G => self.g.store(val),
            Reg::H => self.h.store(val),
        }
    }
}

impl Default for Registers {
    fn default() -> (regs: Registers)
        ensures
            regs == Registers::filled(0),
    {
        Registers::new()
    }
}

} // verus!
