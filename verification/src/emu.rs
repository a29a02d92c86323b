//! The emulator: memory accesses through `MAR` and `MDR`, the stack,
//! operand resolution, and the fetch/decode/execute cycle.
//!
//! Every operation here either succeeds and leaves the machine as the model
//! in [`crate::machine`] says, or faults and leaves memory and registers as
//! it found them.

use crate::isa::{AddrMode, OpCode, Reg};
use crate::machine::{
    gave, jump_taken, machine, readable, register_named, went, word, Fault, Machine, Operand,
    Outcome, ADDRESS_SPACE, EQUAL, GREATER, LESS,
};
use crate::registers::{add16, mul16, sub16, Registers};
use vstd::prelude::*;

verus! {

/// Loads the two little-endian bytes at the address in `MAR` into `MDR`.
pub fn load(ram: &[u8], registers: &mut Registers) -> (res: Result<(), Fault>)
    ensures
        went(
            machine(ram@, *old(registers)),
            machine(ram@, *final(registers)),
            res,
            machine(ram@, *old(registers)).load(),
        ),
{
    let i = registers.mar.load() as usize;
    if i + 1 < ram.len() && i + 1 < ADDRESS_SPACE {
        registers.mdr.store(ram[i] as u16 + 256 * (ram[i + 1] as u16));
        Ok(())
    } else {
        Err(Fault::OutOfBounds)
    }
}

/// Stores `MDR` as two little-endian bytes at the address in `MAR`. A store
/// past the end of memory grows it, with zeros up to the address; a store
/// past the address space is a fault.
pub fn store(ram: &mut Vec<u8>, registers: &Registers) -> (res: Result<(), Fault>)
    ensures
        went(
            machine(old(ram)@, *registers),
            machine(final(ram)@, *registers),
            res,
            machine(old(ram)@, *registers).store(),
        ),
{
    let i = registers.mar.load() as usize;
    let val = registers.mdr.load();
    if i + 2 > ADDRESS_SPACE {
        return Err(Fault::OutOfBounds);
    }
    if i + 2 > ram.len() {
        while ram.len() < i + 2
            invariant
                i + 2 <= ADDRESS_SPACE,
                old(ram)@.len() <= ram@.len() <= i + 2,
                forall|j: int| 0 <= j < old(ram)@.len() ==> ram@[j] == old(ram)@[j],
                forall|j: int| old(ram)@.len() <= j < ram@.len() ==> ram@[j] == 0,
            decreases i + 2 - ram.len(),
        {
            ram.push(0);
        }
    }
    ram[i] = (val % 256) as u8;
    ram[i + 1] = (val / 256) as u8;
    Ok(())
}

/// Loads the byte at the address in `MAR` into `MDR`.
pub fn load_b(ram: &[u8], registers: &mut Registers) -> (res: Result<(), Fault>)
    ensures
        went(
            machine(ram@, *old(registers)),
            machine(ram@, *final(registers)),
            res,
            machine(ram@, *old(registers)).load_b(),
        ),
{
    let i = registers.mar.load() as usize;
    if i < ram.len() {
        registers.mdr.store(ram[i] as u16);
        Ok(())
    } else {
        Err(Fault::OutOfBounds)
    }
}

/// Decodes the low byte of `MDR` as a register.
pub fn get_reg(registers: &Registers) -> (res: Result<Reg, Fault>)
    ensures
        res == register_named(registers.mdr@),
{
    match Reg::from((registers.mdr.load() % 256) as u8) {
        Some(r) => Ok(r),
        None => Err(Fault::BadRegister),
    }
}

/// Pushes `val` on the stack.
pub fn push(ram: &mut Vec<u8>, registers: &mut Registers, val: u16) -> (res: Result<(), Fault>)
    ensures
        went(
            machine(old(ram)@, *old(registers)),
            machine(final(ram)@, *final(registers)),
            res,
            machine(old(ram)@, *old(registers)).push(val),
        ),
{
    let saved = *registers;
    registers.sp.sub(2);
    registers.mar.store(registers.sp.load());
    registers.mdr.store(val);
    match store(ram, registers) {
        Ok(()) => Ok(()),
        Err(f) => {
            *registers = saved;
            Err(f)
        },
    }
}

/// Pops a value off the stack.
pub fn pop(ram: &[u8], registers: &mut Registers) -> (res: Result<u16, Fault>)
    ensures
        gave(
            machine(ram@, *old(registers)),
            machine(ram@, *final(registers)),
            res,
            machine(ram@, *old(registers)).pop(),
        ),
{
    let saved = *registers;
    registers.mar.store(registers.sp.load());
    match load(ram, registers) {
        Ok(()) => {
            registers.sp.add(2);
            Ok(registers.mdr.load())
        },
        Err(f) => {
            *registers = saved;
            Err(f)
        },
    }
}

/// Reads the register operand whose code lies at `MAR`.
fn register_operand(ram: &[u8], registers: &mut Registers) -> (res: Result<Reg, Fault>)
    ensures
        match res {
            Ok(r) => {
                &&& old(registers).mar@ < ram@.len()
                &&& Reg::decode(ram@[old(registers).mar@ as int]) == Some(r)
                &&& *final(registers) == machine(ram@, *old(registers)).advance(1).set(
                    Reg::Mdr,
                    r.code() as u16,
                ).regs
            },
            Err(f) => {
                &&& *final(registers) == *old(registers)
                &&& f == if old(registers).mar@ >= ram@.len() {
                    Fault::OutOfBounds
                } else {
                    Fault::BadRegister
                }
                &&& old(registers).mar@ < ram@.len() ==> Reg::decode(
                    ram@[old(registers).mar@ as int],
                ) is None
            },
        },
{
    let saved = *registers;
    match load_b(ram, registers) {
        Ok(()) => {},
        Err(f) => {
            return Err(f);
        },
    }
    registers.pc.add(1);
    registers.mar.add(1);
    match get_reg(registers) {
        Ok(r) => Ok(r),
        Err(f) => {
            *registers = saved;
            Err(f)
        },
    }
}

/// Reads the literal operand whose two bytes lie at `MAR`.
fn literal_operand(ram: &[u8], registers: &mut Registers) -> (res: Result<u16, Fault>)
    ensures
        match res {
            Ok(v) => {
                &&& readable(ram@, old(registers).mar@ as int)
                &&& v == word(ram@[old(registers).mar@ as int], ram@[old(registers).mar@ + 1])
                &&& *final(registers) == machine(ram@, *old(registers)).advance(2).set(Reg::Mdr, v).regs
            },
            Err(f) => {
                &&& *final(registers) == *old(registers)
                &&& f == Fault::OutOfBounds
                &&& !readable(ram@, old(registers).mar@ as int)
            },
        },
{
    match load(ram, registers) {
        Ok(()) => {},
        Err(f) => {
            return Err(f);
        },
    }
    let val = registers.mdr.load();
    registers.pc.add(2);
    registers.mar.add(2);
    Ok(val)
}

/// Resolves the operand encoded at `MAR`, moving `PC` and `MAR` past it.
pub fn get_operand(ram: &[u8], registers: &mut Registers) -> (res: Result<Operand, Fault>)
    ensures
        gave(
            machine(ram@, *old(registers)),
            machine(ram@, *final(registers)),
            res,
            machine(ram@, *old(registers)).get_operand(),
        ),
{
    let saved = *registers;
    match load_b(ram, registers) {
        Ok(()) => {},
        Err(f) => {
            return Err(f);
        },
    }
    let addr_mode = match AddrMode::from((registers.mdr.load() % 256) as u8) {
        Some(m) => m,
        None => {
            *registers = saved;
            return Err(Fault::BadMode);
        },
    };
    registers.pc.add(1);
    registers.mar.add(1);
    let res = match addr_mode {
        AddrMode::Reg => match register_operand(ram, registers) {
            Ok(r) => Ok(Operand::Reg(r)),
            Err(f) => Err(f),
        },
        AddrMode::DerefReg => match register_operand(ram, registers) {
            Ok(r) => Ok(Operand::DerefReg(r)),
            Err(f) => Err(f),
        },
        AddrMode::Const => match literal_operand(ram, registers) {
            Ok(v) => Ok(Operand::Const(v)),
            Err(f) => Err(f),
        },
        AddrMode::Deref => match literal_operand(ram, registers) {
            Ok(v) => Ok(Operand::Deref(v)),
            Err(f) => Err(f),
        },
    };
    if res.is_err() {
        *registers = saved;
    }
    res
}

impl Operand {
    /// Tells whether the operand is in memory.
    pub fn is_mem(&self) -> (b: bool)
        ensures
            b == self.is_memory(),
    {
        match self {
            Operand::DerefReg(_) | Operand::Deref(_) => true,
            _ => false,
        }
    }

    /// Reads the operand: a register's value, a literal, or the two
    /// little-endian bytes in memory at its address.
    pub fn load(&self, ram: &[u8], registers: &mut Registers) -> (res: Result<u16, Fault>)
        ensures
            gave(
                machine(ram@, *old(registers)),
                machine(ram@, *final(registers)),
                res,
                machine(ram@, *old(registers)).read(*self),
            ),
    {
        let saved = *registers;
        let addr = match self {
            Operand::Reg(r) => {
                return Ok(registers.get(*r).load());
            },
            Operand::Const(c) => {
                return Ok(*c);
            },
            Operand::DerefReg(r) => registers.get(*r).load(),
            Operand::Deref(a) => *a,
        };
        registers.mar.store(addr);
        match load(ram, registers) {
            Ok(()) => Ok(registers.mdr.load()),
            Err(f) => {
                *registers = saved;
                Err(f)
            },
        }
    }

    /// Writes `val` to the operand: to a register, or as two little-endian
    /// bytes to memory at its address. A literal cannot be written.
    pub fn store(&self, ram: &mut Vec<u8>, registers: &mut Registers, val: u16) -> (res: Result<
        (),
        Fault,
    >)
        ensures
            went(
                machine(old(ram)@, *old(registers)),
                machine(final(ram)@, *final(registers)),
                res,
                machine(old(ram)@, *old(registers)).write(*self, val),
            ),
    {
        let saved = *registers;
        let addr = match self {
            Operand::Reg(r) => {
                registers.set(*r, val);
                return Ok(());
            },
            Operand::Const(_) => {
                return Err(Fault::StoreToConst);
            },
            Operand::DerefReg(r) => registers.get(*r).load(),
            Operand::Deref(a) => *a,
        };
        registers.mar.store(addr);
        registers.mdr.store(val);
        match store(ram, registers) {
            Ok(()) => Ok(()),
            Err(f) => {
                *registers = saved;
                Err(f)
            },
        }
    }
}

/// The outcome of an instruction that lets the machine go on.
fn proceed(res: Result<(), Fault>) -> (out: Result<Outcome, Fault>)
    ensures
        out == match res {
            Ok(_) => Ok::<Outcome, Fault>(Outcome::Continue),
            Err(f) => Err::<Outcome, Fault>(f),
        },
{
    match res {
        Ok(()) => Ok(Outcome::Continue),
        Err(f) => Err(f),
    }
}

/// Tells whether a jump is taken under the given flags.
fn taken(opcode: OpCode, flgs: u16) -> (b: bool)
    ensures
        b == jump_taken(opcode, flgs),
{
    match opcode {
        OpCode::Jmp => true,
        OpCode::Jeq | OpCode::Jle | OpCode::Jge => flgs == EQUAL,
        OpCode::Jne => flgs != EQUAL,
        OpCode::Jlt => flgs == LESS,
        OpCode::Jgt => flgs == GREATER,
        _ => false,
    }
}

/// Carries out a jump whose operand starts at `MAR`.
fn jump(ram: &[u8], registers: &mut Registers, opcode: OpCode) -> (res: Result<(), Fault>)
    ensures
        went(
            machine(ram@, *old(registers)),
            machine(ram@, *final(registers)),
            res,
            machine(ram@, *old(registers)).jump(opcode),
        ),
{
    let saved = *registers;
    let to = match get_operand(ram, registers) {
        Ok(o) => o,
        Err(f) => {
            return Err(f);
        },
    };
    if taken(opcode, registers.flgs.load()) {
        match to.load(ram, registers) {
            Ok(v) => registers.pc.store(v),
            Err(f) => {
                *registers = saved;
                return Err(f);
            },
        }
    }
    Ok(())
}

/// Carries out `CALL`, whose operand starts at `MAR`.
fn call(ram: &mut Vec<u8>, registers: &mut Registers) -> (res: Result<(), Fault>)
    ensures
        went(
            machine(old(ram)@, *old(registers)),
            machine(final(ram)@, *final(registers)),
            res,
            machine(old(ram)@, *old(registers)).call(),
        ),
{
    let saved = *registers;
    let f = match get_operand(ram.as_slice(), registers) {
        Ok(o) => o,
        Err(e) => {
            return Err(e);
        },
    };
    // What the push may overwrite, to put it back if the target cannot be read.
    let len = ram.len();
    let slot = sub16(registers.sp.load(), 2) as usize;
    let below = if slot < len {
        ram[slot]
    } else {
        0
    };
    let above = if slot + 1 < len {
        ram[slot + 1]
    } else {
        0
    };
    let pc = registers.pc.load();
    match push(ram, registers, pc) {
        Ok(()) => {},
        Err(e) => {
            *registers = saved;
            return Err(e);
        },
    }
    match f.load(ram.as_slice(), registers) {
        Ok(v) => {
            registers.pc.store(v);
            Ok(())
        },
        Err(e) => {
            ram.truncate(len);
            if slot < len {
                ram[slot] = below;
            }
            if slot + 1 < len {
                ram[slot + 1] = above;
            }
            *registers = saved;
            Err(e)
        },
    }
}

/// Carries out `RET`.
fn ret(ram: &[u8], registers: &mut Registers) -> (res: Result<(), Fault>)
    ensures
        went(
            machine(ram@, *old(registers)),
            machine(ram@, *final(registers)),
            res,
            machine(ram@, *old(registers)).ret(),
        ),
{
    match pop(ram, registers) {
        Ok(v) => {
            registers.pc.store(v);
            Ok(())
        },
        Err(f) => Err(f),
    }
}

/// Carries out `PUSH`, whose operand starts at `MAR`.
fn push_operand(ram: &mut Vec<u8>, registers: &mut Registers) -> (res: Result<(), Fault>)
    ensures
        went(
            machine(old(ram)@, *old(registers)),
            machine(final(ram)@, *final(registers)),
            res,
            machine(old(ram)@, *old(registers)).push_operand(),
        ),
{
    let saved = *registers;
    let val = match get_operand(ram.as_slice(), registers) {
        Ok(o) => o,
        Err(f) => {
            return Err(f);
        },
    };
    let v = match val.load(ram.as_slice(), registers) {
        Ok(v) => v,
        Err(f) => {
            *registers = saved;
            return Err(f);
        },
    };
    match push(ram, registers, v) {
        Ok(()) => Ok(()),
        Err(f) => {
            *registers = saved;
            Err(f)
        },
    }
}

/// Carries out `POP`, whose operand starts at `MAR`.
fn pop_operand(ram: &mut Vec<u8>, registers: &mut Registers) -> (res: Result<(), Fault>)
    ensures
        went(
            machine(old(ram)@, *old(registers)),
            machine(final(ram)@, *final(registers)),
            res,
            machine(old(ram)@, *old(registers)).pop_operand(),
        ),
{
    let saved = *registers;
    let dest = match get_operand(ram.as_slice(), registers) {
        Ok(o) => o,
        Err(f) => {
            return Err(f);
        },
    };
    let v = match pop(ram.as_slice(), registers) {
        Ok(v) => v,
        Err(f) => {
            *registers = saved;
            return Err(f);
        },
    };
    match dest.store(ram, registers, v) {
        Ok(()) => Ok(()),
        Err(f) => {
            *registers = saved;
            Err(f)
        },
    }
}

/// Forms the result of a two-operand instruction from the values read.
fn compute(
    ram: &mut Vec<u8>,
    registers: &mut Registers,
    opcode: OpCode,
    dest: Operand,
    src_val: u16,
    dest_val: u16,
) -> (res: Result<Outcome, Fault>)
    ensures
        gave(
            machine(old(ram)@, *old(registers)),
            machine(final(ram)@, *final(registers)),
            res,
            machine(old(ram)@, *old(registers)).compute(opcode, dest, src_val, dest_val),
        ),
{
    match opcode {
        OpCode::Cmp => {
            if dest_val < src_val {
                registers.flgs.store(LESS);
            } else if dest_val == src_val {
                registers.flgs.store(EQUAL);
            } else {
                registers.flgs.store(GREATER);
            }
            Ok(Outcome::Continue)
        },
        OpCode::Add => proceed(dest.store(ram, registers, add16(dest_val, src_val))),
        OpCode::Sub => proceed(dest.store(ram, registers, sub16(dest_val, src_val))),
        OpCode::Mul => proceed(dest.store(ram, registers, mul16(dest_val, src_val))),
        OpCode::Div => {
            if src_val == 0 {
                return Err(Fault::DivideByZero);
            }
            match dest.store(ram, registers, dest_val / src_val) {
                Ok(()) => {
                    registers.im.store(dest_val % src_val);
                    Ok(Outcome::Continue)
                },
                Err(f) => Err(f),
            }
        },
        OpCode::Mov => proceed(dest.store(ram, registers, src_val)),
        _ => Ok(Outcome::Output(src_val, dest_val)),
    }
}

/// Carries out a two-operand instruction, whose operands start at `MAR`.
fn binary(ram: &mut Vec<u8>, registers: &mut Registers, opcode: OpCode) -> (res: Result<
    Outcome,
    Fault,
>)
    ensures
        gave(
            machine(old(ram)@, *old(registers)),
            machine(final(ram)@, *final(registers)),
            res,
            machine(old(ram)@, *old(registers)).binary(opcode),
        ),
{
    let saved = *registers;
    let src = match get_operand(ram.as_slice(), registers) {
        Ok(o) => o,
        Err(f) => {
            return Err(f);
        },
    };
    let dest = match get_operand(ram.as_slice(), registers) {
        Ok(o) => o,
        Err(f) => {
            *registers = saved;
            return Err(f);
        },
    };
    if src.is_mem() && dest.is_mem() {
        *registers = saved;
        return Err(Fault::DualMemory);
    }
    let src_val = match src.load(ram.as_slice(), registers) {
        Ok(v) => v,
        Err(f) => {
            *registers = saved;
            return Err(f);
        },
    };
    let dest_val = match dest.load(ram.as_slice(), registers) {
        Ok(v) => v,
        Err(f) => {
            *registers = saved;
            return Err(f);
        },
    };
    match compute(ram, registers, opcode, dest, src_val, dest_val) {
        Ok(o) => Ok(o),
        Err(f) => {
            *registers = saved;
            Err(f)
        },
    }
}

/// Fetches the opcode at `PC` and moves `PC` past it.
fn fetch(ram: &[u8], registers: &mut Registers) -> (res: Result<OpCode, Fault>)
    ensures
        gave(
            machine(ram@, *old(registers)),
            machine(ram@, *final(registers)),
            res,
            machine(ram@, *old(registers)).fetch(),
        ),
{
    let saved = *registers;
    registers.mar.store(registers.pc.load());
    match load_b(ram, registers) {
        Ok(()) => {},
        Err(f) => {
            *registers = saved;
            return Err(f);
        },
    }
    match OpCode::from((registers.mdr.load() % 256) as u8) {
        Some(opcode) => {
            registers.pc.add(1);
            Ok(opcode)
        },
        None => {
            *registers = saved;
            Err(Fault::BadOpcode)
        },
    }
}

/// Executes the instruction whose opcode has just been fetched.
fn execute(ram: &mut Vec<u8>, registers: &mut Registers, opcode: OpCode) -> (res: Result<
    Outcome,
    Fault,
>)
    ensures
        gave(
            machine(old(ram)@, *old(registers)),
            machine(final(ram)@, *final(registers)),
            res,
            machine(old(ram)@, *old(registers)).execute(opcode),
        ),
{
    let saved = *registers;
    let res = match opcode {
        OpCode::Hlt => Ok(Outcome::Halt),
        OpCode::Jmp
        | OpCode::Jeq
        | OpCode::Jne
        | OpCode::Jlt
        | OpCode::Jle
        | OpCode::Jgt
        | OpCode::Jge => {
            registers.mar.add(1);
            proceed(jump(ram.as_slice(), registers, opcode))
        },
        OpCode::Call => {
            registers.mar.add(1);
            proceed(call(ram, registers))
        },
        OpCode::Ret => proceed(ret(ram.as_slice(), registers)),
        OpCode::Push => {
            registers.mar.add(1);
            proceed(push_operand(ram, registers))
        },
        OpCode::Pop => {
            registers.mar.add(1);
            proceed(pop_operand(ram, registers))
        },
        OpCode::Cmp
        | OpCode::Add
        | OpCode::Sub
        | OpCode::Mul
        | OpCode::Div
        | OpCode::Mov
        | OpCode::Out => {
            registers.mar.add(1);
            binary(ram, registers, opcode)
        },
    };
    match res {
        Ok(o) => Ok(o),
        Err(f) => {
            *registers = saved;
            Err(f)
        },
    }
}

/// Runs one instruction: fetches the opcode at `PC`, resolves its operands
/// and executes it.
///
/// On success the outcome tells whether the machine halted, goes on, or goes
/// on after an `OUT` whose two values the caller is to report. On a fault
/// memory and registers are as they were before the instruction.
pub fn cycle(ram: &mut Vec<u8>, registers: &mut Registers) -> (res: Result<Outcome, Fault>)
    ensures
        gave(
            machine(old(ram)@, *old(registers)),
            machine(final(ram)@, *final(registers)),
            res,
            machine(old(ram)@, *old(registers)).step(),
        ),
{
    let saved = *registers;
    let opcode = match fetch(ram.as_slice(), registers) {
        Ok(opcode) => opcode,
        Err(f) => {
            return Err(f);
        },
    };
    match execute(ram, registers, opcode) {
        Ok(o) => Ok(o),
        Err(f) => {
            *registers = saved;
            Err(f)
        },
    }
}

/// A machine with its memory, its registers and its running flag.
#[derive(Debug)]
pub struct Emulator {
    /// Memory; at first, the object.
    pub ram: Vec<u8>,
    /// The register file.
    pub registers: Registers,
    /// Whether the machine is running. `HLT` and faults clear the flag, and
    /// nothing sets it again.
    pub run: bool,
}

impl Emulator {
    /// The state of the machine as a mathematical value.
    pub open spec fn machine(self) -> Machine {
        machine(self.ram@, self.registers)
    }

    /// A machine loaded with an object: memory is the object, every
    /// register is zero, and the machine is running.
    pub fn new(object: Vec<u8>) -> (emulator: Emulator)
        ensures
            emulator.ram@ == object@,
            emulator.registers == Registers::filled(0),
            emulator.run,
    {
        Emulator { ram: object, registers: Registers::new(), run: true }
    }

    /// Runs one instruction if the machine is running, and does nothing if
    /// it is not.
    ///
    /// `HLT` stops the machine. So does a fault, which leaves memory and
    /// registers as they were before the instruction. A stopped machine
    /// reports `Halt` and stays as it is.
    pub fn update(&mut self) -> (res: Result<Outcome, Fault>)
        ensures
            !old(self).run ==> {
                &&& res == Ok::<Outcome, Fault>(Outcome::Halt)
                &&& final(self).machine() == old(self).machine()
                &&& !final(self).run
            },
            old(self).run ==> match old(self).machine().step() {
                Ok((m, outcome)) => {
                    &&& res == Ok::<Outcome, Fault>(outcome)
                    &&& final(self).ram@ == m.ram
                    &&& final(self).registers == m.regs
                    &&& final(self).run == (outcome != Outcome::Halt)
                },
                Err(f) => {
                    &&& res == Err::<Outcome, Fault>(f)
                    &&& final(self).ram@ == old(self).ram@
                    &&& final(self).registers == old(self).registers
                    &&& !final(self).run
                },
            },
    {
        if !self.run {
            return Ok(Outcome::Halt);
        }
        let res = cycle(&mut self.ram, &mut self.registers);
        match res {
            Ok(Outcome::Halt) => {
                self.run = false;
            },
            Ok(_) => {},
            Err(_) => {
                self.run = false;
            },
        }
        res
    }
}

} // verus!
