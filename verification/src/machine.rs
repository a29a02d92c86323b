//! The machine as a mathematical object: memory as a sequence of bytes, the
//! register file, and what each micro-operation and each instruction does
//! to them. The executable emulator is specified against this model.

use crate::isa::{AddrMode, OpCode, Reg};
use crate::registers::{wrap_add, wrap_mul, wrap_sub, Registers};
use vstd::prelude::*;

verus! {

/// `FLGS` after a comparison that found the destination below the source.
pub const LESS: u16 = 0b001;

/// `FLGS` after a comparison that found both operands equal.
pub const EQUAL: u16 = 0b010;

/// `FLGS` after a comparison that found the destination above the source.
pub const GREATER: u16 = 0b100;

/// The number of bytes that a 16-bit address can reach.
pub const ADDRESS_SPACE: usize = 0x1_0000;

/// Why the machine cannot carry out an instruction.
#[derive(Copy, Clone, Debug, PartialEq, Eq, Structural)]
pub enum Fault {
    /// A read past the end of memory, or an access past the address space.
    OutOfBounds,
    /// `DIV` with a zero source.
    DivideByZero,
    /// Both operands of a two-operand instruction are in memory.
    DualMemory,
    /// The destination of a write is a literal.
    StoreToConst,
    /// The byte at `PC` is no opcode.
    BadOpcode,
    /// The tag byte of an operand is no addressing mode.
    BadMode,
    /// The payload byte of a register operand is no register.
    BadRegister,
}

/// What one instruction reports to the driver of the machine.
#[derive(Copy, Clone, Debug, PartialEq, Eq, Structural)]
pub enum Outcome {
    /// The instruction was `HLT`.
    Halt,
    /// The machine goes on with the next instruction.
    Continue,
    /// The instruction was `OUT`: the values of its source and destination,
    /// for the host to report. The machine goes on.
    Output(u16, u16),
}

/// An operand as the emulator resolves it: its kind and the register or
/// literal that the byte stream names. A register is looked up, and the
/// address in a register is read, only when the operand is accessed.
#[derive(Copy, Clone, Debug, PartialEq, Eq, Structural)]
pub enum Operand {
    /// The register itself.
    Reg(Reg),
    /// Memory at the address held in the register.
    DerefReg(Reg),
    /// A literal value.
    Const(u16),
    /// Memory at a literal address.
    Deref(u16),
}

/// The low byte of a 16-bit value.
pub open spec fn low(v: u16) -> u8 {
    (v % 256) as u8
}

/// The high byte of a 16-bit value.
pub open spec fn high(v: u16) -> u8 {
    (v / 256) as u8
}

/// The 16-bit value with the given low and high bytes.
pub open spec fn word(lo: u8, hi: u8) -> u16 {
    (lo + 256 * hi) as u16
}

/// The register that the low byte of `mdr` names.
pub open spec fn register_named(mdr: u16) -> Result<Reg, Fault> {
    match Reg::decode(low(mdr)) {
        Some(r) => Ok(r),
        None => Err(Fault::BadRegister),
    }
}

/// `FLGS` for a comparison of `dest` to `src`.
pub open spec fn compare(dest: u16, src: u16) -> u16 {
    if dest < src {
        LESS
    } else if dest == src {
        EQUAL
    } else {
        GREATER
    }
}

/// Whether the jump `op` is taken when `FLGS` holds `flgs`. `JLE` and `JGE`
/// are taken on equality only, as `JEQ` is.
pub open spec fn jump_taken(op: OpCode, flgs: u16) -> bool {
    match op {
        OpCode::Jmp => true,
        OpCode::Jeq | OpCode::Jle | OpCode::Jge => flgs == EQUAL,
        OpCode::Jne => flgs != EQUAL,
        OpCode::Jlt => flgs == LESS,
        OpCode::Jgt => flgs == GREATER,
        _ => false,
    }
}

/// Whether `op` is `JMP` or a conditional jump.
pub open spec fn is_jump(op: OpCode) -> bool {
    matches!(
        op,
        OpCode::Jmp | OpCode::Jeq | OpCode::Jne | OpCode::Jlt | OpCode::Jle | OpCode::Jgt | OpCode::Jge
    )
}

/// The condition of the jump `op` as a relation between the destination
/// and the source of the comparison before it.
pub open spec fn condition_holds(op: OpCode, dest: u16, src: u16) -> bool {
    match op {
        OpCode::Jmp => true,
        OpCode::Jeq | OpCode::Jle | OpCode::Jge => dest == src,
        OpCode::Jne => dest != src,
        OpCode::Jlt => dest < src,
        OpCode::Jgt => dest > src,
        _ => false,
    }
}

/// Whether a two-byte read at address `a` lies within memory and within
/// the address space.
pub open spec fn readable(ram: Seq<u8>, a: int) -> bool {
    0 <= a && a + 1 < ram.len() && a + 1 < ADDRESS_SPACE
}

/// Whether a two-byte write at address `a` lies within the address space,
/// which is as far as memory may grow.
pub open spec fn writable(a: int) -> bool {
    0 <= a && a + 2 <= ADDRESS_SPACE
}

/// Memory after a little-endian write of `v` at address `a`. A write past
/// the end grows memory, with zeros between the old end and `a`.
pub open spec fn stored(ram: Seq<u8>, a: int, v: u16) -> Seq<u8> {
    Seq::new(
        if a + 2 <= ram.len() {
            ram.len()
        } else {
            (a + 2) as nat
        },
        |i: int|
            if i == a {
                low(v)
            } else if i == a + 1 {
                high(v)
            } else if i < ram.len() {
                ram[i]
            } else {
                0u8
            },
    )
}

impl Operand {
    /// Whether the operand is in memory.
    pub open spec fn is_memory(self) -> bool {
        self is DerefReg || self is Deref
    }

    /// The addressing mode that tags the operand.
    pub open spec fn mode(self) -> AddrMode {
        match self {
            Operand::Reg(_) => AddrMode::Reg,
            Operand::DerefReg(_) => AddrMode::DerefReg,
            Operand::Const(_) => AddrMode::Const,
            Operand::Deref(_) => AddrMode::Deref,
        }
    }

    /// What follows the tag: a register's code, or a literal.
    pub open spec fn payload(self) -> u16 {
        match self {
            Operand::Reg(r) | Operand::DerefReg(r) => r.code() as u16,
            Operand::Const(c) | Operand::Deref(c) => c,
        }
    }

    /// The bytes that encode the operand: its tag, then one byte for a
    /// register or two little-endian bytes for a literal.
    pub open spec fn bytes(self) -> Seq<u8> {
        match self {
            Operand::Reg(r) | Operand::DerefReg(r) => seq![self.mode().code(), r.code()],
            Operand::Const(c) | Operand::Deref(c) => seq![self.mode().code(), low(c), high(c)],
        }
    }

    /// How many bytes encode the operand.
    pub open spec fn size(self) -> u16 {
        match self {
            Operand::Reg(_) | Operand::DerefReg(_) => 2,
            Operand::Const(_) | Operand::Deref(_) => 3,
        }
    }

    /// The operand encoded at address `a`. The address of the payload wraps
    /// around the address space.
    pub open spec fn at(ram: Seq<u8>, a: u16) -> Result<Operand, Fault> {
        let p = wrap_add(a, 1) as int;
        if a >= ram.len() {
            Err(Fault::OutOfBounds)
        } else {
            match AddrMode::decode(ram[a as int]) {
                None => Err(Fault::BadMode),
                Some(AddrMode::Reg) | Some(AddrMode::DerefReg) => {
                    if p >= ram.len() {
                        Err(Fault::OutOfBounds)
                    } else {
                        match Reg::decode(ram[p]) {
                            None => Err(Fault::BadRegister),
                            Some(r) => if ram[a as int] == AddrMode::Reg.code() {
                                Ok(Operand::Reg(r))
                            } else {
                                Ok(Operand::DerefReg(r))
                            },
                        }
                    }
                },
                Some(_) => {
                    if !readable(ram, p) {
                        Err(Fault::OutOfBounds)
                    } else if ram[a as int] == AddrMode::Const.code() {
                        Ok(Operand::Const(word(ram[p], ram[p + 1])))
                    } else {
                        Ok(Operand::Deref(word(ram[p], ram[p + 1])))
                    }
                },
            }
        }
    }
}

/// The state of the machine between two instructions.
pub struct Machine {
    /// Memory.
    pub ram: Seq<u8>,
    /// The register file.
    pub regs: Registers,
}

impl Machine {
    /// The machine with `v` in register `r`.
    pub open spec fn set(self, r: Reg, v: u16) -> Machine {
        Machine { ram: self.ram, regs: self.regs.with(r, v) }
    }

    /// The machine with `PC` and `MAR` moved on by `n`.
    pub open spec fn advance(self, n: u16) -> Machine {
        self.set(Reg::Pc, wrap_add(self.regs.pc@, n)).set(Reg::Mar, wrap_add(self.regs.mar@, n))
    }

    /// One byte from the address in `MAR` to `MDR`.
    pub open spec fn load_b(self) -> Result<Machine, Fault> {
        let a = self.regs.mar@ as int;
        if a < self.ram.len() {
            Ok(self.set(Reg::Mdr, self.ram[a] as u16))
        } else {
            Err(Fault::OutOfBounds)
        }
    }

    /// Two little-endian bytes from the address in `MAR` to `MDR`.
    pub open spec fn load(self) -> Result<Machine, Fault> {
        let a = self.regs.mar@ as int;
        if readable(self.ram, a) {
            Ok(self.set(Reg::Mdr, word(self.ram[a], self.ram[a + 1])))
        } else {
            Err(Fault::OutOfBounds)
        }
    }

    /// `MDR` as two little-endian bytes to the address in `MAR`.
    pub open spec fn store(self) -> Result<Machine, Fault> {
        let a = self.regs.mar@ as int;
        if writable(a) {
            Ok(Machine { ram: stored(self.ram, a, self.regs.mdr@), regs: self.regs })
        } else {
            Err(Fault::OutOfBounds)
        }
    }

    /// Pushes `v`: `SP` moves down by two, then `v` is written there through
    /// `MAR` and `MDR`.
    pub open spec fn push(self, v: u16) -> Result<Machine, Fault> {
        let sp = wrap_sub(self.regs.sp@, 2);
        self.set(Reg::Sp, sp).set(Reg::Mar, sp).set(Reg::Mdr, v).store()
    }

    /// Pops a value: it is read at `SP` through `MAR` and `MDR`, then `SP`
    /// moves up by two.
    pub open spec fn pop(self) -> Result<(Machine, u16), Fault> {
        let sp = self.regs.sp@;
        match self.set(Reg::Mar, sp).load() {
            Ok(m) => Ok((m.set(Reg::Sp, wrap_add(sp, 2)), m.regs.mdr@)),
            Err(f) => Err(f),
        }
    }

    /// Resolves the operand encoded at `MAR`: `PC` and `MAR` move past it,
    /// and `MDR` is left holding its payload.
    pub open spec fn get_operand(self) -> Result<(Machine, Operand), Fault> {
        match Operand::at(self.ram, self.regs.mar@) {
            Ok(op) => Ok((self.advance(op.size()).set(Reg::Mdr, op.payload()), op)),
            Err(f) => Err(f),
        }
    }

    /// The address of a memory operand, as the registers stand now.
    pub open spec fn address(self, op: Operand) -> u16 {
        match op {
            Operand::DerefReg(r) => self.regs.value(r),
            Operand::Deref(a) => a,
            _ => 0,
        }
    }

    /// Reads an operand. A read from memory goes through `MAR` and `MDR`.
    pub open spec fn read(self, op: Operand) -> Result<(Machine, u16), Fault> {
        match op {
            Operand::Reg(r) => Ok((self, self.regs.value(r))),
            Operand::Const(c) => Ok((self, c)),
            _ => match self.set(Reg::Mar, self.address(op)).load() {
                Ok(m) => Ok((m, m.regs.mdr@)),
                Err(f) => Err(f),
            },
        }
    }

    /// Writes `v` to an operand. A write to memory goes through `MAR` and
    /// `MDR`; a literal cannot be written.
    pub open spec fn write(self, op: Operand, v: u16) -> Result<Machine, Fault> {
        match op {
            Operand::Reg(r) => Ok(self.set(r, v)),
            Operand::Const(_) => Err(Fault::StoreToConst),
            _ => self.set(Reg::Mar, self.address(op)).set(Reg::Mdr, v).store(),
        }
    }

    /// Fetches the opcode at `PC`: `MAR` takes the address, `MDR` the byte,
    /// and `PC` moves on by one.
    pub open spec fn fetch(self) -> Result<(Machine, OpCode), Fault> {
        let pc = self.regs.pc@;
        if pc >= self.ram.len() {
            Err(Fault::OutOfBounds)
        } else {
            match OpCode::decode(self.ram[pc as int]) {
                Some(op) => Ok(
                    (
                        self.set(Reg::Mar, pc).set(Reg::Mdr, self.ram[pc as int] as u16).set(
                            Reg::Pc,
                            wrap_add(pc, 1),
                        ),
                        op,
                    ),
                ),
                None => Err(Fault::BadOpcode),
            }
        }
    }

    /// A jump: the operand is resolved; the jump is taken or not by `FLGS`,
    /// and the target is read only if it is taken.
    pub open spec fn jump(self, op: OpCode) -> Result<Machine, Fault> {
        match self.get_operand() {
            Ok((m, target)) => if jump_taken(op, m.regs.flgs@) {
                match m.read(target) {
                    Ok((m, v)) => Ok(m.set(Reg::Pc, v)),
                    Err(f) => Err(f),
                }
            } else {
                Ok(m)
            },
            Err(f) => Err(f),
        }
    }

    /// `CALL`: the operand is resolved and the return address pushed; then
    /// the target is read and jumped to.
    pub open spec fn call(self) -> Result<Machine, Fault> {
        match self.get_operand() {
            Ok((m, target)) => match m.push(m.regs.pc@) {
                Ok(m) => match m.read(target) {
                    Ok((m, v)) => Ok(m.set(Reg::Pc, v)),
                    Err(f) => Err(f),
                },
                Err(f) => Err(f),
            },
            Err(f) => Err(f),
        }
    }

    /// `RET`: the return address is popped and jumped to.
    pub open spec fn ret(self) -> Result<Machine, Fault> {
        match self.pop() {
            Ok((m, v)) => Ok(m.set(Reg::Pc, v)),
            Err(f) => Err(f),
        }
    }

    /// `PUSH`: the operand is resolved and read, and its value pushed.
    pub open spec fn push_operand(self) -> Result<Machine, Fault> {
        match self.get_operand() {
            Ok((m, val)) => match m.read(val) {
                Ok((m, v)) => m.push(v),
                Err(f) => Err(f),
            },
            Err(f) => Err(f),
        }
    }

    /// `POP`: the operand is resolved, a value popped and written to it.
    pub open spec fn pop_operand(self) -> Result<Machine, Fault> {
        match self.get_operand() {
            Ok((m, dest)) => match m.pop() {
                Ok((m, v)) => m.write(dest, v),
                Err(f) => Err(f),
            },
            Err(f) => Err(f),
        }
    }

    /// What a two-operand instruction does once both values are read.
    pub open spec fn compute(self, op: OpCode, dest: Operand, src_val: u16, dest_val: u16) -> Result<
        (Machine, Outcome),
        Fault,
    > {
        match op {
            OpCode::Cmp => Ok((self.set(Reg::Flgs, compare(dest_val, src_val)), Outcome::Continue)),
            OpCode::Add => continuing(self.write(dest, wrap_add(dest_val, src_val))),
            OpCode::Sub => continuing(self.write(dest, wrap_sub(dest_val, src_val))),
            OpCode::Mul => continuing(self.write(dest, wrap_mul(dest_val, src_val))),
            OpCode::Div => if src_val == 0 {
                Err(Fault::DivideByZero)
            } else {
                match self.write(dest, dest_val / src_val) {
                    Ok(m) => Ok((m.set(Reg::Im, dest_val % src_val), Outcome::Continue)),
                    Err(f) => Err(f),
                }
            },
            OpCode::Mov => continuing(self.write(dest, src_val)),
            _ => Ok((self, Outcome::Output(src_val, dest_val))),
        }
    }

    /// Both operands of a two-operand instruction: source and destination
    /// are resolved in this order; unless both are in memory, the source is
    /// read, then the destination. Gives the destination with the value of
    /// the source and the value of the destination.
    pub open spec fn operands(self) -> Result<(Machine, Operand, u16, u16), Fault> {
        match self.get_operand() {
            Ok((m, src)) => match m.get_operand() {
                Ok((m, dest)) => if src.is_memory() && dest.is_memory() {
                    Err(Fault::DualMemory)
                } else {
                    match m.read(src) {
                        Ok((m, src_val)) => match m.read(dest) {
                            Ok((m, dest_val)) => Ok((m, dest, src_val, dest_val)),
                            Err(f) => Err(f),
                        },
                        Err(f) => Err(f),
                    }
                },
                Err(f) => Err(f),
            },
            Err(f) => Err(f),
        }
    }

    /// A two-operand instruction: both operands are resolved and read, and
    /// the result is formed.
    pub open spec fn binary(self, op: OpCode) -> Result<(Machine, Outcome), Fault> {
        match self.operands() {
            Ok((m, dest, src_val, dest_val)) => m.compute(op, dest, src_val, dest_val),
            Err(f) => Err(f),
        }
    }

    /// The machine with `MAR` moved on by one, to the first operand of the
    /// instruction whose opcode has just been fetched.
    pub open spec fn at_operand(self) -> Machine {
        self.set(Reg::Mar, wrap_add(self.regs.mar@, 1))
    }

    /// What the instruction `op` does after its opcode has been fetched.
    /// For an instruction with operands, `MAR` first catches up with `PC`.
    pub open spec fn execute(self, op: OpCode) -> Result<(Machine, Outcome), Fault> {
        let at_operand = self.at_operand();
        match op {
            OpCode::Hlt => Ok((self, Outcome::Halt)),
            OpCode::Ret => continuing(self.ret()),
            OpCode::Jmp | OpCode::Jeq | OpCode::Jne | OpCode::Jlt | OpCode::Jle | OpCode::Jgt | OpCode::Jge => continuing(
                at_operand.jump(op),
            ),
            OpCode::Call => continuing(at_operand.call()),
            OpCode::Push => continuing(at_operand.push_operand()),
            OpCode::Pop => continuing(at_operand.pop_operand()),
            _ => at_operand.binary(op),
        }
    }

    /// One instruction: fetch, decode, execute.
    pub open spec fn step(self) -> Result<(Machine, Outcome), Fault> {
        match self.fetch() {
            Ok((m, op)) => m.execute(op),
            Err(f) => Err(f),
        }
    }
}

impl Operand {
    /// An operand is encoded in as many bytes as its size says.
    pub proof fn lemma_size(self)
        ensures
            self.bytes().len() == self.size(),
    {
    }

    /// The bytes from which an operand is decoded are its encoding: byte
    /// by byte, at addresses that wrap around the address space.
    pub proof fn lemma_decode_encode(ram: Seq<u8>, a: u16)
        requires
            Operand::at(ram, a) is Ok,
        ensures
            ({
                let op = Operand::at(ram, a)->Ok_0;
                forall|k: int|
                    0 <= k < op.size() ==> ram[(a + k) % 0x1_0000] == #[trigger] op.bytes()[k]
            }),
    {
        let op = Operand::at(ram, a)->Ok_0;
        let p = wrap_add(a, 1) as int;
        assert forall|k: int| 0 <= k < op.size() implies ram[(a + k) % 0x1_0000]
            == #[trigger] op.bytes()[k] by {
            lemma_word_bytes(ram[p], ram[p + 1]);
        }
    }

    /// An operand is decoded from its encoding, wherever in memory the
    /// encoding lies whole.
    pub proof fn lemma_encode_decode(self, ram: Seq<u8>, a: u16)
        requires
            a + self.size() <= ram.len(),
            a + self.size() <= 0x1_0000,
            ram.subrange(a as int, a + self.size()) == self.bytes(),
        ensures
            Operand::at(ram, a) == Ok::<Operand, Fault>(self),
    {
        match self {
            Operand::Reg(r) => {
                Reg::lemma_code_round_trip(r, r.code());
            },
            Operand::DerefReg(r) => {
                Reg::lemma_code_round_trip(r, r.code());
            },
            Operand::Const(c) => {
                lemma_bytes_word(c);
            },
            Operand::Deref(c) => {
                lemma_bytes_word(c);
            },
        }
    }
}

/// The two bytes of a word make up the word.
pub proof fn lemma_bytes_word(v: u16)
    ensures
        word(low(v), high(v)) == v,
{
}

/// A word made of two bytes has these bytes.
pub proof fn lemma_word_bytes(lo: u8, hi: u8)
    ensures
        low(word(lo, hi)) == lo,
        high(word(lo, hi)) == hi,
{
}

/// A jump is taken after a comparison exactly if its condition holds
/// between the two values compared.
pub proof fn lemma_jump_taken(op: OpCode, dest: u16, src: u16)
    requires
        is_jump(op),
    ensures
        jump_taken(op, compare(dest, src)) <==> condition_holds(op, dest, src),
{
}

impl Machine {
    /// What is pushed is what is popped next, wherever the stack pointer
    /// stands; and the pop puts the stack pointer back where it was.
    pub proof fn lemma_push_pop(self, v: u16)
        requires
            self.push(v) is Ok,
        ensures
            ({
                let pushed = self.push(v)->Ok_0;
                &&& pushed.pop() is Ok
                &&& pushed.pop()->Ok_0.1 == v
                &&& pushed.pop()->Ok_0.0.regs.sp == self.regs.sp
                &&& pushed.pop()->Ok_0.0.ram == pushed.ram
            }),
    {
        lemma_bytes_word(v);
    }

    /// Resolving an operand moves `PC` and `MAR` on by the size of its
    /// encoding, and the bytes passed over are that encoding.
    pub proof fn lemma_get_operand(self)
        requires
            self.get_operand() is Ok,
        ensures
            ({
                let (m, op) = self.get_operand()->Ok_0;
                &&& m.regs.pc@ == wrap_add(self.regs.pc@, op.size())
                &&& m.regs.mar@ == wrap_add(self.regs.mar@, op.size())
                &&& m.ram == self.ram
                &&& forall|k: int|
                    0 <= k < op.size() ==> self.ram[(self.regs.mar@ + k) % 0x1_0000]
                        == #[trigger] op.bytes()[k]
            }),
    {
        Operand::lemma_decode_encode(self.ram, self.regs.mar@);
    }

    /// An operand that is resolved without wrapping around the address
    /// space is resolved from a range of memory that holds its encoding.
    pub proof fn lemma_get_operand_range(self)
        requires
            self.get_operand() is Ok,
            self.regs.mar@ + self.get_operand()->Ok_0.1.size() <= 0x1_0000,
        ensures
            ({
                let (m, op) = self.get_operand()->Ok_0;
                let a = self.regs.mar@ as int;
                &&& a + op.size() <= self.ram.len()
                &&& self.ram.subrange(a, a + op.size()) == op.bytes()
                &&& m.ram == self.ram
                &&& m.regs.mar@ == a + op.size() || (m.regs.mar@ == 0 && a + op.size() == 0x1_0000)
                &&& m.regs.pc@ == wrap_add(self.regs.pc@, op.size())
            }),
    {
        let op = self.get_operand()->Ok_0.1;
        self.lemma_get_operand();
        op.lemma_size();
    }

    /// The two operands of an instruction, decoded one after the other and
    /// encoded again, are the bytes they were decoded from.
    pub proof fn lemma_operands_round_trip(self)
        requires
            self.get_operand() is Ok,
            self.get_operand()->Ok_0.0.get_operand() is Ok,
            self.regs.mar@ + self.get_operand()->Ok_0.1.size() + self.get_operand()->Ok_0.0.get_operand()->Ok_0.1.size()
                <= 0x1_0000,
        ensures
            ({
                let (m, src) = self.get_operand()->Ok_0;
                let (n, dest) = m.get_operand()->Ok_0;
                let a = self.regs.mar@ as int;
                &&& a + src.size() + dest.size() <= self.ram.len()
                &&& self.ram.subrange(a, a + src.size() + dest.size()) == src.bytes() + dest.bytes()
                &&& n.regs.pc@ == wrap_add(self.regs.pc@, (src.size() + dest.size()) as u16)
            }),
    {
        let (m, src) = self.get_operand()->Ok_0;
        let dest = m.get_operand()->Ok_0.1;
        let a = self.regs.mar@ as int;
        let b = a + src.size();
        self.lemma_get_operand_range();
        m.lemma_get_operand_range();
        assert(self.ram.subrange(a, b + dest.size()) =~= self.ram.subrange(a, b) + self.ram.subrange(
            b,
            b + dest.size(),
        ));
    }

    /// Where the opcode byte of `op` lies at `PC`, `op` is fetched.
    pub proof fn lemma_fetch(self, op: OpCode)
        requires
            self.regs.pc@ < self.ram.len(),
            self.ram[self.regs.pc@ as int] == op.code(),
        ensures
            self.fetch() is Ok,
            self.fetch()->Ok_0.1 == op,
            self.fetch()->Ok_0.0.ram == self.ram,
            self.fetch()->Ok_0.0.regs.pc@ == wrap_add(self.regs.pc@, 1),
            self.fetch()->Ok_0.0.regs.mar@ == self.regs.pc@,
    {
        OpCode::lemma_code_round_trip(op, op.code());
    }

    /// Where the encoding of `op` lies whole at `MAR`, `op` is resolved.
    pub proof fn lemma_resolves(self, op: Operand)
        requires
            self.regs.mar@ + op.size() <= self.ram.len(),
            self.regs.mar@ + op.size() <= 0x1_0000,
            self.ram.subrange(self.regs.mar@ as int, self.regs.mar@ + op.size()) == op.bytes(),
        ensures
            self.get_operand() is Ok,
            self.get_operand()->Ok_0.1 == op,
            self.get_operand()->Ok_0.0.ram == self.ram,
            self.get_operand()->Ok_0.0.regs.pc@ == wrap_add(self.regs.pc@, op.size()),
            self.get_operand()->Ok_0.0.regs.mar@ == wrap_add(self.regs.mar@, op.size()),
    {
        op.lemma_encode_decode(self.ram, self.regs.mar@);
    }

    /// An instruction that lies in memory as an opcode followed by the
    /// encodings of two operands is read back as that opcode and those
    /// operands, and `PC` ends behind it (at zero, if it ends the address
    /// space).
    pub proof fn lemma_reads_back(self, op: OpCode, first: Operand, second: Operand)
        requires
            self.regs.pc@ + 1 + first.size() + second.size() <= self.ram.len(),
            self.regs.pc@ + 1 + first.size() + second.size() <= 0x1_0000,
            self.ram.subrange(
                self.regs.pc@ as int,
                self.regs.pc@ + 1 + first.size() + second.size(),
            ) == seq![op.code()] + first.bytes() + second.bytes(),
        ensures
            ({
                let fetched = self.fetch()->Ok_0;
                let one = fetched.0.at_operand().get_operand()->Ok_0;
                let two = one.0.get_operand()->Ok_0;
                &&& self.fetch() is Ok
                &&& fetched.1 == op
                &&& fetched.0.at_operand().get_operand() is Ok
                &&& one.1 == first
                &&& one.0.get_operand() is Ok
                &&& two.1 == second
                &&& two.0.regs.pc@ == wrap_add(
                    self.regs.pc@,
                    (1 + first.size() + second.size()) as u16,
                )
                &&& two.0.regs.mar@ == two.0.regs.pc@
            }),
    {
        let pc = self.regs.pc@ as int;
        let n = 1 + first.size() + second.size();
        let range = self.ram.subrange(pc, pc + n);
        first.lemma_size();
        second.lemma_size();
        assert(self.ram[pc] == op.code()) by {
            assert(self.ram[pc] == range[0]);
        }
        self.lemma_fetch(op);
        let start = self.fetch()->Ok_0.0.at_operand();
        assert(start.ram.subrange(pc + 1, pc + 1 + first.size()) =~= first.bytes()) by {
            assert forall|k: int| 0 <= k < first.size() implies self.ram[pc + 1 + k]
                == first.bytes()[k] by {
                assert(self.ram[pc + 1 + k] == range[1 + k]);
            }
        }
        start.lemma_resolves(first);
        let middle = start.get_operand()->Ok_0.0;
        let at = pc + 1 + first.size();
        assert(middle.ram.subrange(at, at + second.size()) =~= second.bytes()) by {
            assert forall|k: int| 0 <= k < second.size() implies self.ram[at + k]
                == second.bytes()[k] by {
                assert(self.ram[at + k] == range[1 + first.size() + k]);
            }
        }
        middle.lemma_resolves(second);
    }

    /// After `CMP`, a jump goes by the order of the two values compared:
    /// `JEQ`, `JLE` and `JGE` are taken if the destination equals the
    /// source, `JNE` if it does not, `JLT` if it is below the source and
    /// `JGT` if it is above. A jump that is taken sets `PC` to the value of
    /// its operand; one that is not leaves `PC` behind its operand.
    pub proof fn lemma_compare_then_jump(self, jump: OpCode)
        requires
            is_jump(jump),
            self.fetch() is Ok,
            self.fetch()->Ok_0.1 == OpCode::Cmp,
            self.step() is Ok,
            self.step()->Ok_0.0.fetch() is Ok,
            self.step()->Ok_0.0.fetch()->Ok_0.1 == jump,
            self.step()->Ok_0.0.step() is Ok,
        ensures
            ({
                let (compared, dest, src_val, dest_val) = self.fetch()->Ok_0.0.at_operand().operands()->Ok_0;
                let next = self.step()->Ok_0.0;
                let (resolved, target) = next.fetch()->Ok_0.0.at_operand().get_operand()->Ok_0;
                let last = next.step()->Ok_0.0;
                &&& self.fetch()->Ok_0.0.at_operand().operands() is Ok
                &&& next.fetch()->Ok_0.0.at_operand().get_operand() is Ok
                &&& next.regs.flgs@ == compare(dest_val, src_val)
                &&& if condition_holds(jump, dest_val, src_val) {
                    &&& resolved.read(target) is Ok
                    &&& last.regs.pc@ == resolved.read(target)->Ok_0.1
                } else {
                    last == resolved
                }
            }),
    {
        let (_, _, src_val, dest_val) = self.fetch()->Ok_0.0.at_operand().operands()->Ok_0;
        lemma_jump_taken(jump, dest_val, src_val);
    }
}

/// A step that, if it succeeds, lets the machine go on.
pub open spec fn continuing(r: Result<Machine, Fault>) -> Result<(Machine, Outcome), Fault> {
    match r {
        Ok(m) => Ok((m, Outcome::Continue)),
        Err(f) => Err(f),
    }
}

/// The machine made of the given memory and registers.
pub open spec fn machine(ram: Seq<u8>, regs: Registers) -> Machine {
    Machine { ram, regs }
}

/// An operation went as `expected`: on success the machine is in the
/// expected state; on a fault it is as it was before.
pub open spec fn went(
    before: Machine,
    after: Machine,
    res: Result<(), Fault>,
    expected: Result<Machine, Fault>,
) -> bool {
    match expected {
        Ok(m) => res is Ok && after.ram =~= m.ram && after.regs == m.regs,
        Err(f) => res == Err::<(), Fault>(f) && after.ram =~= before.ram && after.regs == before.regs,
    }
}

/// An operation went as `expected` and gave the expected value: on success
/// the machine is in the expected state; on a fault it is as it was before.
pub open spec fn gave<T>(
    before: Machine,
    after: Machine,
    res: Result<T, Fault>,
    expected: Result<(Machine, T), Fault>,
) -> bool {
    match expected {
        Ok((m, v)) => res == Ok::<T, Fault>(v) && after.ram =~= m.ram && after.regs == m.regs,
        Err(f) => res == Err::<T, Fault>(f) && after.ram =~= before.ram && after.regs == before.regs,
    }
}

} // verus!
