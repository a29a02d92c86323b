//! The instruction set: opcodes, registers and addressing modes, their
//! byte codes and their spelling in assembly source.

use crate::text::{chars_of, spells, to_uppercase, uppercase, SyntaxError};
use vstd::prelude::*;

verus! {

/// A cell of the register file.
#[derive(Copy, Clone, Debug, PartialEq, Eq, Structural)]
pub enum Reg {
    /// The program counter.
    Pc,
    /// The memory-address register, scratch of the emulator.
    Mar,
    /// The memory-data register, scratch of the emulator.
    Mdr,
    /// The remainder of the last division.
    Im,
    /// The stack pointer.
    Sp,
    /// The outcome of the last comparison.
    Flgs,
    /// General-purpose register `A`.
    A,
    /// General-purpose register `B`.
    B,
    /// General-purpose register `C`.
    C,
    /// General-purpose register `D`.
    D,
    /// General-purpose register `E`.
    E,
    /// General-purpose register `F`.
    F,
    /// General-purpose register `G`.
    G,
    /// General-purpose register `H`.
    H,
}

impl Reg {
    /// The byte that stands for this register in an object.
    pub open spec fn code(self) -> u8 {
        match self {
            Reg::Pc => 0,
            Reg::Mar => 1,
            Reg::Mdr => 2,
            Reg::Im => 3,
            Reg::Sp => 4,
            Reg::Flgs => 5,
            Reg::A => 6,
            Reg::B => 7,
            Reg::C => 8,
            Reg::D => 9,
            Reg::E => 10,
            Reg::F => 11,
            Reg::G => 12,
            Reg::H => 13,
        }
    }

    /// The register that `b` stands for, if there is one.
    pub open spec fn decode(b: u8) -> Option<Reg> {
        if b == 0 {
            Some(Reg::Pc)
        } else if b == 1 {
            Some(Reg::Mar)
        } else if b == 2 {
            Some(Reg::Mdr)
        } else if b == 3 {
            Some(Reg::Im)
        } else if b == 4 {
            Some(Reg::Sp)
        } else if b == 5 {
            Some(Reg::Flgs)
        } else if b == 6 {
            Some(Reg::A)
        } else if b == 7 {
            Some(Reg::B)
        } else if b == 8 {
            Some(Reg::C)
        } else if b == 9 {
            Some(Reg::D)
        } else if b == 10 {
            Some(Reg::E)
        } else if b == 11 {
            Some(Reg::F)
        } else if b == 12 {
            Some(Reg::G)
        } else if b == 13 {
            Some(Reg::H)
        } else {
            None
        }
    }

    /// How this register is written in source, in upper case.
    pub open spec fn spelling(self) -> Seq<char> {
        match self {
            Reg::Pc => "PC"@,
            Reg::Mar => "MAR"@,
            Reg::Mdr => "MDR"@,
            Reg::Im => "IM"@,
            Reg::Sp => "SP"@,
            Reg::Flgs => "FLGS"@,
            Reg::A => "A"@,
            Reg::B => "B"@,
            Reg::C => "C"@,
            Reg::D => "D"@,
            Reg::E => "E"@,
            Reg::F => "F"@,
            Reg::G => "G"@,
            Reg::H => "H"@,
        }
    }

    /// The register written `word`, if there is one.
    pub open spec fn named(word: Seq<char>) -> Option<Reg> {
        if exists|x: Reg| x.spelling() == word {
            Some(choose|x: Reg| x.spelling() == word)
        } else {
            None
        }
    }

    /// What a word of source denotes as a register, whatever the case of its
    /// letters.
    pub open spec fn parsed(word: Seq<char>) -> Result<Reg, SyntaxError> {
        match Reg::named(uppercase(word)) {
            Some(x) => Ok(x),
            None => Err(SyntaxError::UnknownRegister),
        }
    }

    /// Encodes the register as its byte.
    pub fn to(&self) -> (b: u8)
        ensures
            b == self.code(),
    {
        match self {
            Reg::Pc => 0,
            Reg::Mar => 1,
            Reg::Mdr => 2,
            Reg::Im => 3,
            Reg::Sp => 4,
            Reg::Flgs => 5,
            Reg::A => 6,
            Reg::B => 7,
            Reg::C => 8,
            Reg::D => 9,
            Reg::E => 10,
            Reg::F => 11,
            Reg::G => 12,
            Reg::H => 13,
        }
    }

    /// Decodes a byte; `None` for a byte that stands for no register.
    pub fn from(b: u8) -> (x: Option<Reg>)
        ensures
            x == Reg::decode(b),
    {
        match b {
            0 => Some(Reg::Pc),
            1 => Some(Reg::Mar),
            2 => Some(Reg::Mdr),
            3 => Some(Reg::Im),
            4 => Some(Reg::Sp),
            5 => Some(Reg::Flgs),
            6 => Some(Reg::A),
            7 => Some(Reg::B),
            8 => Some(Reg::C),
            9 => Some(Reg::D),
            10 => Some(Reg::E),
            11 => Some(Reg::F),
            12 => Some(Reg::G),
            13 => Some(Reg::H),
            _ => None,
        }
    }

    /// The upper-case spelling of the register.
    pub fn name(&self) -> (s: &'static str)
        ensures
            s@ == self.spelling(),
    {
        match self {
            Reg::Pc => "PC",
            Reg::Mar => "MAR",
            Reg::Mdr => "MDR",
            Reg::Im => "IM",
            Reg::Sp => "SP",
            Reg::Flgs => "FLGS",
            Reg::A => "A",
            Reg::B => "B",
            Reg::C => "C",
            Reg::D => "D",
            Reg::E => "E",
            Reg::F => "F",
            Reg::G => "G",
            Reg::H => "H",
        }
    }

    /// Finds the register that a word denotes.
    pub fn lookup(word: &[char]) -> (res: Result<Reg, SyntaxError>)
        ensures
            res == Reg::parsed(word@),
    {
        let upper = to_uppercase(word);
        let mut b: u8 = 0;
        while b < 14
            invariant
                b <= 14,
                upper@ == uppercase(word@),
                forall|x: Reg| x.code() < b ==> x.spelling() != upper@,
            decreases 14 - b,
        {
            match Reg::from(b) {
                Some(x) => {
                    if spells(x.name(), upper.as_slice()) {
                        proof {
                            let y = choose|y: Reg| y.spelling() == upper@;
                            Reg::lemma_spelling_injective(x, y);
                        }
                        return Ok(x);
                    }
                },
                None => {},
            }
            b += 1;
        }
        Err(SyntaxError::UnknownRegister)
    }

    /// Parses the name of a register, in either case of its letters.
    pub fn parse(s: &str) -> (res: Result<Reg, SyntaxError>)
        ensures
            res == Reg::parsed(s@),
    {
        let word = chars_of(s);
        Reg::lookup(word.as_slice())
    }

    /// No two registers are written alike.
    pub proof fn lemma_spelling_injective(a: Reg, b: Reg)
        requires
            a.spelling() == b.spelling(),
        ensures
            a == b,
    {
        reveal_strlit("PC");
        reveal_strlit("MAR");
        reveal_strlit("MDR");
        reveal_strlit("IM");
        reveal_strlit("SP");
        reveal_strlit("FLGS");
        reveal_strlit("A");
        reveal_strlit("B");
        reveal_strlit("C");
        reveal_strlit("D");
        reveal_strlit("E");
        reveal_strlit("F");
        reveal_strlit("G");
        reveal_strlit("H");
        let s = a.spelling();
        let t = b.spelling();
        assert(s[0] == t[0]);
        if s.len() > 1 {
            assert(s[1] == t[1]);
        }
    }

    /// Encoding a register and decoding the byte gives the register back, and
    /// a byte decodes to a register only if it is that register's code.
    pub proof fn lemma_code_round_trip(x: Reg, b: u8)
        ensures
            Reg::decode(x.code()) == Some(x),
            Reg::decode(b) == Some(x) <==> b == x.code(),
    {
    }

    /// The spelling of a register is its own upper-case form.
    pub proof fn lemma_spelling_is_upper(x: Reg)
        ensures
            uppercase(x.spelling()) == x.spelling(),
    {
        reveal_strlit("PC");
        reveal_strlit("MAR");
        reveal_strlit("MDR");
        reveal_strlit("IM");
        reveal_strlit("SP");
        reveal_strlit("FLGS");
        reveal_strlit("A");
        reveal_strlit("B");
        reveal_strlit("C");
        reveal_strlit("D");
        reveal_strlit("E");
        reveal_strlit("F");
        reveal_strlit("G");
        reveal_strlit("H");
    }

    /// Parsing the spelling of a register gives that register, and encoding
    /// and decoding it gives it back: the name that comes out is the name
    /// that went in.
    pub proof fn lemma_spelling_round_trip(x: Reg)
        ensures
            Reg::parsed(x.spelling()) == Ok::<Reg, SyntaxError>(x),
            Reg::decode(x.code()) == Some(x),
    {
        Reg::lemma_spelling_is_upper(x);
        let y = choose|y: Reg| y.spelling() == x.spelling();
        Reg::lemma_spelling_injective(x, y);
    }

    /// A word denotes a register exactly if, in upper case, it is that
    /// register's spelling.
    pub proof fn lemma_parsed(word: Seq<char>, x: Reg)
        ensures
            Reg::parsed(word) == Ok::<Reg, SyntaxError>(x) <==> uppercase(word) == x.spelling(),
            Reg::parsed(word) is Err ==> Reg::parsed(word) == Err::<Reg, SyntaxError>(
                SyntaxError::UnknownRegister,
            ),
    {
        if exists|y: Reg| y.spelling() == uppercase(word) {
            let y = choose|y: Reg| y.spelling() == uppercase(word);
            if uppercase(word) == x.spelling() {
                Reg::lemma_spelling_injective(x, y);
            }
        }
    }
}

/// An operation of the machine.
#[derive(Copy, Clone, Debug, PartialEq, Eq, Structural)]
pub enum OpCode {
    /// Stops the machine.
    Hlt,
    /// Jumps.
    Jmp,
    /// Jumps if the last comparison found equality.
    Jeq,
    /// Jumps unless the last comparison found equality.
    Jne,
    /// Jumps if the last comparison found less.
    Jlt,
    /// Jumps on the same condition as `Jeq`.
    Jle,
    /// Jumps if the last comparison found greater.
    Jgt,
    /// Jumps on the same condition as `Jeq`.
    Jge,
    /// Pushes the return address and jumps.
    Call,
    /// Pops the return address and jumps to it.
    Ret,
    /// Pushes a value.
    Push,
    /// Pops a value into its operand.
    Pop,
    /// Compares the second operand to the first.
    Cmp,
    /// Adds the first operand to the second.
    Add,
    /// Subtracts the first operand from the second.
    Sub,
    /// Multiplies the second operand by the first.
    Mul,
    /// Divides the second operand by the first.
    Div,
    /// Copies the first operand to the second.
    Mov,
    /// Reports two values to the host.
    Out,
}

impl OpCode {
    /// The byte that stands for this opcode in an object.
    pub open spec fn code(self) -> u8 {
        match self {
            OpCode::Hlt => 0,
            OpCode::Jmp => 1,
            OpCode::Jeq => 2,
            OpCode::Jne => 3,
            OpCode::Jlt => 4,
            OpCode::Jle => 5,
            OpCode::Jgt => 6,
            OpCode::Jge => 7,
            OpCode::Call => 8,
            OpCode::Ret => 9,
            OpCode::Push => 10,
            OpCode::Pop => 11,
            OpCode::Cmp => 12,
            OpCode::Add => 13,
            OpCode::Sub => 14,
            OpCode::Mul => 15,
            OpCode::Div => 16,
            OpCode::Mov => 17,
            OpCode::Out => 18,
        }
    }

    /// The opcode that `b` stands for, if there is one.
    pub open spec fn decode(b: u8) -> Option<OpCode> {
        if b == 0 {
            Some(OpCode::Hlt)
        } else if b == 1 {
            Some(OpCode::Jmp)
        } else if b == 2 {
            Some(OpCode::Jeq)
        } else if b == 3 {
            Some(OpCode::Jne)
        } else if b == 4 {
            Some(OpCode::Jlt)
        } else if b == 5 {
            Some(OpCode::Jle)
        } else if b == 6 {
            Some(OpCode::Jgt)
        } else if b == 7 {
            Some(OpCode::Jge)
        } else if b == 8 {
            Some(OpCode::Call)
        } else if b == 9 {
            Some(OpCode::Ret)
        } else if b == 10 {
            Some(OpCode::Push)
        } else if b == 11 {
            Some(OpCode::Pop)
        } else if b == 12 {
            Some(OpCode::Cmp)
        } else if b == 13 {
            Some(OpCode::Add)
        } else if b == 14 {
            Some(OpCode::Sub)
        } else if b == 15 {
            Some(OpCode::Mul)
        } else if b == 16 {
            Some(OpCode::Div)
        } else if b == 17 {
            Some(OpCode::Mov)
        } else if b == 18 {
            Some(OpCode::Out)
        } else {
            None
        }
    }

    /// How this opcode is written in source, in upper case.
    pub open spec fn mnemonic(self) -> Seq<char> {
        match self {
            OpCode::Hlt => "HLT"@,
            OpCode::Jmp => "JMP"@,
            OpCode::Jeq => "JEQ"@,
            OpCode::Jne => "JNE"@,
            OpCode::Jlt => "JLT"@,
            OpCode::Jle => "JLE"@,
            OpCode::Jgt => "JGT"@,
            OpCode::Jge => "JGE"@,
            OpCode::Call => "CALL"@,
            OpCode::Ret => "RET"@,
            OpCode::Push => "PUSH"@,
            OpCode::Pop => "POP"@,
            OpCode::Cmp => "CMP"@,
            OpCode::Add => "ADD"@,
            OpCode::Sub => "SUB"@,
            OpCode::Mul => "MUL"@,
            OpCode::Div => "DIV"@,
            OpCode::Mov => "MOV"@,
            OpCode::Out => "OUT"@,
        }
    }

    /// The opcode written `word`, if there is one.
    pub open spec fn named(word: Seq<char>) -> Option<OpCode> {
        if exists|x: OpCode| x.mnemonic() == word {
            Some(choose|x: OpCode| x.mnemonic() == word)
        } else {
            None
        }
    }

    /// What a word of source denotes as an opcode, whatever the case of its
    /// letters.
    pub open spec fn parsed(word: Seq<char>) -> Result<OpCode, SyntaxError> {
        match OpCode::named(uppercase(word)) {
            Some(x) => Ok(x),
            None => Err(SyntaxError::UnknownOpcode),
        }
    }

    /// Encodes the opcode as its byte.
    pub fn to(&self) -> (b: u8)
        ensures
            b == self.code(),
    {
        match self {
            OpCode::Hlt => 0,
            OpCode::Jmp => 1,
            OpCode::Jeq => 2,
            OpCode::Jne => 3,
            OpCode::Jlt => 4,
            OpCode::Jle => 5,
            OpCode::Jgt => 6,
            OpCode::Jge => 7,
            OpCode::Call => 8,
            OpCode::Ret => 9,
            OpCode::Push => 10,
            OpCode::Pop => 11,
            OpCode::Cmp => 12,
            OpCode::Add => 13,
            OpCode::Sub => 14,
            OpCode::Mul => 15,
            OpCode::Div => 16,
            OpCode::Mov => 17,
            OpCode::Out => 18,
        }
    }

    /// Decodes a byte; `None` for a byte that stands for no opcode.
    pub fn from(b: u8) -> (x: Option<OpCode>)
        ensures
            x == OpCode::decode(b),
    {
        match b {
            0 => Some(OpCode::Hlt),
            1 => Some(OpCode::Jmp),
            2 => Some(OpCode::Jeq),
            3 => Some(OpCode::Jne),
            4 => Some(OpCode::Jlt),
            5 => Some(OpCode::Jle),
            6 => Some(OpCode::Jgt),
            7 => Some(OpCode::Jge),
            8 => Some(OpCode::Call),
            9 => Some(OpCode::Ret),
            10 => Some(OpCode::Push),
            11 => Some(OpCode::Pop),
            12 => Some(OpCode::Cmp),
            13 => Some(OpCode::Add),
            14 => Some(OpCode::Sub),
            15 => Some(OpCode::Mul),
            16 => Some(OpCode::Div),
            17 => Some(OpCode::Mov),
            18 => Some(OpCode::Out),
            _ => None,
        }
    }

    /// The upper-case spelling of the opcode.
    pub fn name(&self) -> (s: &'static str)
        ensures
            s@ == self.mnemonic(),
    {
        match self {
            OpCode::Hlt => "HLT",
            OpCode::Jmp => "JMP",
            OpCode::Jeq => "JEQ",
            OpCode::Jne => "JNE",
            OpCode::Jlt => "JLT",
            OpCode::Jle => "JLE",
            OpCode::Jgt => "JGT",
            OpCode::Jge => "JGE",
            OpCode::Call => "CALL",
            OpCode::Ret => "RET",
            OpCode::Push => "PUSH",
            OpCode::Pop => "POP",
            OpCode::Cmp => "CMP",
            OpCode::Add => "ADD",
            OpCode::Sub => "SUB",
            OpCode::Mul => "MUL",
            OpCode::Div => "DIV",
            OpCode::Mov => "MOV",
            OpCode::Out => "OUT",
        }
    }

    /// Finds the opcode that a word denotes.
    pub fn lookup(word: &[char]) -> (res: Result<OpCode, SyntaxError>)
        ensures
            res == OpCode::parsed(word@),
    {
        let upper = to_uppercase(word);
        let mut b: u8 = 0;
        while b < 19
            invariant
                b <= 19,
                upper@ == uppercase(word@),
                forall|x: OpCode| x.code() < b ==> x.mnemonic() != upper@,
            decreases 19 - b,
        {
            match OpCode::from(b) {
                Some(x) => {
                    if spells(x.name(), upper.as_slice()) {
                        proof {
                            let y = choose|y: OpCode| y.mnemonic() == upper@;
                            OpCode::lemma_mnemonic_injective(x, y);
                        }
                        return Ok(x);
                    }
                },
                None => {},
            }
            b += 1;
        }
        Err(SyntaxError::UnknownOpcode)
    }

    /// Parses the name of an opcode, in either case of its letters.
    pub fn parse(s: &str) -> (res: Result<OpCode, SyntaxError>)
        ensures
            res == OpCode::parsed(s@),
    {
        let word = chars_of(s);
        OpCode::lookup(word.as_slice())
    }

    /// No two opcodes are written alike.
    pub proof fn lemma_mnemonic_injective(a: OpCode, b: OpCode)
        requires
            a.mnemonic() == b.mnemonic(),
        ensures
            a == b,
    {
        reveal_strlit("HLT");
        reveal_strlit("JMP");
        reveal_strlit("JEQ");
        reveal_strlit("JNE");
        reveal_strlit("JLT");
        reveal_strlit("JLE");
        reveal_strlit("JGT");
        reveal_strlit("JGE");
        reveal_strlit("CALL");
        reveal_strlit("RET");
        reveal_strlit("PUSH");
        reveal_strlit("POP");
        reveal_strlit("CMP");
        reveal_strlit("ADD");
        reveal_strlit("SUB");
        reveal_strlit("MUL");
        reveal_strlit("DIV");
        reveal_strlit("MOV");
        reveal_strlit("OUT");
        let s = a.mnemonic();
        let t = b.mnemonic();
        assert(s[0] == t[0]);
        if s.len() > 1 {
            assert(s[1] == t[1]);
        }
        if s.len() > 2 {
            assert(s[2] == t[2]);
        }
    }

    /// Encoding an opcode and decoding the byte gives the opcode back, and
    /// a byte decodes to an opcode only if it is that opcode's code.
    pub proof fn lemma_code_round_trip(x: OpCode, b: u8)
        ensures
            OpCode::decode(x.code()) == Some(x),
            OpCode::decode(b) == Some(x) <==> b == x.code(),
    {
    }

    /// The spelling of an opcode is its own upper-case form.
    pub proof fn lemma_mnemonic_is_upper(x: OpCode)
        ensures
            uppercase(x.mnemonic()) == x.mnemonic(),
    {
        reveal_strlit("HLT");
        reveal_strlit("JMP");
        reveal_strlit("JEQ");
        reveal_strlit("JNE");
        reveal_strlit("JLT");
        reveal_strlit("JLE");
        reveal_strlit("JGT");
        reveal_strlit("JGE");
        reveal_strlit("CALL");
        reveal_strlit("RET");
        reveal_strlit("PUSH");
        reveal_strlit("POP");
        reveal_strlit("CMP");
        reveal_strlit("ADD");
        reveal_strlit("SUB");
        reveal_strlit("MUL");
        reveal_strlit("DIV");
        reveal_strlit("MOV");
        reveal_strlit("OUT");
    }

    /// Parsing the spelling of an opcode gives that opcode, and encoding
    /// and decoding it gives it back: the name that comes out is the name
    /// that went in.
    pub proof fn lemma_mnemonic_round_trip(x: OpCode)
        ensures
            OpCode::parsed(x.mnemonic()) == Ok::<OpCode, SyntaxError>(x),
            OpCode::decode(x.code()) == Some(x),
    {
        OpCode::lemma_mnemonic_is_upper(x);
        let y = choose|y: OpCode| y.mnemonic() == x.mnemonic();
        OpCode::lemma_mnemonic_injective(x, y);
    }

    /// A word denotes an opcode exactly if, in upper case, it is that
    /// opcode's spelling.
    pub proof fn lemma_parsed(word: Seq<char>, x: OpCode)
        ensures
            OpCode::parsed(word) == Ok::<OpCode, SyntaxError>(x) <==> uppercase(word) == x.mnemonic(),
            OpCode::parsed(word) is Err ==> OpCode::parsed(word) == Err::<OpCode, SyntaxError>(
                SyntaxError::UnknownOpcode,
            ),
    {
        if exists|y: OpCode| y.mnemonic() == uppercase(word) {
            let y = choose|y: OpCode| y.mnemonic() == uppercase(word);
            if uppercase(word) == x.mnemonic() {
                OpCode::lemma_mnemonic_injective(x, y);
            }
        }
    }
}

/// The addressing mode of an operand, as tagged in the byte stream.
#[derive(Copy, Clone, Debug, PartialEq, Eq, Structural)]
pub enum AddrMode {
    /// A register, named by its index.
    Reg,
    /// Memory at the address held in a register.
    DerefReg,
    /// A literal 16-bit value.
    Const,
    /// Memory at a literal 16-bit address.
    Deref,
}

impl AddrMode {
    /// The tag byte of this mode.
    pub open spec fn code(self) -> u8 {
        match self {
            AddrMode::Reg => 0,
            AddrMode::DerefReg => 1,
            AddrMode::Const => 2,
            AddrMode::Deref => 3,
        }
    }

    /// The mode tagged by `b`, if there is one.
    pub open spec fn decode(b: u8) -> Option<AddrMode> {
        if b == 0 {
            Some(AddrMode::Reg)
        } else if b == 1 {
            Some(AddrMode::DerefReg)
        } else if b == 2 {
            Some(AddrMode::Const)
        } else if b == 3 {
            Some(AddrMode::Deref)
        } else {
            None
        }
    }

    /// Encodes the mode as its tag byte.
    pub fn to(&self) -> (b: u8)
        ensures
            b == self.code(),
    {
        match self {
            AddrMode::Reg => 0,
            AddrMode::DerefReg => 1,
            AddrMode::Const => 2,
            AddrMode::Deref => 3,
        }
    }

    /// Decodes a tag byte; `None` for a byte that tags no mode.
    pub fn from(b: u8) -> (m: Option<AddrMode>)
        ensures
            m == AddrMode::decode(b),
    {
        match b {
            0 => Some(AddrMode::Reg),
            1 => Some(AddrMode::DerefReg),
            2 => Some(AddrMode::Const),
            3 => Some(AddrMode::Deref),
            _ => None,
        }
    }

    /// Encoding a mode and decoding the tag gives the mode back, and a byte
    /// decodes to a mode only if it is that mode's tag.
    pub proof fn lemma_code_round_trip(x: AddrMode, b: u8)
        ensures
            AddrMode::decode(x.code()) == Some(x),
            AddrMode::decode(b) == Some(x) <==> b == x.code(),
    {
    }
}

} // verus!
