//! The assembler: one pass over the tokens that emits bytes, records label
//! declarations and leaves a two-byte hole for every label reference, then
//! a second pass that fills the holes.

use crate::isa::{AddrMode, OpCode};
use crate::machine::{high, low, Operand, ADDRESS_SPACE};
use crate::token::{Lexeme, Pseudo, Token};
use vstd::prelude::*;

verus! {

/// Why a token sequence is not a program.
#[derive(Copy, Clone, Debug, PartialEq, Eq, Structural)]
pub enum AsmError {
    /// A label is declared a second time.
    DuplicateLabel,
    /// A label is referred to but declared nowhere.
    UnknownLabel,
    /// A statement starts with a register, a numeral or a dereference.
    UnexpectedToken,
    /// A numeral or a label stands where a destination is expected.
    ConstDestination,
    /// The second operand is in memory although the first one is.
    TwoDerefs,
    /// A mnemonic or a pseudo-instruction stands where an operand is
    /// expected.
    ExpectedOperand,
    /// `*` is applied to something other than a register, a numeral or a
    /// label.
    BadDeref,
    /// A pseudo-instruction is followed by something other than a numeral.
    ExpectedConst,
    /// The source ends where an operand or a numeral is expected.
    MissingOperand,
    /// The object outgrows the address space, or a label is declared past
    /// the last address.
    TooLarge,
}

/// A hole in the object: two bytes at `offset` that wait for the offset of
/// the label `name`.
pub struct Fixup {
    /// Where the hole starts.
    pub offset: int,
    /// The label referred to.
    pub name: Seq<char>,
}

/// The object under construction: the bytes emitted so far, and the holes
/// in them.
pub struct Draft {
    /// The bytes, with `00 00` in every hole.
    pub bytes: Seq<u8>,
    /// The holes, in the order in which they were left.
    pub fixups: Seq<Fixup>,
}

/// The state of the first pass.
pub struct Pass {
    /// The object under construction.
    pub draft: Draft,
    /// The labels declared so far, each with its offset.
    pub labels: Map<Seq<char>, u16>,
}

/// The token at position `i`; past the end of the tokens, `Eof`.
pub open spec fn token_at(tokens: Seq<Lexeme>, i: int) -> Lexeme {
    if 0 <= i < tokens.len() {
        tokens[i]
    } else {
        Lexeme::Eof
    }
}

/// The operand that a token denotes, where a dereference and a literal are
/// allowed or not. A label stands for a literal that is not known yet: its
/// operand has payload 0.
pub open spec fn operand(t: Lexeme, allow_deref: bool, allow_const: bool) -> Result<
    Operand,
    AsmError,
> {
    match t {
        Lexeme::Reg(r) => Ok(Operand::Reg(r)),
        Lexeme::Const(c) => if allow_const {
            Ok(Operand::Const(c))
        } else {
            Err(AsmError::ConstDestination)
        },
        Lexeme::Label(_) => if allow_const {
            Ok(Operand::Const(0))
        } else {
            Err(AsmError::ConstDestination)
        },
        Lexeme::Deref(inner) => if allow_deref {
            match *inner {
                Lexeme::Reg(r) => Ok(Operand::DerefReg(r)),
                Lexeme::Const(c) => Ok(Operand::Deref(c)),
                Lexeme::Label(_) => Ok(Operand::Deref(0)),
                _ => Err(AsmError::BadDeref),
            }
        } else {
            Err(AsmError::TwoDerefs)
        },
        Lexeme::Eof => Err(AsmError::MissingOperand),
        _ => Err(AsmError::ExpectedOperand),
    }
}

/// The label that an operand token refers to, if it refers to one.
pub open spec fn referenced(t: Lexeme) -> Option<Seq<char>> {
    match t {
        Lexeme::Label(name) => Some(name),
        Lexeme::Deref(inner) => match *inner {
            Lexeme::Label(name) => Some(name),
            _ => None,
        },
        _ => None,
    }
}

impl Draft {
    /// The draft with `bytes` appended.
    pub open spec fn append(self, bytes: Seq<u8>) -> Draft {
        Draft { bytes: self.bytes + bytes, fixups: self.fixups }
    }

    /// The draft after the operand token `t` has been emitted: its encoding
    /// is appended, and if it refers to a label its payload is a new hole.
    /// With it comes whether a next operand may still be in memory.
    pub open spec fn emit_operand(self, t: Lexeme, allow_deref: bool, allow_const: bool) -> Result<
        (Draft, bool),
        AsmError,
    > {
        match operand(t, allow_deref, allow_const) {
            Ok(op) => Ok(
                (
                    Draft {
                        bytes: self.bytes + op.bytes(),
                        fixups: match referenced(t) {
                            Some(name) => self.fixups.push(
                                Fixup { offset: self.bytes.len() as int + 1, name },
                            ),
                            None => self.fixups,
                        },
                    },
                    !op.is_memory(),
                ),
            ),
            Err(e) => Err(e),
        }
    }

    /// The draft after the instruction `op` whose operands start at
    /// `tokens[pos]`, with the position after them.
    pub open spec fn instruction(self, op: OpCode, tokens: Seq<Lexeme>, pos: int) -> Result<
        (Draft, int),
        AsmError,
    > {
        let head = self.append(seq![op.code()]);
        match op {
            OpCode::Hlt | OpCode::Ret => Ok((head, pos)),
            OpCode::Jmp
            | OpCode::Jeq
            | OpCode::Jne
            | OpCode::Jlt
            | OpCode::Jle
            | OpCode::Jgt
            | OpCode::Jge
            | OpCode::Call
            | OpCode::Push
            | OpCode::Out => match head.emit_operand(token_at(tokens, pos), true, true) {
                Ok((d, _)) => Ok((d, pos + 1)),
                Err(e) => Err(e),
            },
            OpCode::Pop => match head.emit_operand(token_at(tokens, pos), true, false) {
                Ok((d, _)) => Ok((d, pos + 1)),
                Err(e) => Err(e),
            },
            _ => match head.emit_operand(token_at(tokens, pos), true, true) {
                Ok((d, allow_deref)) => match d.emit_operand(
                    token_at(tokens, pos + 1),
                    allow_deref,
                    op == OpCode::Cmp,
                ) {
                    Ok((d, _)) => Ok((d, pos + 2)),
                    Err(e) => Err(e),
                },
                Err(e) => Err(e),
            },
        }
    }

    /// The draft after the pseudo-instruction `p` whose arguments start at
    /// `tokens[pos]`, with the position after them.
    pub open spec fn pseudo(self, p: Pseudo, tokens: Seq<Lexeme>, pos: int) -> Result<
        (Draft, int),
        AsmError,
    > {
        match token_at(tokens, pos) {
            Lexeme::Const(c) => match p {
                Pseudo::Db => Ok((self.append(seq![low(c)]), pos + 1)),
                Pseudo::Dw => Ok((self.append(seq![low(c), high(c)]), pos + 1)),
                Pseudo::Dn => match token_at(tokens, pos + 1) {
                    Lexeme::Const(n) => Ok(
                        (self.append(Seq::new(n as nat, |i: int| low(c))), pos + 2),
                    ),
                    Lexeme::Eof => Err(AsmError::MissingOperand),
                    _ => Err(AsmError::ExpectedConst),
                },
            },
            Lexeme::Eof => Err(AsmError::MissingOperand),
            _ => Err(AsmError::ExpectedConst),
        }
    }
}

impl Pass {
    /// The first pass before any token.
    pub open spec fn start() -> Pass {
        Pass { draft: Draft { bytes: Seq::empty(), fixups: Seq::empty() }, labels: Map::empty() }
    }

    /// The pass after the statement that starts at `tokens[pos]`, with the
    /// position of the next statement.
    pub open spec fn statement(self, tokens: Seq<Lexeme>, pos: int) -> Result<(Pass, int), AsmError> {
        match token_at(tokens, pos) {
            Lexeme::Label(name) => if self.labels.dom().contains(name) {
                Err(AsmError::DuplicateLabel)
            } else if self.draft.bytes.len() > u16::MAX {
                Err(AsmError::TooLarge)
            } else {
                Ok(
                    (
                        Pass {
                            draft: self.draft,
                            labels: self.labels.insert(name, self.draft.bytes.len() as u16),
                        },
                        pos + 1,
                    ),
                )
            },
            Lexeme::Instruction(op) => self.emitted(self.draft.instruction(op, tokens, pos + 1)),
            Lexeme::Pseudo(p) => self.emitted(self.draft.pseudo(p, tokens, pos + 1)),
            _ => Err(AsmError::UnexpectedToken),
        }
    }

    /// The pass after an emission, which must not outgrow the address
    /// space.
    pub open spec fn emitted(self, r: Result<(Draft, int), AsmError>) -> Result<(Pass, int), AsmError> {
        match r {
            Ok((draft, next)) => if draft.bytes.len() > ADDRESS_SPACE {
                Err(AsmError::TooLarge)
            } else {
                Ok((Pass { draft, labels: self.labels }, next))
            },
            Err(e) => Err(e),
        }
    }

    /// The first pass from `tokens[pos]` on: statement after statement up
    /// to `Eof` or the end of the tokens.
    pub open spec fn run(self, tokens: Seq<Lexeme>, pos: int) -> Result<Pass, AsmError>
        decreases tokens.len() - pos,
    {
        if pos < 0 || pos >= tokens.len() || tokens[pos] is Eof {
            Ok(self)
        } else {
            match self.statement(tokens, pos) {
                Ok((pass, next)) => if next > pos {
                    pass.run(tokens, next)
                } else {
                    Ok(pass)
                },
                Err(e) => Err(e),
            }
        }
    }

    /// Every hole refers to a declared label.
    pub open spec fn resolvable(self) -> bool {
        forall|k: int|
            0 <= k < self.draft.fixups.len() ==> self.labels.dom().contains(
                #[trigger] self.draft.fixups[k].name,
            )
    }

    /// The second pass: every hole is filled with the offset of its label.
    pub open spec fn link(self) -> Result<Seq<u8>, AsmError> {
        if self.resolvable() {
            Ok(patch(self.draft.bytes, self.draft.fixups, self.labels))
        } else {
            Err(AsmError::UnknownLabel)
        }
    }
}

/// `bytes` with the holes `fixups` filled in order, each with the
/// little-endian offset of its label.
pub open spec fn patch(bytes: Seq<u8>, fixups: Seq<Fixup>, labels: Map<Seq<char>, u16>) -> Seq<u8>
    decreases fixups.len(),
{
    if fixups.len() == 0 {
        bytes
    } else {
        let hole = fixups.last();
        let v = labels[hole.name];
        patch(bytes, fixups.drop_last(), labels).update(hole.offset, low(v)).update(
            hole.offset + 1,
            high(v),
        )
    }
}

/// The object that a token sequence assembles to.
pub open spec fn assembled(tokens: Seq<Lexeme>) -> Result<Seq<u8>, AsmError> {
    match Pass::start().run(tokens, 0) {
        Ok(pass) => pass.link(),
        Err(e) => Err(e),
    }
}

/// Every hole lies within the first `len` bytes, behind a tag byte of its
/// own, and the holes follow one another without overlap.
pub open spec fn holes_within(fixups: Seq<Fixup>, len: int) -> bool {
    &&& forall|k: int|
        0 <= k < fixups.len() ==> 1 <= (#[trigger] fixups[k]).offset && fixups[k].offset + 2 <= len
    &&& forall|j: int, k: int|
        0 <= j < k < fixups.len() ==> (#[trigger] fixups[j]).offset + 3 <= (#[trigger] fixups[k]).offset
}

impl Draft {
    /// Every hole is the payload of a literal operand, direct or
    /// dereferenced, and holds `00 00`.
    pub open spec fn holes_blank(self) -> bool {
        forall|k: int|
            0 <= k < self.fixups.len() ==> {
                let at = (#[trigger] self.fixups[k]).offset;
                &&& self.bytes[at - 1] == AddrMode::Const.code() || self.bytes[at - 1]
                    == AddrMode::Deref.code()
                &&& self.bytes[at] == 0
                &&& self.bytes[at + 1] == 0
            }
    }

    /// Every hole lies within the bytes as the blank payload of an operand,
    /// and no two holes overlap.
    pub open spec fn sound(self) -> bool {
        holes_within(self.fixups, self.bytes.len() as int) && self.holes_blank()
    }

    /// Appending bytes keeps the holes sound.
    pub proof fn lemma_append_sound(self, bytes: Seq<u8>)
        requires
            self.sound(),
        ensures
            self.append(bytes).sound(),
    {
        let after = self.append(bytes);
        assert forall|k: int| 0 <= k < after.fixups.len() implies {
            let at = (#[trigger] after.fixups[k]).offset;
            &&& after.bytes[at - 1] == AddrMode::Const.code() || after.bytes[at - 1]
                == AddrMode::Deref.code()
            &&& after.bytes[at] == 0
            &&& after.bytes[at + 1] == 0
        } by {}
    }

    /// Emitting an operand keeps the holes sound.
    pub proof fn lemma_emit_operand_sound(self, t: Lexeme, allow_deref: bool, allow_const: bool)
        requires
            self.sound(),
            self.emit_operand(t, allow_deref, allow_const) is Ok,
        ensures
            self.emit_operand(t, allow_deref, allow_const)->Ok_0.0.sound(),
    {
        let after = self.emit_operand(t, allow_deref, allow_const)->Ok_0.0;
        assert forall|k: int| 0 <= k < after.fixups.len() implies {
            let at = (#[trigger] after.fixups[k]).offset;
            &&& after.bytes[at - 1] == AddrMode::Const.code() || after.bytes[at - 1]
                == AddrMode::Deref.code()
            &&& after.bytes[at] == 0
            &&& after.bytes[at + 1] == 0
        } by {}
    }

    /// Emitting an instruction keeps the holes sound.
    pub proof fn lemma_instruction_sound(self, op: OpCode, tokens: Seq<Lexeme>, pos: int)
        requires
            self.sound(),
            self.instruction(op, tokens, pos) is Ok,
        ensures
            self.instruction(op, tokens, pos)->Ok_0.0.sound(),
    {
        let head = self.append(seq![op.code()]);
        self.lemma_append_sound(seq![op.code()]);
        match op {
            OpCode::Hlt | OpCode::Ret => {},
            OpCode::Jmp
            | OpCode::Jeq
            | OpCode::Jne
            | OpCode::Jlt
            | OpCode::Jle
            | OpCode::Jgt
            | OpCode::Jge
            | OpCode::Call
            | OpCode::Push
            | OpCode::Out => {
                head.lemma_emit_operand_sound(token_at(tokens, pos), true, true);
            },
            OpCode::Pop => {
                head.lemma_emit_operand_sound(token_at(tokens, pos), true, false);
            },
            _ => {
                head.lemma_emit_operand_sound(token_at(tokens, pos), true, true);
                let (first, allow_deref) = head.emit_operand(token_at(tokens, pos), true, true)->Ok_0;
                first.lemma_emit_operand_sound(
                    token_at(tokens, pos + 1),
                    allow_deref,
                    op == OpCode::Cmp,
                );
            },
        }
    }
}

impl Pass {
    /// The first pass leaves sound holes in an object that fits the address
    /// space.
    pub open spec fn sound(self) -> bool {
        self.draft.sound() && self.draft.bytes.len() <= ADDRESS_SPACE
    }

    /// A statement keeps the pass sound, and takes at least one token.
    pub proof fn lemma_statement_sound(self, tokens: Seq<Lexeme>, pos: int)
        requires
            self.sound(),
            self.statement(tokens, pos) is Ok,
        ensures
            self.statement(tokens, pos)->Ok_0.0.sound(),
            self.statement(tokens, pos)->Ok_0.1 > pos,
    {
        match token_at(tokens, pos) {
            Lexeme::Instruction(op) => {
                self.draft.lemma_instruction_sound(op, tokens, pos + 1);
            },
            _ => {},
        }
    }

    /// The first pass keeps itself sound.
    pub proof fn lemma_run_sound(self, tokens: Seq<Lexeme>, pos: int)
        requires
            self.sound(),
            self.run(tokens, pos) is Ok,
        ensures
            self.run(tokens, pos)->Ok_0.sound(),
        decreases tokens.len() - pos,
    {
        if pos < 0 || pos >= tokens.len() || tokens[pos] is Eof {
        } else {
            self.lemma_statement_sound(tokens, pos);
            let (pass, next) = self.statement(tokens, pos)->Ok_0;
            pass.lemma_run_sound(tokens, next);
        }
    }
}

/// Filling sound holes changes the two bytes of each hole to the offset of
/// its label, and no other byte.
pub proof fn lemma_patch(bytes: Seq<u8>, fixups: Seq<Fixup>, labels: Map<Seq<char>, u16>)
    requires
        holes_within(fixups, bytes.len() as int),
    ensures
        patch(bytes, fixups, labels).len() == bytes.len(),
        forall|k: int|
            0 <= k < fixups.len() ==> {
                let hole = #[trigger] fixups[k];
                &&& patch(bytes, fixups, labels)[hole.offset] == low(labels[hole.name])
                &&& patch(bytes, fixups, labels)[hole.offset + 1] == high(labels[hole.name])
            },
        forall|i: int|
            0 <= i < bytes.len() && (forall|k: int|
                0 <= k < fixups.len() ==> i != (#[trigger] fixups[k]).offset && i != fixups[k].offset + 1)
                ==> #[trigger] patch(bytes, fixups, labels)[i] == bytes[i],
    decreases fixups.len(),
{
    if fixups.len() > 0 {
        let earlier = fixups.drop_last();
        assert forall|k: int| 0 <= k < earlier.len() implies earlier[k] == fixups[k] by {}
        assert(holes_within(earlier, bytes.len() as int));
        lemma_patch(bytes, earlier, labels);
        let after = patch(bytes, fixups, labels);
        assert forall|k: int| 0 <= k < fixups.len() implies {
            let h = #[trigger] fixups[k];
            &&& after[h.offset] == low(labels[h.name])
            &&& after[h.offset + 1] == high(labels[h.name])
        } by {}
        assert forall|i: int|
            0 <= i < bytes.len() && (forall|k: int|
                0 <= k < fixups.len() ==> i != (#[trigger] fixups[k]).offset && i != fixups[k].offset
                    + 1) implies #[trigger] after[i] == bytes[i] by {}
    }
}

/// In the object of a program that assembles, every reference to a label
/// is a literal operand, direct or dereferenced, whose two payload bytes
/// are the little-endian offset of the label. Every other byte is as the
/// first pass emitted it, and the object is no larger than the address
/// space.
pub proof fn lemma_holes_filled(tokens: Seq<Lexeme>)
    requires
        assembled(tokens) is Ok,
    ensures
        ({
            let pass = Pass::start().run(tokens, 0)->Ok_0;
            let object = assembled(tokens)->Ok_0;
            &&& Pass::start().run(tokens, 0) is Ok
            &&& object.len() == pass.draft.bytes.len()
            &&& object.len() <= ADDRESS_SPACE
            &&& forall|k: int|
                0 <= k < pass.draft.fixups.len() ==> {
                    let hole = #[trigger] pass.draft.fixups[k];
                    let site = object.subrange(hole.offset - 1, hole.offset + 2);
                    &&& pass.labels.dom().contains(hole.name)
                    &&& 1 <= hole.offset && hole.offset + 2 <= object.len()
                    &&& object[hole.offset] == low(pass.labels[hole.name])
                    &&& object[hole.offset + 1] == high(pass.labels[hole.name])
                    &&& site == Operand::Const(pass.labels[hole.name]).bytes() || site
                        == Operand::Deref(pass.labels[hole.name]).bytes()
                }
            &&& forall|i: int|
                0 <= i < object.len() && (forall|k: int|
                    0 <= k < pass.draft.fixups.len() ==> i != (#[trigger] pass.draft.fixups[k]).offset
                        && i != pass.draft.fixups[k].offset + 1) ==> #[trigger] object[i]
                    == pass.draft.bytes[i]
        }),
{
    Pass::start().lemma_run_sound(tokens, 0);
    let pass = Pass::start().run(tokens, 0)->Ok_0;
    let object = assembled(tokens)->Ok_0;
    lemma_patch(pass.draft.bytes, pass.draft.fixups, pass.labels);
    assert forall|k: int| 0 <= k < pass.draft.fixups.len() implies {
        let hole = #[trigger] pass.draft.fixups[k];
        let site = object.subrange(hole.offset - 1, hole.offset + 2);
        site == Operand::Const(pass.labels[hole.name]).bytes() || site == Operand::Deref(
            pass.labels[hole.name],
        ).bytes()
    } by {}
}

/// The holes that a list of recorded references stands for.
pub open spec fn fixups_of(resolves: Seq<(usize, &Vec<char>)>) -> Seq<Fixup> {
    Seq::new(resolves.len(), |k: int| Fixup { offset: resolves[k].0 as int, name: resolves[k].1@ })
}

/// The labels that a table of declarations holds.
spec fn labels_of(table: Seq<(&Vec<char>, u16)>) -> Map<Seq<char>, u16>
    decreases table.len(),
{
    if table.len() == 0 {
        Map::empty()
    } else {
        labels_of(table.drop_last()).insert(table.last().0@, table.last().1)
    }
}

/// The state of the first pass that the assembler's variables stand for.
spec fn pass_of(
    out: Seq<u8>,
    resolves: Seq<(usize, &Vec<char>)>,
    table: Seq<(&Vec<char>, u16)>,
) -> Pass {
    Pass { draft: Draft { bytes: out, fixups: fixups_of(resolves) }, labels: labels_of(table) }
}

/// Appends the encoding of an operand.
fn emit(out: &mut Vec<u8>, op: Operand)
    ensures
        final(out)@ == old(out)@ + op.bytes(),
{
    match op {
        Operand::Reg(r) => {
            out.push(AddrMode::Reg.to());
            out.push(r.to());
        },
        Operand::DerefReg(r) => {
            out.push(AddrMode::DerefReg.to());
            out.push(r.to());
        },
        Operand::Const(c) => {
            out.push(AddrMode::Const.to());
            out.push((c % 256) as u8);
            out.push((c / 256) as u8);
        },
        Operand::Deref(c) => {
            out.push(AddrMode::Deref.to());
            out.push((c % 256) as u8);
            out.push((c / 256) as u8);
        },
    }
}

/// Emits the operand at `tokens[cursor]` and moves the cursor past it.
///
/// `allow_deref` and `allow_const` say whether the operand may be in memory
/// and whether it may be a literal or a label. The result says whether a
/// next operand may still be in memory. A reference to a label is recorded
/// in `resolves` with the offset of its two payload bytes. On an error
/// nothing is emitted, recorded or consumed.
pub fn op_any<'a>(
    tokens: &'a [Token],
    cursor: &mut usize,
    resolves: &mut Vec<(usize, &'a Vec<char>)>,
    allow_deref: bool,
    allow_const: bool,
    out: &mut Vec<u8>,
) -> (res: Result<bool, AsmError>)
    ensures
        match (Draft { bytes: old(out)@, fixups: fixups_of(old(resolves)@) }).emit_operand(
            token_at(tokens.deep_view(), *old(cursor) as int),
            allow_deref,
            allow_const,
        ) {
            Ok((draft, more)) => {
                &&& res == Ok::<bool, AsmError>(more)
                &&& *final(cursor) == *old(cursor) + 1
                &&& final(out)@ == draft.bytes
                &&& fixups_of(final(resolves)@) == draft.fixups
            },
            Err(e) => {
                &&& res == Err::<bool, AsmError>(e)
                &&& *final(cursor) == *old(cursor)
                &&& final(out)@ == old(out)@
                &&& final(resolves)@ == old(resolves)@
            },
        },
{
    if *cursor >= tokens.len() {
        return Err(AsmError::MissingOperand);
    }
    let t = &tokens[*cursor];
    proof {
        reveal_with_fuel(Token::lexeme, 2);
    }
    let (op, label): (Operand, Option<&'a Vec<char>>) = match t {
        Token::Reg(r) => (Operand::Reg(*r), None),
        Token::Const(c) => {
            if !allow_const {
                return Err(AsmError::ConstDestination);
            }
            (Operand::Const(*c), None)
        },
        Token::Label(l) => {
            if !allow_const {
                return Err(AsmError::ConstDestination);
            }
            (Operand::Const(0), Some(l))
        },
        Token::Deref(inner) => {
            if !allow_deref {
                return Err(AsmError::TwoDerefs);
            }
            match &**inner {
                Token::Reg(r) => (Operand::DerefReg(*r), None),
                Token::Const(c) => (Operand::Deref(*c), None),
                Token::Label(l) => (Operand::Deref(0), Some(l)),
                _ => {
                    return Err(AsmError::BadDeref);
                },
            }
        },
        Token::Eof => {
            return Err(AsmError::MissingOperand);
        },
        _ => {
            return Err(AsmError::ExpectedOperand);
        },
    };
    emit(out, op);
    match label {
        Some(l) => {
            resolves.push((out.len() - 2, l));
            assert(fixups_of(resolves@) =~= fixups_of(old(resolves)@).push(
                Fixup { offset: old(out)@.len() as int + 1, name: l@ },
            ));
        },
        None => {},
    }
    *cursor += 1;
    Ok(!op.is_mem())
}

/// Tells whether two names are the same.
fn same_name(a: &Vec<char>, b: &Vec<char>) -> (same: bool)
    ensures
        same == (a@ == b@),
{
    if a.len() != b.len() {
        return false;
    }
    let mut i: usize = 0;
    while i < a.len()
        invariant
            i <= a.len(),
            a.len() == b.len(),
            forall|j: int| 0 <= j < i ==> a@[j] == b@[j],
        decreases a.len() - i,
    {
        if a[i] != b[i] {
            return false;
        }
        i += 1;
    }
    assert(a@ =~= b@);
    true
}

/// Declarations after the first `n` of a table do not matter to a name
/// that none of them declares.
proof fn lemma_labels_skip(table: Seq<(&Vec<char>, u16)>, name: Seq<char>, n: int)
    requires
        0 <= n <= table.len(),
        forall|j: int| n <= j < table.len() ==> table[j].0@ != name,
    ensures
        labels_of(table).dom().contains(name) == labels_of(table.take(n)).dom().contains(name),
        labels_of(table).dom().contains(name) ==> labels_of(table)[name] == labels_of(
            table.take(n),
        )[name],
    decreases table.len() - n,
{
    if n == table.len() {
        assert(table.take(n) =~= table);
    } else {
        let shorter = table.drop_last();
        assert(shorter.take(n) =~= table.take(n));
        lemma_labels_skip(shorter, name, n);
    }
}

/// Looks up the offset of a label.
fn find(table: &Vec<(&Vec<char>, u16)>, name: &Vec<char>) -> (found: Option<u16>)
    ensures
        found == if labels_of(table@).dom().contains(name@) {
            Some(labels_of(table@)[name@])
        } else {
            None
        },
{
    let mut i: usize = table.len();
    while i > 0
        invariant
            i <= table.len(),
            forall|j: int| i <= j < table.len() ==> table@[j].0@ != name@,
        decreases i,
    {
        i -= 1;
        if same_name(table[i].0, name) {
            proof {
                lemma_labels_skip(table@, name@, i + 1);
            }
            return Some(table[i].1);
        }
    }
    proof {
        lemma_labels_skip(table@, name@, 0);
    }
    None
}

/// Reads the numeral that a pseudo-instruction takes at `tokens[pos]`.
fn numeral_at(tokens: &[Token], pos: usize) -> (res: Result<u16, AsmError>)
    ensures
        res == match token_at(tokens.deep_view(), pos as int) {
            Lexeme::Const(c) => Ok::<u16, AsmError>(c),
            Lexeme::Eof => Err::<u16, AsmError>(AsmError::MissingOperand),
            _ => Err::<u16, AsmError>(AsmError::ExpectedConst),
        },
        res is Ok ==> pos < tokens.len(),
{
    if pos >= tokens.len() {
        return Err(AsmError::MissingOperand);
    }
    match &tokens[pos] {
        Token::Const(c) => Ok(*c),
        Token::Eof => Err(AsmError::MissingOperand),
        _ => Err(AsmError::ExpectedConst),
    }
}

/// One operand of an instruction: as `op_any`, with the holes kept within
/// the draft.
fn operand_of<'a>(
    tokens: &'a [Token],
    cursor: &mut usize,
    resolves: &mut Vec<(usize, &'a Vec<char>)>,
    allow_deref: bool,
    allow_const: bool,
    out: &mut Vec<u8>,
) -> (res: Result<bool, AsmError>)
    requires
        (Draft { bytes: old(out)@, fixups: fixups_of(old(resolves)@) }).sound(),
    ensures
        match (Draft { bytes: old(out)@, fixups: fixups_of(old(resolves)@) }).emit_operand(
            token_at(tokens.deep_view(), *old(cursor) as int),
            allow_deref,
            allow_const,
        ) {
            Ok((draft, more)) => {
                &&& res == Ok::<bool, AsmError>(more)
                &&& *final(cursor) == *old(cursor) + 1
                &&& draft == Draft { bytes: final(out)@, fixups: fixups_of(final(resolves)@) }
                &&& draft.sound()
            },
            Err(e) => res == Err::<bool, AsmError>(e),
        },
{
    proof {
        let before = Draft { bytes: out@, fixups: fixups_of(resolves@) };
        let t = token_at(tokens.deep_view(), *cursor as int);
        if before.emit_operand(t, allow_deref, allow_const) is Ok {
            before.lemma_emit_operand_sound(t, allow_deref, allow_const);
        }
    }
    op_any(tokens, cursor, resolves, allow_deref, allow_const, out)
}

/// Emits the instruction `op`, whose operands start at `tokens[cursor]`.
fn instruction<'a>(
    tokens: &'a [Token],
    op: OpCode,
    cursor: &mut usize,
    resolves: &mut Vec<(usize, &'a Vec<char>)>,
    out: &mut Vec<u8>,
) -> (res: Result<(), AsmError>)
    requires
        (Draft { bytes: old(out)@, fixups: fixups_of(old(resolves)@) }).sound(),
    ensures
        match (Draft { bytes: old(out)@, fixups: fixups_of(old(resolves)@) }).instruction(
            op,
            tokens.deep_view(),
            *old(cursor) as int,
        ) {
            Ok((draft, next)) => {
                &&& res is Ok
                &&& *final(cursor) == next
                &&& draft == Draft { bytes: final(out)@, fixups: fixups_of(final(resolves)@) }
                &&& draft.sound()
            },
            Err(e) => res == Err::<(), AsmError>(e),
        },
{
    let ghost before = Draft { bytes: out@, fixups: fixups_of(resolves@) };
    out.push(op.to());
    proof {
        before.lemma_append_sound(seq![op.code()]);
        assert(out@ =~= before.append(seq![op.code()]).bytes);
    }
    match op {
        OpCode::Hlt | OpCode::Ret => Ok(()),
        OpCode::Jmp
        | OpCode::Jeq
        | OpCode::Jne
        | OpCode::Jlt
        | OpCode::Jle
        | OpCode::Jgt
        | OpCode::Jge
        | OpCode::Call
        | OpCode::Push
        | OpCode::Out => {
            match operand_of(tokens, cursor, resolves, true, true, out) {
                Ok(_) => Ok(()),
                Err(e) => Err(e),
            }
        },
        OpCode::Pop => {
            match operand_of(tokens, cursor, resolves, true, false, out) {
                Ok(_) => Ok(()),
                Err(e) => Err(e),
            }
        },
        OpCode::Cmp => {
            let allow_deref = match operand_of(tokens, cursor, resolves, true, true, out) {
                Ok(more) => more,
                Err(e) => {
                    return Err(e);
                },
            };
            match operand_of(tokens, cursor, resolves, allow_deref, true, out) {
                Ok(_) => Ok(()),
                Err(e) => Err(e),
            }
        },
        OpCode::Add | OpCode::Sub | OpCode::Mul | OpCode::Div | OpCode::Mov => {
            let allow_deref = match operand_of(tokens, cursor, resolves, true, true, out) {
                Ok(more) => more,
                Err(e) => {
                    return Err(e);
                },
            };
            match operand_of(tokens, cursor, resolves, allow_deref, false, out) {
                Ok(_) => Ok(()),
                Err(e) => Err(e),
            }
        },
    }
}

/// Emits the pseudo-instruction `p`, whose arguments start at
/// `tokens[cursor]`.
fn pseudo(tokens: &[Token], p: Pseudo, cursor: &mut usize, out: &mut Vec<u8>) -> (res: Result<
    (),
    AsmError,
>)
    ensures
        match (Draft { bytes: old(out)@, fixups: Seq::empty() }).pseudo(
            p,
            tokens.deep_view(),
            *old(cursor) as int,
        ) {
            Ok((draft, next)) => {
                &&& res is Ok
                &&& *final(cursor) == next
                &&& final(out)@ == draft.bytes
            },
            Err(e) => res == Err::<(), AsmError>(e),
        },
{
    let c = match numeral_at(tokens, *cursor) {
        Ok(c) => c,
        Err(e) => {
            return Err(e);
        },
    };
    *cursor += 1;
    match p {
        Pseudo::Db => {
            out.push((c % 256) as u8);
        },
        Pseudo::Dw => {
            out.push((c % 256) as u8);
            out.push((c / 256) as u8);
        },
        Pseudo::Dn => {
            let n = match numeral_at(tokens, *cursor) {
                Ok(n) => n,
                Err(e) => {
                    return Err(e);
                },
            };
            *cursor += 1;
            let mut k: u16 = 0;
            while k < n
                invariant
                    k <= n,
                    out@ == old(out)@ + Seq::new(k as nat, |i: int| low(c)),
                decreases n - k,
            {
                out.push((c % 256) as u8);
                k += 1;
            }
        },
    }
    Ok(())
}

/// Assembles a token sequence into an object.
///
/// The first pass emits each statement up to `Eof`; a label is declared
/// with the offset of the byte it precedes, and a reference to a label
/// leaves a hole. The second pass writes into each hole the little-endian
/// offset of its label.
pub fn assemble(tokens: Vec<Token>) -> (res: Result<Vec<u8>, AsmError>)
    ensures
        match assembled(tokens.deep_view()) {
            Ok(bytes) => res is Ok && res->Ok_0@ == bytes && bytes.len() <= ADDRESS_SPACE,
            Err(e) => res == Err::<Vec<u8>, AsmError>(e),
        },
{
    let toks = tokens.as_slice();
    let ghost lex = tokens.deep_view();
    let mut labels: Vec<(&Vec<char>, u16)> = Vec::new();
    let mut resolves: Vec<(usize, &Vec<char>)> = Vec::new();
    let mut out: Vec<u8> = Vec::new();
    let mut pos: usize = 0;
    assert(fixups_of(resolves@) =~= Seq::empty());
    while pos < toks.len()
        invariant
            pos <= toks.len(),
            lex == toks.deep_view(),
            lex == tokens.deep_view(),
            lex.len() == toks.len(),
            out@.len() <= ADDRESS_SPACE,
            pass_of(out@, resolves@, labels@).draft.sound(),
            pass_of(out@, resolves@, labels@).run(lex, pos as int) == Pass::start().run(lex, 0),
        ensures
            lex == tokens.deep_view(),
            out@.len() <= ADDRESS_SPACE,
            pass_of(out@, resolves@, labels@).draft.sound(),
            Pass::start().run(lex, 0) == Ok::<Pass, AsmError>(pass_of(out@, resolves@, labels@)),
        decreases toks.len() - pos,
    {
        let ghost pass = pass_of(out@, resolves@, labels@);
        let ghost here = pos as int;
        match &toks[pos] {
            Token::Eof => {
                break ;
            },
            Token::Label(s) => {
                if find(&labels, s).is_some() {
                    return Err(AsmError::DuplicateLabel);
                }
                if out.len() > 0xFFFF {
                    return Err(AsmError::TooLarge);
                }
                let ghost declared = labels@;
                labels.push((s, out.len() as u16));
                assert(labels@.drop_last() =~= declared);
                pos += 1;
                assert(pass.statement(lex, here) == Ok::<(Pass, int), AsmError>(
                    (pass_of(out@, resolves@, labels@), pos as int),
                ));
            },
            Token::Instruction(i) => {
                pos += 1;
                match instruction(toks, *i, &mut pos, &mut resolves, &mut out) {
                    Ok(()) => {},
                    Err(e) => {
                        return Err(e);
                    },
                }
                if out.len() > ADDRESS_SPACE {
                    return Err(AsmError::TooLarge);
                }
                assert(pass.statement(lex, here) == Ok::<(Pass, int), AsmError>(
                    (pass_of(out@, resolves@, labels@), pos as int),
                ));
            },
            Token::Pseudo(p) => {
                pos += 1;
                match pseudo(toks, *p, &mut pos, &mut out) {
                    Ok(()) => {},
                    Err(e) => {
                        return Err(e);
                    },
                }
                if out.len() > ADDRESS_SPACE {
                    return Err(AsmError::TooLarge);
                }
                assert(pass.statement(lex, here) == Ok::<(Pass, int), AsmError>(
                    (pass_of(out@, resolves@, labels@), pos as int),
                ));
            },
            _ => {
                return Err(AsmError::UnexpectedToken);
            },
        }
    }
    let ghost pass = pass_of(out@, resolves@, labels@);
    let ghost draft = out@;
    let mut k: usize = 0;
    while k < resolves.len()
        invariant
            k <= resolves.len(),
            lex == tokens.deep_view(),
            Pass::start().run(lex, 0) == Ok::<Pass, AsmError>(pass),
            pass == pass_of(draft, resolves@, labels@),
            pass.draft.sound(),
            out@.len() == draft.len(),
            draft.len() <= ADDRESS_SPACE,
            out@ == patch(draft, pass.draft.fixups.take(k as int), pass.labels),
            forall|j: int| 0 <= j < k ==> pass.labels.dom().contains(pass.draft.fixups[j].name),
        decreases resolves.len() - k,
    {
        let (i, l) = resolves[k];
        let ghost hole = pass.draft.fixups[k as int];
        assert(hole.offset == i && hole.name == l@);
        match find(&labels, l) {
            Some(c) => {
                out[i] = (c % 256) as u8;
                out[i + 1] = (c / 256) as u8;
            },
            None => {
                return Err(AsmError::UnknownLabel);
            },
        }
        k += 1;
        assert(pass.draft.fixups.take(k as int).drop_last() =~= pass.draft.fixups.take(k - 1));
    }
    assert(pass.draft.fixups.take(k as int) =~= pass.draft.fixups);
    Ok(out)
}

} // verus!
