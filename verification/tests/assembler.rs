use reg16::assembler::{assemble, op_any, AsmError};
use reg16::token::{parse, Pseudo, Token};
use reg16::{OpCode, Reg};

fn label(name: &str) -> Token {
    Token::Label(name.chars().collect())
}

fn deref(t: Token) -> Token {
    Token::Deref(Box::new(t))
}

fn build(src: &str) -> Result<Vec<u8>, AsmError> {
    assemble(parse(src).unwrap())
}

#[test]
fn halt_is_one_zero_byte() {
    assert_eq!(build("HLT"), Ok(vec![0x00]));
}

#[test]
fn nothing_assembles_to_nothing() {
    assert_eq!(build(""), Ok(vec![]));
    assert_eq!(assemble(vec![]), Ok(vec![]));
    assert_eq!(assemble(vec![Token::Eof]), Ok(vec![]));
}

#[test]
fn an_operand_is_a_tag_and_a_payload() {
    assert_eq!(build("PUSH %a"), Ok(vec![0x0A, 0x00, 0x06]));
    assert_eq!(build("PUSH *%h"), Ok(vec![0x0A, 0x01, 0x0D]));
    assert_eq!(build("PUSH 0x1234"), Ok(vec![0x0A, 0x02, 0x34, 0x12]));
    assert_eq!(build("PUSH *0x1234"), Ok(vec![0x0A, 0x03, 0x34, 0x12]));
    assert_eq!(build("PUSH %pc"), Ok(vec![0x0A, 0x00, 0x00]));
}

#[test]
fn move_literal_into_register() {
    assert_eq!(
        build("MOV 0x002A %a HLT"),
        Ok(vec![0x11, 0x02, 0x2A, 0x00, 0x00, 0x06, 0x00])
    );
}

#[test]
fn a_literal_is_no_destination() {
    assert_eq!(build("MOV %a 0x002A HLT"), Err(AsmError::ConstDestination));
    assert_eq!(build("ADD %a 1"), Err(AsmError::ConstDestination));
    assert_eq!(build("SUB %a .x .x"), Err(AsmError::ConstDestination));
    assert_eq!(build("MUL 2 3"), Err(AsmError::ConstDestination));
    assert_eq!(build("DIV %a 0"), Err(AsmError::ConstDestination));
    assert_eq!(build("POP 5"), Err(AsmError::ConstDestination));
    assert_eq!(build(".x POP .x"), Err(AsmError::ConstDestination));
}

#[test]
fn compare_takes_any_two_operands() {
    assert_eq!(build("CMP 1 2"), Ok(vec![0x0C, 0x02, 0x01, 0x00, 0x02, 0x02, 0x00]));
    assert_eq!(build("CMP %a %b"), Ok(vec![0x0C, 0x00, 0x06, 0x00, 0x07]));
    assert_eq!(build("CMP *%a 7"), Ok(vec![0x0C, 0x01, 0x06, 0x02, 0x07, 0x00]));
    assert_eq!(build("CMP 7 *0x10"), Ok(vec![0x0C, 0x02, 0x07, 0x00, 0x03, 0x10, 0x00]));
}

#[test]
fn at_most_one_operand_is_in_memory() {
    assert_eq!(build("CMP *%a *%b"), Err(AsmError::TwoDerefs));
    assert_eq!(build("MOV *1 *2"), Err(AsmError::TwoDerefs));
    assert_eq!(build("ADD *%a *0x10"), Err(AsmError::TwoDerefs));
    assert_eq!(build(".x MOV *.x *.x"), Err(AsmError::TwoDerefs));
    assert_eq!(build("MOV *1 %a"), Ok(vec![0x11, 0x03, 0x01, 0x00, 0x00, 0x06]));
    assert_eq!(build("MOV %a *1"), Ok(vec![0x11, 0x00, 0x06, 0x03, 0x01, 0x00]));
}

#[test]
fn pop_takes_a_register_or_memory() {
    assert_eq!(build("POP %a"), Ok(vec![0x0B, 0x00, 0x06]));
    assert_eq!(build("POP *%a"), Ok(vec![0x0B, 0x01, 0x06]));
    assert_eq!(build("POP *0x20"), Ok(vec![0x0B, 0x03, 0x20, 0x00]));
    assert_eq!(build(".x POP *.x"), Ok(vec![0x0B, 0x03, 0x00, 0x00]));
}

#[test]
fn one_operand_instructions() {
    assert_eq!(build("JMP 3"), Ok(vec![0x01, 0x02, 0x03, 0x00]));
    assert_eq!(build("JEQ %a"), Ok(vec![0x02, 0x00, 0x06]));
    assert_eq!(build("JNE *%a"), Ok(vec![0x03, 0x01, 0x06]));
    assert_eq!(build("JLT *4"), Ok(vec![0x04, 0x03, 0x04, 0x00]));
    assert_eq!(build("JLE 1"), Ok(vec![0x05, 0x02, 0x01, 0x00]));
    assert_eq!(build("JGT 1"), Ok(vec![0x06, 0x02, 0x01, 0x00]));
    assert_eq!(build("JGE 1"), Ok(vec![0x07, 0x02, 0x01, 0x00]));
    assert_eq!(build("CALL 1"), Ok(vec![0x08, 0x02, 0x01, 0x00]));
    assert_eq!(build("RET"), Ok(vec![0x09]));
    assert_eq!(build("OUT %a"), Ok(vec![0x12, 0x00, 0x06]));
}

#[test]
fn halt_consumes_no_operand() {
    assert_eq!(build("HLT HLT"), Ok(vec![0x00, 0x00]));
    assert_eq!(build("HLT RET HLT"), Ok(vec![0x00, 0x09, 0x00]));
    assert_eq!(build("HLT .end JMP .end"), Ok(vec![0x00, 0x01, 0x02, 0x01, 0x00]));
    assert_eq!(build("HLT %a"), Err(AsmError::UnexpectedToken));
    assert_eq!(build("HLT 5"), Err(AsmError::UnexpectedToken));
    assert_eq!(build("RET *%a"), Err(AsmError::UnexpectedToken));
}

#[test]
fn forward_reference() {
    assert_eq!(
        build("JMP .end HLT .end HLT"),
        Ok(vec![0x01, 0x02, 0x05, 0x00, 0x00, 0x00])
    );
    assert_eq!(
        build("MOV .data %a HLT .data DW 0xBEEF"),
        Ok(vec![0x11, 0x02, 0x07, 0x00, 0x00, 0x06, 0x00, 0xEF, 0xBE])
    );
}

#[test]
fn backward_and_self_reference() {
    assert_eq!(build(".loop JMP .loop"), Ok(vec![0x01, 0x02, 0x00, 0x00]));
    assert_eq!(build("HLT .loop JMP .loop"), Ok(vec![0x00, 0x01, 0x02, 0x01, 0x00]));
    assert_eq!(
        build(".start MOV 0x0001 %a JMP .start"),
        Ok(vec![0x11, 0x02, 0x01, 0x00, 0x00, 0x06, 0x01, 0x02, 0x00, 0x00])
    );
}

#[test]
fn a_label_in_memory_position() {
    assert_eq!(
        build("MOV *.v %a HLT .v DW 7"),
        Ok(vec![0x11, 0x03, 0x07, 0x00, 0x00, 0x06, 0x00, 0x07, 0x00])
    );
    assert_eq!(
        build("PUSH *.v .v DB 1"),
        Ok(vec![0x0A, 0x03, 0x04, 0x00, 0x01])
    );
}

#[test]
fn every_reference_gets_the_offset_of_its_label() {
    let src = ".a JMP .c .b JMP .a CMP .b .c .c CALL .b PUSH *.a";
    // offsets: .a = 0, .b = 4, .c = 15
    assert_eq!(
        build(src),
        Ok(vec![
            0x01, 0x02, 15, 0, // JMP .c
            0x01, 0x02, 0, 0, // JMP .a
            0x0C, 0x02, 4, 0, 0x02, 15, 0, // CMP .b .c
            0x08, 0x02, 4, 0, // CALL .b
            0x0A, 0x03, 0, 0, // PUSH *.a
        ])
    );
}

#[test]
fn a_label_beyond_one_byte_is_little_endian() {
    let object = build("DN 0 0x0123 .far JMP .far").unwrap();
    assert_eq!(object.len(), 0x0123 + 4);
    assert_eq!(&object[0x0123..], &[0x01, 0x02, 0x23, 0x01]);
    assert!(object[..0x0123].iter().all(|b| *b == 0));
}

#[test]
fn labels_are_told_apart_by_case() {
    assert_eq!(build(".a .A JMP .A JMP .a"), Ok(vec![0x01, 0x02, 0, 0, 0x01, 0x02, 0, 0]));
    assert_eq!(build(".a HLT .A JMP .A"), Ok(vec![0x00, 0x01, 0x02, 1, 0]));
}

#[test]
fn a_label_is_declared_once() {
    assert_eq!(build(".a HLT .a"), Err(AsmError::DuplicateLabel));
    assert_eq!(build(".a .a"), Err(AsmError::DuplicateLabel));
    assert_eq!(build(". ."), Err(AsmError::DuplicateLabel));
}

#[test]
fn a_label_referred_to_is_declared_somewhere() {
    assert_eq!(build("JMP .nowhere"), Err(AsmError::UnknownLabel));
    assert_eq!(build(".a JMP .a JMP .b"), Err(AsmError::UnknownLabel));
    assert_eq!(build("PUSH *.x HLT"), Err(AsmError::UnknownLabel));
}

#[test]
fn pseudo_instructions_emit_raw_bytes() {
    assert_eq!(build("DB 0xAB"), Ok(vec![0xAB]));
    assert_eq!(build("DB 0x12AB"), Ok(vec![0xAB]));
    assert_eq!(build("DW 0x12AB"), Ok(vec![0xAB, 0x12]));
    assert_eq!(build("DW 1"), Ok(vec![0x01, 0x00]));
    assert_eq!(build("DN 0xAB 5"), Ok(vec![0xAB, 0xAB, 0xAB, 0xAB, 0xAB]));
    assert_eq!(build("DN 0x12AB 2"), Ok(vec![0xAB, 0xAB]));
    assert_eq!(build("DN 0xAB 0"), Ok(vec![]));
    assert_eq!(build("db 1 dw 2 dn 3 1"), Ok(vec![1, 2, 0, 3]));
}

#[test]
fn a_pseudo_instruction_takes_numerals() {
    assert_eq!(build("DB %a"), Err(AsmError::ExpectedConst));
    assert_eq!(build("DW .x"), Err(AsmError::ExpectedConst));
    assert_eq!(build("DN 1 %a"), Err(AsmError::ExpectedConst));
    assert_eq!(build("DN *1 2"), Err(AsmError::ExpectedConst));
    assert_eq!(build("DB HLT"), Err(AsmError::ExpectedConst));
    assert_eq!(build("DB"), Err(AsmError::MissingOperand));
    assert_eq!(build("DW"), Err(AsmError::MissingOperand));
    assert_eq!(build("DN"), Err(AsmError::MissingOperand));
    assert_eq!(build("DN 1"), Err(AsmError::MissingOperand));
}

#[test]
fn an_operand_is_missing_at_the_end() {
    assert_eq!(build("JMP"), Err(AsmError::MissingOperand));
    assert_eq!(build("MOV %a"), Err(AsmError::MissingOperand));
    assert_eq!(build("MOV"), Err(AsmError::MissingOperand));
    assert_eq!(build("POP"), Err(AsmError::MissingOperand));
    assert_eq!(
        assemble(vec![Token::Instruction(OpCode::Push)]),
        Err(AsmError::MissingOperand)
    );
}

#[test]
fn an_operand_is_no_keyword() {
    assert_eq!(build("JMP HLT"), Err(AsmError::ExpectedOperand));
    assert_eq!(build("MOV %a DB"), Err(AsmError::ExpectedOperand));
    assert_eq!(build("PUSH PUSH 1"), Err(AsmError::ExpectedOperand));
}

#[test]
fn a_dereference_is_of_a_register_a_numeral_or_a_label() {
    assert_eq!(build("PUSH **%a"), Err(AsmError::BadDeref));
    assert_eq!(build("PUSH *HLT"), Err(AsmError::BadDeref));
    assert_eq!(build("PUSH *DB"), Err(AsmError::BadDeref));
    assert_eq!(
        assemble(vec![Token::Instruction(OpCode::Push), deref(Token::Eof)]),
        Err(AsmError::BadDeref)
    );
}

#[test]
fn a_statement_starts_with_a_label_or_a_keyword() {
    assert_eq!(build("%a"), Err(AsmError::UnexpectedToken));
    assert_eq!(build("5"), Err(AsmError::UnexpectedToken));
    assert_eq!(build("*%a"), Err(AsmError::UnexpectedToken));
    assert_eq!(build("JMP 1 2"), Err(AsmError::UnexpectedToken));
}

#[test]
fn the_first_error_in_token_order_is_reported() {
    assert_eq!(build("JMP .nowhere %a"), Err(AsmError::UnexpectedToken));
    assert_eq!(build(".a .a %a"), Err(AsmError::DuplicateLabel));
    assert_eq!(build("MOV 1 2 .a .a"), Err(AsmError::ConstDestination));
}

#[test]
fn tokens_after_eof_are_ignored() {
    assert_eq!(
        assemble(vec![
            Token::Instruction(OpCode::Hlt),
            Token::Eof,
            Token::Instruction(OpCode::Ret),
            Token::Reg(Reg::A),
        ]),
        Ok(vec![0x00])
    );
}

#[test]
fn an_object_fills_the_address_space_and_no_more() {
    let full = build("DN 0 0xFFFF DB 1").unwrap();
    assert_eq!(full.len(), 0x1_0000);
    assert_eq!(full[0xFFFF], 1);
    assert_eq!(build("DN 0 0xFFFF DB 1 DB 2"), Err(AsmError::TooLarge));
    assert_eq!(build("DN 0 0xFFFF DN 0 0xFFFF"), Err(AsmError::TooLarge));
    assert_eq!(build("DN 0 0xFFFF HLT HLT"), Err(AsmError::TooLarge));
}

#[test]
fn a_label_lies_within_the_address_space() {
    let object = build("DN 0 0xFFFF .last DB 7").unwrap();
    assert_eq!(object.len(), 0x1_0000);
    assert_eq!(build("DN 0 0xFFFF DB 7 .past"), Err(AsmError::TooLarge));
    let object = build("PUSH .last DN 0 0xFFFB .last DB 7").unwrap();
    assert_eq!(&object[..4], &[0x0A, 0x02, 0xFF, 0xFF]);
}

#[test]
fn op_any_emits_one_operand_and_moves_on() {
    let tokens = vec![Token::Reg(Reg::B), deref(Token::Const(0x0102)), label("x"), deref(label("y"))];
    let mut cursor = 0;
    let mut resolves = Vec::new();
    let mut out = vec![0xEE];
    assert_eq!(op_any(&tokens, &mut cursor, &mut resolves, true, true, &mut out), Ok(true));
    assert_eq!((cursor, out.clone()), (1, vec![0xEE, 0x00, 0x07]));
    assert_eq!(op_any(&tokens, &mut cursor, &mut resolves, true, true, &mut out), Ok(false));
    assert_eq!((cursor, out.clone()), (2, vec![0xEE, 0x00, 0x07, 0x03, 0x02, 0x01]));
    assert!(resolves.is_empty());
    assert_eq!(op_any(&tokens, &mut cursor, &mut resolves, false, true, &mut out), Ok(true));
    assert_eq!(cursor, 3);
    assert_eq!(out, vec![0xEE, 0x00, 0x07, 0x03, 0x02, 0x01, 0x02, 0x00, 0x00]);
    assert_eq!(resolves, vec![(7, &vec!['x'])]);
    assert_eq!(op_any(&tokens, &mut cursor, &mut resolves, true, true, &mut out), Ok(false));
    assert_eq!(cursor, 4);
    assert_eq!(&out[9..], &[0x03, 0x00, 0x00]);
    assert_eq!(resolves, vec![(7, &vec!['x']), (10, &vec!['y'])]);
}

#[test]
fn op_any_changes_nothing_on_an_error() {
    let tokens = vec![
        Token::Const(1),
        label("x"),
        deref(Token::Reg(Reg::A)),
        deref(Token::Pseudo(Pseudo::Db)),
        Token::Instruction(OpCode::Hlt),
        Token::Eof,
    ];
    let cases = [
        (0, true, false, AsmError::ConstDestination),
        (1, true, false, AsmError::ConstDestination),
        (2, false, true, AsmError::TwoDerefs),
        (3, false, true, AsmError::TwoDerefs),
        (3, true, true, AsmError::BadDeref),
        (4, true, true, AsmError::ExpectedOperand),
        (5, true, true, AsmError::MissingOperand),
        (6, true, true, AsmError::MissingOperand),
        (99, true, true, AsmError::MissingOperand),
    ];
    let name = vec!['n'];
    for (at, allow_deref, allow_const, error) in cases {
        let mut cursor = at;
        let mut resolves = vec![(1usize, &name)];
        let mut out = vec![1, 2, 3];
        assert_eq!(
            op_any(&tokens, &mut cursor, &mut resolves, allow_deref, allow_const, &mut out),
            Err(error)
        );
        assert_eq!(cursor, at);
        assert_eq!(out, vec![1, 2, 3]);
        assert_eq!(resolves, vec![(1usize, &name)]);
    }
}
