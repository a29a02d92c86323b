use reg16::text::SyntaxError;
use reg16::token::{parse, ParseError, Pseudo, Token};
use reg16::{OpCode, Reg};

fn label(name: &str) -> Token {
    Token::Label(name.chars().collect())
}

fn deref(t: Token) -> Token {
    Token::Deref(Box::new(t))
}

#[test]
fn a_word_is_classified_by_its_first_character() {
    assert_eq!(Token::parse(".loop"), Ok(label("loop")));
    assert_eq!(Token::parse("%a"), Ok(Token::Reg(Reg::A)));
    assert_eq!(Token::parse("%SP"), Ok(Token::Reg(Reg::Sp)));
    assert_eq!(Token::parse("*%b"), Ok(deref(Token::Reg(Reg::B))));
    assert_eq!(Token::parse("*0x1000"), Ok(deref(Token::Const(0x1000))));
    assert_eq!(Token::parse("*.foo"), Ok(deref(label("foo"))));
    assert_eq!(Token::parse("42"), Ok(Token::Const(42)));
    assert_eq!(Token::parse("mov"), Ok(Token::Instruction(OpCode::Mov)));
    assert_eq!(Token::parse("DB"), Ok(Token::Pseudo(Pseudo::Db)));
    assert_eq!(Token::parse("dw"), Ok(Token::Pseudo(Pseudo::Dw)));
    assert_eq!(Token::parse("Dn"), Ok(Token::Pseudo(Pseudo::Dn)));
}

#[test]
fn a_label_is_any_run_after_the_dot() {
    assert_eq!(Token::parse("."), Ok(label("")));
    assert_eq!(Token::parse(".a.b"), Ok(label("a.b")));
    assert_eq!(Token::parse(".%x*1"), Ok(label("%x*1")));
    assert_eq!(Token::parse(".Loop"), Ok(label("Loop")));
    assert_ne!(Token::parse(".Loop"), Ok(label("loop")));
}

#[test]
fn a_dereference_nests_as_written() {
    assert_eq!(Token::parse("**%a"), Ok(deref(deref(Token::Reg(Reg::A)))));
    assert_eq!(Token::parse("*hlt"), Ok(deref(Token::Instruction(OpCode::Hlt))));
    assert_eq!(Token::parse("*"), Err(SyntaxError::EmptyToken));
    assert_eq!(Token::parse("**"), Err(SyntaxError::EmptyToken));
    assert_eq!(Token::parse("*%q"), Err(SyntaxError::UnknownRegister));
}

#[test]
fn the_empty_word_is_no_token() {
    assert_eq!(Token::parse(""), Err(SyntaxError::EmptyToken));
}

#[test]
fn numerals_come_in_four_bases() {
    assert_eq!(Token::parse("42"), Ok(Token::Const(42)));
    assert_eq!(Token::parse("0xFF"), Ok(Token::Const(255)));
    assert_eq!(Token::parse("0xff"), Ok(Token::Const(255)));
    assert_eq!(Token::parse("0o17"), Ok(Token::Const(15)));
    assert_eq!(Token::parse("0b1010"), Ok(Token::Const(10)));
    assert_eq!(Token::parse("0x002A"), Ok(Token::Const(0x2A)));
    assert_eq!(Token::parse("007"), Ok(Token::Const(7)));
    assert_eq!(Token::parse("09"), Ok(Token::Const(9)));
}

#[test]
fn numeric_limits() {
    assert_eq!(Token::parse("0xFFFF"), Ok(Token::Const(0xFFFF)));
    assert_eq!(Token::parse("65535"), Ok(Token::Const(65535)));
    assert_eq!(Token::parse("0o177777"), Ok(Token::Const(65535)));
    assert_eq!(Token::parse("0b1111111111111111"), Ok(Token::Const(65535)));
    assert_eq!(Token::parse("0"), Ok(Token::Const(0)));
    assert_eq!(Token::parse("0x0"), Ok(Token::Const(0)));
    assert_eq!(Token::parse("00000000000000000000"), Ok(Token::Const(0)));
    assert_eq!(Token::parse("65536"), Err(SyntaxError::NumberTooLarge));
    assert_eq!(Token::parse("0x10000"), Err(SyntaxError::NumberTooLarge));
    assert_eq!(Token::parse("0o200000"), Err(SyntaxError::NumberTooLarge));
    assert_eq!(Token::parse("0b10000000000000000"), Err(SyntaxError::NumberTooLarge));
    assert_eq!(Token::parse("99999999999999999999999999"), Err(SyntaxError::NumberTooLarge));
}

#[test]
fn malformed_numerals_are_rejected() {
    assert_eq!(Token::parse("12ab"), Err(SyntaxError::MalformedNumber));
    assert_eq!(Token::parse("0x"), Err(SyntaxError::MalformedNumber));
    assert_eq!(Token::parse("0xG"), Err(SyntaxError::MalformedNumber));
    assert_eq!(Token::parse("0o8"), Err(SyntaxError::MalformedNumber));
    assert_eq!(Token::parse("0b2"), Err(SyntaxError::MalformedNumber));
    assert_eq!(Token::parse("0x-1"), Err(SyntaxError::MalformedNumber));
    assert_eq!(Token::parse("0x+"), Err(SyntaxError::MalformedNumber));
    assert_eq!(Token::parse("1_000"), Err(SyntaxError::MalformedNumber));
    assert_eq!(Token::parse("99999x"), Err(SyntaxError::MalformedNumber));
}

#[test]
fn a_sign_may_follow_a_base_prefix() {
    assert_eq!(Token::parse("0x+1F"), Ok(Token::Const(0x1F)));
    assert_eq!(Token::parse("0b+1"), Ok(Token::Const(1)));
    assert_eq!(Token::parse("0x++1"), Err(SyntaxError::MalformedNumber));
}

#[test]
fn an_unknown_base_is_rejected() {
    assert_eq!(Token::parse("0q1"), Err(SyntaxError::UnknownBase));
    assert_eq!(Token::parse("0X1F"), Err(SyntaxError::UnknownBase));
    assert_eq!(Token::parse("0_"), Err(SyntaxError::UnknownBase));
    assert_eq!(Token::parse("0B1"), Err(SyntaxError::UnknownBase));
}

#[test]
fn const_from_radix_reads_what_follows_the_prefix() {
    assert_eq!(Token::const_from_radix("0x1F", 16), Ok(Token::Const(31)));
    assert_eq!(Token::const_from_radix("0o17", 8), Ok(Token::Const(15)));
    assert_eq!(Token::const_from_radix("0b101", 2), Ok(Token::Const(5)));
    assert_eq!(Token::const_from_radix("zz10", 10), Ok(Token::Const(10)));
    assert_eq!(Token::const_from_radix("0xzz", 36), Ok(Token::Const(35 * 36 + 35)));
    assert_eq!(Token::const_from_radix("0x", 16), Err(SyntaxError::MalformedNumber));
    assert_eq!(Token::const_from_radix("0", 16), Err(SyntaxError::MalformedNumber));
    assert_eq!(Token::const_from_radix("", 16), Err(SyntaxError::MalformedNumber));
    assert_eq!(Token::const_from_radix("0b12", 2), Err(SyntaxError::MalformedNumber));
    assert_eq!(Token::const_from_radix("0xFFFF", 16), Ok(Token::Const(0xFFFF)));
    assert_eq!(Token::const_from_radix("0x10000", 16), Err(SyntaxError::NumberTooLarge));
}

#[test]
fn unknown_keywords_and_registers_are_rejected() {
    assert_eq!(Token::parse("nop"), Err(SyntaxError::UnknownOpcode));
    assert_eq!(Token::parse(";"), Err(SyntaxError::UnknownOpcode));
    assert_eq!(Token::parse("#a"), Err(SyntaxError::UnknownOpcode));
    assert_eq!(Token::parse("%"), Err(SyntaxError::UnknownRegister));
    assert_eq!(Token::parse("%x"), Err(SyntaxError::UnknownRegister));
}

#[test]
fn a_source_is_cut_into_words_and_ends_with_eof() {
    assert_eq!(parse(""), Ok(vec![Token::Eof]));
    assert_eq!(parse("   \n\t\n"), Ok(vec![Token::Eof]));
    assert_eq!(parse("HLT"), Ok(vec![Token::Instruction(OpCode::Hlt), Token::Eof]));
    assert_eq!(
        parse(".start MOV 0x0001 %a\n\tJMP .start\n"),
        Ok(vec![
            label("start"),
            Token::Instruction(OpCode::Mov),
            Token::Const(1),
            Token::Reg(Reg::A),
            Token::Instruction(OpCode::Jmp),
            label("start"),
            Token::Eof,
        ])
    );
}

#[test]
fn words_are_cut_at_any_white_space() {
    let expected = Ok(vec![
        Token::Instruction(OpCode::Push),
        Token::Const(1),
        Token::Instruction(OpCode::Hlt),
        Token::Eof,
    ]);
    assert_eq!(parse("PUSH 1 HLT"), expected);
    assert_eq!(parse("PUSH\t1\r\nHLT\r\n"), expected);
    assert_eq!(parse("PUSH\u{A0}1\u{2003}HLT\u{3000}"), expected);
    assert_eq!(parse("\u{B}PUSH\u{C}1\u{85}HLT"), expected);
    assert_eq!(parse("PUSH\n1\n\n\nHLT"), expected);
}

#[test]
fn a_line_that_starts_with_a_semicolon_is_dropped() {
    assert_eq!(parse("; nothing here"), Ok(vec![Token::Eof]));
    assert_eq!(parse(";\n"), Ok(vec![Token::Eof]));
    assert_eq!(
        parse("; set up\nHLT\n;done %% 0q"),
        Ok(vec![Token::Instruction(OpCode::Hlt), Token::Eof])
    );
    assert_eq!(
        parse(";a\n;b\n\n;c\nRET"),
        Ok(vec![Token::Instruction(OpCode::Ret), Token::Eof])
    );
}

#[test]
fn a_semicolon_after_the_start_of_a_line_is_no_comment() {
    assert_eq!(
        parse(" ; indented"),
        Err(ParseError { line: 1, kind: SyntaxError::UnknownOpcode })
    );
    assert_eq!(
        parse("HLT ; stop"),
        Err(ParseError { line: 1, kind: SyntaxError::UnknownOpcode })
    );
    assert_eq!(
        parse("HLT\r;x"),
        Err(ParseError { line: 1, kind: SyntaxError::UnknownOpcode })
    );
}

#[test]
fn the_first_bad_word_is_reported_with_its_line() {
    assert_eq!(parse("BOGUS"), Err(ParseError { line: 1, kind: SyntaxError::UnknownOpcode }));
    assert_eq!(
        parse("HLT\n\n  MOV %q %a\nBOGUS"),
        Err(ParseError { line: 3, kind: SyntaxError::UnknownRegister })
    );
    assert_eq!(
        parse("; one\n; two\nPUSH 70000"),
        Err(ParseError { line: 3, kind: SyntaxError::NumberTooLarge })
    );
    assert_eq!(
        parse("PUSH 1\r\nPUSH 0z\r\n"),
        Err(ParseError { line: 2, kind: SyntaxError::UnknownBase })
    );
    assert_eq!(
        parse("\n\n\n\nPUSH *"),
        Err(ParseError { line: 5, kind: SyntaxError::EmptyToken })
    );
    assert_eq!(
        parse("PUSH 1x 0q"),
        Err(ParseError { line: 1, kind: SyntaxError::MalformedNumber })
    );
}

#[test]
fn eof_comes_last_and_only_last() {
    for src in ["", "HLT", "; c\n.a MOV 1 %a\n\nJMP .a\n", "PUSH *%sp POP *0x10 DN 1 2"] {
        let tokens = parse(src).unwrap();
        let (last, before) = tokens.split_last().unwrap();
        assert_eq!(*last, Token::Eof);
        assert!(before.iter().all(|t| *t != Token::Eof));
    }
}

#[test]
fn keywords_and_registers_fold_case_by_unicode() {
    assert_eq!(Token::parse("pu\u{17F}h"), Ok(Token::Instruction(OpCode::Push)));
    assert_eq!(Token::parse("d\u{131}v"), Ok(Token::Instruction(OpCode::Div)));
    assert_eq!(Token::parse("%\u{17F}p"), Ok(Token::Reg(Reg::Sp)));
    assert_eq!(Token::parse("*%\u{FB02}gs"), Ok(deref(Token::Reg(Reg::Flgs))));
    assert_eq!(Token::parse("\u{E9}"), Err(SyntaxError::UnknownOpcode));
    assert_eq!(
        parse("pu\u{17F}h %\u{17F}p\n\u{17F}ub 1 %a"),
        Ok(vec![
            Token::Instruction(OpCode::Push),
            Token::Reg(Reg::Sp),
            Token::Instruction(OpCode::Sub),
            Token::Const(1),
            Token::Reg(Reg::A),
            Token::Eof,
        ])
    );
}
