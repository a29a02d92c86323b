//! Tokens of the assembly language, and the lexer that reads them from
//! source text.

use crate::isa::{OpCode, Reg};
use crate::text::{
    chars_of, is_decimal, is_digit, is_space, is_whitespace, numeral, parse_numeral, spells,
    to_uppercase, uppercase, SyntaxError,
};
use vstd::prelude::*;

verus! {

/// A directive that emits raw bytes.
#[derive(Copy, Clone, Debug, PartialEq, Eq, Structural)]
pub enum Pseudo {
    /// One byte.
    Db,
    /// One 16-bit word, little-endian.
    Dw,
    /// A run of equal bytes.
    Dn,
}

/// A token as the lexer hands it to the assembler.
#[derive(Debug, PartialEq, Eq)]
pub enum Token {
    /// `.name`: a label, declared where it heads a statement and referred
    /// to where it stands as an operand.
    Label(Vec<char>),
    /// `%name`: a register.
    Reg(Reg),
    /// A numeral.
    Const(u16),
    /// A mnemonic.
    Instruction(OpCode),
    /// `DB`, `DW` or `DN`.
    Pseudo(Pseudo),
    /// `*` before another token: memory at what that token names.
    Deref(Box<Token>),
    /// The end of the source.
    Eof,
}

/// A token as a mathematical value: the view of a [`Token`].
pub enum Lexeme {
    /// A label and its name.
    Label(Seq<char>),
    /// A register.
    Reg(Reg),
    /// A numeral's value.
    Const(u16),
    /// A mnemonic's opcode.
    Instruction(OpCode),
    /// A pseudo-instruction.
    Pseudo(Pseudo),
    /// A dereference of the inner token.
    Deref(Box<Lexeme>),
    /// The end of the source.
    Eof,
}

impl Token {
    /// The token as a mathematical value.
    pub open spec fn lexeme(self) -> Lexeme
        decreases self,
    {
        match self {
            Token::Label(name) => Lexeme::Label(name@),
            Token::Reg(r) => Lexeme::Reg(r),
            Token::Const(c) => Lexeme::Const(c),
            Token::Instruction(op) => Lexeme::Instruction(op),
            Token::Pseudo(p) => Lexeme::Pseudo(p),
            Token::Deref(inner) => Lexeme::Deref(Box::new((*inner).lexeme())),
            Token::Eof => Lexeme::Eof,
        }
    }
}

impl View for Token {
    type V = Lexeme;

    open spec fn view(&self) -> Lexeme {
        self.lexeme()
    }
}

impl DeepView for Token {
    type V = Lexeme;

    open spec fn deep_view(&self) -> Lexeme {
        self.view()
    }
}

/// A word of source that is not a token, and the line it stands on.
#[derive(Copy, Clone, Debug, PartialEq, Eq, Structural)]
pub struct ParseError {
    /// The line of the word, counted from 1.
    pub line: usize,
    /// What is wrong with the word.
    pub kind: SyntaxError,
}

/// What follows the two characters of a base prefix; nothing, if the word
/// is shorter than a prefix.
pub open spec fn after_prefix(w: Seq<char>) -> Seq<char> {
    if w.len() >= 2 {
        w.subrange(2, w.len() as int)
    } else {
        Seq::empty()
    }
}

/// The token of a numeral's value.
pub open spec fn constant(v: Result<u16, SyntaxError>) -> Result<Lexeme, SyntaxError> {
    match v {
        Ok(c) => Ok(Lexeme::Const(c)),
        Err(e) => Err(e),
    }
}

/// What a word that starts with a decimal digit denotes: a decimal
/// numeral, or after `0x`, `0o` or `0b` one in base 16, 8 or 2. A lone `0`
/// is zero.
pub open spec fn number(w: Seq<char>) -> Result<Lexeme, SyntaxError> {
    if w[0] != '0' {
        constant(numeral(w, 10))
    } else if w.len() == 1 {
        Ok(Lexeme::Const(0))
    } else if w[1] == 'x' {
        constant(numeral(after_prefix(w), 16))
    } else if w[1] == 'o' {
        constant(numeral(after_prefix(w), 8))
    } else if w[1] == 'b' {
        constant(numeral(after_prefix(w), 2))
    } else if is_decimal(w[1]) {
        constant(numeral(w, 10))
    } else {
        Err(SyntaxError::UnknownBase)
    }
}

/// What a word that starts with none of `.`, `%`, `*` or a digit denotes:
/// a pseudo-instruction or a mnemonic, in either case of its letters.
pub open spec fn keyword(w: Seq<char>) -> Result<Lexeme, SyntaxError> {
    let upper = uppercase(w);
    if upper == "DB"@ {
        Ok(Lexeme::Pseudo(Pseudo::Db))
    } else if upper == "DW"@ {
        Ok(Lexeme::Pseudo(Pseudo::Dw))
    } else if upper == "DN"@ {
        Ok(Lexeme::Pseudo(Pseudo::Dn))
    } else {
        match OpCode::parsed(w) {
            Ok(op) => Ok(Lexeme::Instruction(op)),
            Err(e) => Err(e),
        }
    }
}

/// What a word of source denotes, by its first character: `.` a label,
/// `%` a register, `*` a dereference of what the rest denotes, a digit a
/// numeral, anything else a keyword.
pub open spec fn token_of(w: Seq<char>) -> Result<Lexeme, SyntaxError>
    decreases w.len(),
{
    if w.len() == 0 {
        Err(SyntaxError::EmptyToken)
    } else if w[0] == '.' {
        Ok(Lexeme::Label(w.drop_first()))
    } else if w[0] == '%' {
        match Reg::parsed(w.drop_first()) {
            Ok(r) => Ok(Lexeme::Reg(r)),
            Err(e) => Err(e),
        }
    } else if w[0] == '*' {
        match token_of(w.drop_first()) {
            Ok(t) => Ok(Lexeme::Deref(Box::new(t))),
            Err(e) => Err(e),
        }
    } else if is_decimal(w[0]) {
        number(w)
    } else {
        keyword(w)
    }
}

/// The mnemonic of an opcode is the token of that opcode.
pub proof fn lemma_mnemonic_token(op: OpCode)
    ensures
        token_of(op.mnemonic()) == Ok::<Lexeme, SyntaxError>(Lexeme::Instruction(op)),
{
    reveal_strlit("HLT");
    reveal_strlit("JMP");
    reveal_strlit("JEQ");
    reveal_strlit("JNE");
    reveal_strlit("JLT");
    reveal_strlit("JLE");
    reveal_strlit("JGT");
    reveal_strlit("JGE");
    reveal_strlit("CALL");
    reveal_strlit("RET");
    reveal_strlit("PUSH");
    reveal_strlit("POP");
    reveal_strlit("CMP");
    reveal_strlit("ADD");
    reveal_strlit("SUB");
    reveal_strlit("MUL");
    reveal_strlit("DIV");
    reveal_strlit("MOV");
    reveal_strlit("OUT");
    reveal_strlit("DB");
    reveal_strlit("DW");
    reveal_strlit("DN");
    OpCode::lemma_mnemonic_round_trip(op);
    OpCode::lemma_mnemonic_is_upper(op);
}

/// `%` before the spelling of a register is the token of that register.
pub proof fn lemma_register_token(r: Reg)
    ensures
        token_of(seq!['%'] + r.spelling()) == Ok::<Lexeme, SyntaxError>(Lexeme::Reg(r)),
{
    let w = seq!['%'] + r.spelling();
    assert(w.drop_first() =~= r.spelling());
    Reg::lemma_spelling_round_trip(r);
}

/// A token is as `expected`, or the error is.
pub open spec fn denotes(res: Result<Token, SyntaxError>, expected: Result<Lexeme, SyntaxError>) -> bool {
    match expected {
        Ok(t) => res is Ok && res->Ok_0@ == t,
        Err(e) => res == Err::<Token, SyntaxError>(e),
    }
}

impl Token {
    /// Reads the token that a word of source denotes.
    pub fn parse(s: &str) -> (res: Result<Token, SyntaxError>)
        ensures
            denotes(res, token_of(s@)),
    {
        let word = chars_of(s);
        Token::lex(word.as_slice())
    }

    /// Reads the numeral that follows the two-character base prefix of a
    /// word, in base `radix`.
    pub fn const_from_radix(s: &str, radix: u32) -> (res: Result<Token, SyntaxError>)
        ensures
            denotes(res, constant(numeral(after_prefix(s@), radix as int))),
    {
        let word = chars_of(s);
        Token::radix_literal(word.as_slice(), radix)
    }

    /// Reads the numeral after the base prefix of `word`.
    fn radix_literal(word: &[char], radix: u32) -> (res: Result<Token, SyntaxError>)
        ensures
            denotes(res, constant(numeral(after_prefix(word@), radix as int))),
    {
        let digits = if word.len() >= 2 {
            vstd::slice::slice_subrange(word, 2, word.len())
        } else {
            vstd::slice::slice_subrange(word, 0, 0)
        };
        Token::literal(digits, radix)
    }

    /// Reads a numeral in base `radix`.
    fn literal(digits: &[char], radix: u32) -> (res: Result<Token, SyntaxError>)
        ensures
            denotes(res, constant(numeral(digits@, radix as int))),
    {
        match parse_numeral(digits, radix) {
            Ok(c) => Ok(Token::Const(c)),
            Err(e) => Err(e),
        }
    }

    /// Reads the token that a word, given by its characters, denotes.
    pub fn lex(word: &[char]) -> (res: Result<Token, SyntaxError>)
        ensures
            denotes(res, token_of(word@)),
        decreases word@.len(),
    {
        if word.len() == 0 {
            return Err(SyntaxError::EmptyToken);
        }
        let first = word[0];
        let rest = vstd::slice::slice_subrange(word, 1, word.len());
        if first == '.' {
            let name = vstd::slice::slice_to_vec(rest);
            Ok(Token::Label(name))
        } else if first == '%' {
            match Reg::lookup(rest) {
                Ok(r) => Ok(Token::Reg(r)),
                Err(e) => Err(e),
            }
        } else if first == '*' {
            match Token::lex(rest) {
                Ok(t) => Ok(Token::Deref(Box::new(t))),
                Err(e) => Err(e),
            }
        } else if is_digit(first) {
            if first != '0' {
                Token::literal(word, 10)
            } else if word.len() == 1 {
                Ok(Token::Const(0))
            } else if word[1] == 'x' {
                Token::radix_literal(word, 16)
            } else if word[1] == 'o' {
                Token::radix_literal(word, 8)
            } else if word[1] == 'b' {
                Token::radix_literal(word, 2)
            } else if is_digit(word[1]) {
                Token::literal(word, 10)
            } else {
                Err(SyntaxError::UnknownBase)
            }
        } else {
            let upper = to_uppercase(word);
            if spells("DB", upper.as_slice()) {
                Ok(Token::Pseudo(Pseudo::Db))
            } else if spells("DW", upper.as_slice()) {
                Ok(Token::Pseudo(Pseudo::Dw))
            } else if spells("DN", upper.as_slice()) {
                Ok(Token::Pseudo(Pseudo::Dn))
            } else {
                match OpCode::lookup(word) {
                    Ok(op) => Ok(Token::Instruction(op)),
                    Err(e) => Err(e),
                }
            }
        }
    }
}

/// Where the word that starts at `i` ends: at the next white space, or at
/// the end of the source.
pub open spec fn word_end(src: Seq<char>, i: int) -> int
    decreases src.len() - i,
{
    if i < 0 || i >= src.len() || is_space(src[i]) {
        i
    } else {
        word_end(src, i + 1)
    }
}

/// Where the line that holds position `i` ends: after its newline, or at
/// the end of the source.
pub open spec fn line_end(src: Seq<char>, i: int) -> int
    decreases src.len() - i,
{
    if i < 0 || i >= src.len() {
        i
    } else if src[i] == '\n' {
        i + 1
    } else {
        line_end(src, i + 1)
    }
}

/// How many newlines `s` holds.
pub open spec fn newlines(s: Seq<char>) -> nat
    decreases s.len(),
{
    if s.len() == 0 {
        0
    } else if s.last() == '\n' {
        newlines(s.drop_last()) + 1
    } else {
        newlines(s.drop_last())
    }
}

/// The line of position `i`, counted from 1.
pub open spec fn line_of(src: Seq<char>, i: int) -> nat {
    newlines(src.take(i)) + 1
}

/// The tokens read so far before those of the rest, unless the rest fails.
pub open spec fn followed(done: Seq<Lexeme>, rest: Result<Seq<Lexeme>, (int, SyntaxError)>) -> Result<
    Seq<Lexeme>,
    (int, SyntaxError),
> {
    match rest {
        Ok(ts) => Ok(done + ts),
        Err(e) => Err(e),
    }
}

/// The tokens of the source from position `i` on, where `fresh` says that
/// `i` starts a line. A line that starts with `;` is skipped whole; other
/// lines are cut into words at white space, and each word is a token.
/// `Eof` ends the tokens. The first word that is no token ends the scan,
/// with its position.
pub open spec fn scan(src: Seq<char>, i: int, fresh: bool) -> Result<Seq<Lexeme>, (int, SyntaxError)>
    decreases src.len() - i,
{
    if i < 0 || i >= src.len() {
        Ok(seq![Lexeme::Eof])
    } else if fresh && src[i] == ';' {
        proof {
            lemma_line_end_bounds(src, i + 1);
        }
        scan(src, line_end(src, i + 1), true)
    } else if src[i] == '\n' {
        scan(src, i + 1, true)
    } else if is_space(src[i]) {
        scan(src, i + 1, false)
    } else {
        proof {
            lemma_word_end_bounds(src, i + 1);
        }
        match token_of(src.subrange(i, word_end(src, i))) {
            Ok(t) => followed(seq![t], scan(src, word_end(src, i), false)),
            Err(e) => Err((i, e)),
        }
    }
}

/// The tokens of a source text, or its first error with the line it is on.
pub open spec fn lexed(src: Seq<char>) -> Result<Seq<Lexeme>, ParseError> {
    match scan(src, 0, true) {
        Ok(ts) => Ok(ts),
        Err((i, kind)) => Err(ParseError { line: line_of(src, i) as usize, kind }),
    }
}

/// A word ends after where it starts, and within the source.
pub proof fn lemma_word_end_bounds(src: Seq<char>, i: int)
    requires
        0 <= i <= src.len(),
    ensures
        i <= word_end(src, i) <= src.len(),
    decreases src.len() - i,
{
    if i < src.len() && !is_space(src[i]) {
        lemma_word_end_bounds(src, i + 1);
    }
}

/// A line ends after where it is entered, and within the source.
pub proof fn lemma_line_end_bounds(src: Seq<char>, i: int)
    requires
        0 <= i <= src.len(),
    ensures
        i <= line_end(src, i) <= src.len(),
    decreases src.len() - i,
{
    if i < src.len() && src[i] != '\n' {
        lemma_line_end_bounds(src, i + 1);
    }
}

/// No word denotes `Eof`.
pub proof fn lemma_token_is_not_eof(w: Seq<char>)
    ensures
        token_of(w) is Ok ==> !(token_of(w)->Ok_0 is Eof),
{
}

/// The tokens of a source end with `Eof` and hold no other `Eof`: the
/// assembler, which stops at `Eof`, sees every token.
pub proof fn lemma_scan_ends_with_eof(src: Seq<char>, i: int, fresh: bool)
    requires
        scan(src, i, fresh) is Ok,
    ensures
        ({
            let ts = scan(src, i, fresh)->Ok_0;
            &&& ts.len() >= 1
            &&& ts.last() is Eof
            &&& forall|k: int| 0 <= k < ts.len() - 1 ==> !(#[trigger] ts[k] is Eof)
        }),
    decreases src.len() - i,
{
    if i < 0 || i >= src.len() {
    } else if fresh && src[i] == ';' {
        lemma_line_end_bounds(src, i + 1);
        lemma_scan_ends_with_eof(src, line_end(src, i + 1), true);
    } else if src[i] == '\n' {
        lemma_scan_ends_with_eof(src, i + 1, true);
    } else if is_space(src[i]) {
        lemma_scan_ends_with_eof(src, i + 1, false);
    } else {
        lemma_word_end_bounds(src, i + 1);
        let end = word_end(src, i);
        lemma_token_is_not_eof(src.subrange(i, end));
        lemma_scan_ends_with_eof(src, end, false);
    }
}

/// Finds where the word that starts at `i` ends.
fn find_word_end(src: &[char], i: usize) -> (j: usize)
    requires
        i <= src.len(),
    ensures
        j == word_end(src@, i as int),
        i <= j <= src.len(),
{
    let mut j = i;
    while j < src.len() && !is_whitespace(src[j])
        invariant
            i <= j <= src.len(),
            word_end(src@, i as int) == word_end(src@, j as int),
        decreases src.len() - j,
    {
        j += 1;
    }
    j
}

/// Finds where the line that holds position `i` ends: behind its newline.
fn find_line_end(src: &[char], i: usize) -> (j: usize)
    requires
        i <= src.len(),
    ensures
        j == line_end(src@, i as int),
        i <= j <= src.len(),
{
    let mut j = i;
    while j < src.len() && src[j] != '\n'
        invariant
            i <= j <= src.len(),
            line_end(src@, i as int) == line_end(src@, j as int),
        decreases src.len() - j,
    {
        j += 1;
    }
    if j < src.len() {
        j + 1
    } else {
        j
    }
}

/// Counts the line that position `i` is on.
fn line_number(src: &[char], i: usize) -> (line: usize)
    requires
        i < src.len(),
    ensures
        line == line_of(src@, i as int),
{
    let mut line: usize = 1;
    let mut j: usize = 0;
    while j < i
        invariant
            j <= i < src.len(),
            line == newlines(src@.take(j as int)) + 1,
            line <= j + 1,
        decreases i - j,
    {
        assert(src@.take(j + 1).drop_last() =~= src@.take(j as int));
        if src[j] == '\n' {
            line += 1;
        }
        j += 1;
    }
    line
}

/// Reads the tokens of a source text.
///
/// The text is cut into lines at newlines. A line whose first character is
/// `;` is a comment and is dropped. Every other line is cut into words at
/// white space, each word is read as a token, and `Eof` follows the last
/// token. The first word that is no token is reported with its line.
pub fn parse(src: &str) -> (res: Result<Vec<Token>, ParseError>)
    ensures
        match lexed(src@) {
            Ok(ts) => res is Ok && res->Ok_0.deep_view() == ts,
            Err(e) => res == Err::<Vec<Token>, ParseError>(e),
        },
{
    let text = chars_of(src);
    let chars = text.as_slice();
    let mut tokens: Vec<Token> = Vec::new();
    let mut i: usize = 0;
    let mut fresh = true;
    while i < chars.len()
        invariant
            i <= chars.len(),
            chars@ == src@,
            followed(tokens.deep_view(), scan(chars@, i as int, fresh)) == scan(chars@, 0, true),
        decreases chars.len() - i,
    {
        let c = chars[i];
        if fresh && c == ';' {
            i = find_line_end(chars, i + 1);
        } else if c == '\n' {
            i += 1;
            fresh = true;
        } else if is_whitespace(c) {
            i += 1;
            fresh = false;
        } else {
            let end = find_word_end(chars, i);
            let word = vstd::slice::slice_subrange(chars, i, end);
            match Token::lex(word) {
                Ok(t) => {
                    let ghost done = tokens.deep_view();
                    let ghost rest = scan(chars@, end as int, false);
                    let ghost lexeme = t@;
                    tokens.push(t);
                    assert(tokens.deep_view() =~= done + seq![lexeme]);
                    assert(followed(done + seq![lexeme], rest) == followed(
                        done,
                        followed(seq![lexeme], rest),
                    )) by {
                        if let Ok(ts) = rest {
                            assert((done + seq![lexeme]) + ts =~= done + (seq![lexeme] + ts));
                        }
                    }
                    i = end;
                    fresh = false;
                },
                Err(kind) => {
                    return Err(ParseError { line: line_number(chars, i), kind });
                },
            }
        }
    }
    tokens.push(Token::Eof);
    Ok(tokens)
}

} // verus!
