//! Characters and numerals of the assembly source language.

use vstd::prelude::*;

verus! {

/// Why a word of source text is not a token.
#[derive(Copy, Clone, Debug, PartialEq, Eq, Structural)]
pub enum SyntaxError {
    /// The word is empty, as after a lone `*`.
    EmptyToken,
    /// `%` is not followed by the name of a register.
    UnknownRegister,
    /// The word is neither a pseudo-instruction nor a mnemonic.
    UnknownOpcode,
    /// A leading `0` is followed by a letter other than `x`, `o` or `b`.
    UnknownBase,
    /// The numeral has no digits, or a character that is no digit of its base.
    MalformedNumber,
    /// The numeral is well formed but its value exceeds `0xFFFF`.
    NumberTooLarge,
}

/// White space in the sense of Unicode's `White_Space` property.
pub open spec fn is_space(c: char) -> bool {
    ||| '\u{9}' <= c <= '\u{D}'
    ||| c == ' '
    ||| c == '\u{85}'
    ||| c == '\u{A0}'
    ||| c == '\u{1680}'
    ||| '\u{2000}' <= c <= '\u{200A}'
    ||| c == '\u{2028}'
    ||| c == '\u{2029}'
    ||| c == '\u{202F}'
    ||| c == '\u{205F}'
    ||| c == '\u{3000}'
}

/// Tells whether `c` separates words.
pub fn is_whitespace(c: char) -> (b: bool)
    ensures
        b == is_space(c),
{
    (c >= '\u{9}' && c <= '\u{D}') || c == ' ' || c == '\u{85}' || c == '\u{A0}' || c
        == '\u{1680}' || (c >= '\u{2000}' && c <= '\u{200A}') || c == '\u{2028}' || c
        == '\u{2029}' || c == '\u{202F}' || c == '\u{205F}' || c == '\u{3000}'
}

/// A decimal digit `0` to `9`.
pub open spec fn is_decimal(c: char) -> bool {
    '0' <= c <= '9'
}

/// Tells whether `c` is a decimal digit.
pub fn is_digit(c: char) -> (b: bool)
    ensures
        b == is_decimal(c),
{
    c >= '0' && c <= '9'
}

/// The upper-case form of an ASCII letter; any other character is itself.
pub open spec fn upper(c: char) -> char {
    if 'a' <= c <= 'z' {
        ((c as u8) - 32) as char
    } else {
        c
    }
}

/// A word with each of its ASCII letters in upper case.
pub open spec fn upper_word(s: Seq<char>) -> Seq<char> {
    Seq::new(s.len(), |i: int| upper(s[i]))
}

/// Every character of the word is an ASCII character.
pub open spec fn is_ascii_word(s: Seq<char>) -> bool {
    forall|i: int| 0 <= i < s.len() ==> #[trigger] s[i] <= '\u{7F}'
}

/// What `str::to_uppercase` of the standard library makes of a word: its
/// upper-case form by Unicode's case mappings, which may be longer than the
/// word.
pub uninterp spec fn unicode_upper(s: Seq<char>) -> Seq<char>;

/// The upper-case form of a word: for a word of ASCII characters, the word
/// with its letters `a` to `z` in upper case; for any other word, what
/// Unicode's case mappings make of it.
pub open spec fn uppercase(s: Seq<char>) -> Seq<char> {
    if is_ascii_word(s) {
        upper_word(s)
    } else {
        unicode_upper(s)
    }
}

/// Calls `str::to_uppercase` of the standard library on the characters of
/// `word`. Not proved: that the result depends on nothing but these
/// characters, and that on a word of ASCII characters it is the word with
/// `a` to `z` replaced by `A` to `Z` and every other character kept.
#[verifier::external_body]
fn unicode_uppercase(word: &[char]) -> (r: Vec<char>)
    ensures
        r@ == unicode_upper(word@),
        is_ascii_word(word@) ==> r@ == upper_word(word@),
{
    let text: String = word.iter().collect();
    text.to_uppercase().chars().collect()
}

/// Puts a word in upper case.
pub fn to_uppercase(word: &[char]) -> (r: Vec<char>)
    ensures
        r@ == uppercase(word@),
{
    unicode_uppercase(word)
}

/// The characters of a string, in order.
pub fn chars_of(s: &str) -> (v: Vec<char>)
    ensures
        v@ == s@,
{
    let mut v: Vec<char> = Vec::new();
    let chars = s.chars();
    for c in it: chars
        invariant
            v@ == it.seq().take(it.index()),
    {
        v.push(c);
    }
    v
}

/// Tells whether a string and a word hold the same characters.
pub fn spells(name: &str, word: &[char]) -> (b: bool)
    ensures
        b == (name@ == word@),
{
    let n = name.unicode_len();
    if n != word.len() {
        return false;
    }
    let mut i: usize = 0;
    while i < n
        invariant
            i <= n,
            n == word.len(),
            n == name@.len(),
            forall|j: int| 0 <= j < i ==> name@[j] == word@[j],
        decreases n - i,
    {
        if name.get_char(i) != word[i] {
            return false;
        }
        i += 1;
    }
    assert(name@ =~= word@);
    true
}

/// The value of `c` as a digit: `0`-`9`, then the letters of either case
/// from 10 to 35; 36 for a character that is no digit in any base.
pub open spec fn digit_value(c: char) -> int {
    if '0' <= c <= '9' {
        c as int - '0' as int
    } else if 'a' <= c <= 'z' {
        c as int - 'a' as int + 10
    } else if 'A' <= c <= 'Z' {
        c as int - 'A' as int + 10
    } else {
        36
    }
}

/// Computes the digit value of a character.
pub fn digit_of(c: char) -> (d: u32)
    ensures
        d == digit_value(c),
{
    if c >= '0' && c <= '9' {
        c as u32 - '0' as u32
    } else if c >= 'a' && c <= 'z' {
        c as u32 - 'a' as u32 + 10
    } else if c >= 'A' && c <= 'Z' {
        c as u32 - 'A' as u32 + 10
    } else {
        36
    }
}

/// The digits of a numeral: what follows its optional leading `+`.
pub open spec fn digits_of(s: Seq<char>) -> Seq<char> {
    if s.len() > 0 && s[0] == '+' {
        s.drop_first()
    } else {
        s
    }
}

/// Every character of `s` is a digit, and one of base `radix`.
pub open spec fn all_digits(s: Seq<char>, radix: int) -> bool {
    forall|i: int|
        0 <= i < s.len() ==> digit_value(#[trigger] s[i]) < radix && digit_value(s[i]) < 36
}

/// The number that the digits `s` write in base `radix`.
pub open spec fn digits_value(s: Seq<char>, radix: int) -> int
    decreases s.len(),
{
    if s.len() == 0 {
        0
    } else {
        digits_value(s.drop_last(), radix) * radix + digit_value(s.last())
    }
}

/// A numeral is well formed when it has at least one digit and nothing
/// but digits of its base after an optional `+`. Whatever the base, only
/// `0` to `9` and the letters are digits.
pub open spec fn well_formed(s: Seq<char>, radix: int) -> bool {
    digits_of(s).len() > 0 && all_digits(digits_of(s), radix)
}

/// What a numeral in base `radix` denotes as a 16-bit value.
pub open spec fn numeral(s: Seq<char>, radix: int) -> Result<u16, SyntaxError> {
    if !well_formed(s, radix) {
        Err(SyntaxError::MalformedNumber)
    } else if digits_value(digits_of(s), radix) > 0xFFFF {
        Err(SyntaxError::NumberTooLarge)
    } else {
        Ok(digits_value(digits_of(s), radix) as u16)
    }
}

/// Appending a digit never lowers the value written.
pub proof fn lemma_digits_value_grows(s: Seq<char>, radix: int)
    requires
        radix >= 1,
        s.len() > 0,
    ensures
        0 <= digits_value(s.drop_last(), radix) <= digits_value(s, radix),
    decreases s.len(),
{
    let p = s.drop_last();
    if p.len() > 0 {
        lemma_digits_value_grows(p, radix);
    }
    assert(digits_value(p, radix) * radix >= digits_value(p, radix)) by (nonlinear_arith)
        requires
            digits_value(p, radix) >= 0,
            radix >= 1,
    ;
}

/// Reads the numeral that `word` writes in base `radix`.
pub fn parse_numeral(word: &[char], radix: u32) -> (res: Result<u16, SyntaxError>)
    ensures
        res == numeral(word@, radix as int),
{
    let mut i: usize = 0;
    if word.len() > 0 && word[0] == '+' {
        i = 1;
    }
    let start = i;
    let ghost d = word@.subrange(start as int, word.len() as int);
    if start == word.len() {
        return Err(SyntaxError::MalformedNumber);
    }
    let mut acc: u64 = 0;
    let mut too_large = false;
    while i < word.len()
        invariant
            start <= i <= word.len(),
            start < word.len(),
            d == word@.subrange(start as int, word.len() as int),
            d == digits_of(word@),
            all_digits(d.take(i - start), radix as int),
            !too_large ==> acc == digits_value(d.take(i - start), radix as int) && acc <= 0xFFFF,
            too_large ==> digits_value(d.take(i - start), radix as int) > 0xFFFF,
        decreases word.len() - i,
    {
        let v = digit_of(word[i]);
        if v >= radix || v >= 36 {
            assert(d[i - start] == word@[i as int]);
            return Err(SyntaxError::MalformedNumber);
        }
        let ghost next = d.take(i - start + 1);
        proof {
            assert(next.drop_last() =~= d.take(i - start));
            lemma_digits_value_grows(next, radix as int);
        }
        if !too_large {
            assert(acc * radix <= 0xFFFF * 0xFFFF_FFFF) by (nonlinear_arith)
                requires
                    acc <= 0xFFFF,
                    radix <= 0xFFFF_FFFF,
            ;
            acc = acc * (radix as u64) + (v as u64);
            if acc > 0xFFFF {
                too_large = true;
            }
        }
        i += 1;
    }
    assert(d.take(i - start) =~= d);
    if too_large {
        Err(SyntaxError::NumberTooLarge)
    } else {
        Ok(acc as u16)
    }
}

} // verus!
