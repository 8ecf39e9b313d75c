//! Lexical analysis: text to tokens.

use vstd::prelude::*;

use crate::errors::Error;
use crate::numeric::char_is_numeric;
use crate::numeric::parse_number_bits;
use crate::numeric::spec_char_is_numeric;
use crate::numeric::spec_parse_number;

verus! {

/// A lexical unit of an arithmetic expression. A number is carried as the
/// bit pattern of an IEEE 754 binary64 value.
#[derive(Debug, PartialEq, Eq, Structural, Clone, Copy)]
pub enum Token {
    Number(u64),
    Operator(Operator),
    LParen,
    RParen,
}

/// The operators of the expression language.
#[derive(Debug, PartialEq, Eq, Structural, Clone, Copy)]
pub enum Operator {
    UnaryMinus,
    Power,
    Multiply,
    Divide,
    Modulus,
    Add,
    Subtract,
}

/// Characters that begin a numeric literal: an ASCII digit or a dot.
pub open spec fn starts_number(c: char) -> bool {
    ('0' <= c && c <= '9') || c == '.'
}

/// Characters that continue a numeric literal once one has begun: a dot or
/// any Unicode-numeric character. The first disjunct is subsumed by the
/// Unicode property for digits; keeping it records outright that a literal
/// always spans at least the character that began it.
pub open spec fn continues_number(c: char) -> bool {
    starts_number(c) || spec_char_is_numeric(c)
}

/// The position just past the numeric literal that begins at `i`: the first
/// position at or after `i` whose character does not continue a literal.
pub open spec fn literal_end(s: Seq<char>, i: int) -> int
    recommends
        0 <= i <= s.len(),
    decreases s.len() - i when 0 <= i <= s.len()
{
    if i >= s.len() || !continues_number(s[i]) {
        i
    } else {
        literal_end(s, i + 1)
    }
}

/// `literal_end` lands on the first position that does not continue a
/// literal, and every position before it does.
proof fn lemma_literal_end(s: Seq<char>, i: int)
    requires
        0 <= i <= s.len(),
    ensures
        i <= literal_end(s, i) <= s.len(),
        literal_end(s, i) < s.len() ==> !continues_number(s[literal_end(s, i)]),
        forall|k: int| i <= k < literal_end(s, i) ==> continues_number(s[k]),
    decreases s.len() - i,
{
    if i < s.len() && continues_number(s[i]) {
        lemma_literal_end(s, i + 1);
    }
}

/// Any position after `i` whose prefix continues a literal and which itself
/// does not is exactly `literal_end(s, i)`.
proof fn lemma_literal_end_unique(s: Seq<char>, i: int, j: int)
    requires
        0 <= i <= j <= s.len(),
        forall|k: int| i <= k < j ==> continues_number(s[k]),
        j < s.len() ==> !continues_number(s[j]),
    ensures
        literal_end(s, i) == j,
    decreases j - i,
{
    if i < j {
        lemma_literal_end_unique(s, i + 1, j);
    }
}

/// The lookbehind rule for `-`: it is a unary minus when it is the first
/// token overall or the token just emitted is an operator or an opening
/// parenthesis; otherwise it is binary subtraction.
pub open spec fn minus_is_unary(acc: Seq<Token>) -> bool {
    acc.len() == 0 || (acc.last() matches Token::Operator(_)) || acc.last() == Token::LParen
}

/// The tokens of `s` from position `i` on, appended to the tokens `acc`
/// already emitted, or the error for a malformed numeric literal.
pub open spec fn spec_tokenize_from(s: Seq<char>, i: int, acc: Seq<Token>) -> Result<
    Seq<Token>,
    Error,
>
    recommends
        0 <= i <= s.len(),
    decreases s.len() - i when 0 <= i <= s.len() via spec_tokenize_from_decreases
{
    if i >= s.len() {
        Ok(acc)
    } else {
        let c = s[i];
        if starts_number(c) {
            let j = literal_end(s, i);
            match spec_parse_number(s.subrange(i, j)) {
                Some(bits) => spec_tokenize_from(s, j, acc.push(Token::Number(bits))),
                None => Err(Error::UnacceptableToken),
            }
        } else if c == '+' {
            spec_tokenize_from(s, i + 1, acc.push(Token::Operator(Operator::Add)))
        } else if c == '-' {
            if minus_is_unary(acc) {
                spec_tokenize_from(s, i + 1, acc.push(Token::Operator(Operator::UnaryMinus)))
            } else {
                spec_tokenize_from(s, i + 1, acc.push(Token::Operator(Operator::Subtract)))
            }
        } else if c == '*' {
            spec_tokenize_from(s, i + 1, acc.push(Token::Operator(Operator::Multiply)))
        } else if c == '/' {
            spec_tokenize_from(s, i + 1, acc.push(Token::Operator(Operator::Divide)))
        } else if c == '(' {
            spec_tokenize_from(s, i + 1, acc.push(Token::LParen))
        } else if c == ')' {
            spec_tokenize_from(s, i + 1, acc.push(Token::RParen))
        } else if c == '^' {
            spec_tokenize_from(s, i + 1, acc.push(Token::Operator(Operator::Power)))
        } else if c == '%' {
            spec_tokenize_from(s, i + 1, acc.push(Token::Operator(Operator::Modulus)))
        } else {
            spec_tokenize_from(s, i + 1, acc)
        }
    }
}

#[via_fn]
proof fn spec_tokenize_from_decreases(s: Seq<char>, i: int, acc: Seq<Token>) {
    if i < s.len() && starts_number(s[i]) {
        assert(continues_number(s[i]));
        lemma_literal_end(s, i + 1);
        assert(literal_end(s, i) == literal_end(s, i + 1));
    }
}

/// The token sequence of `s`, or the error for a malformed numeric literal.
///
/// Whitespace and any character that fits no token are skipped without
/// producing a token.
pub open spec fn spec_tokenize(s: Seq<char>) -> Result<Seq<Token>, Error> {
    spec_tokenize_from(s, 0, Seq::empty())
}

/// Tokenization is deterministic: the token sequence is a function of the
/// input characters alone, so lexing the same text twice yields the same
/// tokens.
pub proof fn lemma_tokenize_deterministic(s1: Seq<char>, s2: Seq<char>)
    requires
        s1 == s2,
    ensures
        spec_tokenize(s1) == spec_tokenize(s2),
{
}

/// Whether the character at position `j` of `s` continues a numeric
/// literal; false once `j` is past the end.
fn continues_at(s: &str, j: usize) -> (r: bool)
    ensures
        r == (j < s@.len() && continues_number(s@[j as int])),
{
    if j < s.unicode_len() {
        let d = s.get_char(j);
        ('0' <= d && d <= '9') || d == '.' || char_is_numeric(d)
    } else {
        false
    }
}

/// Converts a character sequence into an ordered sequence of tokens.
///
/// Digits and dots accumulate into numeric literals; the seven operator and
/// parenthesis characters map to their tokens, with `-` disambiguated by the
/// last token emitted; every other character is silently skipped. The one
/// failure is a literal that is not a well-formed number, reported as
/// [`Error::UnacceptableToken`].
pub fn tokenize(input: &str) -> (r: Result<Vec<Token>, Error>)
    ensures
        match r {
            Ok(tokens) => spec_tokenize(input@) == Ok::<Seq<Token>, Error>(tokens@),
            Err(e) => spec_tokenize(input@) == Err::<Seq<Token>, Error>(e),
        },
{
    let n = input.unicode_len();
    let mut tokens: Vec<Token> = Vec::new();
    let mut i: usize = 0;
    while i < n
        invariant
            n == input@.len(),
            i <= n,
            spec_tokenize_from(input@, i as int, tokens@) == spec_tokenize(input@),
        decreases n - i,
    {
        let ghost prev_tokens = tokens@;
        let ghost start_i = i as int;
        let c = input.get_char(i);
        if ('0' <= c && c <= '9') || c == '.' {
            let start = i;
            let mut buf: Vec<char> = Vec::new();
            while continues_at(input, i)
                invariant
                    n == input@.len(),
                    start == start_i,
                    start_i <= i <= n,
                    buf@ == input@.subrange(start_i, i as int),
                    forall|k: int| start_i <= k < i ==> continues_number(input@[k]),
                decreases n - i,
            {
                let d = input.get_char(i);
                buf.push(d);
                i = i + 1;
                proof {
                    assert(buf@ =~= input@.subrange(start_i, i as int));
                }
            }
            proof {
                lemma_literal_end_unique(input@, start_i, i as int);
            }
            match parse_number_bits(&buf) {
                Some(bits) => {
                    tokens.push(Token::Number(bits));
                },
                None => {
                    return Err(Error::UnacceptableToken);
                },
            }
        } else if c == '+' {
            tokens.push(Token::Operator(Operator::Add));
            i = i + 1;
        } else if c == '-' {
            let unary: bool = if tokens.len() == 0 {
                true
            } else {
                let last = tokens[tokens.len() - 1];
                matches!(last, Token::Operator(_) | Token::LParen)
            };
            if unary {
                tokens.push(Token::Operator(Operator::UnaryMinus));
            } else {
                tokens.push(Token::Operator(Operator::Subtract));
            }
            proof {
                assert(unary == minus_is_unary(prev_tokens));
            }
            i = i + 1;
        } else if c == '*' {
            tokens.push(Token::Operator(Operator::Multiply));
            i = i + 1;
        } else if c == '/' {
            tokens.push(Token::Operator(Operator::Divide));
            i = i + 1;
        } else if c == '(' {
            tokens.push(Token::LParen);
            i = i + 1;
        } else if c == ')' {
            tokens.push(Token::RParen);
            i = i + 1;
        } else if c == '^' {
            tokens.push(Token::Operator(Operator::Power));
            i = i + 1;
        } else if c == '%' {
            tokens.push(Token::Operator(Operator::Modulus));
            i = i + 1;
        } else {
            i = i + 1;
        }
    }
    Ok(tokens)
}

} // verus!
