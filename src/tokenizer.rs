use vstd::prelude::*;
use crate::operator::{operator_of, Operator};

verus! {

/// A lexical unit: an operator, or an operand given by its digit value.
#[derive(Debug, Clone, Copy, PartialEq, Eq, Structural)]
pub enum Token {
    Operator(Operator),
    Operand(u8),
}

/// Why tokenizing failed.
#[derive(Debug, Clone, Copy, PartialEq, Eq, Hash, Structural)]
pub enum TokenError {
    InvalidChar(char),
}

/// The characters that carry the Unicode `White_Space` property.
pub open spec fn is_white_space(c: char) -> bool {
    let u = c as u32;
    ||| 0x09 <= u <= 0x0D
    ||| u == 0x20
    ||| u == 0x85
    ||| u == 0xA0
    ||| u == 0x1680
    ||| 0x2000 <= u <= 0x200A
    ||| u == 0x2028
    ||| u == 0x2029
    ||| u == 0x202F
    ||| u == 0x205F
    ||| u == 0x3000
}

/// Relies on `char::is_whitespace`: true exactly for the characters with the
/// Unicode `White_Space` property.
#[verifier::external_body]
fn is_whitespace(c: char) -> (r: bool)
    ensures
        r == is_white_space(c),
{
    c.is_whitespace()
}

/// Relies on `String::push`: appends one character.
#[verifier::external_body]
fn push_char(s: &mut String, c: char)
    ensures
        final(s)@ == old(s)@.push(c),
{
    s.push(c)
}

/// Whether `c` is one of the decimal digits `0` to `9`.
pub open spec fn is_digit(c: char) -> bool {
    '0' <= c <= '9'
}

/// The value of the decimal digit `c`.
pub open spec fn digit_value(c: char) -> u8 {
    (c as u32 - '0' as u32) as u8
}

/// The token that the single non-blank character `c` stands for, if any.
pub open spec fn token_of(c: char) -> Option<Token> {
    match operator_of(c) {
        Some(op) => Some(Token::Operator(op)),
        None => if is_digit(c) {
            Some(Token::Operand(digit_value(c)))
        } else {
            None
        },
    }
}

/// The tokens of `s`, read left to right, blanks skipped; the first character
/// that stands for no token is the error.
pub open spec fn tokens_of(s: Seq<char>) -> Result<Seq<Token>, TokenError>
    decreases s.len(),
{
    if s.len() == 0 {
        Ok(Seq::empty())
    } else {
        match tokens_of(s.drop_last()) {
            Err(e) => Err(e),
            Ok(ts) => {
                let c = s.last();
                if is_white_space(c) {
                    Ok(ts)
                } else {
                    match token_of(c) {
                        Some(t) => Ok(ts.push(t)),
                        None => Err(TokenError::InvalidChar(c)),
                    }
                }
            },
        }
    }
}

pub open spec fn token_error_text(e: TokenError) -> Seq<char> {
    match e {
        TokenError::InvalidChar(c) => "Invalid Char: "@.push(c),
    }
}

impl TokenError {
    /// The message shown to a user.
    pub fn message(&self) -> (r: String)
        ensures
            r@ == token_error_text(*self),
    {
        match self {
            TokenError::InvalidChar(c) => {
                let mut s = String::from_str("Invalid Char: ");
                push_char(&mut s, *c);
                s
            },
        }
    }
}

/// The token for the non-blank character `c`, if any.
fn classify(c: char) -> (r: Option<Token>)
    ensures
        r == token_of(c),
{
    match Operator::from_symbol(c) {
        Some(op) => Some(Token::Operator(op)),
        None => if '0' <= c && c <= '9' {
            Some(Token::Operand((c as u32 - '0' as u32) as u8))
        } else {
            None
        },
    }
}

/// Splits `expr` into tokens, skipping whitespace.
pub fn tokenize(expr: &str) -> (r: Result<Vec<Token>, TokenError>)
    ensures
        match r {
            Ok(ts) => tokens_of(expr@) == Ok::<Seq<Token>, TokenError>(ts@),
            Err(e) => tokens_of(expr@) == Err::<Seq<Token>, TokenError>(e),
        },
{
    let mut tokens: Vec<Token> = Vec::new();
    for c in it: expr.chars()
        invariant
            it.seq() == expr@,
            tokens_of(expr@.take(it.index() as int)) == Ok::<Seq<Token>, TokenError>(tokens@),
    {
        assert(expr@.take(it.index() + 1).drop_last() == expr@.take(it.index() as int));
        if !is_whitespace(c) {
            match classify(c) {
                Some(t) => tokens.push(t),
                None => {
                    proof { lemma_error_persists(expr@, it.index() + 1); }
                    return Err(TokenError::InvalidChar(c));
                },
            }
        }
    }
    assert(expr@.take(expr@.len() as int) == expr@);
    Ok(tokens)
}

/// A single character gives one token of its kind: a digit an operand of its
/// value, an operator symbol that operator; any other character that is not
/// whitespace is rejected and named in the error.
pub proof fn single_character_tokens(c: char)
    ensures
        is_digit(c) ==> digit_value(c) <= 9 && tokens_of(seq![c]) == Ok::<Seq<Token>, TokenError>(
            seq![Token::Operand(digit_value(c))],
        ),
        operator_of(c) is Some ==> tokens_of(seq![c]) == Ok::<Seq<Token>, TokenError>(
            seq![Token::Operator(operator_of(c)->0)],
        ),
        !is_digit(c) && operator_of(c) is None && !is_white_space(c) ==> tokens_of(seq![c])
            == Err::<Seq<Token>, TokenError>(TokenError::InvalidChar(c)),
{
    let s = seq![c];
    assert(s.drop_last() == Seq::<char>::empty());
    assert(s.last() == c);
    assert(tokens_of(Seq::<char>::empty()) == Ok::<Seq<Token>, TokenError>(Seq::empty()));
    if is_digit(c) {
        assert(48 <= c as u32 <= 57);
        assert(!is_white_space(c));
    }
    assert(Seq::<Token>::empty().push(Token::Operand(digit_value(c))) == seq![Token::Operand(digit_value(c))]);
}

/// An error in a prefix is the error of the whole string.
proof fn lemma_error_persists(s: Seq<char>, i: int)
    requires
        0 <= i <= s.len(),
        tokens_of(s.take(i)) is Err,
    ensures
        tokens_of(s) == tokens_of(s.take(i)),
    decreases s.len() - i,
{
    if i < s.len() {
        assert(s.take(i + 1).drop_last() == s.take(i));
        lemma_error_persists(s, i + 1);
    } else {
        assert(s.take(i) == s);
    }
}

} // verus!
