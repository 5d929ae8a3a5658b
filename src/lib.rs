//! Front end for Reverse Polish Notation expressions whose operands are single
//! decimal digits: tokenizing, parsing into a syntax tree, and the error
//! messages a caller shows.
use vstd::prelude::*;

pub mod operator;
pub mod tokenizer;
pub mod ast;
pub mod parser;

use crate::ast::Ast;
use crate::operator::operator_of;
use crate::parser::{parse, parse_error_text, parse_of, stack_after, ParseError};
use crate::tokenizer::{
    digit_value, is_digit, is_white_space, single_character_tokens, token_error_text, tokenize,
    tokens_of, Token, TokenError,
};

verus! {

/// The tree of the expression `s`, or the message of the first error met:
/// a lexical error before a syntactic one.
pub open spec fn compile_of(s: Seq<char>) -> Result<Ast, Seq<char>> {
    match tokens_of(s) {
        Err(e) => Err(token_error_text(e)),
        Ok(ts) => match parse_of(ts) {
            Err(e) => Err(parse_error_text(e)),
            Ok(a) => Ok(a),
        },
    }
}

/// Tokenizes and parses `expr`, turning either kind of error into its message.
pub fn compile(expr: &str) -> (r: Result<Ast, String>)
    ensures
        match r {
            Ok(a) => compile_of(expr@) == Ok::<Ast, Seq<char>>(a),
            Err(m) => compile_of(expr@) == Err::<Ast, Seq<char>>(m@),
        },
{
    match tokenize(expr) {
        Err(e) => Err(e.message()),
        Ok(tokens) => match parse(tokens) {
            Err(e) => Err(e.message()),
            Ok(ast) => Ok(ast),
        },
    }
}

/// A string of whitespace alone has no tokens; no tokens leave an empty stack,
/// which is a remaining-operand error.
pub proof fn whitespace_only_is_remaining_operand(s: Seq<char>)
    requires
        forall|i: int| 0 <= i < s.len() ==> is_white_space(#[trigger] s[i]),
    ensures
        tokens_of(s) == Ok::<Seq<Token>, TokenError>(Seq::empty()),
        parse_of(Seq::empty()) == Err::<Ast, ParseError>(ParseError::RemainingOperand),
        compile_of(s) == Err::<Ast, Seq<char>>(parse_error_text(ParseError::RemainingOperand)),
    decreases s.len(),
{
    if s.len() > 0 {
        let p = s.drop_last();
        assert forall|i: int| 0 <= i < p.len() implies is_white_space(#[trigger] p[i]) by {
            assert(p[i] == s[i]);
        }
        whitespace_only_is_remaining_operand(p);
        assert(is_white_space(s[s.len() - 1]));
    }
}

/// In `a b o` the digit written first is the left operand and the second the
/// right one; the values of the digits never make the expression fail, so a
/// zero divisor is no error.
pub proof fn operands_keep_their_order(a: char, b: char, o: char)
    requires
        is_digit(a),
        is_digit(b),
        operator_of(o) is Some,
    ensures
        compile_of(seq![a, b, o]) == Ok::<Ast, Seq<char>>(
            Ast::Op {
                op: operator_of(o)->0,
                lhs: Box::new(Ast::Num(digit_value(a))),
                rhs: Box::new(Ast::Num(digit_value(b))),
            },
        ),
{
    let ta = Token::Operand(digit_value(a));
    let tb = Token::Operand(digit_value(b));
    let to = Token::Operator(operator_of(o)->0);
    single_character_tokens(a);
    single_character_tokens(b);
    single_character_tokens(o);
    assert(seq![a].drop_last() == Seq::<char>::empty());
    assert(tokens_of(seq![a]) == Ok::<Seq<Token>, TokenError>(seq![ta]));
    assert(seq![a, b].drop_last() == seq![a]);
    assert(!is_white_space(b));
    assert(seq![ta].push(tb) == seq![ta, tb]);
    assert(tokens_of(seq![a, b]) == Ok::<Seq<Token>, TokenError>(seq![ta, tb]));
    assert(seq![a, b, o].drop_last() == seq![a, b]);
    assert(!is_white_space(o));
    assert(seq![ta, tb].push(to) == seq![ta, tb, to]);
    assert(tokens_of(seq![a, b, o]) == Ok::<Seq<Token>, TokenError>(seq![ta, tb, to]));
    let na = Ast::Num(digit_value(a));
    let nb = Ast::Num(digit_value(b));
    assert(seq![ta].drop_last() == Seq::<Token>::empty());
    assert(stack_after(Seq::<Token>::empty()) == Some(Seq::<Ast>::empty()));
    assert(Seq::<Ast>::empty().push(na) == seq![na]);
    assert(stack_after(seq![ta]) == Some(seq![na]));
    assert(seq![ta, tb].drop_last() == seq![ta]);
    assert(seq![na].push(nb) == seq![na, nb]);
    assert(stack_after(seq![ta, tb]) == Some(seq![na, nb]));
    assert(seq![ta, tb, to].drop_last() == seq![ta, tb]);
    assert(seq![na, nb].take(0) == Seq::<Ast>::empty());
}

} // verus!
