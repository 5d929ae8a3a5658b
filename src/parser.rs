use vstd::prelude::*;
use crate::ast::Ast;
use crate::tokenizer::Token;

verus! {

/// Why a token sequence is not one RPN expression.
#[derive(Debug, Clone, Copy, PartialEq, Eq, Hash, Structural)]
pub enum ParseError {
    MissingOperand,
    RemainingOperand,
}

pub open spec fn parse_error_text(e: ParseError) -> Seq<char> {
    match e {
        ParseError::MissingOperand =>
            "Invalid RPN Syntax: missing operand. operator should be required two operands."@,
        ParseError::RemainingOperand =>
            "Invalid RPN Syntax: remaining operand. rpn result is one value"@,
    }
}

impl ParseError {
    /// The message shown to a user.
    pub fn message(&self) -> (r: String)
        ensures
            r@ == parse_error_text(*self),
    {
        match self {
            ParseError::MissingOperand => String::from_str(
                "Invalid RPN Syntax: missing operand. operator should be required two operands.",
            ),
            ParseError::RemainingOperand => String::from_str(
                "Invalid RPN Syntax: remaining operand. rpn result is one value",
            ),
        }
    }
}

/// The stack after one token: an operand pushes a leaf; an operator replaces
/// the two topmost trees by one node, or fails when there are fewer than two.
pub open spec fn step(stack: Seq<Ast>, t: Token) -> Option<Seq<Ast>> {
    match t {
        Token::Operand(d) => Some(stack.push(Ast::Num(d))),
        Token::Operator(op) => if stack.len() < 2 {
            None
        } else {
            let n = stack.len();
            Some(
                stack.take(n - 2).push(
                    Ast::Op { op, lhs: Box::new(stack[n - 2]), rhs: Box::new(stack[n - 1]) },
                ),
            )
        },
    }
}

/// The stack after all of `ts`, starting from an empty one; `None` once an
/// operator has found fewer than two trees.
pub open spec fn stack_after(ts: Seq<Token>) -> Option<Seq<Ast>>
    decreases ts.len(),
{
    if ts.len() == 0 {
        Some(Seq::empty())
    } else {
        match stack_after(ts.drop_last()) {
            None => None,
            Some(s) => step(s, ts.last()),
        }
    }
}

/// The tree of `ts`: the single tree left on the stack.
pub open spec fn parse_of(ts: Seq<Token>) -> Result<Ast, ParseError> {
    match stack_after(ts) {
        None => Err(ParseError::MissingOperand),
        Some(s) => if s.len() == 1 {
            Ok(s[0])
        } else {
            Err(ParseError::RemainingOperand)
        },
    }
}

/// A failure on a prefix is a failure on the whole sequence.
proof fn lemma_failure_persists(ts: Seq<Token>, i: int)
    requires
        0 <= i <= ts.len(),
        stack_after(ts.take(i)) is None,
    ensures
        stack_after(ts) is None,
    decreases ts.len() - i,
{
    if i < ts.len() {
        assert(ts.take(i + 1).drop_last() == ts.take(i));
        lemma_failure_persists(ts, i + 1);
    } else {
        assert(ts.take(i) == ts);
    }
}

/// Two token sequences of one shape: operators at the same places, and equal
/// operators there; only the operand values may differ.
pub open spec fn same_shape(a: Seq<Token>, b: Seq<Token>) -> bool {
    &&& a.len() == b.len()
    &&& forall|i: int|
        0 <= i < a.len() ==> (#[trigger] a[i] is Operand <==> b[i] is Operand) && (a[i]
            is Operator ==> a[i] == b[i])
}

proof fn lemma_shape_stack(a: Seq<Token>, b: Seq<Token>)
    requires
        same_shape(a, b),
    ensures
        stack_after(a) is Some <==> stack_after(b) is Some,
        stack_after(a) is Some ==> stack_after(a)->0.len() == stack_after(b)->0.len(),
    decreases a.len(),
{
    if a.len() > 0 {
        let (pa, pb) = (a.drop_last(), b.drop_last());
        assert(same_shape(pa, pb)) by {
            assert forall|i: int| 0 <= i < pa.len() implies (#[trigger] pa[i] is Operand
                <==> pb[i] is Operand) && (pa[i] is Operator ==> pa[i] == pb[i]) by {
                assert(pa[i] == a[i] && pb[i] == b[i]);
            }
        }
        lemma_shape_stack(pa, pb);
        assert(a.last() is Operand <==> b.last() is Operand);
    }
}

/// Whether a token sequence parses, and with which error it fails, depends on
/// where its operators stand, never on the operand values: a zero operand, a
/// zero divisor among them, is no syntax error.
pub proof fn operand_values_never_fail_a_parse(a: Seq<Token>, b: Seq<Token>)
    requires
        same_shape(a, b),
    ensures
        parse_of(a) is Ok <==> parse_of(b) is Ok,
        parse_of(a) is Err ==> parse_of(a) == parse_of(b),
{
    lemma_shape_stack(a, b);
}

/// Builds the syntax tree of an RPN token sequence in one pass over a stack.
pub fn parse(tokens: Vec<Token>) -> (r: Result<Ast, ParseError>)
    ensures
        r == parse_of(tokens@),
{
    let mut stack: Vec<Ast> = Vec::new();
    let n = tokens.len();
    let mut i: usize = 0;
    while i < n
        invariant
            n == tokens.len(),
            i <= n,
            stack_after(tokens@.take(i as int)) == Some(stack@),
        decreases n - i,
    {
        let token = tokens[i];
        assert(tokens@.take(i + 1).drop_last() == tokens@.take(i as int));
        match token {
            Token::Operator(op) => {
                if stack.len() < 2 {
                    proof { lemma_failure_persists(tokens@, i + 1); }
                    return Err(ParseError::MissingOperand);
                }
                let ghost before = stack@;
                let rhs = stack.pop().unwrap();
                let lhs = stack.pop().unwrap();
                assert(stack@ == before.take(before.len() - 2));
                stack.push(Ast::Op { op: op, lhs: Box::new(lhs), rhs: Box::new(rhs) });
            },
            Token::Operand(d) => stack.push(Ast::Num(d)),
        }
        i = i + 1;
    }
    assert(tokens@.take(n as int) == tokens@);
    if stack.len() != 1 {
        return Err(ParseError::RemainingOperand);
    }
    Ok(stack.pop().unwrap())
}

} // verus!
