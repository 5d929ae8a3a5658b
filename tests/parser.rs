use single_digit_rpn::ast::Ast;
use single_digit_rpn::operator::Operator;
use single_digit_rpn::parser::{parse, ParseError};
use single_digit_rpn::tokenizer::Token;

#[test]
fn test_parse() {
    assert_eq!(parse(vec![Token::Operand(1)]).ok().unwrap(), Ast::Num(1));
    assert_eq!(
        parse(vec![
            Token::Operand(1),
            Token::Operand(2),
            Token::Operator(Operator::Add)
        ])
        .ok()
        .unwrap(),
        Ast::Op {
            op: Operator::Add,
            lhs: Box::new(Ast::Num(1)),
            rhs: Box::new(Ast::Num(2))
        }
    );
    assert_eq!(
        parse(vec![Token::Operand(1), Token::Operand(2)])
            .err()
            .unwrap(),
        ParseError::RemainingOperand
    );
    assert_eq!(
        parse(vec![Token::Operand(1), Token::Operator(Operator::Add)])
            .err()
            .unwrap(),
        ParseError::MissingOperand
    );
    assert_eq!(
        parse(vec![
            Token::Operand(1),
            Token::Operand(2),
            Token::Operator(Operator::Add),
            Token::Operand(3),
            Token::Operator(Operator::Mul)
        ])
        .ok()
        .unwrap(),
        Ast::Op {
            op: Operator::Mul,
            lhs: Box::new(Ast::Op {
                op: Operator::Add,
                lhs: Box::new(Ast::Num(1)),
                rhs: Box::new(Ast::Num(2))
            }),
            rhs: Box::new(Ast::Num(3))
        }
    );

    assert_eq!(
        parse(vec![Token::Operand(1), Token::Operator(Operator::Add)]),
        Err(ParseError::MissingOperand)
    );
    assert_eq!(
        parse(vec![Token::Operand(1), Token::Operand(2)]),
        Err(ParseError::RemainingOperand)
    );
}

#[test]
fn empty_token_sequence_is_remaining_operand() {
    assert_eq!(parse(vec![]), Err(ParseError::RemainingOperand));
}

#[test]
fn missing_operand_stops_before_later_tokens() {
    assert_eq!(
        parse(vec![
            Token::Operator(Operator::Add),
            Token::Operand(1),
            Token::Operand(2),
        ]),
        Err(ParseError::MissingOperand)
    );
}

#[test]
fn parse_error_messages() {
    assert_eq!(
        ParseError::MissingOperand.message(),
        "Invalid RPN Syntax: missing operand. operator should be required two operands."
    );
    assert_eq!(
        ParseError::RemainingOperand.message(),
        "Invalid RPN Syntax: remaining operand. rpn result is one value"
    );
}

#[test]
fn operand_values_do_not_decide_acceptance() {
    let div = |x: u8, y: u8| {
        parse(vec![Token::Operand(x), Token::Operand(y), Token::Operator(Operator::Div)])
    };
    assert!(div(1, 0).is_ok());
    assert!(div(0, 0).is_ok());
    assert!(div(9, 3).is_ok());
    assert_eq!(
        parse(vec![Token::Operand(0), Token::Operator(Operator::Div)]),
        parse(vec![Token::Operand(7), Token::Operator(Operator::Div)])
    );
    assert_eq!(
        parse(vec![Token::Operand(0), Token::Operand(0)]),
        Err(ParseError::RemainingOperand)
    );
}

#[test]
fn cloned_tree_equals_the_original() {
    let tree = parse(vec![
        Token::Operand(8),
        Token::Operand(9),
        Token::Operand(3),
        Token::Operator(Operator::Div),
        Token::Operator(Operator::Mul),
    ])
    .unwrap();
    let copy = tree.clone();
    assert_eq!(copy, tree);
    assert_eq!(Ast::Num(4).clone(), Ast::Num(4));
}
