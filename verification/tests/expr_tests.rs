use skib::expr::{BinaryOperator, Expr, Literal, UnaryOperator, UnsupportedConversion};
use skib::token::TokenType;

#[test]
fn example_tree_prints_fully_parenthesized() {
    let tree = Expr::Binary {
        left: Box::new(Expr::Unary {
            operator: UnaryOperator::Minus,
            right: Box::new(Expr::Literal {
                value: Literal::Number("123".to_owned()),
            }),
        }),
        operator: BinaryOperator::Star,
        right: Box::new(Expr::Grouping {
            expression: Box::new(Expr::Literal {
                value: Literal::Number("45.67".to_owned()),
            }),
        }),
    };
    assert_eq!(tree.print(), "(* (- 123) (group 45.67))");
}

#[test]
fn literal_leaves_print_their_own_form() {
    let nil = Expr::Literal { value: Literal::Nil };
    assert_eq!(nil.print(), "nil");

    let truth = Expr::Literal { value: Literal::True };
    assert_eq!(truth.print(), "true");

    let name = Expr::Literal {
        value: Literal::Identifier("answer".to_owned()),
    };
    assert_eq!(name.print(), "answer");

    let text = Expr::Literal {
        value: Literal::String("hi".to_owned()),
    };
    assert_eq!(text.print(), "hi");
}

#[test]
fn unary_and_grouping_print() {
    let bang = Expr::Unary {
        operator: UnaryOperator::Bang,
        right: Box::new(Expr::Literal { value: Literal::False }),
    };
    assert_eq!(bang.print(), "! false");

    let grouped = Expr::Grouping {
        expression: Box::new(Expr::Literal { value: Literal::Nil }),
    };
    assert_eq!(grouped.print(), "group nil");
}

#[test]
fn star_survives_the_conversion_round_trip() {
    let token = BinaryOperator::Star.to_token_type();
    assert_eq!(token, TokenType::Star);
    assert_eq!(BinaryOperator::from_token_type(token), Ok(BinaryOperator::Star));
}

#[test]
fn every_binary_operator_round_trips() {
    let operators = [
        BinaryOperator::Slash,
        BinaryOperator::Star,
        BinaryOperator::BangEqual,
        BinaryOperator::Equal,
        BinaryOperator::EqualEqual,
        BinaryOperator::Greater,
        BinaryOperator::GreaterEqual,
        BinaryOperator::Less,
        BinaryOperator::LessEqual,
    ];
    for op in operators {
        assert_eq!(BinaryOperator::from_token_type(op.to_token_type()), Ok(op));
    }
}

#[test]
fn every_unary_operator_round_trips() {
    for op in [UnaryOperator::Minus, UnaryOperator::Bang] {
        assert_eq!(UnaryOperator::from_token_type(op.to_token_type()), Ok(op));
    }
}

#[test]
fn literals_round_trip() {
    let values = [
        Literal::Identifier("x".to_owned()),
        Literal::String("hi".to_owned()),
        Literal::Number("1.5".to_owned()),
        Literal::Nil,
        Literal::True,
        Literal::False,
    ];
    for value in values {
        assert_eq!(
            Literal::from_token_type(value.clone().to_token_type()),
            Ok(value)
        );
    }
}

#[test]
fn categories_without_a_counterpart_fail_to_convert() {
    assert_eq!(
        BinaryOperator::from_token_type(TokenType::LeftParen),
        Err(UnsupportedConversion)
    );
    assert_eq!(
        UnaryOperator::from_token_type(TokenType::Star),
        Err(UnsupportedConversion)
    );
    assert_eq!(
        Literal::from_token_type(TokenType::Semicolon),
        Err(UnsupportedConversion)
    );
}

#[test]
fn operator_text_uses_token_rendering() {
    assert_eq!(BinaryOperator::GreaterEqual.text(), ">=");
    assert_eq!(UnaryOperator::Minus.text(), "-");
}
