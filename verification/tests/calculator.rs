use calculator::constants::Constant;
use calculator::functions::Function;
use calculator::lexer::{Lexer, Operator, Token};
use calculator::parser::{Expected, Expression, ParseError, Parser};

fn parse_str(src: &str) -> Result<Expression, ParseError> {
    let tokens = Lexer::lex(src);
    let mut parser = Parser::new(tokens);
    parser.parse()
}

fn eval_constant(c: &Constant) -> f64 {
    match c {
        Constant::PI => std::f64::consts::PI,
        Constant::E => std::f64::consts::E,
    }
}

fn eval_function(f: &Function, args: &[f64]) -> f64 {
    match f {
        Function::Sin => args[0].sin(),
        Function::Cos => args[0].cos(),
        Function::Tan => args[0].tan(),
        Function::Sqrt => args[0].sqrt(),
        Function::Abs => {
            let v = args[0];
            if v > 0.0 {
                v
            } else {
                -v
            }
        }
        Function::Max => {
            let mut m = args[0];
            for &v in args {
                if v > m {
                    m = v;
                }
            }
            m
        }
        Function::Min => {
            let mut m = args[0];
            for &v in args {
                if v < m {
                    m = v;
                }
            }
            m
        }
    }
}

fn eval_expr(e: &Expression) -> f64 {
    match e {
        Expression::Number(lexeme) => lexeme.parse().unwrap(),
        Expression::Unary(_, inner) => -1.0 * eval_expr(inner),
        Expression::Binary(Operator::Add, a, b) => eval_expr(a) + eval_expr(b),
        Expression::Binary(Operator::Subtract, a, b) => eval_expr(a) - eval_expr(b),
        Expression::Binary(Operator::Multiply, a, b) => eval_expr(a) * eval_expr(b),
        Expression::Binary(Operator::Divide, a, b) => eval_expr(a) / eval_expr(b),
        Expression::Binary(Operator::Power, a, b) => eval_expr(a).powf(eval_expr(b)),
        Expression::Binary(_, _, _) => panic!("no such binary operator"),
        Expression::Function(f, args) => {
            let vals: Vec<f64> = args.iter().map(eval_expr).collect();
            eval_function(f, &vals)
        }
        Expression::Constant(c) => eval_constant(c),
    }
}

fn eval_str(src: &str) -> f64 {
    eval_expr(&parse_str(src).unwrap())
}

fn num(s: &str) -> Token {
    Token::Number(String::from(s))
}

#[test]
fn lex_simple_expression() {
    assert_eq!(
        Lexer::lex("2+3*4"),
        vec![
            num("2"),
            Token::Plus,
            num("3"),
            Token::Star,
            num("4"),
            Token::End
        ]
    );
}

#[test]
fn lex_empty_input_is_end_only() {
    assert_eq!(Lexer::lex(""), vec![Token::End]);
}

#[test]
fn lex_skips_whitespace() {
    assert_eq!(
        Lexer::lex(" 2 +  3 "),
        vec![num("2"), Token::Plus, num("3"), Token::End]
    );
}

#[test]
fn lex_skips_unknown_characters() {
    assert_eq!(Lexer::lex("2 @ 3"), vec![num("2"), num("3"), Token::End]);
    assert_eq!(Lexer::lex("."), vec![Token::End]);
}

#[test]
fn lex_number_with_decimal_point() {
    assert_eq!(Lexer::lex("3.25"), vec![num("3.25"), Token::End]);
    assert_eq!(Lexer::lex("1."), vec![num("1."), Token::End]);
}

#[test]
fn lex_second_decimal_point_ends_literal() {
    assert_eq!(Lexer::lex("1.2.3"), vec![num("1.2"), num("3"), Token::End]);
}

#[test]
fn lex_identifier_is_greedy_alphabetic() {
    assert_eq!(
        Lexer::lex("sin(x)"),
        vec![
            Token::Identifier(String::from("sin")),
            Token::LeftParen,
            Token::Identifier(String::from("x")),
            Token::RightParen,
            Token::End
        ]
    );
}

#[test]
fn lex_all_punctuation() {
    assert_eq!(
        Lexer::lex("+-*/^(),"),
        vec![
            Token::Plus,
            Token::Dash,
            Token::Star,
            Token::Slash,
            Token::Caret,
            Token::LeftParen,
            Token::RightParen,
            Token::Comma,
            Token::End
        ]
    );
}

#[test]
fn render_punctuation_roundtrip() {
    let puncts = vec![
        Token::Plus,
        Token::Dash,
        Token::Star,
        Token::Slash,
        Token::Caret,
        Token::LeftParen,
        Token::RightParen,
        Token::Comma,
    ];
    for t in puncts {
        let text = t.render();
        assert_eq!(Lexer::lex(&text), vec![t, Token::End]);
    }
}

#[test]
fn render_lexeme_tokens() {
    assert_eq!(num("1.5").render(), "1.5");
    assert_eq!(Token::Identifier(String::from("max")).render(), "max");
    assert_eq!(Token::End.render(), "");
}

#[test]
fn relex_rendering_reproduces_tokens() {
    let mut tokens = Lexer::lex("max(1.5,abs(-2))+7");
    assert_eq!(tokens.pop(), Some(Token::End));
    let text = tokens
        .iter()
        .map(|t| t.render())
        .collect::<Vec<String>>()
        .join(" ");
    let mut relexed = Lexer::lex(&text);
    assert_eq!(relexed.pop(), Some(Token::End));
    assert_eq!(relexed, tokens);
}

#[test]
fn operator_from_token() {
    assert_eq!(Operator::from_token(&Token::Plus), Some(Operator::Add));
    assert_eq!(Operator::from_token(&Token::Dash), Some(Operator::Subtract));
    assert_eq!(Operator::from_token(&Token::Star), Some(Operator::Multiply));
    assert_eq!(Operator::from_token(&Token::Slash), Some(Operator::Divide));
    assert_eq!(Operator::from_token(&Token::Caret), Some(Operator::Power));
    assert_eq!(Operator::from_token(&Token::Comma), None);
    assert_eq!(Operator::from_token(&Token::End), None);
}

#[test]
fn precedence_multiplication_binds_tighter() {
    assert_eq!(eval_str("2+3*4"), 14.0);
    assert_eq!(
        parse_str("2+3*4").unwrap(),
        Expression::Binary(
            Operator::Add,
            Box::new(Expression::Number(String::from("2"))),
            Box::new(Expression::Binary(
                Operator::Multiply,
                Box::new(Expression::Number(String::from("3"))),
                Box::new(Expression::Number(String::from("4"))),
            )),
        )
    );
}

#[test]
fn precedence_parentheses_group() {
    assert_eq!(eval_str("(2+3)*4"), 20.0);
}

#[test]
fn precedence_power_is_right_associative() {
    assert_eq!(eval_str("2^3^2"), 512.0);
}

#[test]
fn precedence_negation_binds_looser_than_power() {
    assert_eq!(eval_str("-2^2"), -4.0);
}

#[test]
fn negation_applies_to_whole_term() {
    assert_eq!(eval_str("-2*3"), -6.0);
    assert_eq!(eval_str("-2+3"), 1.0);
}

#[test]
fn addition_is_left_associative() {
    assert_eq!(eval_str("10-2-3"), 5.0);
    assert_eq!(
        parse_str("10-2-3").unwrap(),
        Expression::Binary(
            Operator::Subtract,
            Box::new(Expression::Binary(
                Operator::Subtract,
                Box::new(Expression::Number(String::from("10"))),
                Box::new(Expression::Number(String::from("2"))),
            )),
            Box::new(Expression::Number(String::from("3"))),
        )
    );
}

#[test]
fn division_is_left_associative() {
    assert_eq!(eval_str("8/4/2"), 1.0);
    assert_eq!(eval_str("100/10/5"), 2.0);
}

#[test]
fn plain_arithmetic_matches_infix_rules() {
    assert_eq!(eval_str("1+2*3-4/2"), 5.0);
    assert_eq!(eval_str("(1+2)*(3+4)"), 21.0);
    assert_eq!(eval_str("2*(3+4*(5-3))"), 22.0);
    assert_eq!(eval_str("7"), 7.0);
    assert_eq!(eval_str("1.5+2.25"), 3.75);
}

#[test]
fn function_dispatch_sin() {
    assert_eq!(eval_str("sin(0)"), 0.0);
}

#[test]
fn function_dispatch_max() {
    assert_eq!(eval_str("max(1,5,3)"), 5.0);
}

#[test]
fn function_dispatch_min() {
    assert_eq!(eval_str("min(1,5,3)"), 1.0);
}

#[test]
fn function_dispatch_abs() {
    assert_eq!(eval_str("abs(-7)"), 7.0);
}

#[test]
fn function_dispatch_others() {
    assert_eq!(eval_str("cos(0)"), 1.0);
    assert_eq!(eval_str("tan(0)"), 0.0);
    assert_eq!(eval_str("sqrt(4)"), 2.0);
}

#[test]
fn function_names_match_case_insensitively() {
    assert_eq!(eval_str("SIN(0)"), 0.0);
    assert_eq!(eval_str("Sqrt(9)"), 3.0);
    assert_eq!(eval_str("MAX(2,4)"), 4.0);
}

#[test]
fn nested_function_calls() {
    assert_eq!(eval_str("max(min(4,2),abs(-1),1+1)"), 2.0);
}

#[test]
fn constant_pi_evaluates_to_standard_value() {
    assert_eq!(eval_str("PI"), std::f64::consts::PI);
}

#[test]
fn constant_e_evaluates_to_standard_value() {
    assert_eq!(eval_str("e"), std::f64::consts::E);
}

#[test]
fn constant_names_are_case_sensitive() {
    assert!(matches!(
        parse_str("pi"),
        Err(ParseError::UnknownName { .. })
    ));
    assert!(matches!(parse_str("E"), Err(ParseError::UnknownName { .. })));
}

#[test]
fn constants_combine_with_arithmetic() {
    assert_eq!(eval_str("2*PI"), 2.0 * std::f64::consts::PI);
}

#[test]
fn arity_fault_on_fixed_arity_function() {
    assert_eq!(
        parse_str("sin(1,2)"),
        Err(ParseError::ArityMismatch {
            function: Function::Sin,
            count: 2
        })
    );
}

#[test]
fn arity_fault_on_variadic_function() {
    assert_eq!(
        parse_str("max(1)"),
        Err(ParseError::ArityMismatch {
            function: Function::Max,
            count: 1
        })
    );
    assert_eq!(
        parse_str("sin()"),
        Err(ParseError::ArityMismatch {
            function: Function::Sin,
            count: 0
        })
    );
}

#[test]
fn unknown_function_name_is_rejected() {
    assert_eq!(
        parse_str("foo(1)"),
        Err(ParseError::UnknownName {
            name: String::from("foo")
        })
    );
}

#[test]
fn premature_end_is_unexpected_token() {
    assert_eq!(
        parse_str("1+"),
        Err(ParseError::UnexpectedToken {
            expected: Expected::Primary,
            found: Token::End
        })
    );
}

#[test]
fn trailing_tokens_are_rejected() {
    assert_eq!(
        parse_str("1 2"),
        Err(ParseError::TrailingTokens {
            found: num("2")
        })
    );
}

#[test]
fn empty_input_is_rejected() {
    assert_eq!(
        parse_str(""),
        Err(ParseError::UnexpectedToken {
            expected: Expected::Primary,
            found: Token::End
        })
    );
}

#[test]
fn missing_closing_parenthesis_is_rejected() {
    assert_eq!(
        parse_str("(1+2"),
        Err(ParseError::UnexpectedToken {
            expected: Expected::RightParen,
            found: Token::End
        })
    );
}

#[test]
fn trailing_comma_in_arguments_is_rejected() {
    assert_eq!(
        parse_str("max(1,)"),
        Err(ParseError::UnexpectedToken {
            expected: Expected::Primary,
            found: Token::RightParen
        })
    );
}

#[test]
fn missing_argument_separator_is_rejected() {
    assert_eq!(
        parse_str("max(1 2)"),
        Err(ParseError::UnexpectedToken {
            expected: Expected::ArgumentEnd,
            found: num("2")
        })
    );
}

#[test]
fn division_by_zero_propagates_infinity() {
    assert_eq!(eval_str("1/0"), f64::INFINITY);
    assert_eq!(eval_str("-1/0"), f64::NEG_INFINITY);
}

#[test]
fn fractional_exponent_follows_power_semantics() {
    assert!((eval_str("2^0.5") - 2f64.sqrt()).abs() < 1e-12);
}

#[test]
fn registry_resolution_and_arity_classes() {
    assert_eq!(Function::from_name("sin"), Some(Function::Sin));
    assert_eq!(Function::from_name("COS"), Some(Function::Cos));
    assert_eq!(Function::from_name("Tan"), Some(Function::Tan));
    assert_eq!(Function::from_name("sqrt"), Some(Function::Sqrt));
    assert_eq!(Function::from_name("abs"), Some(Function::Abs));
    assert_eq!(Function::from_name("max"), Some(Function::Max));
    assert_eq!(Function::from_name("min"), Some(Function::Min));
    assert_eq!(Function::from_name("log"), None);
    assert!(Function::Sin.arity_ok(1));
    assert!(!Function::Sin.arity_ok(2));
    assert!(!Function::Max.arity_ok(1));
    assert!(Function::Max.arity_ok(2));
    assert!(Function::Min.arity_ok(5));
}

#[test]
fn constant_table_resolution() {
    assert_eq!(Constant::from_name("PI"), Some(Constant::PI));
    assert_eq!(Constant::from_name("e"), Some(Constant::E));
    assert_eq!(Constant::from_name("pi"), None);
    assert_eq!(Constant::from_name("E"), None);
    assert_eq!(Constant::from_name("tau"), None);
}

#[test]
fn parenthesized_constant_call_style_is_not_constant_lookup() {
    assert_eq!(
        parse_str("PI(1)"),
        Err(ParseError::UnknownName {
            name: String::from("PI")
        })
    );
}
