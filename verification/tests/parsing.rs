use j_interp::array::JArray;
use j_interp::array::JValue;
use j_interp::lalr_parser::LalrParser;
use j_interp::node::JNode;
use j_interp::parser::CustomParser;
use j_interp::parser::JParser;
use j_interp::parser::ParseError;
use j_interp::tokenizer::JTokenizer;
use j_interp::tokenizer::Token;
use j_interp::tokenizer::TokenError;
use j_interp::visualizer::ParseTreeVisualizer;

fn parse_and_visualize(expression: &str) -> (Result<JNode, ParseError>, String) {
    let tokenizer = JTokenizer::new();
    let parser = LalrParser::new();
    let visualizer = ParseTreeVisualizer::new();

    let tokens = match tokenizer.tokenize(expression) {
        Ok(tokens) => tokens,
        Err(err) => {
            let error_msg = format!("Tokenizer error: {}", err.to_string());
            return (Err(ParseError::InvalidExpression(error_msg.clone())), error_msg);
        }
    };

    let ast_result = parser.parse(tokens);

    let visualization = match &ast_result {
        Ok(ast) => visualizer.visualize(ast),
        Err(err) => format!("Parse failed: {}", err.to_string()),
    };

    (ast_result, visualization)
}

fn parse_text(expression: &str) -> Result<JNode, ParseError> {
    let tokens = JTokenizer::new().tokenize(expression).unwrap();
    JParser::new().parse(tokens)
}

fn number(value: i32) -> JNode {
    JNode::Literal(JArray::scalar(value))
}

fn prefix(verb: char, arg: JNode) -> JNode {
    JNode::AmbiguousVerb(verb, None, Some(Box::new(arg)))
}

fn infix(verb: char, left: JNode, right: JNode) -> JNode {
    JNode::AmbiguousVerb(verb, Some(Box::new(left)), Some(Box::new(right)))
}

#[test]
fn test_simple_scalar() {
    let (result, _viz) = parse_and_visualize("5");
    assert!(result.is_ok());

    if let Ok(ast) = result {
        match ast {
            JNode::Literal(array) => {
                assert_eq!(array.data[0], JValue::Integer(5));
                assert_eq!(array.rank(), 0);
            }
            _ => panic!("Expected literal node for scalar"),
        }
    }
}

#[test]
fn test_simple_monadic() {
    let (result, _viz) = parse_and_visualize("~3");
    assert!(result.is_ok());

    if let Ok(ast) = result {
        match ast {
            JNode::AmbiguousVerb(verb, left, right) => {
                assert_eq!(verb, '~');
                assert!(left.is_none());
                assert!(right.is_some());

                if let Some(right_node) = right {
                    match *right_node {
                        JNode::Literal(ref array) => {
                            assert_eq!(array.data[0], JValue::Integer(3));
                        }
                        _ => panic!("Expected literal argument"),
                    }
                }
            }
            _ => panic!("Expected ambiguous verb node for monadic"),
        }
    }
}

#[test]
fn test_simple_dyadic() {
    let (result, _viz) = parse_and_visualize("2+3");
    assert!(result.is_ok());

    if let Ok(ast) = result {
        match ast {
            JNode::AmbiguousVerb(verb, left, right) => {
                assert_eq!(verb, '+');
                assert!(left.is_some());
                assert!(right.is_some());

                if let Some(left_node) = left {
                    match *left_node {
                        JNode::Literal(ref array) => assert_eq!(array.data[0], JValue::Integer(2)),
                        _ => panic!("Expected literal left operand"),
                    }
                }

                if let Some(right_node) = right {
                    match *right_node {
                        JNode::Literal(ref array) => assert_eq!(array.data[0], JValue::Integer(3)),
                        _ => panic!("Expected literal right operand"),
                    }
                }
            }
            _ => panic!("Expected ambiguous verb node for dyadic"),
        }
    }
}

#[test]
fn test_critical_precedence_case() {
    let (result, viz) = parse_and_visualize("~3+~3");

    println!("CRITICAL TEST - ~3+~3 parsing:");
    println!("{}", viz);

    assert!(result.is_ok());

    if let Ok(ast) = result {
        match ast {
            JNode::AmbiguousVerb(verb, left, right) => {
                assert_eq!(verb, '+');
                assert!(left.is_some());
                assert!(right.is_some());

                if let Some(left_node) = left {
                    match *left_node {
                        JNode::AmbiguousVerb(left_verb, ref left_left, ref left_right) => {
                            assert_eq!(left_verb, '~');
                            assert!(left_left.is_none());
                            assert!(left_right.is_some());

                            if let Some(ref left_arg) = *left_right {
                                match **left_arg {
                                    JNode::Literal(ref array) => {
                                        assert_eq!(array.data[0], JValue::Integer(3))
                                    }
                                    _ => panic!("Expected literal in left monadic"),
                                }
                            }
                        }
                        _ => panic!("Expected monadic verb on left side"),
                    }
                }

                if let Some(right_node) = right {
                    match *right_node {
                        JNode::AmbiguousVerb(right_verb, ref right_left, ref right_right) => {
                            assert_eq!(right_verb, '~');
                            assert!(right_left.is_none());
                            assert!(right_right.is_some());

                            if let Some(ref right_arg) = *right_right {
                                match **right_arg {
                                    JNode::Literal(ref array) => {
                                        assert_eq!(array.data[0], JValue::Integer(3))
                                    }
                                    _ => panic!("Expected literal in right monadic"),
                                }
                            }
                        }
                        _ => panic!("Expected monadic verb on right side"),
                    }
                }
            }
            _ => {
                panic!("Expected dyadic verb node, got: {:?}", ast);
            }
        }
    }
}

#[test]
fn test_vector_operations() {
    let (result, _viz) = parse_and_visualize("1 2 3+4 5 6");
    assert!(result.is_ok());

    if let Ok(ast) = result {
        match ast {
            JNode::AmbiguousVerb(verb, left, right) => {
                assert_eq!(verb, '+');

                if let (Some(left_node), Some(right_node)) = (left, right) {
                    match (*left_node, *right_node) {
                        (JNode::Literal(left_array), JNode::Literal(right_array)) => {
                            assert_eq!(left_array.get_data(), vec![1, 2, 3]);
                            assert_eq!(right_array.get_data(), vec![4, 5, 6]);
                        }
                        _ => panic!("Expected vector literals"),
                    }
                }
            }
            _ => panic!("Expected dyadic verb for vector operation"),
        }
    }
}

#[test]
fn test_parse_scalar() {
    match parse_text("42").unwrap() {
        JNode::Literal(result) => assert!(result.is_scalar()),
        other => panic!("expected a literal, got {:?}", other),
    }
}

#[test]
fn test_parse_vector() {
    match parse_text("1 2 3").unwrap() {
        JNode::Literal(result) => {
            assert!(result.is_vector());
            assert_eq!(result.size(), 3);
        }
        other => panic!("expected a literal, got {:?}", other),
    }
}

#[test]
fn test_parse_expression() {
    match parse_text("1 2 3 + 4 5 6").unwrap() {
        JNode::AmbiguousVerb(verb, left, right) => {
            assert!(left.is_some());
            assert_eq!(verb, '+');
            assert!(right.is_some());
        }
        other => panic!("expected a verb, got {:?}", other),
    }
}

#[test]
fn test_parse_monadic() {
    match parse_text("~5").unwrap() {
        JNode::AmbiguousVerb(verb, left, right) => {
            assert!(left.is_none());
            assert_eq!(verb, '~');
            assert!(right.is_some());
        }
        other => panic!("expected a verb, got {:?}", other),
    }
}

#[test]
fn a_run_of_numerals_is_one_token() {
    let tokens = JTokenizer::new().tokenize("1 2 3").unwrap();
    assert_eq!(tokens, vec![Token::Vector(JArray::vector(vec![1, 2, 3]))]);

    let single = JTokenizer::new().tokenize("7").unwrap();
    assert_eq!(single, vec![Token::Vector(JArray::scalar(7))]);

    let spaced = JTokenizer::new().tokenize("  10   20  ").unwrap();
    assert_eq!(spaced, vec![Token::Vector(JArray::vector(vec![10, 20]))]);
}

#[test]
fn verbs_and_parentheses_are_tokens() {
    let tokens = JTokenizer::new().tokenize("(1+2)#~3,4<5{6").unwrap();
    assert_eq!(
        tokens,
        vec![
            Token::LeftParen,
            Token::Vector(JArray::scalar(1)),
            Token::Verb('+'),
            Token::Vector(JArray::scalar(2)),
            Token::RightParen,
            Token::Verb('#'),
            Token::Verb('~'),
            Token::Vector(JArray::scalar(3)),
            Token::Verb(','),
            Token::Vector(JArray::scalar(4)),
            Token::Verb('<'),
            Token::Vector(JArray::scalar(5)),
            Token::Verb('{'),
            Token::Vector(JArray::scalar(6)),
        ]
    );
    assert_eq!(JTokenizer::new().tokenize("").unwrap(), vec![]);
    assert_eq!(JTokenizer::new().tokenize("   ").unwrap(), vec![]);
}

#[test]
fn a_verb_ends_a_run() {
    let tokens = JTokenizer::new().tokenize("1 2 +3").unwrap();
    assert_eq!(
        tokens,
        vec![
            Token::Vector(JArray::vector(vec![1, 2])),
            Token::Verb('+'),
            Token::Vector(JArray::scalar(3)),
        ]
    );
}

#[test]
fn unknown_characters_are_rejected() {
    let result = JTokenizer::new().tokenize("1 2 & 3");
    assert_eq!(result, Err(TokenError::UnknownCharacter('&')));
    assert_eq!(JTokenizer::new().tokenize("-3"), Err(TokenError::UnknownCharacter('-')));
    assert_eq!(JTokenizer::new().tokenize("1.5"), Err(TokenError::UnknownCharacter('.')));
}

#[test]
fn numerals_beyond_sixty_four_bits_are_rejected() {
    let result = JTokenizer::new().tokenize("1 99999999999999999999 3");
    assert_eq!(result, Err(TokenError::InvalidNumber("99999999999999999999".to_string())));
    let edge = JTokenizer::new().tokenize("9223372036854775808");
    assert_eq!(edge, Err(TokenError::InvalidNumber("9223372036854775808".to_string())));
    assert!(JTokenizer::new().tokenize("9223372036854775807").is_ok());
}

#[test]
fn numerals_are_cut_to_thirty_two_bits() {
    let tokens = JTokenizer::new().tokenize("4294967295 4294967298").unwrap();
    assert_eq!(tokens, vec![Token::Vector(JArray::vector(vec![-1, 2]))]);
    let zeros = JTokenizer::new().tokenize("007").unwrap();
    assert_eq!(zeros, vec![Token::Vector(JArray::scalar(7))]);
}

#[test]
fn array_verbs_bind_tighter_than_plus() {
    let tree = parse_text("1+2,3").unwrap();
    assert_eq!(tree, infix('+', number(1), infix(',', number(2), number(3))));

    let tree = parse_text("1,2+3").unwrap();
    assert_eq!(tree, infix('+', infix(',', number(1), number(2)), number(3)));
}

#[test]
fn chains_grow_to_the_left() {
    let tree = parse_text("1,2,3").unwrap();
    assert_eq!(tree, infix(',', infix(',', number(1), number(2)), number(3)));

    let tree = parse_text("1+2+3").unwrap();
    assert_eq!(tree, infix('+', infix('+', number(1), number(2)), number(3)));
}

#[test]
fn a_prefix_verb_takes_one_primary() {
    let tree = parse_text("#1,2").unwrap();
    assert_eq!(tree, infix(',', prefix('#', number(1)), number(2)));

    let tree = parse_text("1{~4").unwrap();
    assert_eq!(tree, infix('{', number(1), prefix('~', number(4))));
}

#[test]
fn parentheses_group() {
    let tree = parse_text("(1+2),3").unwrap();
    assert_eq!(tree, infix(',', infix('+', number(1), number(2)), number(3)));

    let tree = parse_text("~(1+2)").unwrap();
    assert_eq!(tree, prefix('~', infix('+', number(1), number(2))));

    let tree = parse_text("((5))").unwrap();
    assert_eq!(tree, number(5));
}

#[test]
fn parse_failures() {
    assert!(matches!(parse_text(""), Err(ParseError::InvalidExpression(_))));
    assert!(matches!(parse_text("(1 2"), Err(ParseError::InvalidExpression(_))));
    assert!(matches!(parse_text("(1 2 ("), Err(ParseError::InvalidExpression(_))));
    assert_eq!(parse_text("1+"), Err(ParseError::UnexpectedEndOfInput));
    assert_eq!(parse_text("~"), Err(ParseError::UnexpectedEndOfInput));
    assert_eq!(parse_text("("), Err(ParseError::UnexpectedEndOfInput));
    assert_eq!(parse_text("1)"), Err(ParseError::UnexpectedToken(")".to_string(), 1)));
    assert_eq!(parse_text("+1"), Err(ParseError::UnexpectedToken("+".to_string(), 0)));
    assert_eq!(parse_text("1(2"), Err(ParseError::UnexpectedToken("(".to_string(), 1)));
    assert_eq!(parse_text("~~1"), Err(ParseError::UnexpectedToken("~".to_string(), 1)));
}

#[test]
fn tokens_given_directly_are_parsed_too() {
    let tokens = vec![Token::Vector(JArray::scalar(1)), Token::Verb('*'), Token::Vector(JArray::scalar(2))];
    let result = JParser::new().parse(tokens);
    assert_eq!(result, Err(ParseError::UnexpectedToken("*".to_string(), 1)));

    let tokens = vec![Token::Vector(JArray::scalar(1)), Token::Vector(JArray::vector(vec![2, 3]))];
    let result = CustomParser::new().parse(tokens);
    assert_eq!(result, Err(ParseError::UnexpectedToken("2 3".to_string(), 1)));

    let tokens = vec![Token::Verb('-'), Token::Vector(JArray::scalar(2))];
    let result = CustomParser::new().parse(tokens).unwrap();
    assert_eq!(result, prefix('-', number(2)));
}

#[test]
fn the_second_front_end_reports_every_failure_alike() {
    let tokenizer = JTokenizer::new();
    let parser = LalrParser::new();
    for text in ["", "1+", "1)", "(1", "+1"] {
        let tokens = tokenizer.tokenize(text).unwrap();
        assert!(matches!(parser.parse(tokens), Err(ParseError::InvalidExpression(_))));
    }
    let tokens = tokenizer.tokenize("1,2+3").unwrap();
    assert_eq!(parser.parse(tokens).unwrap(), parse_text("1,2+3").unwrap());
}

#[test]
fn trees_are_rendered_with_indentation() {
    let visualizer = ParseTreeVisualizer::new();
    assert_eq!(visualizer.visualize(&number(5)), "Literal: 5");
    assert_eq!(
        visualizer.visualize(&JNode::Literal(JArray::vector(vec![1, 2, 3]))),
        "Literal: [1 2 3]"
    );
    let tree = parse_text("~3+4 5").unwrap();
    assert_eq!(
        visualizer.visualize(&tree),
        "AmbiguousVerb: '+'\nLeft:\n  AmbiguousVerb: '~'\n  Right:\n    Literal: 3\nRight:\n  Literal: [4 5]"
    );
    let resolved = JNode::DyadicVerb(
        '+',
        Box::new(JNode::MonadicVerb('~', Box::new(number(3)))),
        Box::new(number(1)),
    );
    assert_eq!(
        visualizer.visualize(&resolved),
        "DyadicVerb: '+'\n  MonadicVerb: '~'\n    Literal: 3\n  Literal: 1"
    );
}

#[test]
fn white_space_is_passed_over() {
    let tokenizer = JTokenizer::new();
    assert_eq!(tokenizer.tokenize("\t").unwrap(), vec![]);
    assert_eq!(tokenizer.tokenize(" \t\r\n\u{a0}\u{2003} ").unwrap(), vec![]);
    assert_eq!(
        tokenizer.tokenize("\t1\n+\r\n2\t").unwrap(),
        vec![Token::Vector(JArray::scalar(1)), Token::Verb('+'), Token::Vector(JArray::scalar(2))]
    );
    assert_eq!(tokenizer.tokenize("\n&"), Err(TokenError::UnknownCharacter('&')));
}

#[test]
fn only_the_space_joins_numerals() {
    let tokenizer = JTokenizer::new();
    assert_eq!(
        tokenizer.tokenize("1\t2").unwrap(),
        vec![Token::Vector(JArray::scalar(1)), Token::Vector(JArray::scalar(2))]
    );
    assert_eq!(
        tokenizer.tokenize("1 2 \n3 4").unwrap(),
        vec![Token::Vector(JArray::vector(vec![1, 2])), Token::Vector(JArray::vector(vec![3, 4]))]
    );
    assert_eq!(parse_text("1\t2"), Err(ParseError::UnexpectedToken("2".to_string(), 1)));
}

#[test]
fn a_missing_parenthesis_is_told_apart_from_a_wrong_token() {
    let tokens = JTokenizer::new().tokenize("1,2)").unwrap();
    let mut parser = CustomParser::new();
    assert_eq!(parser.parse(tokens), Err(ParseError::UnexpectedToken(")".to_string(), 3)));
    let tokens = JTokenizer::new().tokenize("(1 2").unwrap();
    assert_eq!(
        parser.parse(tokens),
        Err(ParseError::InvalidExpression("Error: Missing closing parenthesis".to_string()))
    );
    let tokens = JTokenizer::new().tokenize("(1 2 (").unwrap();
    assert!(parser.parse(tokens).is_err());
    let tokens = vec![Token::LeftParen, Token::Vector(JArray::scalar(1)), Token::LeftParen];
    assert_eq!(
        parser.parse(tokens),
        Err(ParseError::InvalidExpression("Error: Expected closing parenthesis".to_string()))
    );
}
