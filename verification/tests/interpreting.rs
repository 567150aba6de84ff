use j_interp::array::ArrayError;
use j_interp::array::JArray;
use j_interp::array::JType;
use j_interp::array::JValue;
use j_interp::evaluator::EvaluationError;
use j_interp::interpreter::InterpreterError;
use j_interp::interpreter::JInterpreter;
use j_interp::parser::ParseError;
use j_interp::repl::execute;
use j_interp::repl::format_result;
use j_interp::repl::get_help_text;
use j_interp::repl::JError;
use j_interp::semantic_analyzer::SemanticError;
use j_interp::shape::ArrayShape;
use j_interp::tokenizer::TokenError;

fn run(text: &str) -> Result<JArray, InterpreterError> {
    JInterpreter::new().execute(text)
}

fn vector(values: Vec<i32>) -> JArray {
    JArray::vector(values)
}

#[test]
fn test_scalar_creation() {
    let scalar = JArray::scalar(42);
    assert_eq!(scalar.rank(), 0);
    assert_eq!(scalar.size(), 1);
    assert!(scalar.is_scalar());
}

#[test]
fn test_vector_creation() {
    let vector = JArray::vector(vec![1, 2, 3]);
    assert_eq!(vector.rank(), 1);
    assert_eq!(vector.size(), 3);
    assert!(vector.is_vector());
}

#[test]
fn test_shaped_array() {
    let data = vec![1, 2, 3, 4, 5, 6];
    let array = JArray::shaped(vec![2, 3], data).unwrap();
    assert_eq!(array.rank(), 2);
    assert_eq!(array.size(), 6);
    assert_eq!(array.shape.dimensions, vec![2, 3]);
}

#[test]
fn shaped_rejects_a_wrong_count() {
    match JArray::shaped(vec![2, 3], vec![1, 2, 3, 4]) {
        Err(ArrayError::ShapeMismatch { expected, actual }) => {
            assert_eq!(expected.dimensions, vec![2, 3]);
            assert_eq!(actual.dimensions, vec![4]);
        }
        other => panic!("expected ShapeMismatch, got {:?}", other),
    }
    let empty = JArray::shaped(vec![3, 0], vec![]).unwrap();
    assert!(empty.is_empty());
    let scalar = JArray::shaped(vec![], vec![9]).unwrap();
    assert!(scalar.is_scalar());
}

#[test]
fn iota_counts_up_from_zero() {
    assert_eq!(run("~0").unwrap(), vector(vec![]));
    assert_eq!(run("~1").unwrap(), vector(vec![0]));
    assert_eq!(run("~5").unwrap(), vector(vec![0, 1, 2, 3, 4]));
    assert_eq!(run("~12").unwrap().size(), 12);
}

#[test]
fn a_negative_numeral_cannot_be_written() {
    assert_eq!(
        run("~-3"),
        Err(InterpreterError::TokenError(TokenError::UnknownCharacter('-')))
    );
}

#[test]
fn scalars_add_up() {
    assert_eq!(run("2+3").unwrap(), JArray::scalar(5));
    assert_eq!(run("0+0").unwrap(), JArray::scalar(0));
    assert_eq!(run("1000000+2345678").unwrap(), JArray::scalar(3345678));
    assert_eq!(run("2147483647+0").unwrap(), JArray::scalar(2147483647));
    assert_eq!(run("2147483647+1").unwrap(), JArray::scalar(-2147483648));
}

#[test]
fn vectors_add_element_by_element() {
    assert_eq!(run("1 2 3+4 5 6").unwrap(), vector(vec![5, 7, 9]));
    assert_eq!(run("1 2 3 + 4 5 6").unwrap(), vector(vec![5, 7, 9]));
    assert_eq!(run("10 20+1 2").unwrap(), vector(vec![11, 22]));
    assert!(matches!(
        run("1 2 3+4 5"),
        Err(InterpreterError::EvaluationError(EvaluationError::DimensionMismatch(_)))
    ));
    assert_eq!(run("1 2 3+10").unwrap(), vector(vec![11, 12, 13]));
}

#[test]
fn tally_of_a_written_vector_is_its_length() {
    assert_eq!(run("#1 2 3").unwrap(), JArray::scalar(3));
    assert_eq!(run("#7").unwrap(), JArray::scalar(1));
    assert_eq!(run("#1 2 3 4 5 6 7 8 9 10 11").unwrap(), JArray::scalar(11));
}

#[test]
fn reshape_of_ravel_gives_the_array_back() {
    let matrix = JArray::matrix(vec![1, 2, 3, 4, 5, 6], 2, 3);
    let back = matrix.ravel().reshape(matrix.shape.clone()).unwrap();
    assert_eq!(back, matrix);

    let scalar = JArray::scalar(9);
    assert_eq!(scalar.ravel().reshape(ArrayShape::scalar()).unwrap(), scalar);

    let boxed = JArray::box_array(JArray::vector(vec![1, 2]));
    assert_eq!(boxed.ravel().reshape(boxed.shape.clone()).unwrap(), boxed);
}

#[test]
fn reshape_mismatch_is_an_invalid_reshape() {
    match run("2 3#1 2 3 4") {
        Err(InterpreterError::EvaluationError(EvaluationError::ArrayError(
            ArrayError::InvalidReshape { from_shape, to_shape },
        ))) => {
            assert_eq!(from_shape.dimensions, vec![4]);
            assert_eq!(to_shape.dimensions, vec![2, 3]);
        }
        other => panic!("expected InvalidReshape, got {:?}", other),
    }
    let matrix = run("2 3#1 2 3 4 5 6").unwrap();
    assert_eq!(matrix, JArray::matrix(vec![1, 2, 3, 4, 5, 6], 2, 3));
}

#[test]
fn indexing_selects_by_position() {
    assert_eq!(run("0 2{10 20 30 40").unwrap(), vector(vec![10, 30]));
    assert_eq!(
        run("5{10 20 30"),
        Err(InterpreterError::EvaluationError(EvaluationError::ArrayError(
            ArrayError::IndexOutOfBounds
        )))
    );
    assert_eq!(run("2{10 20 30").unwrap(), JArray::scalar(30));
    assert!(run("3{10 20 30").is_err());
}

#[test]
fn concatenation_gives_a_vector() {
    assert_eq!(run("1 2,3 4").unwrap(), vector(vec![1, 2, 3, 4]));
    assert_eq!(run("1,2").unwrap(), vector(vec![1, 2]));
    assert_eq!(run("1,2 3").unwrap(), vector(vec![1, 2, 3]));
    assert_eq!(run("(2 2#1 2 3 4),5").unwrap(), vector(vec![1, 2, 3, 4, 5]));
}

#[test]
fn unboxing_a_box_gives_the_array_back() {
    let arrays = vec![
        JArray::scalar(1),
        JArray::vector(vec![1, 2, 3]),
        JArray::matrix(vec![1, 2, 3, 4], 2, 2),
        JArray::box_array(JArray::scalar(5)),
    ];
    for array in arrays {
        let boxed = JArray::box_array(array.clone());
        assert_eq!(boxed.unbox(), Some(&array));
    }
    assert_eq!(JArray::scalar(1).unbox(), None);
    assert_eq!(JArray::vector(vec![1]).unbox(), None);
    assert!(!JArray::vector(vec![1]).is_boxed());
}

#[test]
fn prefix_verbs_are_applied_before_plus() {
    assert_eq!(run("~3+~3").unwrap(), vector(vec![0, 2, 4]));
    assert_eq!(run("#~4").is_err(), true);
    assert_eq!(run("#(~4)").unwrap(), JArray::scalar(4));
    assert_eq!(run("~3+#9 9 9 9").unwrap(), vector(vec![4, 5, 6]));
}

#[test]
fn malformed_input_names_the_character() {
    assert_eq!(
        run("1 2 & 3"),
        Err(InterpreterError::TokenError(TokenError::UnknownCharacter('&')))
    );
}

#[test]
fn each_stage_reports_its_own_error() {
    assert!(matches!(
        run("99999999999999999999"),
        Err(InterpreterError::TokenError(TokenError::InvalidNumber(_)))
    ));
    assert_eq!(run("1+"), Err(InterpreterError::ParseError(ParseError::UnexpectedEndOfInput)));
    assert!(matches!(
        run("{1 2"),
        Err(InterpreterError::SemanticError(SemanticError::InvalidVerbUsage('{', _)))
    ));
    assert!(matches!(
        run("1~2"),
        Err(InterpreterError::SemanticError(SemanticError::InvalidVerbUsage('~', _)))
    ));
    assert!(matches!(
        run("~1 2"),
        Err(InterpreterError::EvaluationError(EvaluationError::DomainError(_)))
    ));
}

#[test]
fn less_than_and_box_from_text() {
    assert_eq!(run("3<5").unwrap(), JArray::scalar(1));
    assert_eq!(run("5<3").unwrap(), JArray::scalar(0));
    assert_eq!(run("1 5 3<3 3 3").unwrap(), vector(vec![1, 0, 0]));
    let boxed = run("<1 2 3").unwrap();
    assert_eq!(boxed, JArray::box_array(vector(vec![1, 2, 3])));
    assert_eq!(run(",(2 2#1 2 3 4)").unwrap(), vector(vec![1, 2, 3, 4]));
}

#[test]
fn debug_run_gives_the_tree_as_parsed() {
    let (value, tree) = JInterpreter::new().execute_with_debug("~3").unwrap();
    assert_eq!(value, vector(vec![0, 1, 2]));
    assert_eq!(tree, "Parse Tree:\nAmbiguousVerb: '~'\nRight:\n  Literal: 3");
    assert!(JInterpreter::new().execute_with_debug("1+").is_err());
}

#[test]
fn arrays_are_written_by_rank() {
    assert_eq!(JArray::scalar(0).to_string(), "0");
    assert_eq!(JArray::scalar(-5).to_string(), "-5");
    assert_eq!(JArray::scalar(-2147483648).to_string(), "-2147483648");
    assert_eq!(JArray::scalar(2147483647).to_string(), "2147483647");
    assert_eq!(vector(vec![]).to_string(), "");
    assert_eq!(vector(vec![10, 0, 7]).to_string(), "10 0 7");
    assert_eq!(JArray::matrix(vec![1, 2, 3, 4], 2, 2).to_string(), "1 2\n3 4");
    assert_eq!(
        JArray::matrix(vec![1, 20, 300, 4, -5, 6], 2, 3).to_string(),
        "  1  20 300\n  4  -5   6"
    );
    let cube = JArray::shaped(vec![2, 1, 2], vec![1, 2, 3, 4]).unwrap();
    assert_eq!(cube.to_string(), "1 2 3 4");
    assert_eq!(JArray::shaped(vec![2, 0], vec![]).unwrap().to_string(), "\n");
}

#[test]
fn values_are_written_by_kind() {
    assert_eq!(JValue::Integer(12).to_string(), "12");
    assert_eq!(JValue::Character('x').to_string(), "x");
    let boxed = JValue::Box(Box::new(vector(vec![1, 2])));
    assert_eq!(boxed.to_string(), "<1 2>");
    assert_eq!(boxed.kind_name(), "box");
    assert_eq!(boxed.to_integer(), None);
    assert_eq!(JArray::box_array(JArray::scalar(3)).to_string(), "<3>");
    let letters = JArray {
        data: vec![JValue::Character('a'), JValue::Character('b')],
        shape: ArrayShape::vector(2),
    };
    assert_eq!(letters.to_string(), "a b");
    assert_eq!(letters.get_data(), Vec::<i32>::new());
}

#[test]
fn elements_are_found_by_their_indices() {
    let mut matrix = JArray::matrix(vec![1, 2, 3, 4, 5, 6], 2, 3);
    assert_eq!(matrix.get_at_index(&[0, 0]), Some(&JValue::Integer(1)));
    assert_eq!(matrix.get_at_index(&[1, 2]), Some(&JValue::Integer(6)));
    assert_eq!(matrix.get_at_index(&[1, 0]), Some(&JValue::Integer(4)));
    assert_eq!(matrix.calculate_flat_index(&[1, 1]), Some(4));
    assert_eq!(matrix.get_at_index(&[2, 0]), None);
    assert_eq!(matrix.get_at_index(&[0, 3]), None);
    assert_eq!(matrix.get_at_index(&[0]), None);
    assert_eq!(JArray::scalar(8).get_at_index(&[]), Some(&JValue::Integer(8)));

    assert_eq!(matrix.set_at_index(&[0, 1], JValue::Integer(20)), Ok(()));
    assert_eq!(matrix.get_data(), vec![1, 20, 3, 4, 5, 6]);
    assert_eq!(
        matrix.set_at_index(&[5, 5], JValue::Integer(0)),
        Err(ArrayError::IndexOutOfBounds)
    );
    assert_eq!(matrix.get_data(), vec![1, 20, 3, 4, 5, 6]);
}

#[test]
fn shapes_count_their_elements() {
    assert_eq!(ArrayShape::matrix(3, 0).total_elements(), 0);
    assert_eq!(ArrayShape { dimensions: vec![2, 3, 4] }.total_elements(), 24);
    assert_eq!(ArrayShape { dimensions: vec![usize::MAX, 2] }.checked_total_elements(), None);
    assert_eq!(ArrayShape { dimensions: vec![usize::MAX, 2, 0] }.checked_total_elements(), Some(0));
    assert!(ArrayShape::matrix(2, 3).is_compatible_with(&ArrayShape::vector(6)));
    assert!(!ArrayShape::matrix(2, 3).is_compatible_with(&ArrayShape::vector(5)));
    assert!(ArrayShape::scalar().is_compatible_with(&ArrayShape::vector(1)));
    assert!(ArrayShape::matrix(2, 3).same_as(&ArrayShape::matrix(2, 3)));
    assert!(!ArrayShape::matrix(2, 3).same_as(&ArrayShape::matrix(3, 2)));
    assert_eq!(ArrayShape::matrix(2, 3).to_string(), "ArrayShape { dimensions: [2, 3] }");
    assert_eq!(ArrayShape::scalar().to_string(), "ArrayShape { dimensions: [] }");
}

#[test]
fn legacy_constructors_cut_to_thirty_two_bits() {
    assert_eq!(JArray::new_scalar(4294967296 + 7), JArray::scalar(7));
    assert_eq!(JArray::new_scalar(-1), JArray::scalar(-1));
    assert_eq!(JArray::new_integer(0, vec![], vec![5, 6]), JArray::scalar(5));
    assert_eq!(
        JArray::new_integer(2, vec![1, 2], vec![5, 6]),
        JArray::matrix(vec![5, 6], 1, 2)
    );
    assert_eq!(JArray::new_integer(3, vec![1, 1, 2], vec![5, 6]), vector(vec![5, 6]));
    assert_eq!(JArray::from_vec(vec![1, 2]), vector(vec![1, 2]));
    assert_ne!(JType::Integer, JType::Box);
}

#[test]
fn errors_are_written_for_readers() {
    assert_eq!(TokenError::UnknownCharacter('&').to_string(), "Unknown character: &");
    assert_eq!(TokenError::InvalidNumber("12x".to_string()).to_string(), "Invalid number: 12x");
    assert_eq!(TokenError::InvalidVector("1 2".to_string()).to_string(), "Invalid vector: 1 2");
    assert_eq!(
        ParseError::UnexpectedToken(")".to_string(), 12).to_string(),
        "Unexpected token ')' at position 12"
    );
    assert_eq!(ParseError::UnexpectedEndOfInput.to_string(), "Unexpected end of input");
    assert_eq!(
        ParseError::InvalidExpression("Empty expression".to_string()).to_string(),
        "Invalid expression: Empty expression"
    );
    assert_eq!(
        SemanticError::InvalidVerbUsage('{', "no".to_string()).to_string(),
        "Invalid usage of verb '{': no"
    );
    assert_eq!(
        SemanticError::AmbiguousVerbContext('+', "why".to_string()).to_string(),
        "Ambiguous context for verb '+': why"
    );
    assert_eq!(
        SemanticError::UnresolvedAmbiguity("left".to_string()).to_string(),
        "Unresolved ambiguity: left"
    );
    assert_eq!(
        SemanticError::ArrayError(ArrayError::EmptyArray).to_string(),
        "Array error: Operation on empty array"
    );
    assert_eq!(
        EvaluationError::UnsupportedVerb('~', "Dyadic form not implemented".to_string()).to_string(),
        "Unsupported verb '~': Dyadic form not implemented"
    );
    assert_eq!(EvaluationError::DomainError("bad".to_string()).to_string(), "Domain error: bad");
    assert_eq!(EvaluationError::RankError("bad".to_string()).to_string(), "Rank error: bad");
    assert_eq!(
        EvaluationError::DimensionMismatch("bad".to_string()).to_string(),
        "Dimension mismatch: bad"
    );
    assert_eq!(ArrayError::IndexOutOfBounds.to_string(), "Index out of bounds");
    assert_eq!(ArrayError::DivisionByZero.to_string(), "Division by zero");
    assert_eq!(ArrayError::InvalidDimension(7).to_string(), "Invalid dimension: 7");
    assert_eq!(
        ArrayError::TypeMismatch { expected: "integer".to_string(), actual: "box".to_string() }
            .to_string(),
        "Type mismatch: expected integer, got box"
    );
    assert_eq!(
        ArrayError::ShapeMismatch {
            expected: ArrayShape::vector(2),
            actual: ArrayShape::scalar()
        }
        .to_string(),
        "Shape mismatch: expected ArrayShape { dimensions: [2] }, got ArrayShape { dimensions: [] }"
    );
    assert_eq!(
        EvaluationError::ArrayError(ArrayError::InvalidReshape {
            from_shape: ArrayShape::vector(4),
            to_shape: ArrayShape::matrix(2, 3)
        })
        .to_string(),
        "Array error: Cannot reshape from ArrayShape { dimensions: [4] } to ArrayShape { dimensions: [2, 3] }"
    );
}

#[test]
fn outcomes_are_formatted_for_display() {
    assert_eq!(format_result(run("1 2 3+4 5 6")), "5 7 9");
    assert_eq!(format_result(run("2 2#1 2 3 4")), "1 2\n3 4");
    assert_eq!(format_result(run("1 2 & 3")), "Error: Token error: Unknown character: &");
    assert_eq!(format_result(run("1+")), "Error: Parse error: Unexpected end of input");
    assert_eq!(
        format_result(run("5{10 20 30")),
        "Error: Evaluation error: Array error: Index out of bounds"
    );
    assert_eq!(
        format_result(run("~1 2")),
        "Error: Evaluation error: Domain error: iota requires a scalar argument"
    );
}

#[test]
fn the_front_end_answers_in_text() {
    assert_eq!(execute("1 2 3 + 4 5 6"), Ok("5 7 9".to_string()));
    assert_eq!(execute("~5"), Ok("0 1 2 3 4".to_string()));
    assert_eq!(execute("help"), Ok(get_help_text()));
    assert_eq!(execute("  help \n"), Ok(get_help_text()));
    assert!(get_help_text().contains("Iota"));
    assert!(matches!(execute("helper"), Err(JError::ParseError(_))));
    assert!(matches!(execute("1+"), Err(JError::ParseError(_))));
    assert!(matches!(execute("{1"), Err(JError::ParseError(_))));
    assert!(matches!(execute("1 2 3+1 2"), Err(JError::InvalidArgument(_))));
    assert_eq!(
        execute("9{1 2").unwrap_err().to_string(),
        "Invalid argument: Array error: Index out of bounds"
    );
    assert_eq!(
        JError::ExecutionError("stopped".to_string()).to_string(),
        "Execution error: stopped"
    );
}

#[test]
fn errors_convert_to_the_interpreter_error() {
    let token: InterpreterError = TokenError::UnknownCharacter('&').into();
    assert_eq!(token, InterpreterError::TokenError(TokenError::UnknownCharacter('&')));
    let parse: InterpreterError = ParseError::UnexpectedEndOfInput.into();
    assert_eq!(parse, InterpreterError::ParseError(ParseError::UnexpectedEndOfInput));
    let evaluation: EvaluationError = ArrayError::IndexOutOfBounds.into();
    assert_eq!(evaluation, EvaluationError::ArrayError(ArrayError::IndexOutOfBounds));
    let semantic: SemanticError = ArrayError::EmptyArray.into();
    assert_eq!(semantic, SemanticError::ArrayError(ArrayError::EmptyArray));
    let whole: InterpreterError = evaluation.clone().into();
    assert_eq!(whole, InterpreterError::EvaluationError(evaluation));
    let resolved: InterpreterError = semantic.clone().into();
    assert_eq!(resolved, InterpreterError::SemanticError(semantic));
}
