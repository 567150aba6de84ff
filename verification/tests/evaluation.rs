use j_interp::array::ArrayError;
use j_interp::array::JArray;
use j_interp::evaluator::EvaluationError;
use j_interp::evaluator::JEvaluator;
use j_interp::node::JNode;
use j_interp::semantic_analyzer::JSemanticAnalyzer;
use j_interp::semantic_analyzer::SemanticError;

fn literal(values: Vec<i32>) -> JNode {
    JNode::Literal(JArray::vector(values))
}

fn number(value: i32) -> JNode {
    JNode::Literal(JArray::scalar(value))
}

fn monadic(verb: char, arg: JNode) -> JNode {
    JNode::MonadicVerb(verb, Box::new(arg))
}

fn dyadic(verb: char, left: JNode, right: JNode) -> JNode {
    JNode::DyadicVerb(verb, Box::new(left), Box::new(right))
}

#[test]
fn test_plus_operator_integration() {
    let evaluator = JEvaluator::new();

    let array = JArray::vector(vec![1, 2, 3]);
    let literal_node = JNode::Literal(array.clone());
    let plus_node = JNode::MonadicVerb('+', Box::new(literal_node));

    let result = evaluator.evaluate(&plus_node).unwrap();
    assert_eq!(result.get_data(), vec![1, 2, 3]);

    let left = JNode::Literal(JArray::scalar(5));
    let right = JNode::Literal(JArray::vector(vec![1, 2, 3]));
    let plus_dyadic = JNode::DyadicVerb('+', Box::new(left), Box::new(right));

    let result = evaluator.evaluate(&plus_dyadic).unwrap();
    assert_eq!(result.get_data(), vec![6, 7, 8]);
}

#[test]
fn test_iota_operator() {
    let evaluator = JEvaluator::new();

    let five = JNode::Literal(JArray::scalar(5));
    let iota_node = JNode::MonadicVerb('~', Box::new(five));

    let result = evaluator.evaluate(&iota_node).unwrap();
    assert_eq!(result.get_data(), vec![0, 1, 2, 3, 4]);
}

#[test]
fn test_tally_operator() {
    let evaluator = JEvaluator::new();

    let vector = JNode::Literal(JArray::vector(vec![1, 2, 3, 4, 5]));
    let tally_node = JNode::MonadicVerb('#', Box::new(vector));

    let result = evaluator.evaluate(&tally_node).unwrap();
    assert_eq!(result.get_data(), vec![5]);
}

#[test]
fn test_reshape_operator() {
    let evaluator = JEvaluator::new();

    let shape = JNode::Literal(JArray::vector(vec![2, 3]));
    let data = JNode::Literal(JArray::vector(vec![1, 2, 3, 4, 5, 6]));
    let reshape_node = JNode::DyadicVerb('#', Box::new(shape), Box::new(data));

    let result = evaluator.evaluate(&reshape_node).unwrap();
    assert!(result.is_matrix());
    assert_eq!(result.shape.dimensions, vec![2, 3]);
    assert_eq!(result.get_data(), vec![1, 2, 3, 4, 5, 6]);
}

#[test]
fn test_from_operator() {
    let evaluator = JEvaluator::new();

    let indices = JNode::Literal(JArray::vector(vec![0, 2]));
    let source = JNode::Literal(JArray::vector(vec![10, 20, 30, 40]));
    let from_node = JNode::DyadicVerb('{', Box::new(indices), Box::new(source));

    let result = evaluator.evaluate(&from_node).unwrap();
    assert_eq!(result.get_data(), vec![10, 30]);
}

#[test]
fn test_concatenate_operator() {
    let evaluator = JEvaluator::new();

    let left = JNode::Literal(JArray::vector(vec![1, 2]));
    let right = JNode::Literal(JArray::vector(vec![3, 4]));
    let concat_node = JNode::DyadicVerb(',', Box::new(left), Box::new(right));

    let result = evaluator.evaluate(&concat_node).unwrap();
    assert_eq!(result.get_data(), vec![1, 2, 3, 4]);
}

#[test]
fn test_ravel_operator() {
    let evaluator = JEvaluator::new();

    let matrix = JNode::Literal(JArray::matrix(vec![1, 2, 3, 4], 2, 2));
    let ravel_node = JNode::MonadicVerb(',', Box::new(matrix));

    let result = evaluator.evaluate(&ravel_node).unwrap();
    assert!(result.is_vector());
    assert_eq!(result.get_data(), vec![1, 2, 3, 4]);
}

#[test]
fn test_box_operator() {
    let evaluator = JEvaluator::new();

    let array = JNode::Literal(JArray::vector(vec![1, 2, 3]));
    let box_node = JNode::MonadicVerb('<', Box::new(array));

    let result = evaluator.evaluate(&box_node).unwrap();
    assert!(result.is_boxed());
    assert!(result.is_scalar());
}

#[test]
fn test_less_than_operator() {
    let evaluator = JEvaluator::new();

    let left = JNode::Literal(JArray::scalar(3));
    let right = JNode::Literal(JArray::scalar(5));
    let lt_node = JNode::DyadicVerb('<', Box::new(left), Box::new(right));

    let result = evaluator.evaluate(&lt_node).unwrap();
    assert_eq!(result.get_data(), vec![1]);

    let left2 = JNode::Literal(JArray::scalar(5));
    let right2 = JNode::Literal(JArray::scalar(3));
    let lt_node2 = JNode::DyadicVerb('<', Box::new(left2), Box::new(right2));

    let result2 = evaluator.evaluate(&lt_node2).unwrap();
    assert_eq!(result2.get_data(), vec![0]);
}

#[test]
fn test_complex_expression() {
    let evaluator = JEvaluator::new();

    let five = JNode::Literal(JArray::scalar(5));
    let iota_five = JNode::MonadicVerb('~', Box::new(five));
    let tally_iota_five = JNode::MonadicVerb('#', Box::new(iota_five));

    let result = evaluator.evaluate(&tally_iota_five).unwrap();
    assert_eq!(result.get_data(), vec![5]);
}

#[test]
fn test_precedence_with_new_operators() {
    let evaluator = JEvaluator::new();

    let three = JNode::Literal(JArray::scalar(3));
    let iota_three = JNode::MonadicVerb('~', Box::new(three));

    let four = JNode::Literal(JArray::scalar(4));
    let iota_four = JNode::MonadicVerb('~', Box::new(four));
    let tally_iota_four = JNode::MonadicVerb('#', Box::new(iota_four));

    let plus_expr = JNode::DyadicVerb('+', Box::new(iota_three), Box::new(tally_iota_four));

    let result = evaluator.evaluate(&plus_expr).unwrap();
    assert_eq!(result.get_data(), vec![4, 5, 6]);
}

#[test]
fn test_plus() {
    let evaluator = JEvaluator::new();
    let sum = dyadic('+', literal(vec![1, 2, 3]), literal(vec![4, 5, 6]));
    let result = evaluator.evaluate(&sum).unwrap();
    assert_eq!(result.get_data(), vec![5, 7, 9]);
}

#[test]
fn test_iota() {
    let evaluator = JEvaluator::new();
    let result = evaluator.evaluate(&monadic('~', number(5))).unwrap();
    assert_eq!(result.get_data(), vec![0, 1, 2, 3, 4]);
}

#[test]
fn test_reshape() {
    let evaluator = JEvaluator::new();
    let tree = dyadic('#', literal(vec![2, 3]), literal(vec![1, 2, 3, 4, 5, 6]));
    let result = evaluator.evaluate(&tree).unwrap();
    assert_eq!(result.shape.dimensions, vec![2, 3]);
}

#[test]
fn iota_of_zero_is_empty_vector() {
    let evaluator = JEvaluator::new();
    let result = evaluator.evaluate(&monadic('~', number(0))).unwrap();
    assert!(result.is_vector());
    assert_eq!(result.shape.dimensions, vec![0]);
    assert!(result.is_empty());
}

#[test]
fn iota_rejects_negative_and_non_scalar() {
    let evaluator = JEvaluator::new();
    let negative = evaluator.evaluate(&monadic('~', number(-1)));
    assert!(matches!(negative, Err(EvaluationError::DomainError(_))));
    let vector = evaluator.evaluate(&monadic('~', literal(vec![1, 2])));
    assert!(matches!(vector, Err(EvaluationError::DomainError(_))));
    let boxed = evaluator.evaluate(&monadic('~', monadic('<', number(3))));
    assert!(matches!(boxed, Err(EvaluationError::DomainError(_))));
}

#[test]
fn plus_extends_scalars_and_checks_shapes() {
    let evaluator = JEvaluator::new();
    let both = evaluator.evaluate(&dyadic('+', number(2), number(3))).unwrap();
    assert!(both.is_scalar());
    assert_eq!(both.get_data(), vec![5]);

    let right_scalar = evaluator.evaluate(&dyadic('+', literal(vec![1, 2, 3]), number(10))).unwrap();
    assert!(right_scalar.is_vector());
    assert_eq!(right_scalar.get_data(), vec![11, 12, 13]);

    let mismatch = evaluator.evaluate(&dyadic('+', literal(vec![1, 2, 3]), literal(vec![1, 2])));
    assert!(matches!(mismatch, Err(EvaluationError::DimensionMismatch(_))));

    let wrapped = evaluator.evaluate(&dyadic('+', number(2147483647), number(1))).unwrap();
    assert_eq!(wrapped.get_data(), vec![-2147483648]);
}

#[test]
fn plus_of_matrices_keeps_the_shape() {
    let evaluator = JEvaluator::new();
    let left = JNode::Literal(JArray::matrix(vec![1, 2, 3, 4], 2, 2));
    let right = JNode::Literal(JArray::matrix(vec![10, 20, 30, 40], 2, 2));
    let result = evaluator.evaluate(&dyadic('+', left, right)).unwrap();
    assert_eq!(result.shape.dimensions, vec![2, 2]);
    assert_eq!(result.get_data(), vec![11, 22, 33, 44]);

    let tall = JNode::Literal(JArray::matrix(vec![1, 2, 3, 4, 5, 6], 3, 2));
    let wide = JNode::Literal(JArray::matrix(vec![1, 2, 3, 4, 5, 6], 2, 3));
    let mismatch = evaluator.evaluate(&dyadic('+', tall, wide));
    assert!(matches!(mismatch, Err(EvaluationError::DimensionMismatch(_))));
}

#[test]
fn arithmetic_rejects_boxes() {
    let evaluator = JEvaluator::new();
    let sum = evaluator.evaluate(&dyadic('+', monadic('<', number(1)), number(2)));
    assert!(matches!(sum, Err(EvaluationError::DomainError(_))));
    let less = evaluator.evaluate(&dyadic('<', number(2), monadic('<', number(1))));
    assert!(matches!(less, Err(EvaluationError::DomainError(_))));
}

#[test]
fn less_than_compares_element_by_element() {
    let evaluator = JEvaluator::new();
    let result = evaluator
        .evaluate(&dyadic('<', literal(vec![1, 5, 3]), literal(vec![3, 3, 3])))
        .unwrap();
    assert_eq!(result.get_data(), vec![1, 0, 0]);
    assert_eq!(result.shape.dimensions, vec![3]);

    let mismatch = evaluator.evaluate(&dyadic('<', literal(vec![1, 2, 3]), number(2)));
    assert!(matches!(mismatch, Err(EvaluationError::DimensionMismatch(_))));
}

#[test]
fn reshape_reports_both_shapes() {
    let evaluator = JEvaluator::new();
    let tree = dyadic('#', literal(vec![2, 3]), literal(vec![1, 2, 3, 4]));
    match evaluator.evaluate(&tree) {
        Err(EvaluationError::ArrayError(ArrayError::InvalidReshape { from_shape, to_shape })) => {
            assert_eq!(from_shape.dimensions, vec![4]);
            assert_eq!(to_shape.dimensions, vec![2, 3]);
        }
        other => panic!("expected InvalidReshape, got {:?}", other),
    }
    let boxed_shape = dyadic('#', monadic('<', number(2)), literal(vec![1, 2]));
    assert!(matches!(evaluator.evaluate(&boxed_shape), Err(EvaluationError::DomainError(_))));
}

#[test]
fn reshape_with_a_scalar_shape_gives_a_vector() {
    let evaluator = JEvaluator::new();
    let result = evaluator.evaluate(&dyadic('#', number(3), literal(vec![7, 8, 9]))).unwrap();
    assert_eq!(result.shape.dimensions, vec![3]);
    assert_eq!(result.get_data(), vec![7, 8, 9]);
}

#[test]
fn from_reports_bad_indices() {
    let evaluator = JEvaluator::new();
    let outside = evaluator.evaluate(&dyadic('{', number(5), literal(vec![10, 20, 30])));
    assert!(matches!(
        outside,
        Err(EvaluationError::ArrayError(ArrayError::IndexOutOfBounds))
    ));
    let negative = evaluator.evaluate(&dyadic('{', number(-1), literal(vec![10, 20, 30])));
    assert!(matches!(
        negative,
        Err(EvaluationError::ArrayError(ArrayError::IndexOutOfBounds))
    ));
    let boxed = evaluator.evaluate(&dyadic('{', monadic('<', number(0)), literal(vec![10, 20])));
    match boxed {
        Err(EvaluationError::ArrayError(ArrayError::TypeMismatch { expected, actual })) => {
            assert_eq!(expected, "integer");
            assert_eq!(actual, "box");
        }
        other => panic!("expected TypeMismatch, got {:?}", other),
    }
}

#[test]
fn from_takes_the_shape_of_the_indices() {
    let evaluator = JEvaluator::new();
    let one = evaluator.evaluate(&dyadic('{', number(1), literal(vec![10, 20, 30]))).unwrap();
    assert!(one.is_scalar());
    assert_eq!(one.get_data(), vec![20]);
}

#[test]
fn unknown_verbs_are_unsupported() {
    let evaluator = JEvaluator::new();
    let one = evaluator.evaluate(&monadic('{', number(1)));
    assert!(matches!(one, Err(EvaluationError::UnsupportedVerb('{', _))));
    let two = evaluator.evaluate(&dyadic('~', number(1), number(2)));
    assert!(matches!(two, Err(EvaluationError::UnsupportedVerb('~', _))));
    let ambiguous = JNode::AmbiguousVerb('+', None, Some(Box::new(number(1))));
    assert_eq!(
        evaluator.evaluate(&ambiguous),
        Err(EvaluationError::DomainError(
            "Internal error: AmbiguousVerb node should have been resolved before evaluation"
                .to_string()
        ))
    );
}

#[test]
fn tally_of_scalar_and_matrix() {
    let evaluator = JEvaluator::new();
    let scalar = evaluator.evaluate(&monadic('#', number(42))).unwrap();
    assert_eq!(scalar.get_data(), vec![1]);
    let matrix = JNode::Literal(JArray::matrix(vec![1, 2, 3, 4, 5, 6], 2, 3));
    let rows = evaluator.evaluate(&monadic('#', matrix)).unwrap();
    assert_eq!(rows.get_data(), vec![2]);
}

#[test]
fn resolution_decides_arity() {
    let analyzer = JSemanticAnalyzer::new();
    let prefix = JNode::AmbiguousVerb('~', None, Some(Box::new(number(3))));
    assert_eq!(analyzer.analyze(prefix).unwrap(), monadic('~', number(3)));

    let infix = JNode::AmbiguousVerb('+', Some(Box::new(number(1))), Some(Box::new(number(2))));
    assert_eq!(analyzer.analyze(infix).unwrap(), dyadic('+', number(1), number(2)));

    assert_eq!(analyzer.analyze(number(7)).unwrap(), number(7));
}

#[test]
fn resolution_rejects_illegal_usage() {
    let analyzer = JSemanticAnalyzer::new();
    let catalog = JNode::AmbiguousVerb('{', None, Some(Box::new(number(3))));
    assert!(matches!(analyzer.analyze(catalog), Err(SemanticError::InvalidVerbUsage('{', _))));

    let find = JNode::AmbiguousVerb('~', Some(Box::new(number(1))), Some(Box::new(number(2))));
    assert!(matches!(analyzer.analyze(find), Err(SemanticError::InvalidVerbUsage('~', _))));

    let left_only = JNode::AmbiguousVerb('+', Some(Box::new(number(1))), None);
    assert!(matches!(analyzer.analyze(left_only), Err(SemanticError::InvalidVerbUsage('+', _))));

    let none = JNode::AmbiguousVerb('+', None, None);
    assert!(matches!(analyzer.analyze(none), Err(SemanticError::InvalidVerbUsage('+', _))));

    let unknown = JNode::AmbiguousVerb('-', None, Some(Box::new(number(1))));
    assert!(matches!(analyzer.analyze(unknown), Err(SemanticError::InvalidVerbUsage('-', _))));
}

#[test]
fn resolution_reports_the_innermost_failure_first() {
    let analyzer = JSemanticAnalyzer::new();
    let inner = JNode::AmbiguousVerb('{', None, Some(Box::new(number(1))));
    let outer = JNode::AmbiguousVerb('~', Some(Box::new(number(2))), Some(Box::new(inner)));
    assert!(matches!(analyzer.analyze(outer), Err(SemanticError::InvalidVerbUsage('{', _))));
    assert!(analyzer.validate_monadic_verb('<').is_ok());
    assert!(analyzer.validate_dyadic_verb('{').is_ok());
    assert!(analyzer.validate_monadic_verb('{').is_err());
    assert!(analyzer.validate_dyadic_verb('~').is_err());
}
