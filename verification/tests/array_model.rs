use j_interp::array::ArrayError;
use j_interp::array::JArray;
use j_interp::array::JValue;
use j_interp::shape::ArrayShape;

#[test]
fn test_array_shape_creation() {
    let scalar_shape = ArrayShape::scalar();
    assert_eq!(scalar_shape.rank(), 0);
    assert_eq!(scalar_shape.total_elements(), 1);

    let vector_shape = ArrayShape::vector(5);
    assert_eq!(vector_shape.rank(), 1);
    assert_eq!(vector_shape.total_elements(), 5);

    let matrix_shape = ArrayShape::matrix(2, 3);
    assert_eq!(matrix_shape.rank(), 2);
    assert_eq!(matrix_shape.total_elements(), 6);
}

#[test]
fn test_array_creation() {
    let scalar = JArray::scalar(42);
    assert!(scalar.is_scalar());
    assert_eq!(scalar.data[0], JValue::Integer(42));

    let vector = JArray::vector(vec![1, 2, 3, 4]);
    assert!(vector.is_vector());
    assert_eq!(vector.shape.dimensions, vec![4]);

    let matrix = JArray::matrix(vec![1, 2, 3, 4, 5, 6], 2, 3);
    assert!(matrix.is_matrix());
    assert_eq!(matrix.shape.dimensions, vec![2, 3]);
}

#[test]
fn test_jvalue_types() {
    let int_val = JValue::Integer(42);
    assert_eq!(int_val.kind_name(), "integer");
    assert!(int_val.is_numeric());
    assert_eq!(int_val.to_integer(), Some(42));

    let char_val = JValue::Character('A');
    assert_eq!(char_val.kind_name(), "character");
    assert!(!char_val.is_numeric());
}

#[test]
fn test_boxing() {
    let array = JArray::vector(vec![1, 2, 3]);
    let boxed = JArray::box_array(array.clone());

    assert!(boxed.is_boxed());
    assert!(boxed.is_scalar());
    assert_eq!(boxed.unbox().unwrap(), &array);
}

#[test]
fn test_reshape_errors() {
    let array = JArray::vector(vec![1, 2, 3, 4]);
    let invalid_shape = ArrayShape::vector(5);

    let result = array.reshape(invalid_shape);
    assert!(result.is_err());

    if let Err(ArrayError::InvalidReshape { from_shape, to_shape }) = result {
        assert_eq!(from_shape.total_elements(), 4);
        assert_eq!(to_shape.total_elements(), 5);
    } else {
        panic!("Expected InvalidReshape error");
    }
}

#[test]
fn test_index_bounds_errors() {
    let array = JArray::vector(vec![1, 2, 3]);
    let bad_indices = JArray::vector(vec![0, 5]);

    let result = array.select_from(&bad_indices);
    assert!(result.is_err());
}

#[test]
fn test_reshape_operation() {
    let vector = JArray::vector(vec![1, 2, 3, 4, 5, 6]);
    let matrix_shape = ArrayShape::matrix(2, 3);

    let matrix = vector.reshape(matrix_shape).unwrap();
    assert!(matrix.is_matrix());
    assert_eq!(matrix.shape.dimensions, vec![2, 3]);
    assert_eq!(matrix.get_data(), vec![1, 2, 3, 4, 5, 6]);
}

#[test]
fn test_tally_operation() {
    let scalar = JArray::scalar(42);
    assert_eq!(scalar.tally(), 1);

    let vector = JArray::vector(vec![1, 2, 3, 4, 5]);
    assert_eq!(vector.tally(), 5);

    let matrix = JArray::matrix(vec![1, 2, 3, 4, 5, 6], 2, 3);
    assert_eq!(matrix.tally(), 2);
}

#[test]
fn test_indexing_operation() {
    let source = JArray::vector(vec![10, 20, 30, 40, 50]);
    let indices = JArray::vector(vec![0, 2, 4]);

    let result = source.select_from(&indices).unwrap();
    assert_eq!(result.get_data(), vec![10, 30, 50]);
}

#[test]
fn test_concatenation() {
    let left = JArray::vector(vec![1, 2, 3]);
    let right = JArray::vector(vec![4, 5, 6]);

    let result = left.concatenate(&right).unwrap();
    assert_eq!(result.get_data(), vec![1, 2, 3, 4, 5, 6]);

    let scalar1 = JArray::scalar(1);
    let scalar2 = JArray::scalar(2);
    let scalar_result = scalar1.concatenate(&scalar2).unwrap();
    assert_eq!(scalar_result.get_data(), vec![1, 2]);
}

#[test]
fn test_ravel_operation() {
    let matrix = JArray::matrix(vec![1, 2, 3, 4, 5, 6], 2, 3);
    let raveled = matrix.ravel();

    assert!(raveled.is_vector());
    assert_eq!(raveled.get_data(), vec![1, 2, 3, 4, 5, 6]);
}

#[test]
fn test_display_formatting() {
    let scalar = JArray::scalar(42);
    assert_eq!(scalar.to_string(), "42");

    let vector = JArray::vector(vec![1, 2, 3]);
    assert_eq!(vector.to_string(), "1 2 3");

    let matrix = JArray::matrix(vec![1, 2, 3, 4], 2, 2);
    let matrix_display = matrix.to_string();
    assert!(matrix_display.contains("1 2"));
    assert!(matrix_display.contains("3 4"));
}

#[test]
fn test_backward_compatibility() {
    let legacy_array = JArray::new(vec![1, 2, 3, 4]);
    assert_eq!(legacy_array.get_data(), vec![1, 2, 3, 4]);

    let legacy_scalar = JArray::new_scalar(42);
    assert_eq!(legacy_scalar.get_data(), vec![42]);

    let legacy_integer = JArray::new_integer(1, vec![3], vec![1, 2, 3]);
    assert_eq!(legacy_integer.get_data(), vec![1, 2, 3]);
}
