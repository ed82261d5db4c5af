use tpl_lang::gen_error::ErrorType;
use tpl_lang::type_shape::{basic_type_of, function_type_of, ReturnShape, ShapeError, TypeShape};

#[test]
fn base_type_shapes() {
    assert_eq!(basic_type_of("int8"), Ok(TypeShape::Int8));
    assert_eq!(basic_type_of("int16"), Ok(TypeShape::Int16));
    assert_eq!(basic_type_of("int32"), Ok(TypeShape::Int32));
    assert_eq!(basic_type_of("int64"), Ok(TypeShape::Int64));
    assert_eq!(basic_type_of("bool"), Ok(TypeShape::Bool));
    assert_eq!(basic_type_of("str"), Ok(TypeShape::Pointer));
    assert_eq!(basic_type_of("auto"), Ok(TypeShape::Int8));
    assert_eq!(basic_type_of("void"), Ok(TypeShape::Pointer));
}

#[test]
fn composite_type_shapes() {
    assert_eq!(basic_type_of("int32*"), Ok(TypeShape::Int32));
    assert_eq!(basic_type_of("fn<int64>"), Ok(TypeShape::Int64));
    assert_eq!(
        basic_type_of("int8[3]"),
        Ok(TypeShape::Vector { element: Box::new(TypeShape::Int8), len: 3 })
    );
    assert_eq!(
        basic_type_of("str*[2][5]"),
        Ok(TypeShape::Vector { element: Box::new(TypeShape::Pointer), len: 2 })
    );
    assert_eq!(
        basic_type_of("fn<bool[+4]>"),
        Ok(TypeShape::Vector { element: Box::new(TypeShape::Bool), len: 4 })
    );
}

#[test]
fn type_shape_errors() {
    assert_eq!(basic_type_of("int8[x]"), Err(ShapeError::ArrayLength));
    assert_eq!(basic_type_of("int8[ 3]"), Err(ShapeError::ArrayLength));
    assert_eq!(basic_type_of("float"), Err(ShapeError::Unsupported("float".to_string())));
    assert_eq!(basic_type_of("float[2]"), Err(ShapeError::Unsupported("float".to_string())));
    assert_eq!(basic_type_of(""), Err(ShapeError::Unsupported(String::new())));
    let e = basic_type_of("char").unwrap_err();
    assert!(matches!(e.error_type(), ErrorType::NotSupported));
    assert_eq!(e.description(), "Unsupported `char` datatype!");
    let e = ShapeError::ArrayLength;
    assert!(matches!(e.error_type(), ErrorType::BuildError));
    assert_eq!(e.description(), "Unable to compile array's length!");
}

#[test]
fn function_return_types() {
    assert_eq!(function_type_of("int8"), Ok(ReturnShape::Int8));
    assert_eq!(function_type_of("int16"), Ok(ReturnShape::Int16));
    assert_eq!(function_type_of("int32"), Ok(ReturnShape::Int32));
    assert_eq!(function_type_of("int64"), Ok(ReturnShape::Int64));
    assert_eq!(function_type_of("bool"), Ok(ReturnShape::Bool));
    assert_eq!(function_type_of("void"), Ok(ReturnShape::Void));
    assert_eq!(function_type_of("str"), Ok(ReturnShape::Pointer));
    assert_eq!(
        function_type_of("auto"),
        Err("Unsupported `auto` function type found!".to_string())
    );
}
