use ignis::data_type::DataType;
use ignis::token::TokenType;

#[test]
fn from_token_type_maps_type_names() {
    assert!(matches!(DataType::from_token_type(TokenType::StringType), DataType::String));
    assert!(matches!(DataType::from_token_type(TokenType::FloatType), DataType::Float));
    assert!(matches!(DataType::from_token_type(TokenType::CharType), DataType::Char));
    assert!(matches!(DataType::from_token_type(TokenType::BooleanType), DataType::Boolean));
    assert!(matches!(DataType::from_token_type(TokenType::IntType), DataType::Int));
    assert!(matches!(DataType::from_token_type(TokenType::Void), DataType::Void));
    assert!(matches!(DataType::from_token_type(TokenType::Null), DataType::Null));
}

#[test]
fn from_token_type_other_tokens_are_none() {
    assert!(matches!(DataType::from_token_type(TokenType::Identifier), DataType::NoneType));
    assert!(matches!(DataType::from_token_type(TokenType::Plus), DataType::NoneType));
    assert!(matches!(DataType::from_token_type(TokenType::Int), DataType::NoneType));
}

#[test]
fn to_string_primitives() {
    assert_eq!(DataType::String.to_string(), "String");
    assert_eq!(DataType::Int.to_string(), "Int");
    assert_eq!(DataType::Float.to_string(), "Float");
    assert_eq!(DataType::Boolean.to_string(), "Boolean");
    assert_eq!(DataType::Char.to_string(), "Char");
    assert_eq!(DataType::Pending.to_string(), "Pending");
    assert_eq!(DataType::Void.to_string(), "Void");
    assert_eq!(DataType::Null.to_string(), "Null");
}

#[test]
fn to_string_none_reads_null() {
    assert_eq!(DataType::NoneType.to_string(), "Null");
}

#[test]
fn to_string_named_types() {
    assert_eq!(DataType::Variable("T".to_string()).to_string(), "T");
    assert_eq!(DataType::ClassType("Point".to_string()).to_string(), "Point");
    assert_eq!(DataType::AliasType("Id".to_string()).to_string(), "Id");
}

#[test]
fn to_string_compound_types() {
    let generic = DataType::GenericType {
        base: Box::new(DataType::ClassType("Map".to_string())),
        parameters: vec![DataType::String, DataType::Int],
    };
    assert_eq!(generic.to_string(), "Map<String, Int>");
    assert_eq!(DataType::UnionType(vec![DataType::Int, DataType::String]).to_string(), "Union<Int | String>");
    assert_eq!(
        DataType::IntersectionType(vec![DataType::Int, DataType::Boolean]).to_string(),
        "Intersection<Int & Boolean>"
    );
    assert_eq!(DataType::TupleType(vec![DataType::Int, DataType::Char]).to_string(), "Tuple<Int, Char>");
    assert_eq!(DataType::Array(Box::new(DataType::Int)).to_string(), "Array<Int>");
    let callable = DataType::Callable(vec![DataType::Int, DataType::String], Box::new(DataType::Void));
    assert_eq!(callable.to_string(), "(Int, String) -> Void");
}

#[test]
fn to_string_empty_and_nested() {
    assert_eq!(DataType::UnionType(vec![]).to_string(), "Union<>");
    assert_eq!(DataType::Callable(vec![], Box::new(DataType::Int)).to_string(), "() -> Int");
    let nested = DataType::Array(Box::new(DataType::TupleType(vec![
        DataType::Array(Box::new(DataType::Float)),
        DataType::UnionType(vec![DataType::Null]),
    ])));
    assert_eq!(nested.to_string(), "Array<Tuple<Array<Float>, Union<Null>>>");
}
