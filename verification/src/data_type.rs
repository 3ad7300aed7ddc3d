use vstd::prelude::*;

use crate::token::TokenType;

verus! {

/// The static types of the Ignis language.
#[derive(Debug)]
pub enum DataType {
    String,
    Int,
    Float,
    Boolean,
    Char,
    Null,
    NoneType,
    Pending,
    Void,
    Variable(String),
    Array(Box<DataType>),
    Callable(Vec<DataType>, Box<DataType>),
    ClassType(String),
    GenericType { base: Box<DataType>, parameters: Vec<DataType> },
    UnionType(Vec<DataType>),
    IntersectionType(Vec<DataType>),
    TupleType(Vec<DataType>),
    AliasType(String),
}

/// The type that a type-name token denotes; every other token denotes `None`.
pub open spec fn type_of_token(kind: TokenType) -> DataType {
    match kind {
        TokenType::StringType => DataType::String,
        TokenType::FloatType => DataType::Float,
        TokenType::CharType => DataType::Char,
        TokenType::BooleanType => DataType::Boolean,
        TokenType::IntType => DataType::Int,
        TokenType::Void => DataType::Void,
        TokenType::Null => DataType::Null,
        _ => DataType::NoneType,
    }
}

/// How a type is written in diagnostics.
pub open spec fn type_text(t: DataType) -> Seq<char>
    decreases t, 0nat,
{
    match t {
        DataType::String => "String"@,
        DataType::Int => "Int"@,
        DataType::Float => "Float"@,
        DataType::Boolean => "Boolean"@,
        DataType::Char => "Char"@,
        DataType::NoneType => "Null"@,
        DataType::Pending => "Pending"@,
        DataType::Variable(name) => name@,
        DataType::ClassType(name) => name@,
        DataType::GenericType { base, parameters } => type_text(*base) + "<"@ + types_text(
            parameters@,
            ", "@,
        ) + ">"@,
        DataType::UnionType(types) => "Union<"@ + types_text(types@, " | "@) + ">"@,
        DataType::Array(inner) => "Array<"@ + type_text(*inner) + ">"@,
        DataType::IntersectionType(types) => "Intersection<"@ + types_text(types@, " & "@) + ">"@,
        DataType::TupleType(types) => "Tuple<"@ + types_text(types@, ", "@) + ">"@,
        DataType::AliasType(alias) => alias@,
        DataType::Null => "Null"@,
        DataType::Void => "Void"@,
        DataType::Callable(params, ret) => "("@ + types_text(params@, ", "@) + ") -> "@ + type_text(
            *ret,
        ),
    }
}

/// The texts of `ts`, in order, with `sep` between each two.
pub open spec fn types_text(ts: Seq<DataType>, sep: Seq<char>) -> Seq<char>
    decreases ts, 1nat,
{
    if ts.len() == 0 {
        Seq::empty()
    } else if ts.len() == 1 {
        type_text(ts[0])
    } else {
        types_text(ts.drop_last(), sep) + sep + type_text(ts.last())
    }
}

/// Joining two nonempty lists of types gives their joined texts with one
/// separator between them: the separator stands between every two
/// neighbouring types.
pub proof fn law_types_text_concat(a: Seq<DataType>, b: Seq<DataType>, sep: Seq<char>)
    requires
        a.len() > 0,
        b.len() > 0,
    ensures
        types_text(a + b, sep) == types_text(a, sep) + sep + types_text(b, sep),
    decreases b.len(),
{
    if b.len() == 1 {
        assert((a + b).drop_last() =~= a);
        assert((a + b).last() == b[0]);
    } else {
        let b1 = b.drop_last();
        law_types_text_concat(a, b1, sep);
        assert((a + b).drop_last() =~= a + b1);
        assert((a + b).last() == b.last());
    }
}

/// One type alone is written as itself, with no separator.
pub proof fn law_types_text_single(t: DataType, sep: Seq<char>)
    ensures
        types_text(seq![t], sep) == type_text(t),
{
}

impl DataType {
    /// The text of this type, as diagnostics write it.
    pub fn to_string(&self) -> (res: String)
        ensures
            res@ == type_text(*self),
        decreases self, 0nat,
    {
        match self {
            DataType::String => String::from_str("String"),
            DataType::Int => String::from_str("Int"),
            DataType::Float => String::from_str("Float"),
            DataType::Boolean => String::from_str("Boolean"),
            DataType::Char => String::from_str("Char"),
            DataType::NoneType => String::from_str("Null"),
            DataType::Pending => String::from_str("Pending"),
            DataType::Variable(name) => name.clone(),
            DataType::ClassType(name) => name.clone(),
            DataType::GenericType { base, parameters } => {
                let mut text = base.to_string();
                text.append("<");
                let params = Self::join_types(parameters, ", ");
                text.append(params.as_str());
                text.append(">");
                text
            },
            DataType::UnionType(types) => {
                let mut text = String::from_str("Union<");
                let inner = Self::join_types(types, " | ");
                text.append(inner.as_str());
                text.append(">");
                text
            },
            DataType::Array(inner) => {
                let mut text = String::from_str("Array<");
                let inner_text = inner.to_string();
                text.append(inner_text.as_str());
                text.append(">");
                text
            },
            DataType::IntersectionType(types) => {
                let mut text = String::from_str("Intersection<");
                let inner = Self::join_types(types, " & ");
                text.append(inner.as_str());
                text.append(">");
                text
            },
            DataType::TupleType(types) => {
                let mut text = String::from_str("Tuple<");
                let inner = Self::join_types(types, ", ");
                text.append(inner.as_str());
                text.append(">");
                text
            },
            DataType::AliasType(alias) => alias.clone(),
            DataType::Null => String::from_str("Null"),
            DataType::Void => String::from_str("Void"),
            DataType::Callable(params, ret) => {
                let mut text = String::from_str("(");
                let inner = Self::join_types(params, ", ");
                text.append(inner.as_str());
                text.append(") -> ");
                let ret_text = ret.to_string();
                text.append(ret_text.as_str());
                text
            },
        }
    }

    /// The texts of `types`, in order, with `sep` between each two.
    fn join_types(types: &Vec<DataType>, sep: &str) -> (res: String)
        ensures
            res@ == types_text(types@, sep@),
        decreases types, 1nat,
    {
        let mut text = String::new();
        let mut i: usize = 0;
        while i < types.len()
            invariant
                i <= types.len(),
                text@ == types_text(types@.take(i as int), sep@),
            decreases types.len() - i,
        {
            if i > 0 {
                text.append(sep);
            }
            let item = types[i].to_string();
            text.append(item.as_str());
            proof {
                let next = types@.take(i + 1);
                assert(next.drop_last() =~= types@.take(i as int));
                assert(next.last() == types@[i as int]);
            }
            i = i + 1;
        }
        proof {
            assert(types@.take(types.len() as int) =~= types@);
        }
        text
    }

    pub fn from_token_type(kind: TokenType) -> (res: Self)
        ensures
            res == type_of_token(kind),
    {
        match kind {
            TokenType::StringType => DataType::String,
            TokenType::FloatType => DataType::Float,
            TokenType::CharType => DataType::Char,
            TokenType::BooleanType => DataType::Boolean,
            TokenType::IntType => DataType::Int,
            TokenType::Void => DataType::Void,
            TokenType::Null => DataType::Null,
            _ => DataType::NoneType,
        }
    }
}

} // verus!
