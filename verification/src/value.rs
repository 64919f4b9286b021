//! Typed field values and the kinds that drive coercion.

use vstd::prelude::*;
use vstd::string::StringExecFns;

use crate::numeric::is_float_text;

verus! {

/// A kind that can stand on its own or inside `Optional`.
#[derive(Clone, Copy, Debug, PartialEq, Eq, Structural)]
pub enum BaseKind {
    Bool,
    Int,
    Float,
    Text,
    Custom,
}

/// The declared type of a field.
#[derive(Clone, Copy, Debug, PartialEq, Eq, Structural)]
pub enum TypeKind {
    Bool,
    Int,
    Float,
    Text,
    Optional(BaseKind),
    Custom,
}

/// A typed value for a base kind. A floating-point value is carried as its
/// validated literal text: the engine never computes with it, and a host
/// converts the text when it needs the number.
#[derive(Debug, PartialEq)]
pub enum BaseValue {
    Bool(bool),
    Int(i64),
    Float(String),
    Text(String),
    Custom(String),
}

/// A typed value for a field.
#[derive(Debug, PartialEq)]
pub enum Value {
    Bool(bool),
    Int(i64),
    Float(String),
    Text(String),
    Optional(Option<BaseValue>),
    Custom(String),
}

/// Mathematical counterpart of [`BaseValue`].
pub enum BaseValueV {
    Bool(bool),
    Int(i64),
    Float(Seq<char>),
    Text(Seq<char>),
    Custom(Seq<char>),
}

/// Mathematical counterpart of [`Value`].
pub enum ValueV {
    Bool(bool),
    Int(i64),
    Float(Seq<char>),
    Text(Seq<char>),
    Optional(Option<BaseValueV>),
    Custom(Seq<char>),
}

impl View for BaseValue {
    type V = BaseValueV;

    open spec fn view(&self) -> BaseValueV {
        match self {
            BaseValue::Bool(b) => BaseValueV::Bool(*b),
            BaseValue::Int(v) => BaseValueV::Int(*v),
            BaseValue::Float(s) => BaseValueV::Float(s@),
            BaseValue::Text(s) => BaseValueV::Text(s@),
            BaseValue::Custom(s) => BaseValueV::Custom(s@),
        }
    }
}

impl View for Value {
    type V = ValueV;

    open spec fn view(&self) -> ValueV {
        match self {
            Value::Bool(b) => ValueV::Bool(*b),
            Value::Int(v) => ValueV::Int(*v),
            Value::Float(s) => ValueV::Float(s@),
            Value::Text(s) => ValueV::Text(s@),
            Value::Optional(o) => ValueV::Optional(
                match o {
                    Some(b) => Some(b@),
                    None => None,
                },
            ),
            Value::Custom(s) => ValueV::Custom(s@),
        }
    }
}

impl DeepView for Value {
    type V = ValueV;

    open spec fn deep_view(&self) -> ValueV {
        self@
    }
}

impl Clone for BaseValue {
    fn clone(&self) -> (r: Self)
        ensures
            r == *self,
    {
        match self {
            BaseValue::Bool(b) => BaseValue::Bool(*b),
            BaseValue::Int(v) => BaseValue::Int(*v),
            BaseValue::Float(s) => BaseValue::Float(s.clone()),
            BaseValue::Text(s) => BaseValue::Text(s.clone()),
            BaseValue::Custom(s) => BaseValue::Custom(s.clone()),
        }
    }
}

impl Clone for Value {
    fn clone(&self) -> (r: Self)
        ensures
            r == *self,
    {
        match self {
            Value::Bool(b) => Value::Bool(*b),
            Value::Int(v) => Value::Int(*v),
            Value::Float(s) => Value::Float(s.clone()),
            Value::Text(s) => Value::Text(s.clone()),
            Value::Optional(o) => Value::Optional(
                match o {
                    Some(b) => Some(b.clone()),
                    None => None,
                },
            ),
            Value::Custom(s) => Value::Custom(s.clone()),
        }
    }
}

/// A value is well-typed for a base kind; floating-point values must carry a
/// valid literal.
pub open spec fn base_matches_kind(v: BaseValueV, k: BaseKind) -> bool {
    match v {
        BaseValueV::Bool(_) => k is Bool,
        BaseValueV::Int(_) => k is Int,
        BaseValueV::Float(s) => k is Float && is_float_text(s),
        BaseValueV::Text(_) => k is Text,
        BaseValueV::Custom(_) => k is Custom,
    }
}

/// A value is well-typed for a field kind.
pub open spec fn value_matches_kind(v: ValueV, k: TypeKind) -> bool {
    match v {
        ValueV::Bool(_) => k is Bool,
        ValueV::Int(_) => k is Int,
        ValueV::Float(s) => k is Float && is_float_text(s),
        ValueV::Text(_) => k is Text,
        ValueV::Optional(o) => match (o, k) {
            (None, TypeKind::Optional(_)) => true,
            (Some(b), TypeKind::Optional(ik)) => base_matches_kind(b, ik),
            _ => false,
        },
        ValueV::Custom(_) => k is Custom,
    }
}

/// Tests that a value is well-typed for a base kind.
pub fn base_value_matches(v: &BaseValue, k: BaseKind) -> (r: bool)
    ensures
        r == base_matches_kind(v@, k),
{
    match v {
        BaseValue::Bool(_) => matches!(k, BaseKind::Bool),
        BaseValue::Int(_) => matches!(k, BaseKind::Int),
        BaseValue::Float(s) => matches!(k, BaseKind::Float) && crate::numeric::is_float_str(
            s.as_str(),
        ),
        BaseValue::Text(_) => matches!(k, BaseKind::Text),
        BaseValue::Custom(_) => matches!(k, BaseKind::Custom),
    }
}

/// Tests that a value is well-typed for a field kind.
pub fn value_matches(v: &Value, k: TypeKind) -> (r: bool)
    ensures
        r == value_matches_kind(v@, k),
{
    match v {
        Value::Bool(_) => matches!(k, TypeKind::Bool),
        Value::Int(_) => matches!(k, TypeKind::Int),
        Value::Float(s) => matches!(k, TypeKind::Float) && crate::numeric::is_float_str(s.as_str()),
        Value::Text(_) => matches!(k, TypeKind::Text),
        Value::Optional(o) => match k {
            TypeKind::Optional(ik) => match o {
                None => true,
                Some(b) => base_value_matches(b, ik),
            },
            _ => false,
        },
        Value::Custom(_) => matches!(k, TypeKind::Custom),
    }
}

/// The display name of a base kind, used in error reports and type
/// descriptions.
pub open spec fn base_kind_name(k: BaseKind) -> Seq<char> {
    match k {
        BaseKind::Bool => "bool"@,
        BaseKind::Int => "int"@,
        BaseKind::Float => "float"@,
        BaseKind::Text => "text"@,
        BaseKind::Custom => "custom"@,
    }
}

/// The display name of a field kind.
pub open spec fn kind_name(k: TypeKind) -> Seq<char> {
    match k {
        TypeKind::Bool => "bool"@,
        TypeKind::Int => "int"@,
        TypeKind::Float => "float"@,
        TypeKind::Text => "text"@,
        TypeKind::Optional(b) => "optional "@ + base_kind_name(b),
        TypeKind::Custom => "custom"@,
    }
}

fn base_kind_name_str(k: BaseKind) -> (r: &'static str)
    ensures
        r@ == base_kind_name(k),
{
    match k {
        BaseKind::Bool => "bool",
        BaseKind::Int => "int",
        BaseKind::Float => "float",
        BaseKind::Text => "text",
        BaseKind::Custom => "custom",
    }
}

/// Renders the display name of a field kind.
pub fn kind_name_string(k: TypeKind) -> (r: String)
    ensures
        r@ == kind_name(k),
{
    match k {
        TypeKind::Bool => String::from_str("bool"),
        TypeKind::Int => String::from_str("int"),
        TypeKind::Float => String::from_str("float"),
        TypeKind::Text => String::from_str("text"),
        TypeKind::Optional(b) => {
            let mut s = String::from_str("optional ");
            s.append(base_kind_name_str(b));
            s
        },
        TypeKind::Custom => String::from_str("custom"),
    }
}

} // verus!
