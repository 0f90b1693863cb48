//! Scalar values, row identifiers and row selectors.
//!
//! Scalar arguments, list-replacement contents and selector values are flat
//! scalar values; nesting in the request language is consumed by the
//! argument grammar before values reach this vocabulary.

use vstd::prelude::*;
use crate::request::Value;
use crate::error::CoreError;

verus! {

/// A flat scalar value as stored in arguments and selectors.
#[derive(Debug, PartialEq, Eq)]
pub enum PrismaValue {
    Int(i64),
    Text(String),
    EnumValue(String),
    Boolean(bool),
    Null,
}

/// The stored contents of a list-valued field: a full replacement list.
pub type PrismaListValue = Vec<PrismaValue>;

/// Mathematical image of a scalar value.
pub enum ValueView {
    Int(i64),
    Text(Seq<char>),
    EnumValue(Seq<char>),
    Boolean(bool),
    Null,
}

impl View for PrismaValue {
    type V = ValueView;

    open spec fn view(&self) -> ValueView {
        match self {
            PrismaValue::Int(n) => ValueView::Int(*n),
            PrismaValue::Text(s) => ValueView::Text(s@),
            PrismaValue::EnumValue(s) => ValueView::EnumValue(s@),
            PrismaValue::Boolean(b) => ValueView::Boolean(*b),
            PrismaValue::Null => ValueView::Null,
        }
    }
}

/// A row identifier: a UUID, a plain string id, or a positional offset.
#[derive(Debug, PartialEq, Eq)]
pub enum GraphqlId {
    Uuid(u128),
    Text(String),
    Int(usize),
}

/// Mathematical image of a row identifier.
pub enum IdView {
    Uuid(u128),
    Text(Seq<char>),
    Int(int),
}

impl View for GraphqlId {
    type V = IdView;

    open spec fn view(&self) -> IdView {
        match self {
            GraphqlId::Uuid(u) => IdView::Uuid(*u),
            GraphqlId::Text(s) => IdView::Text(s@),
            GraphqlId::Int(n) => IdView::Int(*n as int),
        }
    }
}

/// Identifies exactly one row: a model, a unique field of it, and the value
/// the field must hold.
#[derive(Debug)]
pub struct NodeSelector {
    pub model: usize,
    pub field: String,
    pub value: PrismaValue,
}

/// Mathematical image of a selector.
pub struct SelectorView {
    pub model: int,
    pub field: Seq<char>,
    pub value: ValueView,
}

impl View for NodeSelector {
    type V = SelectorView;

    open spec fn view(&self) -> SelectorView {
        SelectorView { model: self.model as int, field: self.field@, value: self.value@ }
    }
}

/// Copies a scalar value.
pub fn clone_value(a: &PrismaValue) -> (r: PrismaValue)
    ensures
        r@ == a@,
{
    match a {
        PrismaValue::Int(n) => PrismaValue::Int(*n),
        PrismaValue::Text(s) => PrismaValue::Text(s.clone()),
        PrismaValue::EnumValue(s) => PrismaValue::EnumValue(s.clone()),
        PrismaValue::Boolean(b) => PrismaValue::Boolean(*b),
        PrismaValue::Null => PrismaValue::Null,
    }
}

/// Copies a row identifier.
pub fn clone_id(a: &GraphqlId) -> (r: GraphqlId)
    ensures
        r@ == a@,
{
    match a {
        GraphqlId::Uuid(u) => GraphqlId::Uuid(*u),
        GraphqlId::Text(s) => GraphqlId::Text(s.clone()),
        GraphqlId::Int(n) => GraphqlId::Int(*n),
    }
}

/// Copies a selector.
pub fn clone_selector(a: &NodeSelector) -> (r: NodeSelector)
    ensures
        r@ == a@,
{
    NodeSelector { model: a.model, field: a.field.clone(), value: clone_value(&a.value) }
}

/// Value equality of two scalar values.
pub fn value_eq(a: &PrismaValue, b: &PrismaValue) -> (r: bool)
    ensures
        r == (a@ == b@),
{
    match (a, b) {
        (PrismaValue::Int(x), PrismaValue::Int(y)) => *x == *y,
        (PrismaValue::Text(x), PrismaValue::Text(y)) => *x == *y,
        (PrismaValue::EnumValue(x), PrismaValue::EnumValue(y)) => *x == *y,
        (PrismaValue::Boolean(x), PrismaValue::Boolean(y)) => *x == *y,
        (PrismaValue::Null, PrismaValue::Null) => true,
        _ => false,
    }
}

/// Value equality of two row identifiers.
pub fn id_eq(a: &GraphqlId, b: &GraphqlId) -> (r: bool)
    ensures
        r == (a@ == b@),
{
    match (a, b) {
        (GraphqlId::Uuid(x), GraphqlId::Uuid(y)) => *x == *y,
        (GraphqlId::Text(x), GraphqlId::Text(y)) => *x == *y,
        (GraphqlId::Int(x), GraphqlId::Int(y)) => *x == *y,
        _ => false,
    }
}

/// Value equality of two selectors.
pub fn selector_eq(a: &NodeSelector, b: &NodeSelector) -> (r: bool)
    ensures
        r == (a@ == b@),
{
    a.model == b.model && a.field == b.field && value_eq(&a.value, &b.value)
}

/// Converts a request value to a scalar value; nested objects and lists are
/// not scalars and are refused as malformed argument shapes.
pub fn from_value(v: &Value) -> (r: Result<PrismaValue, CoreError>)
    ensures
        r matches Ok(pv) ==> spec_from_value(*v) == Some(pv@),
        r is Err ==> spec_from_value(*v) is None && (r matches Err(e) ==> e.is_validation()),
{
    match v {
        Value::Int(n) => Ok(PrismaValue::Int(*n)),
        Value::Text(s) => Ok(PrismaValue::Text(s.clone())),
        Value::EnumValue(s) => Ok(PrismaValue::EnumValue(s.clone())),
        Value::Boolean(b) => Ok(PrismaValue::Boolean(*b)),
        Value::Null => Ok(PrismaValue::Null),
        Value::Object(_) => Err(CoreError::QueryValidationError(
            String::from_str("Malformed argument: unexpected nested object"),
        )),
        Value::List(_) => Err(CoreError::QueryValidationError(
            String::from_str("Malformed argument: unexpected nested list"),
        )),
    }
}

/// What a request value converts to, when it is scalar.
pub open spec fn spec_from_value(v: Value) -> Option<ValueView> {
    match v {
        Value::Int(n) => Some(ValueView::Int(n)),
        Value::Text(s) => Some(ValueView::Text(s@)),
        Value::EnumValue(s) => Some(ValueView::EnumValue(s@)),
        Value::Boolean(b) => Some(ValueView::Boolean(b)),
        Value::Null => Some(ValueView::Null),
        Value::Object(_) => None,
        Value::List(_) => None,
    }
}

} // verus!
