//! The incoming request tree: fields with arguments and nested selections.
//!
//! This is the hierarchical field-selection language the core plans against:
//! each field carries a name, an optional alias, an argument list and a
//! nested selection set; argument values are ints, strings, enum names,
//! booleans, objects or lists.

use vstd::prelude::*;

verus! {

/// An argument value of the request language.
#[derive(Debug)]
pub enum Value {
    Int(i64),
    Text(String),
    EnumValue(String),
    Boolean(bool),
    Null,
    Object(Vec<(String, Value)>),
    List(Vec<Value>),
}

/// One selected item inside a selection set.
#[derive(Debug)]
pub enum Selection {
    Field(Field),
    FragmentSpread,
    InlineFragment,
}

/// A request field: name, optional alias, arguments, nested selections.
#[derive(Debug)]
pub struct Field {
    pub name: String,
    pub alias: Option<String>,
    pub arguments: Vec<(String, Value)>,
    pub selection_set: Vec<Selection>,
}

/// Structural height of a value, the termination measure for the
/// recursive argument grammar.
pub open spec fn value_height(v: Value) -> nat
    decreases v, 0int,
{
    match v {
        Value::Object(entries) => 1 + entries_height_upto(entries, entries@.len() as int),
        Value::List(items) => 1 + items_height_upto(items, items@.len() as int),
        _ => 1,
    }
}

/// Added heights of the first `n` entry values of an object.
pub open spec fn entries_height_upto(entries: Vec<(String, Value)>, n: int) -> nat
    decreases entries, n,
{
    if n <= 0 || n > entries@.len() {
        0
    } else {
        entries_height_upto(entries, n - 1) + value_height(entries@[n - 1].1)
    }
}

/// Added heights of the first `n` items of a list.
pub open spec fn items_height_upto(items: Vec<Value>, n: int) -> nat
    decreases items, n,
{
    if n <= 0 || n > items@.len() {
        0
    } else {
        items_height_upto(items, n - 1) + value_height(items@[n - 1])
    }
}

pub open spec fn entries_height(entries: Vec<(String, Value)>) -> nat {
    entries_height_upto(entries, entries@.len() as int)
}

pub open spec fn items_height(items: Vec<Value>) -> nat {
    items_height_upto(items, items@.len() as int)
}

/// Height of a selection item.
pub open spec fn selection_height(s: Selection) -> nat
    decreases s, 1int,
{
    match s {
        Selection::Field(f) => 1 + field_height(f),
        _ => 1,
    }
}

/// Height of a field: one more than its deepest selection.
pub open spec fn field_height(f: Field) -> nat
    decreases f, 0int,
{
    1 + selections_height_upto(f.selection_set, f.selection_set@.len() as int)
}

/// Added heights of the first `n` selection items.
pub open spec fn selections_height_upto(sels: Vec<Selection>, n: int) -> nat
    decreases sels, n,
{
    if n <= 0 || n > sels@.len() {
        0
    } else {
        selections_height_upto(sels, n - 1) + selection_height(sels@[n - 1])
    }
}

/// Each selection's height is bounded by the prefix sums that include it.
pub proof fn lemma_selection_height_le(sels: Vec<Selection>, i: int, n: int)
    requires
        0 <= i < n <= sels@.len(),
    ensures
        selection_height(sels@[i]) <= selections_height_upto(sels, n),
    decreases n,
{
    if i < n - 1 {
        lemma_selection_height_le(sels, i, n - 1);
    }
}

} // verus!
