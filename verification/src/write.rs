//! The write-query (mutation) tree builder.
//!
//! A top-level mutation name is parsed by longest match against the action
//! set, the remainder resolves to a model; argument objects are split into
//! scalar arguments, list-replacement instructions and nested mutations
//! scoped to relation fields, recursively.

use vstd::prelude::*;
use crate::args::{Filter, extract_filter_conditions, spec_filter_conditions, scalar_field_exists};
use crate::chars::{chars_of, chars_start_with, chars_suffix, string_from};
use crate::error::{BuildErrKind, CoreError, err_kind_matches};
use crate::inflect::{Inflector, pascal_of, pascal_case, spec_singularize};
use crate::request::{Field, Value};
use crate::schema::{InternalDataModel, Model, ModelField, RelationFieldRef, field_name};
use crate::values::{NodeSelector, PrismaValue, SelectorView, ValueView, from_value,
    spec_from_value};

verus! {

/// The scalar arguments of a mutation: a key-to-value map with unique
/// keys; inserting an existing key replaces its value in place.
#[derive(Debug)]
pub struct PrismaArgs {
    pub pairs: Vec<(String, PrismaValue)>,
}

/// Mathematical image of a pair list.
pub open spec fn pairs_view(pairs: Seq<(String, PrismaValue)>) -> Seq<(Seq<char>, ValueView)> {
    pairs.map_values(|p: (String, PrismaValue)| (p.0@, p.1@))
}

/// Mathematical image of a scalar-value list.
pub open spec fn vals_view(vs: Seq<PrismaValue>) -> Seq<ValueView> {
    vs.map_values(|v: PrismaValue| v@)
}

/// Mathematical image of the scalar arguments.
pub open spec fn args_view(a: PrismaArgs) -> Seq<(Seq<char>, ValueView)> {
    pairs_view(a.pairs@)
}

/// The list-replacement instructions of a mutation, in request order.
pub type PrismaListArgs = Vec<(String, Option<crate::values::PrismaListValue>)>;

/// Mathematical image of the list-replacement instructions.
pub open spec fn list_pair_view(p: (String, Option<Vec<PrismaValue>>)) -> (
    Seq<char>,
    Option<Seq<ValueView>>,
) {
    (
        p.0@,
        match p.1 {
            Some(vs) => Some(vals_view(vs@)),
            None => None,
        },
    )
}

pub open spec fn list_pairs_view(s: Seq<(String, Option<Vec<PrismaValue>>)>) -> Seq<
    (Seq<char>, Option<Seq<ValueView>>),
> {
    s.map_values(|p: (String, Option<Vec<PrismaValue>>)| list_pair_view(p))
}

pub open spec fn list_args_view(l: PrismaListArgs) -> Seq<(Seq<char>, Option<Seq<ValueView>>)> {
    list_pairs_view(l@)
}

/// Inserting a key: the first entry holding it is replaced, else the pair
/// is appended.
pub open spec fn spec_args_insert(
    s: Seq<(Seq<char>, ValueView)>,
    k: Seq<char>,
    v: ValueView,
) -> Seq<(Seq<char>, ValueView)> {
    match first_key_index(s, k, 0) {
        Some(i) => s.update(i, (k, v)),
        None => s.push((k, v)),
    }
}

/// The first position holding key `k`, searching from `i`.
pub open spec fn first_key_index(s: Seq<(Seq<char>, ValueView)>, k: Seq<char>, i: int) -> Option<
    int,
>
    decreases s.len() - i,
{
    if i < 0 || i >= s.len() {
        None
    } else if s[i].0 == k {
        Some(i)
    } else {
        first_key_index(s, k, i + 1)
    }
}

impl PrismaArgs {
    /// The empty argument map.
    pub fn new() -> (r: PrismaArgs)
        ensures
            args_view(r) == Seq::<(Seq<char>, ValueView)>::empty(),
    {
        let r = PrismaArgs { pairs: Vec::new() };
        proof {
            assert(args_view(r) =~= Seq::<(Seq<char>, ValueView)>::empty());
        }
        r
    }

    /// Inserts a pair, replacing the first entry with the same key.
    pub fn insert(&mut self, k: String, v: PrismaValue)
        ensures
            args_view(*final(self)) == spec_args_insert(args_view(*old(self)), k@, v@),
    {
        let ghost old_view = args_view(*old(self));
        let mut i: usize = 0;
        let n = self.pairs.len();
        while i < n
            invariant
                i <= n,
                n == self.pairs@.len(),
                *self == *old(self),
                old_view == args_view(*old(self)),
                forall|j: int| 0 <= j < i ==> args_view(*self)[j].0 != k@,
            decreases n - i,
        {
            if self.pairs[i].0 == k {
                proof {
                    assert(args_view(*self).len() == self.pairs@.len());
                    assert(args_view(*self)[i as int] == (
                        self.pairs@[i as int].0@,
                        self.pairs@[i as int].1@,
                    ));
                    assert(old_view[i as int].0 == k@);
                    lemma_first_key_from_zero(old_view, k@, i as int);
                }
                self.pairs.set(i, (k, v));
                proof {
                    assert(args_view(*self) =~= old_view.update(i as int, (k@, v@)));
                }
                return ;
            }
            i = i + 1;
        }
        self.pairs.push((k, v));
        proof {
            assert(first_key_index(old_view, k@, n as int) is None);
            lemma_first_key_from_zero_none(old_view, k@, n as int);
            assert(args_view(*self) =~= old_view.push((k@, v@)));
        }
    }
}

/// A chain of no-hit steps pins the first hit.
proof fn lemma_first_key_from_zero(s: Seq<(Seq<char>, ValueView)>, k: Seq<char>, i: int)
    requires
        0 <= i < s.len(),
        s[i].0 == k,
        forall|j: int| 0 <= j < i ==> s[j].0 != k,
    ensures
        first_key_index(s, k, 0) == Some(i),
{
    lemma_first_key_step(s, k, 0, i);
}

proof fn lemma_first_key_step(s: Seq<(Seq<char>, ValueView)>, k: Seq<char>, j: int, i: int)
    requires
        0 <= j <= i < s.len(),
        s[i].0 == k,
        forall|m: int| 0 <= m < i ==> s[m].0 != k,
    ensures
        first_key_index(s, k, j) == Some(i),
    decreases i - j,
{
    if j < i {
        lemma_first_key_step(s, k, j + 1, i);
    }
}

proof fn lemma_first_key_from_zero_none(s: Seq<(Seq<char>, ValueView)>, k: Seq<char>, n: int)
    requires
        n == s.len(),
        forall|j: int| 0 <= j < n ==> s[j].0 != k,
    ensures
        first_key_index(s, k, 0) is None,
{
    lemma_first_key_step_none(s, k, 0);
}

proof fn lemma_first_key_step_none(s: Seq<(Seq<char>, ValueView)>, k: Seq<char>, j: int)
    requires
        0 <= j,
        forall|m: int| 0 <= m < s.len() ==> s[m].0 != k,
    ensures
        first_key_index(s, k, j) is None,
    decreases s.len() - j,
{
    if j < s.len() {
        lemma_first_key_step_none(s, k, j + 1);
    }
}

/// The top-level mutation actions.
#[derive(Debug, PartialEq, Eq, Structural, Clone, Copy)]
pub enum Operation {
    Create,
    Update,
    Delete,
    Upsert,
    UpdateMany,
    DeleteMany,
    Reset,
}

/// The action set in longest-match order; `reset` is reserved and not in
/// the matched set.
pub open spec fn spec_action_list() -> Seq<(Seq<char>, Operation)> {
    seq![
        ("create"@, Operation::Create),
        ("updateMany"@, Operation::UpdateMany),
        ("update"@, Operation::Update),
        ("deleteMany"@, Operation::DeleteMany),
        ("delete"@, Operation::Delete),
        ("upsert"@, Operation::Upsert),
    ]
}

/// The first action whose name prefixes the mutation name, from `i` on.
pub open spec fn spec_first_action(name: Seq<char>, i: int) -> Option<(Seq<char>, Operation)>
    decreases spec_action_list().len() - i,
{
    if i < 0 || i >= spec_action_list().len() {
        None
    } else if spec_action_list()[i].0.len() <= name.len() && name.subrange(
        0,
        spec_action_list()[i].0.len() as int,
    ) == spec_action_list()[i].0 {
        Some(spec_action_list()[i])
    } else {
        spec_first_action(name, i + 1)
    }
}

/// The first model whose name equals `name`, from `m` on.
pub open spec fn spec_first_model(g: InternalDataModel, name: Seq<char>, m: int) -> Option<int>
    decreases g.models_seq().len() - m,
{
    if m < 0 || m >= g.models_seq().len() {
        None
    } else if g.models_seq()[m].name@ == name {
        Some(m)
    } else {
        spec_first_model(g, name, m + 1)
    }
}

/// What parsing a mutation name yields: the first matching action prefix,
/// the remainder singularized and pascal-cased, and the model of that
/// name; an unmatched prefix or an unresolved model name is refused.
pub open spec fn spec_parse_model_action(g: InternalDataModel, name: Seq<char>) -> Result<
    (Operation, int),
    BuildErrKind,
> {
    match spec_first_action(name, 0) {
        None => Err(BuildErrKind::Validation),
        Some((prefix, op)) => {
            let rest = name.subrange(prefix.len() as int, name.len() as int);
            let normalized = pascal_of(spec_singularize(rest));
            match spec_first_model(g, normalized, 0) {
                None => Err(BuildErrKind::Validation),
                Some(m) => Ok((op, m)),
            }
        },
    }
}

/// The executable action table, index-aligned with `spec_action_list`.
fn action_table() -> (r: Vec<(String, Operation)>)
    ensures
        r@.len() == spec_action_list().len(),
        forall|i: int|
            0 <= i < r@.len() ==> (#[trigger] r@[i]).0@ == spec_action_list()[i].0 && r@[i].1
                == spec_action_list()[i].1,
{
    let mut r: Vec<(String, Operation)> = Vec::new();
    r.push((String::from_str("create"), Operation::Create));
    r.push((String::from_str("updateMany"), Operation::UpdateMany));
    r.push((String::from_str("update"), Operation::Update));
    r.push((String::from_str("deleteMany"), Operation::DeleteMany));
    r.push((String::from_str("delete"), Operation::Delete));
    r.push((String::from_str("upsert"), Operation::Upsert));
    r
}

/// Finds the first action whose name prefixes the mutation name.
fn first_action(name_chars: &Vec<char>) -> (r: Option<(usize, Operation)>)
    ensures
        r matches Some((plen, op)) ==> (spec_first_action(name_chars@, 0) matches Some(pair)
            && pair.1 == op && pair.0.len() == plen && plen <= name_chars@.len()),
        r is None ==> spec_first_action(name_chars@, 0) is None,
{
    let actions = action_table();
    let mut j: usize = 0;
    while j < actions.len()
        invariant
            j <= actions@.len(),
            actions@.len() == spec_action_list().len(),
            forall|i: int|
                0 <= i < actions@.len() ==> (#[trigger] actions@[i]).0@ == spec_action_list()[i].0
                    && actions@[i].1 == spec_action_list()[i].1,
            spec_first_action(name_chars@, j as int) == spec_first_action(name_chars@, 0),
        decreases actions@.len() - j,
    {
        let action_chars = chars_of(&actions[j].0);
        if chars_start_with(name_chars, &action_chars) {
            proof {
                assert(spec_first_action(name_chars@, j as int) == Some(
                    spec_action_list()[j as int],
                ));
            }
            return Some((action_chars.len(), actions[j].1));
        }
        j = j + 1;
    }
    None
}

/// Parses a mutation name into its action and target model.
pub fn parse_model_action(name: &String, g: &InternalDataModel) -> (r: Result<
    (Operation, usize),
    CoreError,
>)
    ensures
        r matches Ok((op, m)) ==> spec_parse_model_action(*g, name@) == Ok::<_, BuildErrKind>(
            (op, m as int),
        ) && m < g.models_seq().len(),
        r matches Err(e) ==> spec_parse_model_action(*g, name@) is Err && e.is_validation(),
{
    let name_chars = chars_of(name);
    let (plen, op) = match first_action(&name_chars) {
        Some(x) => x,
        None => {
            return Err(CoreError::QueryValidationError(String::from_str("Unknown action")));
        },
    };
    proof {
        assert(name_chars.len() == name_chars@.len());
    }
    let rest_chars = chars_suffix(&name_chars, plen);
    let rest = string_from(&rest_chars);
    let singular = Inflector::singularize(&rest);
    let normalized = pascal_case(&singular);
    match g.find_model(&normalized) {
        Ok(m) => {
            proof {
                lemma_spec_first_model_some(*g, normalized@, m as int, 0);
            }
            Ok((op, m))
        },
        Err(_) => {
            proof {
                lemma_spec_first_model_none(*g, normalized@, 0);
            }
            Err(CoreError::QueryValidationError(
                String::from_str("Model not found for mutation"),
            ))
        },
    }
}

/// The first-match contract of `find_model` pins `spec_first_model`.
proof fn lemma_spec_first_model_some(g: InternalDataModel, name: Seq<char>, m: int, i: int)
    requires
        0 <= i <= m < g.models_seq().len(),
        g.models_seq()[m].name@ == name,
        forall|j: int| 0 <= j < m ==> g.models_seq()[j].name@ != name,
    ensures
        spec_first_model(g, name, i) == Some(m),
    decreases m - i,
{
    if i < m {
        lemma_spec_first_model_some(g, name, m, i + 1);
    }
}

proof fn lemma_spec_first_model_none(g: InternalDataModel, name: Seq<char>, i: int)
    requires
        0 <= i,
        forall|j: int| 0 <= j < g.models_seq().len() ==> g.models_seq()[j].name@ != name,
    ensures
        spec_first_model(g, name, i) is None,
    decreases g.models_seq().len() - i,
{
    if i < g.models_seq().len() {
        lemma_spec_first_model_none(g, name, i + 1);
    }
}

impl Operation {
    /// The action a known name denotes; the reserved `reset` and unknown
    /// names denote nothing.
    pub fn from_name(s: &String) -> (r: Option<Operation>)
        ensures
            r == spec_operation_from_name(s@),
    {
        if *s == String::from_str("create") {
            Some(Operation::Create)
        } else if *s == String::from_str("updateMany") {
            Some(Operation::UpdateMany)
        } else if *s == String::from_str("update") {
            Some(Operation::Update)
        } else if *s == String::from_str("deleteMany") {
            Some(Operation::DeleteMany)
        } else if *s == String::from_str("delete") {
            Some(Operation::Delete)
        } else if *s == String::from_str("upsert") {
            Some(Operation::Upsert)
        } else {
            None
        }
    }
}

/// The action a known name denotes.
pub open spec fn spec_operation_from_name(s: Seq<char>) -> Option<Operation> {
    if s == "create"@ {
        Some(Operation::Create)
    } else if s == "updateMany"@ {
        Some(Operation::UpdateMany)
    } else if s == "update"@ {
        Some(Operation::Update)
    } else if s == "deleteMany"@ {
        Some(Operation::DeleteMany)
    } else if s == "delete"@ {
        Some(Operation::Delete)
    } else if s == "upsert"@ {
        Some(Operation::Upsert)
    } else {
        None
    }
}

/// One nested mutation, scoped to a relation field of the enclosing
/// mutation's model, in request order.
#[derive(Debug)]
#[allow(inconsistent_fields)]
pub enum NestedMutation {
    Create {
        relation_field: RelationFieldRef,
        non_list_args: PrismaArgs,
        list_args: PrismaListArgs,
        nested: Vec<NestedMutation>,
    },
    Update {
        relation_field: RelationFieldRef,
        non_list_args: PrismaArgs,
        list_args: PrismaListArgs,
        nested: Vec<NestedMutation>,
    },
    Upsert {
        relation_field: RelationFieldRef,
        create_args: PrismaArgs,
        create_list_args: PrismaListArgs,
        create_nested: Vec<NestedMutation>,
        update_args: PrismaArgs,
        update_list_args: PrismaListArgs,
        update_nested: Vec<NestedMutation>,
    },
    Delete { relation_field: RelationFieldRef, where_: NodeSelector },
    Connect { relation_field: RelationFieldRef, where_: NodeSelector },
    Disconnect { relation_field: RelationFieldRef, where_: Option<NodeSelector> },
    SetLinks { relation_field: RelationFieldRef, wheres: Vec<NodeSelector> },
}

/// Mathematical image of the three argument groups of a mutation.
#[verifier::ext_equal]
pub struct MutArgsView {
    pub args: Seq<(Seq<char>, ValueView)>,
    pub lists: Seq<(Seq<char>, Option<Seq<ValueView>>)>,
    pub nested: Seq<NestedMutationView>,
}

/// Mathematical image of one nested mutation.
#[allow(inconsistent_fields)]
pub enum NestedMutationView {
    Create { relation_field: RelationFieldRef, args: MutArgsView },
    Update { relation_field: RelationFieldRef, args: MutArgsView },
    Upsert { relation_field: RelationFieldRef, create: MutArgsView, update: MutArgsView },
    Delete { relation_field: RelationFieldRef, selector: SelectorView },
    Connect { relation_field: RelationFieldRef, selector: SelectorView },
    Disconnect { relation_field: RelationFieldRef, selector: Option<SelectorView> },
    SetLinks { relation_field: RelationFieldRef, selectors: Seq<SelectorView> },
}

/// Image of one nested mutation.
pub open spec fn nested_mutation_view(m: NestedMutation) -> NestedMutationView
    decreases m, 1int,
{
    match m {
        NestedMutation::Create { relation_field, non_list_args, list_args, nested } => NestedMutationView::Create {
            relation_field,
            args: MutArgsView {
                args: args_view(non_list_args),
                lists: list_args_view(list_args),
                nested: nested_views_upto(nested, nested@.len() as int),
            },
        },
        NestedMutation::Update { relation_field, non_list_args, list_args, nested } => NestedMutationView::Update {
            relation_field,
            args: MutArgsView {
                args: args_view(non_list_args),
                lists: list_args_view(list_args),
                nested: nested_views_upto(nested, nested@.len() as int),
            },
        },
        NestedMutation::Upsert {
            relation_field,
            create_args,
            create_list_args,
            create_nested,
            update_args,
            update_list_args,
            update_nested,
        } => NestedMutationView::Upsert {
            relation_field,
            create: MutArgsView {
                args: args_view(create_args),
                lists: list_args_view(create_list_args),
                nested: nested_views_upto(create_nested, create_nested@.len() as int),
            },
            update: MutArgsView {
                args: args_view(update_args),
                lists: list_args_view(update_list_args),
                nested: nested_views_upto(update_nested, update_nested@.len() as int),
            },
        },
        NestedMutation::Delete { relation_field, where_ } => NestedMutationView::Delete {
            relation_field,
            selector: where_@,
        },
        NestedMutation::Connect { relation_field, where_ } => NestedMutationView::Connect {
            relation_field,
            selector: where_@,
        },
        NestedMutation::Disconnect { relation_field, where_ } => NestedMutationView::Disconnect {
            relation_field,
            selector: match where_ {
                Some(sel) => Some(sel@),
                None => None,
            },
        },
        NestedMutation::SetLinks { relation_field, wheres } => NestedMutationView::SetLinks {
            relation_field,
            selectors: wheres@.map_values(|sel: NodeSelector| sel@),
        },
    }
}

/// Images of the first `n` nested mutations.
pub open spec fn nested_views_upto(ms: Vec<NestedMutation>, n: int) -> Seq<NestedMutationView>
    decreases ms, n,
{
    if n <= 0 || n > ms@.len() {
        Seq::empty()
    } else {
        nested_views_upto(ms, n - 1).push(nested_mutation_view(ms@[n - 1]))
    }
}

/// The first entry of an object with the given key, from position `i`.
pub open spec fn first_entry_with_key(
    entries: Vec<(String, Value)>,
    key: Seq<char>,
    i: int,
) -> Option<int>
    decreases entries@.len() - i,
{
    if i < 0 || i >= entries@.len() {
        None
    } else if entries@[i].0@ == key {
        Some(i)
    } else {
        first_entry_with_key(entries, key, i + 1)
    }
}

/// A selector object: its first entry names a scalar field of the model
/// and holds a scalar value.
pub open spec fn selector_obj_ok(g: InternalDataModel, mi: int, entries: Vec<(String, Value)>) -> bool {
    &&& entries@.len() >= 1
    &&& 0 <= mi < g.models_seq().len()
    &&& scalar_field_exists(g.models_seq()[mi], entries@[0].0@)
    &&& spec_from_value(entries@[0].1) is Some
}

/// The selector a selector object denotes.
pub open spec fn selector_obj_val(g: InternalDataModel, mi: int, entries: Vec<(String, Value)>) -> SelectorView {
    SelectorView {
        model: mi,
        field: if entries@.len() >= 1 {
            entries@[0].0@
        } else {
            Seq::empty()
        },
        value: if entries@.len() >= 1 && spec_from_value(entries@[0].1) is Some {
            spec_from_value(entries@[0].1)->Some_0
        } else {
            ValueView::Null
        },
    }
}

/// Whether all list items are scalar values.
pub open spec fn list_items_ok(items: Vec<Value>, n: int) -> bool
    decreases n,
{
    if n <= 0 || n > items@.len() {
        true
    } else {
        list_items_ok(items, n - 1) && spec_from_value(items@[n - 1]) is Some
    }
}

/// The scalar images of the first `n` list items.
pub open spec fn list_items_val(items: Vec<Value>, n: int) -> Seq<ValueView>
    decreases n,
{
    if n <= 0 || n > items@.len() {
        Seq::empty()
    } else {
        list_items_val(items, n - 1).push(
            match spec_from_value(items@[n - 1]) {
                Some(v) => v,
                None => ValueView::Null,
            },
        )
    }
}

/// The relation field of the model with the given name, if any.
pub open spec fn relation_field_at(g: InternalDataModel, mi: int, name: Seq<char>) -> Option<int> {
    if 0 <= mi < g.models_seq().len() {
        match crate::read::first_field_named(g.models_seq()[mi], name) {
            Some(idx) => if g.models_seq()[mi].fields@[idx] is Relation {
                Some(idx)
            } else {
                None
            },
            None => None,
        }
    } else {
        None
    }
}

/// Validity of one argument-object entry on a model.
pub open spec fn entry_ok(g: InternalDataModel, mi: int, k: String, w: Value) -> bool
    decreases w, 3int,
{
    match relation_field_at(g, mi, k@) {
        Some(idx) => match w {
            Value::Object(ops) => nested_ops_ok(g, mi, idx, ops, ops@.len() as int),
            _ => false,
        },
        None => match w {
            Value::Object(entries) => match first_entry_with_key(entries, "set"@, 0) {
                Some(si) => match entries@[si].1 {
                    Value::List(items) => list_items_ok(items, items@.len() as int),
                    _ => false,
                },
                None => false,
            },
            _ => spec_from_value(w) is Some,
        },
    }
}

/// Validity of the first `n` entries of an argument object.
pub open spec fn obj_entries_ok(g: InternalDataModel, mi: int, entries: Vec<(String, Value)>, n: int) -> bool
    decreases entries, n, 4int,
{
    if n <= 0 || n > entries@.len() {
        true
    } else {
        obj_entries_ok(g, mi, entries, n - 1) && entry_ok(
            g,
            mi,
            entries@[n - 1].0,
            entries@[n - 1].1,
        )
    }
}

/// Validity of one nested operation entry.
pub open spec fn nested_op_ok(g: InternalDataModel, mi: int, f: int, opk: Seq<char>, u: Value) -> bool
    decreases u, 2int,
{
    let rel_mi = rf_target(g, mi, f);
    if opk == "create"@ || opk == "update"@ {
        match u {
            Value::Object(o) => obj_entries_ok(g, rel_mi, o, o@.len() as int),
            _ => false,
        }
    } else if opk == "upsert"@ {
        match u {
            Value::Object(o) => {
                &&& (match first_entry_with_key(o, "create"@, 0) {
                    Some(ci) => 0 <= ci < o@.len() && (match o@[ci].1 {
                        Value::Object(oc) => obj_entries_ok(g, rel_mi, oc, oc@.len() as int),
                        _ => false,
                    }),
                    None => false,
                })
                &&& (match first_entry_with_key(o, "update"@, 0) {
                    Some(ui) => 0 <= ui < o@.len() && (match o@[ui].1 {
                        Value::Object(ou) => obj_entries_ok(g, rel_mi, ou, ou@.len() as int),
                        _ => false,
                    }),
                    None => false,
                })
            },
            _ => false,
        }
    } else if opk == "delete"@ || opk == "connect"@ {
        match u {
            Value::Object(o) => selector_obj_ok(g, rel_mi, o),
            _ => false,
        }
    } else if opk == "disconnect"@ {
        match u {
            Value::Boolean(b) => b,
            Value::Object(o) => selector_obj_ok(g, rel_mi, o),
            _ => false,
        }
    } else if opk == "set"@ {
        match u {
            Value::Object(o) => selector_obj_ok(g, rel_mi, o),
            Value::List(items) => set_items_ok(g, rel_mi, items, items@.len() as int),
            _ => false,
        }
    } else {
        false
    }
}

/// The model a relation field points at.
pub open spec fn rf_target(g: InternalDataModel, mi: int, f: int) -> int {
    if 0 <= mi < g.models_seq().len() && 0 <= f < g.models_seq()[mi].fields@.len() {
        match g.models_seq()[mi].fields@[f] {
            ModelField::Relation(rf) => rf.related_model as int,
            ModelField::Scalar(_) => 0,
        }
    } else {
        0
    }
}

/// Validity of the first `n` items of a `set` list.
pub open spec fn set_items_ok(g: InternalDataModel, mi: int, items: Vec<Value>, n: int) -> bool
    decreases items, n,
{
    if n <= 0 || n > items@.len() {
        true
    } else {
        set_items_ok(g, mi, items, n - 1) && (match items@[n - 1] {
            Value::Object(o) => selector_obj_ok(g, mi, o),
            _ => false,
        })
    }
}

/// The selectors of the first `n` items of a `set` list.
pub open spec fn set_items_val(g: InternalDataModel, mi: int, items: Vec<Value>, n: int) -> Seq<SelectorView>
    decreases items, n,
{
    if n <= 0 || n > items@.len() {
        Seq::empty()
    } else {
        set_items_val(g, mi, items, n - 1).push(
            match items@[n - 1] {
                Value::Object(o) => selector_obj_val(g, mi, o),
                _ => SelectorView { model: mi, field: Seq::empty(), value: ValueView::Null },
            },
        )
    }
}

/// Validity of the first `n` nested operation entries.
pub open spec fn nested_ops_ok(g: InternalDataModel, mi: int, f: int, ops: Vec<(String, Value)>, n: int) -> bool
    decreases ops, n, 3int,
{
    if n <= 0 || n > ops@.len() {
        true
    } else {
        nested_ops_ok(g, mi, f, ops, n - 1) && nested_op_ok(
            g,
            mi,
            f,
            ops@[n - 1].0@,
            ops@[n - 1].1,
        )
    }
}

/// The empty argument-group image.
pub open spec fn empty_mut_args() -> MutArgsView {
    MutArgsView { args: Seq::empty(), lists: Seq::empty(), nested: Seq::empty() }
}

/// The image one nested operation entry denotes.
pub open spec fn nested_op_val(g: InternalDataModel, mi: int, f: int, opk: Seq<char>, u: Value) -> Seq<NestedMutationView>
    decreases u, 2int,
{
    let rel_mi = rf_target(g, mi, f);
    let rfref = RelationFieldRef { model: mi as usize, field: f as usize };
    if opk == "create"@ {
        match u {
            Value::Object(o) => seq![
                NestedMutationView::Create {
                    relation_field: rfref,
                    args: obj_entries_val(g, rel_mi, empty_mut_args(), o, o@.len() as int),
                },
            ],
            _ => Seq::empty(),
        }
    } else if opk == "update"@ {
        match u {
            Value::Object(o) => seq![
                NestedMutationView::Update {
                    relation_field: rfref,
                    args: obj_entries_val(g, rel_mi, empty_mut_args(), o, o@.len() as int),
                },
            ],
            _ => Seq::empty(),
        }
    } else if opk == "upsert"@ {
        match u {
            Value::Object(o) => {
                let cargs = match first_entry_with_key(o, "create"@, 0) {
                    Some(ci) => if 0 <= ci < o@.len() {
                        match o@[ci].1 {
                            Value::Object(oc) => obj_entries_val(
                                g,
                                rel_mi,
                                empty_mut_args(),
                                oc,
                                oc@.len() as int,
                            ),
                            _ => empty_mut_args(),
                        }
                    } else {
                        empty_mut_args()
                    },
                    None => empty_mut_args(),
                };
                let uargs = match first_entry_with_key(o, "update"@, 0) {
                    Some(ui) => if 0 <= ui < o@.len() {
                        match o@[ui].1 {
                            Value::Object(ou) => obj_entries_val(
                                g,
                                rel_mi,
                                empty_mut_args(),
                                ou,
                                ou@.len() as int,
                            ),
                            _ => empty_mut_args(),
                        }
                    } else {
                        empty_mut_args()
                    },
                    None => empty_mut_args(),
                };
                seq![
                    NestedMutationView::Upsert {
                        relation_field: rfref,
                        create: cargs,
                        update: uargs,
                    },
                ]
            },
            _ => Seq::empty(),
        }
    } else if opk == "delete"@ {
        match u {
            Value::Object(o) => seq![
                NestedMutationView::Delete {
                    relation_field: rfref,
                    selector: selector_obj_val(g, rel_mi, o),
                },
            ],
            _ => Seq::empty(),
        }
    } else if opk == "connect"@ {
        match u {
            Value::Object(o) => seq![
                NestedMutationView::Connect {
                    relation_field: rfref,
                    selector: selector_obj_val(g, rel_mi, o),
                },
            ],
            _ => Seq::empty(),
        }
    } else if opk == "disconnect"@ {
        match u {
            Value::Boolean(_) => seq![
                NestedMutationView::Disconnect { relation_field: rfref, selector: None },
            ],
            Value::Object(o) => seq![
                NestedMutationView::Disconnect {
                    relation_field: rfref,
                    selector: Some(selector_obj_val(g, rel_mi, o)),
                },
            ],
            _ => Seq::empty(),
        }
    } else if opk == "set"@ {
        match u {
            Value::Object(o) => seq![
                NestedMutationView::SetLinks {
                    relation_field: rfref,
                    selectors: seq![selector_obj_val(g, rel_mi, o)],
                },
            ],
            Value::List(items) => seq![
                NestedMutationView::SetLinks {
                    relation_field: rfref,
                    selectors: set_items_val(g, rel_mi, items, items@.len() as int),
                },
            ],
            _ => Seq::empty(),
        }
    } else {
        Seq::empty()
    }
}

/// The images the first `n` nested operation entries denote, in order.
pub open spec fn nested_ops_val(g: InternalDataModel, mi: int, f: int, ops: Vec<(String, Value)>, n: int) -> Seq<NestedMutationView>
    decreases ops, n, 3int,
{
    if n <= 0 || n > ops@.len() {
        Seq::empty()
    } else {
        nested_ops_val(g, mi, f, ops, n - 1) + nested_op_val(
            g,
            mi,
            f,
            ops@[n - 1].0@,
            ops@[n - 1].1,
        )
    }
}

/// What folding one argument-object entry into the groups yields.
pub open spec fn entry_val(g: InternalDataModel, mi: int, acc: MutArgsView, k: String, w: Value) -> MutArgsView
    decreases w, 3int,
{
    match relation_field_at(g, mi, k@) {
        Some(idx) => match w {
            Value::Object(ops) => MutArgsView {
                nested: acc.nested + nested_ops_val(g, mi, idx, ops, ops@.len() as int),
                ..acc
            },
            _ => acc,
        },
        None => match w {
            Value::Object(entries) => match first_entry_with_key(entries, "set"@, 0) {
                Some(si) => match entries@[si].1 {
                    Value::List(items) => MutArgsView {
                        lists: acc.lists.push(
                            (k@, Some(list_items_val(items, items@.len() as int))),
                        ),
                        ..acc
                    },
                    _ => acc,
                },
                None => acc,
            },
            _ => match spec_from_value(w) {
                Some(v) => MutArgsView { args: spec_args_insert(acc.args, k@, v), ..acc },
                None => acc,
            },
        },
    }
}

/// What folding the first `n` entries of an argument object yields.
pub open spec fn obj_entries_val(g: InternalDataModel, mi: int, acc: MutArgsView, entries: Vec<(String, Value)>, n: int) -> MutArgsView
    decreases entries, n, 4int,
{
    if n <= 0 || n > entries@.len() {
        acc
    } else {
        entry_val(
            g,
            mi,
            obj_entries_val(g, mi, acc, entries, n - 1),
            entries@[n - 1].0,
            entries@[n - 1].1,
        )
    }
}

/// Validity of a whole argument list: every argument is an object whose
/// entries are valid.
pub open spec fn mut_args_ok(g: InternalDataModel, mi: int, args: Vec<(String, Value)>, n: int) -> bool
    decreases args, n, 5int,
{
    if n <= 0 || n > args@.len() {
        true
    } else {
        mut_args_ok(g, mi, args, n - 1) && (match args@[n - 1].1 {
            Value::Object(entries) => obj_entries_ok(g, mi, entries, entries@.len() as int),
            _ => false,
        })
    }
}

/// What folding a whole argument list yields.
pub open spec fn mut_args_val(g: InternalDataModel, mi: int, acc: MutArgsView, args: Vec<(String, Value)>, n: int) -> MutArgsView
    decreases args, n, 5int,
{
    if n <= 0 || n > args@.len() {
        acc
    } else {
        match args@[n - 1].1 {
            Value::Object(entries) => obj_entries_val(
                g,
                mi,
                mut_args_val(g, mi, acc, args, n - 1),
                entries,
                entries@.len() as int,
            ),
            _ => mut_args_val(g, mi, acc, args, n - 1),
        }
    }
}

/// The combined image of the three executable argument groups.
pub open spec fn triple_view(a: PrismaArgs, l: PrismaListArgs, nm: Vec<NestedMutation>) -> MutArgsView {
    MutArgsView {
        args: args_view(a),
        lists: list_args_view(l),
        nested: nested_views_upto(nm, nm@.len() as int),
    }
}

/// The image of a prefix of nested mutations only reads the elements
/// inside it.
proof fn lemma_nm_views_prefix(a: Vec<NestedMutation>, b: Vec<NestedMutation>, n: int)
    requires
        0 <= n <= a@.len(),
        n <= b@.len(),
        forall|k: int| 0 <= k < n ==> a@[k] == b@[k],
    ensures
        nested_views_upto(a, n) == nested_views_upto(b, n),
    decreases n,
{
    if n > 0 {
        lemma_nm_views_prefix(a, b, n - 1);
    }
}

/// Finds the first entry with the given key.
fn find_entry_key(entries: &Vec<(String, Value)>, key: &String) -> (r: Option<usize>)
    ensures
        r matches Some(i) ==> first_entry_with_key(*entries, key@, 0) == Some(i as int) && i
            < entries@.len(),
        r is None ==> first_entry_with_key(*entries, key@, 0) is None,
{
    let mut i: usize = 0;
    while i < entries.len()
        invariant
            i <= entries@.len(),
            forall|j: int| 0 <= j < i ==> entries@[j].0@ != key@,
        decreases entries@.len() - i,
    {
        if entries[i].0 == *key {
            proof {
                lemma_first_entry_step(*entries, key@, 0, i as int);
            }
            return Some(i);
        }
        i = i + 1;
    }
    proof {
        lemma_first_entry_step_none(*entries, key@, 0);
    }
    None
}

proof fn lemma_first_entry_step(entries: Vec<(String, Value)>, key: Seq<char>, j: int, i: int)
    requires
        0 <= j <= i < entries@.len(),
        entries@[i].0@ == key,
        forall|m: int| 0 <= m < i ==> entries@[m].0@ != key,
    ensures
        first_entry_with_key(entries, key, j) == Some(i),
    decreases i - j,
{
    if j < i {
        lemma_first_entry_step(entries, key, j + 1, i);
    }
}

proof fn lemma_first_entry_step_none(entries: Vec<(String, Value)>, key: Seq<char>, j: int)
    requires
        0 <= j,
        forall|m: int| 0 <= m < entries@.len() ==> entries@[m].0@ != key,
    ensures
        first_entry_with_key(entries, key, j) is None,
    decreases entries@.len() - j,
{
    if j < entries@.len() {
        lemma_first_entry_step_none(entries, key, j + 1);
    }
}

/// Reads a selector object: its first entry must name a scalar field of
/// the model and hold a scalar value.
pub fn selector_from_object(
    g: &InternalDataModel,
    mi: usize,
    entries: &Vec<(String, Value)>,
) -> (r: Result<NodeSelector, CoreError>)
    requires
        mi < g.models_seq().len(),
    ensures
        r matches Ok(sel) ==> selector_obj_ok(*g, mi as int, *entries) && sel@
            == selector_obj_val(*g, mi as int, *entries),
        r matches Err(e) ==> !selector_obj_ok(*g, mi as int, *entries) && e.is_validation(),
{
    if entries.len() == 0 {
        return Err(CoreError::QueryValidationError(String::from_str("Empty selector object")));
    }
    let (k, v) = &entries[0];
    let model = &g.models()[mi];
    match model.find_from_scalar(k) {
        Some(f_idx) => {
            proof {
                assert(crate::args::scalar_field_exists(g.models_seq()[mi as int], k@));
            }
        },
        None => {
            proof {
                assert(!crate::args::scalar_field_exists(g.models_seq()[mi as int], k@));
            }
            return Err(CoreError::QueryValidationError(
                String::from_str("Selector does not name a unique scalar field"),
            ));
        },
    }
    let value = match from_value(v) {
        Ok(pv) => pv,
        Err(e) => {
            return Err(e);
        },
    };
    Ok(NodeSelector { model: mi, field: k.clone(), value })
}

/// Reads the full replacement list of a list-valued argument.
fn parse_list_items(items: &Vec<Value>) -> (r: Result<Vec<PrismaValue>, CoreError>)
    ensures
        r matches Ok(vs) ==> list_items_ok(*items, items@.len() as int) && vals_view(vs@)
            == list_items_val(*items, items@.len() as int),
        r matches Err(e) ==> !list_items_ok(*items, items@.len() as int) && e.is_validation(),
{
    let mut out: Vec<PrismaValue> = Vec::new();
    let mut i: usize = 0;
    while i < items.len()
        invariant
            i <= items@.len(),
            list_items_ok(*items, i as int),
            vals_view(out@) == list_items_val(*items, i as int),
        decreases items@.len() - i,
    {
        match from_value(&items[i]) {
            Ok(pv) => {
                out.push(pv);
            },
            Err(e) => {
                proof {
                    lemma_list_items_not_ok(*items, i as int);
                }
                return Err(e);
            },
        }
        i = i + 1;
        proof {
            assert(vals_view(out@) =~= list_items_val(*items, i as int));
        }
    }
    Ok(out)
}

/// A non-scalar item poisons the whole list.
proof fn lemma_list_items_not_ok(items: Vec<Value>, i: int)
    requires
        0 <= i < items@.len(),
        spec_from_value(items@[i]) is None,
    ensures
        !list_items_ok(items, items@.len() as int),
    decreases items@.len(),
{
    lemma_list_items_not_ok_from(items, i, items@.len() as int);
}

proof fn lemma_list_items_not_ok_from(items: Vec<Value>, i: int, n: int)
    requires
        0 <= i < n <= items@.len(),
        spec_from_value(items@[i]) is None,
    ensures
        !list_items_ok(items, n),
    decreases n,
{
    if i < n - 1 {
        lemma_list_items_not_ok_from(items, i, n - 1);
    }
}

/// Reads the selector list of a `set` instruction.
fn parse_set_items(g: &InternalDataModel, mi: usize, items: &Vec<Value>) -> (r: Result<
    Vec<NodeSelector>,
    CoreError,
>)
    requires
        mi < g.models_seq().len(),
    ensures
        r matches Ok(vs) ==> set_items_ok(*g, mi as int, *items, items@.len() as int)
            && vs@.map_values(|sel: NodeSelector| sel@) == set_items_val(
            *g,
            mi as int,
            *items,
            items@.len() as int,
        ),
        r matches Err(e) ==> !set_items_ok(*g, mi as int, *items, items@.len() as int)
            && e.is_validation(),
{
    let mut out: Vec<NodeSelector> = Vec::new();
    let mut i: usize = 0;
    while i < items.len()
        invariant
            i <= items@.len(),
            mi < g.models_seq().len(),
            set_items_ok(*g, mi as int, *items, i as int),
            out@.map_values(|sel: NodeSelector| sel@) == set_items_val(
                *g,
                mi as int,
                *items,
                i as int,
            ),
        decreases items@.len() - i,
    {
        match &items[i] {
            Value::Object(o) => {
                match selector_from_object(g, mi, o) {
                    Ok(sel) => {
                        out.push(sel);
                    },
                    Err(e) => {
                        proof {
                            lemma_set_items_not_ok(*g, mi as int, *items, i as int);
                        }
                        return Err(e);
                    },
                }
            },
            _ => {
                proof {
                    lemma_set_items_not_ok(*g, mi as int, *items, i as int);
                }
                return Err(CoreError::QueryValidationError(
                    String::from_str("Malformed set instruction"),
                ));
            },
        }
        i = i + 1;
        proof {
            assert(out@.map_values(|sel: NodeSelector| sel@) =~= set_items_val(
                *g,
                mi as int,
                *items,
                i as int,
            ));
        }
    }
    Ok(out)
}

/// An invalid selector item poisons the whole `set` list.
proof fn lemma_set_items_not_ok(g: InternalDataModel, mi: int, items: Vec<Value>, i: int)
    requires
        0 <= i < items@.len(),
        !(match items@[i] {
            Value::Object(o) => selector_obj_ok(g, mi, o),
            _ => false,
        }),
    ensures
        !set_items_ok(g, mi, items, items@.len() as int),
{
    lemma_set_items_not_ok_from(g, mi, items, i, items@.len() as int);
}

proof fn lemma_set_items_not_ok_from(g: InternalDataModel, mi: int, items: Vec<Value>, i: int, n: int)
    requires
        0 <= i < n <= items@.len(),
        !(match items@[i] {
            Value::Object(o) => selector_obj_ok(g, mi, o),
            _ => false,
        }),
    ensures
        !set_items_ok(g, mi, items, n),
    decreases n,
{
    if i < n - 1 {
        lemma_set_items_not_ok_from(g, mi, items, i, n - 1);
    }
}

/// Parses the nested operations under one relation field, appending to
/// the accumulated nested mutations.
fn parse_nested_ops(
    g: &InternalDataModel,
    mi: usize,
    f: usize,
    ops: &Vec<(String, Value)>,
    nm: Vec<NestedMutation>,
) -> (r: Result<Vec<NestedMutation>, CoreError>)
    requires
        g.wf(),
        mi < g.models_seq().len(),
        f < g.models_seq()[mi as int].fields@.len(),
        g.models_seq()[mi as int].fields@[f as int] is Relation,
    ensures
        r matches Ok(out) ==> nested_ops_ok(*g, mi as int, f as int, *ops, ops@.len() as int)
            && nested_views_upto(out, out@.len() as int) == nested_views_upto(
            nm,
            nm@.len() as int,
        ) + nested_ops_val(*g, mi as int, f as int, *ops, ops@.len() as int),
        r matches Err(e) ==> !nested_ops_ok(*g, mi as int, f as int, *ops, ops@.len() as int)
            && e.is_validation(),
    decreases *ops, 6int,
{
    let rel_mi = match &g.models()[mi].fields[f] {
        ModelField::Relation(rf) => rf.related_model,
        ModelField::Scalar(_) => 0,
    };
    proof {
        assert(rel_mi as int == rf_target(*g, mi as int, f as int));
        assert(rel_mi < g.models_seq().len());
    }
    let rfref = RelationFieldRef { model: mi, field: f };
    let ghost nm0 = nm;
    let mut out = nm;
    let mut i: usize = 0;
    while i < ops.len()
        invariant
            i <= ops@.len(),
            g.wf(),
            mi < g.models_seq().len(),
            f < g.models_seq()[mi as int].fields@.len(),
            g.models_seq()[mi as int].fields@[f as int] is Relation,
            rel_mi as int == rf_target(*g, mi as int, f as int),
            rel_mi < g.models_seq().len(),
            rfref == (RelationFieldRef { model: mi, field: f }),
            nested_ops_ok(*g, mi as int, f as int, *ops, i as int),
            nested_views_upto(out, out@.len() as int) == nested_views_upto(nm0, nm0@.len() as int)
                + nested_ops_val(*g, mi as int, f as int, *ops, i as int),
            out@.len() >= nm0@.len(),
        decreases ops@.len() - i, 5int,
    {
        let (opk, u) = &ops[i];
        let ghost old_out = out;
        let op_create = String::from_str("create");
        let op_update = String::from_str("update");
        let op_upsert = String::from_str("upsert");
        let op_delete = String::from_str("delete");
        let op_connect = String::from_str("connect");
        let op_disconnect = String::from_str("disconnect");
        let op_set = String::from_str("set");
        if *opk == op_create || *opk == op_update {
            let o = match u {
                Value::Object(o) => o,
                _ => {
                    proof {
                        lemma_nested_ops_not_ok(*g, mi as int, f as int, *ops, i as int);
                    }
                    return Err(CoreError::QueryValidationError(
                        String::from_str("Malformed nested mutation"),
                    ));
                },
            };
            let a0 = PrismaArgs::new();
            let l0: PrismaListArgs = Vec::new();
            let n0: Vec<NestedMutation> = Vec::new();
            proof {
                assert(triple_view(a0, l0, n0) =~= empty_mut_args()) by {
                    assert(args_view(a0) =~= Seq::<(Seq<char>, ValueView)>::empty());
                    assert(list_args_view(l0) =~= Seq::<
                        (Seq<char>, Option<Seq<ValueView>>),
                    >::empty());
                    assert(nested_views_upto(n0, 0) =~= Seq::<NestedMutationView>::empty());
                }
            }
            let (a2, l2, n2) = match process_entries(g, rel_mi, a0, l0, n0, o) {
                Ok(t) => t,
                Err(e) => {
                    proof {
                        lemma_nested_ops_not_ok(*g, mi as int, f as int, *ops, i as int);
                    }
                    return Err(e);
                },
            };
            if *opk == op_create {
                out.push(
                    NestedMutation::Create {
                        relation_field: rfref,
                        non_list_args: a2,
                        list_args: l2,
                        nested: n2,
                    },
                );
        proof {
            assert(nested_op_ok(*g, mi as int, f as int, ops@[i as int].0@, ops@[i as int].1));
            assert(nested_op_val(*g, mi as int, f as int, ops@[i as int].0@, ops@[i as int].1)
                =~= seq![nested_mutation_view(out@[out@.len() - 1])]);
        }

            } else {
                out.push(
                    NestedMutation::Update {
                        relation_field: rfref,
                        non_list_args: a2,
                        list_args: l2,
                        nested: n2,
                    },
                );
        proof {
            assert(nested_op_ok(*g, mi as int, f as int, ops@[i as int].0@, ops@[i as int].1));
            assert(nested_op_val(*g, mi as int, f as int, ops@[i as int].0@, ops@[i as int].1)
                =~= seq![nested_mutation_view(out@[out@.len() - 1])]);
        }

            }
        } else if *opk == op_upsert {
            let o = match u {
                Value::Object(o) => o,
                _ => {
                    proof {
                        lemma_nested_ops_not_ok(*g, mi as int, f as int, *ops, i as int);
                    }
                    return Err(CoreError::QueryValidationError(
                        String::from_str("Malformed nested mutation"),
                    ));
                },
            };
            let ci = match find_entry_key(o, &op_create) {
                Some(ci) => ci,
                None => {
                    proof {
                        lemma_nested_ops_not_ok(*g, mi as int, f as int, *ops, i as int);
                    }
                    return Err(CoreError::QueryValidationError(
                        String::from_str("Nested upsert needs a create branch"),
                    ));
                },
            };
            let ui = match find_entry_key(o, &op_update) {
                Some(ui) => ui,
                None => {
                    proof {
                        lemma_nested_ops_not_ok(*g, mi as int, f as int, *ops, i as int);
                    }
                    return Err(CoreError::QueryValidationError(
                        String::from_str("Nested upsert needs an update branch"),
                    ));
                },
            };
            let oc = match &o[ci].1 {
                Value::Object(oc) => oc,
                _ => {
                    proof {
                        lemma_nested_ops_not_ok(*g, mi as int, f as int, *ops, i as int);
                    }
                    return Err(CoreError::QueryValidationError(
                        String::from_str("Malformed nested mutation"),
                    ));
                },
            };
            let ou = match &o[ui].1 {
                Value::Object(ou) => ou,
                _ => {
                    proof {
                        lemma_nested_ops_not_ok(*g, mi as int, f as int, *ops, i as int);
                    }
                    return Err(CoreError::QueryValidationError(
                        String::from_str("Malformed nested mutation"),
                    ));
                },
            };
            let ac0 = PrismaArgs::new();
            let lc0: PrismaListArgs = Vec::new();
            let nc0: Vec<NestedMutation> = Vec::new();
            proof {
                assert(triple_view(ac0, lc0, nc0) =~= empty_mut_args()) by {
                    assert(args_view(ac0) =~= Seq::<(Seq<char>, ValueView)>::empty());
                    assert(list_args_view(lc0) =~= Seq::<
                        (Seq<char>, Option<Seq<ValueView>>),
                    >::empty());
                    assert(nested_views_upto(nc0, 0) =~= Seq::<NestedMutationView>::empty());
                }
            }
            let (ca, cl, cn) = match process_entries(
                g,
                rel_mi,
                ac0,
                lc0,
                nc0,
                oc,
            ) {
                Ok(t) => t,
                Err(e) => {
                    proof {
                        lemma_nested_ops_not_ok(*g, mi as int, f as int, *ops, i as int);
                    }
                    return Err(e);
                },
            };
            let au0 = PrismaArgs::new();
            let lu0: PrismaListArgs = Vec::new();
            let nu0: Vec<NestedMutation> = Vec::new();
            proof {
                assert(triple_view(au0, lu0, nu0) =~= empty_mut_args()) by {
                    assert(args_view(au0) =~= Seq::<(Seq<char>, ValueView)>::empty());
                    assert(list_args_view(lu0) =~= Seq::<
                        (Seq<char>, Option<Seq<ValueView>>),
                    >::empty());
                    assert(nested_views_upto(nu0, 0) =~= Seq::<NestedMutationView>::empty());
                }
            }
            let (ua, ul, un) = match process_entries(
                g,
                rel_mi,
                au0,
                lu0,
                nu0,
                ou,
            ) {
                Ok(t) => t,
                Err(e) => {
                    proof {
                        lemma_nested_ops_not_ok(*g, mi as int, f as int, *ops, i as int);
                    }
                    return Err(e);
                },
            };
            out.push(
                NestedMutation::Upsert {
                    relation_field: rfref,
                    create_args: ca,
                    create_list_args: cl,
                    create_nested: cn,
                    update_args: ua,
                    update_list_args: ul,
                    update_nested: un,
                },
            );
        proof {
            assert(nested_op_ok(*g, mi as int, f as int, ops@[i as int].0@, ops@[i as int].1));
            assert(nested_op_val(*g, mi as int, f as int, ops@[i as int].0@, ops@[i as int].1)
                =~= seq![nested_mutation_view(out@[out@.len() - 1])]);
        }

        } else if *opk == op_delete || *opk == op_connect {
            let o = match u {
                Value::Object(o) => o,
                _ => {
                    proof {
                        lemma_nested_ops_not_ok(*g, mi as int, f as int, *ops, i as int);
                    }
                    return Err(CoreError::QueryValidationError(
                        String::from_str("Malformed nested mutation"),
                    ));
                },
            };
            let sel = match selector_from_object(g, rel_mi, o) {
                Ok(sel) => sel,
                Err(e) => {
                    proof {
                        lemma_nested_ops_not_ok(*g, mi as int, f as int, *ops, i as int);
                    }
                    return Err(e);
                },
            };
            if *opk == op_delete {
                out.push(NestedMutation::Delete { relation_field: rfref, where_: sel });
        proof {
            assert(nested_op_ok(*g, mi as int, f as int, ops@[i as int].0@, ops@[i as int].1));
            assert(nested_op_val(*g, mi as int, f as int, ops@[i as int].0@, ops@[i as int].1)
                =~= seq![nested_mutation_view(out@[out@.len() - 1])]);
        }

            } else {
                out.push(NestedMutation::Connect { relation_field: rfref, where_: sel });
        proof {
            assert(nested_op_ok(*g, mi as int, f as int, ops@[i as int].0@, ops@[i as int].1));
            assert(nested_op_val(*g, mi as int, f as int, ops@[i as int].0@, ops@[i as int].1)
                =~= seq![nested_mutation_view(out@[out@.len() - 1])]);
        }

            }
        } else if *opk == op_disconnect {
            match u {
                Value::Boolean(b) => {
                    if *b {
                        out.push(
                            NestedMutation::Disconnect { relation_field: rfref, where_: None },
                        );
        proof {
            assert(nested_op_ok(*g, mi as int, f as int, ops@[i as int].0@, ops@[i as int].1));
            assert(nested_op_val(*g, mi as int, f as int, ops@[i as int].0@, ops@[i as int].1)
                =~= seq![nested_mutation_view(out@[out@.len() - 1])]);
        }

                    } else {
                        proof {
                            lemma_nested_ops_not_ok(*g, mi as int, f as int, *ops, i as int);
                        }
                        return Err(CoreError::QueryValidationError(
                            String::from_str("Malformed nested mutation"),
                        ));
                    }
                },
                Value::Object(o) => {
                    let sel = match selector_from_object(g, rel_mi, o) {
                        Ok(sel) => sel,
                        Err(e) => {
                            proof {
                                lemma_nested_ops_not_ok(*g, mi as int, f as int, *ops, i as int);
                            }
                            return Err(e);
                        },
                    };
                    out.push(
                        NestedMutation::Disconnect {
                            relation_field: rfref,
                            where_: Some(sel),
                        },
                    );
        proof {
            assert(nested_op_ok(*g, mi as int, f as int, ops@[i as int].0@, ops@[i as int].1));
            assert(nested_op_val(*g, mi as int, f as int, ops@[i as int].0@, ops@[i as int].1)
                =~= seq![nested_mutation_view(out@[out@.len() - 1])]);
        }

                },
                _ => {
                    proof {
                        lemma_nested_ops_not_ok(*g, mi as int, f as int, *ops, i as int);
                    }
                    return Err(CoreError::QueryValidationError(
                        String::from_str("Malformed nested mutation"),
                    ));
                },
            }
        } else if *opk == op_set {
            match u {
                Value::Object(o) => {
                    let sel = match selector_from_object(g, rel_mi, o) {
                        Ok(sel) => sel,
                        Err(e) => {
                            proof {
                                lemma_nested_ops_not_ok(*g, mi as int, f as int, *ops, i as int);
                            }
                            return Err(e);
                        },
                    };
                    let mut wheres: Vec<NodeSelector> = Vec::new();
                    wheres.push(sel);
                    proof {
                        assert(wheres@.map_values(|q: NodeSelector| q@) =~= seq![
                            selector_obj_val(*g, rel_mi as int, *o),
                        ]);
                    }
                    out.push(
                        NestedMutation::SetLinks { relation_field: rfref, wheres },
                    );
        proof {
            assert(nested_op_ok(*g, mi as int, f as int, ops@[i as int].0@, ops@[i as int].1));
            assert(nested_op_val(*g, mi as int, f as int, ops@[i as int].0@, ops@[i as int].1)
                =~= seq![nested_mutation_view(out@[out@.len() - 1])]);
        }

                },
                Value::List(items) => {
                    let wheres = match parse_set_items(g, rel_mi, items) {
                        Ok(vs) => vs,
                        Err(e) => {
                            proof {
                                lemma_nested_ops_not_ok(*g, mi as int, f as int, *ops, i as int);
                            }
                            return Err(e);
                        },
                    };
                    out.push(
                        NestedMutation::SetLinks { relation_field: rfref, wheres },
                    );
        proof {
            assert(nested_op_ok(*g, mi as int, f as int, ops@[i as int].0@, ops@[i as int].1));
            assert(nested_op_val(*g, mi as int, f as int, ops@[i as int].0@, ops@[i as int].1)
                =~= seq![nested_mutation_view(out@[out@.len() - 1])]);
        }

                },
                _ => {
                    proof {
                        lemma_nested_ops_not_ok(*g, mi as int, f as int, *ops, i as int);
                    }
                    return Err(CoreError::QueryValidationError(
                        String::from_str("Malformed nested mutation"),
                    ));
                },
            }
        } else {
            proof {
                lemma_nested_ops_not_ok(*g, mi as int, f as int, *ops, i as int);
            }
            return Err(CoreError::QueryValidationError(
                String::from_str("Unknown nested mutation"),
            ));
        }
        i = i + 1;
        proof {
            assert(nested_ops_ok(*g, mi as int, f as int, *ops, i as int));
            lemma_nm_views_prefix(out, old_out, old_out@.len() as int);
            assert(nested_views_upto(out, out@.len() as int) == nested_views_upto(
                out,
                out@.len() as int - 1,
            ).push(nested_mutation_view(out@[out@.len() - 1])));
            assert(nested_views_upto(out, out@.len() as int) =~= nested_views_upto(
                nm0,
                nm0@.len() as int,
            ) + nested_ops_val(*g, mi as int, f as int, *ops, i as int));
        }
    }
    Ok(out)
}

/// An invalid operation entry poisons the whole nested-operation object.
proof fn lemma_nested_ops_not_ok(g: InternalDataModel, mi: int, f: int, ops: Vec<(String, Value)>, i: int)
    requires
        0 <= i < ops@.len(),
        !nested_op_ok(g, mi, f, ops@[i].0@, ops@[i].1),
    ensures
        !nested_ops_ok(g, mi, f, ops, ops@.len() as int),
{
    lemma_nested_ops_not_ok_from(g, mi, f, ops, i, ops@.len() as int);
}

proof fn lemma_nested_ops_not_ok_from(g: InternalDataModel, mi: int, f: int, ops: Vec<(String, Value)>, i: int, n: int)
    requires
        0 <= i < n <= ops@.len(),
        !nested_op_ok(g, mi, f, ops@[i].0@, ops@[i].1),
    ensures
        !nested_ops_ok(g, mi, f, ops, n),
    decreases n,
{
    if i < n - 1 {
        lemma_nested_ops_not_ok_from(g, mi, f, ops, i, n - 1);
    }
}

/// Folds the entries of one argument object into the three groups.
fn process_entries(
    g: &InternalDataModel,
    mi: usize,
    a: PrismaArgs,
    l: PrismaListArgs,
    nm: Vec<NestedMutation>,
    entries: &Vec<(String, Value)>,
) -> (r: Result<(PrismaArgs, PrismaListArgs, Vec<NestedMutation>), CoreError>)
    requires
        g.wf(),
        mi < g.models_seq().len(),
    ensures
        r matches Ok(t) ==> obj_entries_ok(*g, mi as int, *entries, entries@.len() as int)
            && triple_view(t.0, t.1, t.2) == obj_entries_val(
            *g,
            mi as int,
            triple_view(a, l, nm),
            *entries,
            entries@.len() as int,
        ),
        r matches Err(e) ==> !obj_entries_ok(*g, mi as int, *entries, entries@.len() as int)
            && e.is_validation(),
    decreases *entries, 7int,
{
    let ghost acc0 = triple_view(a, l, nm);
    let mut a = a;
    let mut l = l;
    let mut nm = nm;
    let mut i: usize = 0;
    while i < entries.len()
        invariant
            i <= entries@.len(),
            g.wf(),
            mi < g.models_seq().len(),
            obj_entries_ok(*g, mi as int, *entries, i as int),
            triple_view(a, l, nm) == obj_entries_val(*g, mi as int, acc0, *entries, i as int),
        decreases entries@.len() - i, 6int,
    {
        let ghost prev = triple_view(a, l, nm);
        let (k, w) = &entries[i];
        let model = &g.models()[mi];
        let rel_idx: Option<usize> = match model.find_from_all(k) {
            Some(idx) => {
                proof {
                    crate::read::lemma_first_field_pin(*model, k@, idx as int);
                }
                match &model.fields[idx] {
                    ModelField::Relation(_) => Some(idx),
                    ModelField::Scalar(_) => None,
                }
            },
            None => {
                proof {
                    crate::read::lemma_first_field_pin_none(*model, k@);
                }
                None
            },
        };
        match rel_idx {
            Some(idx) => {
                proof {
                    assert(relation_field_at(*g, mi as int, k@) == Some(idx as int));
                }
                let ops = match w {
                    Value::Object(ops) => ops,
                    _ => {
                        proof {
                            lemma_obj_entries_not_ok(*g, mi as int, *entries, i as int);
                        }
                        return Err(CoreError::QueryValidationError(
                            String::from_str("Malformed nested mutation"),
                        ));
                    },
                };
                nm = match parse_nested_ops(g, mi, idx, ops, nm) {
                    Ok(out) => out,
                    Err(e) => {
                        proof {
                            lemma_obj_entries_not_ok(*g, mi as int, *entries, i as int);
                        }
                        return Err(e);
                    },
                };
                proof {
                    assert(entry_ok(*g, mi as int, entries@[i as int].0, entries@[i as int].1));
                    assert(triple_view(a, l, nm) =~= entry_val(
                        *g,
                        mi as int,
                        prev,
                        entries@[i as int].0,
                        entries@[i as int].1,
                    ));
                }
            },
            None => {
                proof {
                    assert(relation_field_at(*g, mi as int, k@) is None);
                }
                match w {
                    Value::Object(o) => {
                        let set_key = String::from_str("set");
                        let si = match find_entry_key(o, &set_key) {
                            Some(si) => si,
                            None => {
                                proof {
                                    lemma_obj_entries_not_ok(*g, mi as int, *entries, i as int);
                                }
                                return Err(CoreError::QueryValidationError(
                                    String::from_str("Malformed argument object"),
                                ));
                            },
                        };
                        let items = match &o[si].1 {
                            Value::List(items) => items,
                            _ => {
                                proof {
                                    lemma_obj_entries_not_ok(*g, mi as int, *entries, i as int);
                                }
                                return Err(CoreError::QueryValidationError(
                                    String::from_str("Malformed set instruction"),
                                ));
                            },
                        };
                        let vs = match parse_list_items(items) {
                            Ok(vs) => vs,
                            Err(e) => {
                                proof {
                                    lemma_obj_entries_not_ok(*g, mi as int, *entries, i as int);
                                }
                                return Err(e);
                            },
                        };
                        l.push((k.clone(), Some(vs)));
                        proof {
                            assert(entry_ok(
                                *g,
                                mi as int,
                                entries@[i as int].0,
                                entries@[i as int].1,
                            ));
                            assert(list_args_view(l) =~= prev.lists.push(
                                (k@, Some(list_items_val(*items, items@.len() as int))),
                            ));
                            assert(triple_view(a, l, nm) =~= entry_val(
                                *g,
                                mi as int,
                                prev,
                                entries@[i as int].0,
                                entries@[i as int].1,
                            ));
                        }
                    },
                    _ => {
                        let pv = match from_value(w) {
                            Ok(pv) => pv,
                            Err(e) => {
                                proof {
                                    lemma_obj_entries_not_ok(*g, mi as int, *entries, i as int);
                                }
                                return Err(e);
                            },
                        };
                        a.insert(k.clone(), pv);
                        proof {
                            assert(entry_ok(
                                *g,
                                mi as int,
                                entries@[i as int].0,
                                entries@[i as int].1,
                            ));
                            assert(triple_view(a, l, nm) =~= entry_val(
                                *g,
                                mi as int,
                                prev,
                                entries@[i as int].0,
                                entries@[i as int].1,
                            ));
                        }
                    },
                }
            },
        }
        i = i + 1;
        proof {
            assert(obj_entries_ok(*g, mi as int, *entries, i as int));
            assert(obj_entries_val(*g, mi as int, acc0, *entries, i as int) == entry_val(
                *g,
                mi as int,
                prev,
                entries@[i as int - 1].0,
                entries@[i as int - 1].1,
            ));
        }
    }
    Ok((a, l, nm))
}

/// An invalid entry poisons the whole argument object.
proof fn lemma_obj_entries_not_ok(g: InternalDataModel, mi: int, entries: Vec<(String, Value)>, i: int)
    requires
        0 <= i < entries@.len(),
        !entry_ok(g, mi, entries@[i].0, entries@[i].1),
    ensures
        !obj_entries_ok(g, mi, entries, entries@.len() as int),
{
    lemma_obj_entries_not_ok_from(g, mi, entries, i, entries@.len() as int);
}

proof fn lemma_obj_entries_not_ok_from(g: InternalDataModel, mi: int, entries: Vec<(String, Value)>, i: int, n: int)
    requires
        0 <= i < n <= entries@.len(),
        !entry_ok(g, mi, entries@[i].0, entries@[i].1),
    ensures
        !obj_entries_ok(g, mi, entries, n),
    decreases n,
{
    if i < n - 1 {
        lemma_obj_entries_not_ok_from(g, mi, entries, i, n - 1);
    }
}

/// Extract string-value pairs into usable mutation arguments: the scalar
/// arguments, the list-replacement instructions and the nested mutations
/// of a mutation's argument list, folded left to right.
pub fn get_mutation_args(
    g: &InternalDataModel,
    mi: usize,
    args: &Vec<(String, Value)>,
) -> (r: Result<(PrismaArgs, PrismaListArgs, Vec<NestedMutation>), CoreError>)
    requires
        g.wf(),
        mi < g.models_seq().len(),
    ensures
        r matches Ok(t) ==> mut_args_ok(*g, mi as int, *args, args@.len() as int) && triple_view(
            t.0,
            t.1,
            t.2,
        ) == mut_args_val(*g, mi as int, empty_mut_args(), *args, args@.len() as int),
        r matches Err(e) ==> !mut_args_ok(*g, mi as int, *args, args@.len() as int)
            && e.is_validation(),
{
    let mut a = PrismaArgs::new();
    let mut l: PrismaListArgs = Vec::new();
    let mut nm: Vec<NestedMutation> = Vec::new();
    proof {
        assert(triple_view(a, l, nm).args =~= empty_mut_args().args);
        assert(triple_view(a, l, nm).lists =~= empty_mut_args().lists);
        assert(triple_view(a, l, nm).nested =~= empty_mut_args().nested);
    }
    let mut i: usize = 0;
    while i < args.len()
        invariant
            i <= args@.len(),
            g.wf(),
            mi < g.models_seq().len(),
            mut_args_ok(*g, mi as int, *args, i as int),
            triple_view(a, l, nm) == mut_args_val(*g, mi as int, empty_mut_args(), *args, i as int),
        decreases args@.len() - i,
    {
        let entries = match &args[i].1 {
            Value::Object(entries) => entries,
            _ => {
                proof {
                    lemma_mut_args_not_ok(*g, mi as int, *args, i as int);
                }
                return Err(CoreError::QueryValidationError(
                    String::from_str("Malformed argument structure"),
                ));
            },
        };
        let (a2, l2, n2) = match process_entries(g, mi, a, l, nm, entries) {
            Ok(t) => t,
            Err(e) => {
                proof {
                    lemma_mut_args_not_ok(*g, mi as int, *args, i as int);
                }
                return Err(e);
            },
        };
        a = a2;
        l = l2;
        nm = n2;
        i = i + 1;
    }
    Ok((a, l, nm))
}

/// An invalid argument poisons the whole argument list.
proof fn lemma_mut_args_not_ok(g: InternalDataModel, mi: int, args: Vec<(String, Value)>, i: int)
    requires
        0 <= i < args@.len(),
        !(match args@[i].1 {
            Value::Object(entries) => obj_entries_ok(g, mi, entries, entries@.len() as int),
            _ => false,
        }),
    ensures
        !mut_args_ok(g, mi, args, args@.len() as int),
{
    lemma_mut_args_not_ok_from(g, mi, args, i, args@.len() as int);
}

proof fn lemma_mut_args_not_ok_from(g: InternalDataModel, mi: int, args: Vec<(String, Value)>, i: int, n: int)
    requires
        0 <= i < n <= args@.len(),
        !(match args@[i].1 {
            Value::Object(entries) => obj_entries_ok(g, mi, entries, entries@.len() as int),
            _ => false,
        }),
    ensures
        !mut_args_ok(g, mi, args, n),
    decreases n,
{
    if i < n - 1 {
        lemma_mut_args_not_ok_from(g, mi, args, i, n - 1);
    }
}

/// The typed write-operation node: one variant per mutation action.
#[derive(Debug)]
pub struct CreateNode {
    pub model: usize,
    pub non_list_args: PrismaArgs,
    pub list_args: PrismaListArgs,
    pub nested_mutations: Vec<NestedMutation>,
}

#[derive(Debug)]
pub struct UpdateNode {
    pub where_: NodeSelector,
    pub non_list_args: PrismaArgs,
    pub list_args: PrismaListArgs,
    pub nested_mutations: Vec<NestedMutation>,
}

#[derive(Debug)]
pub struct DeleteNode {
    pub where_: NodeSelector,
}

#[derive(Debug)]
pub struct DeleteNodes {
    pub model: usize,
    pub filter: Filter,
}

#[derive(Debug)]
pub struct UpsertNode {
    pub where_: NodeSelector,
    pub create: CreateNode,
    pub update: UpdateNode,
}

/// The write-operation tree of one top-level mutation.
#[derive(Debug)]
pub enum WriteQuery {
    CreateNode(CreateNode),
    UpdateNode(UpdateNode),
    DeleteNode(DeleteNode),
    DeleteNodes(DeleteNodes),
    UpsertNode(UpsertNode),
}

/// Mathematical image of a write query.
#[verifier::ext_equal]
pub enum WriteQueryView {
    Create { model: int, args: MutArgsView },
    Update { selector: SelectorView, args: MutArgsView },
    Delete { selector: SelectorView },
    DeleteMany { model: int, filter: Seq<(Seq<char>, ValueView)> },
    Upsert { selector: SelectorView, create: MutArgsView, update: MutArgsView },
}

/// Image of a write query.
pub open spec fn write_query_view(q: WriteQuery) -> WriteQueryView {
    match q {
        WriteQuery::CreateNode(n) => WriteQueryView::Create {
            model: n.model as int,
            args: triple_view(n.non_list_args, n.list_args, n.nested_mutations),
        },
        WriteQuery::UpdateNode(n) => WriteQueryView::Update {
            selector: n.where_@,
            args: triple_view(n.non_list_args, n.list_args, n.nested_mutations),
        },
        WriteQuery::DeleteNode(n) => WriteQueryView::Delete { selector: n.where_@ },
        WriteQuery::DeleteNodes(n) => WriteQueryView::DeleteMany {
            model: n.model as int,
            filter: n.filter@,
        },
        WriteQuery::UpsertNode(n) => WriteQueryView::Upsert {
            selector: n.where_@,
            create: triple_view(
                n.create.non_list_args,
                n.create.list_args,
                n.create.nested_mutations,
            ),
            update: triple_view(
                n.update.non_list_args,
                n.update.list_args,
                n.update.nested_mutations,
            ),
        },
    }
}

/// The node selector a field's arguments denote: the first `where`
/// argument read as a selector object.
pub open spec fn spec_node_selector(g: InternalDataModel, mi: int, args: Vec<(String, Value)>) -> Option<SelectorView> {
    match first_entry_with_key(args, "where"@, 0) {
        Some(wi) => if 0 <= wi < args@.len() {
            match args@[wi].1 {
                Value::Object(o) => if selector_obj_ok(g, mi, o) {
                    Some(selector_obj_val(g, mi, o))
                } else {
                    None
                },
                _ => None,
            }
        } else {
            None
        },
        None => None,
    }
}

/// Reads the node selector out of a field's `where` argument.
pub fn extract_node_selector(g: &InternalDataModel, mi: usize, field: &Field) -> (r: Result<
    NodeSelector,
    CoreError,
>)
    requires
        mi < g.models_seq().len(),
    ensures
        r matches Ok(sel) ==> spec_node_selector(*g, mi as int, field.arguments) == Some(sel@),
        r matches Err(e) ==> spec_node_selector(*g, mi as int, field.arguments) is None
            && e.is_validation(),
{
    let where_key = String::from_str("where");
    let wi = match find_entry_key(&field.arguments, &where_key) {
        Some(wi) => wi,
        None => {
            return Err(CoreError::QueryValidationError(
                String::from_str("Missing where argument"),
            ));
        },
    };
    match &field.arguments[wi].1 {
        Value::Object(o) => selector_from_object(g, mi, o),
        _ => Err(CoreError::QueryValidationError(String::from_str("Malformed where argument"))),
    }
}

/// The filter a `deleteMany` mutation's arguments denote: the first
/// `where` argument's conditions, or no conditions when absent.
pub open spec fn spec_many_filter(g: InternalDataModel, mi: int, args: Vec<(String, Value)>) -> Option<Seq<(Seq<char>, ValueView)>> {
    match first_entry_with_key(args, "where"@, 0) {
        Some(wi) => if 0 <= wi < args@.len() {
            match args@[wi].1 {
                Value::Object(o) => if 0 <= mi < g.models_seq().len() {
                    spec_filter_conditions(g.models_seq()[mi], o@)
                } else {
                    None
                },
                _ => None,
            }
        } else {
            None
        },
        None => Some(Seq::empty()),
    }
}

/// Reads the validated filter of a bulk mutation.
pub fn extract_many_filter(g: &InternalDataModel, mi: usize, field: &Field) -> (r: Result<
    Filter,
    CoreError,
>)
    requires
        mi < g.models_seq().len(),
    ensures
        r matches Ok(fl) ==> spec_many_filter(*g, mi as int, field.arguments) == Some(fl@),
        r matches Err(e) ==> spec_many_filter(*g, mi as int, field.arguments) is None
            && e.is_validation(),
{
    let where_key = String::from_str("where");
    let wi = match find_entry_key(&field.arguments, &where_key) {
        Some(wi) => wi,
        None => {
            let fl = Filter { conditions: Vec::new() };
            proof {
                assert(fl@ =~= Seq::<(Seq<char>, ValueView)>::empty());
            }
            return Ok(fl);
        },
    };
    match &field.arguments[wi].1 {
        Value::Object(o) => {
            let model = &g.models()[mi];
            crate::args::extract_filter_conditions(model, o)
        },
        _ => Err(CoreError::QueryValidationError(String::from_str("Malformed where argument"))),
    }
}

/// A top-level mutation builder: takes a request field and the schema
/// graph and builds a typed write-operation tree from it.
#[derive(Clone, Copy)]
pub struct MutationBuilder<'field> {
    pub internal_data_model: &'field InternalDataModel,
    pub field: &'field Field,
}

/// What building a top-level mutation yields: the parsed action and model,
/// the partitioned arguments, and the action-specific node.
pub open spec fn spec_build_write(g: InternalDataModel, field: Field) -> Result<
    WriteQueryView,
    BuildErrKind,
> {
    let name = spec_mutation_name(field);
    match spec_parse_model_action(g, name) {
        Err(k) => Err(k),
        Ok((op, m)) => if !mut_args_ok(g, m, field.arguments, field.arguments@.len() as int) {
            Err(BuildErrKind::Validation)
        } else {
            let t = mut_args_val(g, m, empty_mut_args(), field.arguments, field.arguments@.len() as int);
            match op {
                Operation::Create => Ok(WriteQueryView::Create { model: m, args: t }),
                Operation::Update => match spec_node_selector(g, m, field.arguments) {
                    Some(sel) => Ok(WriteQueryView::Update { selector: sel, args: t }),
                    None => Err(BuildErrKind::Validation),
                },
                Operation::Delete => match spec_node_selector(g, m, field.arguments) {
                    Some(sel) => Ok(WriteQueryView::Delete { selector: sel }),
                    None => Err(BuildErrKind::Validation),
                },
                Operation::DeleteMany => match spec_many_filter(g, m, field.arguments) {
                    Some(fl) => Ok(WriteQueryView::DeleteMany { model: m, filter: fl }),
                    None => Err(BuildErrKind::Validation),
                },
                Operation::Upsert => match spec_node_selector(g, m, field.arguments) {
                    Some(sel) => Ok(
                        WriteQueryView::Upsert {
                            selector: sel,
                            create: MutArgsView { nested: Seq::empty(), ..t },
                            update: t,
                        },
                    ),
                    None => Err(BuildErrKind::Validation),
                },
                _ => Err(BuildErrKind::Validation),
            }
        },
    }
}

/// The name a mutation is addressed by: its alias when given.
pub open spec fn spec_mutation_name(field: Field) -> Seq<char> {
    match field.alias {
        Some(a) => a@,
        None => field.name@,
    }
}

impl<'field> MutationBuilder<'field> {
    /// Pairs a request field with the schema graph it is parsed against.
    pub fn new(internal_data_model: &'field InternalDataModel, field: &'field Field) -> (r:
        MutationBuilder<'field>)
        ensures
            r.internal_data_model == internal_data_model,
            r.field == field,
    {
        MutationBuilder { internal_data_model, field }
    }

    /// Builds the typed write query the mutation field denotes: the action
    /// and target model from the name, the partitioned arguments, the node
    /// selector or validated filter where the action calls for one.
    pub fn build(self) -> (r: Result<WriteQuery, CoreError>)
        requires
            self.internal_data_model.wf(),
        ensures
            r matches Ok(q) ==> spec_build_write(*self.internal_data_model, *self.field) == Ok::<
                _,
                BuildErrKind,
            >(write_query_view(q)),
            r matches Err(e) ==> (spec_build_write(*self.internal_data_model, *self.field)
                matches Err(k) && err_kind_matches(e, k)),
    {
        let g = self.internal_data_model;
        let field = self.field;
        let name = match &field.alias {
            Some(a) => a,
            None => &field.name,
        };
        let (op, m) = match parse_model_action(name, g) {
            Ok(x) => x,
            Err(e) => {
                return Err(e);
            },
        };
        let (non_list_args, list_args, nested_mutations) = match get_mutation_args(
            g,
            m,
            &field.arguments,
        ) {
            Ok(t) => t,
            Err(e) => {
                return Err(e);
            },
        };
        match op {
            Operation::Create => Ok(
                WriteQuery::CreateNode(
                    CreateNode { model: m, non_list_args, list_args, nested_mutations },
                ),
            ),
            Operation::Update => {
                let where_ = match extract_node_selector(g, m, field) {
                    Ok(sel) => sel,
                    Err(e) => {
                        return Err(e);
                    },
                };
                Ok(
                    WriteQuery::UpdateNode(
                        UpdateNode { where_, non_list_args, list_args, nested_mutations },
                    ),
                )
            },
            Operation::Delete => {
                let where_ = match extract_node_selector(g, m, field) {
                    Ok(sel) => sel,
                    Err(e) => {
                        return Err(e);
                    },
                };
                Ok(WriteQuery::DeleteNode(DeleteNode { where_ }))
            },
            Operation::DeleteMany => {
                let filter = match extract_many_filter(g, m, field) {
                    Ok(fl) => fl,
                    Err(e) => {
                        return Err(e);
                    },
                };
                Ok(WriteQuery::DeleteNodes(DeleteNodes { model: m, filter }))
            },
            Operation::Upsert => {
                let where_ = match extract_node_selector(g, m, field) {
                    Ok(sel) => sel,
                    Err(e) => {
                        return Err(e);
                    },
                };
                let where2 = crate::values::clone_selector(&where_);
                let create = CreateNode {
                    model: m,
                    non_list_args: clone_args(&non_list_args),
                    list_args: clone_list_args(&list_args),
                    nested_mutations: Vec::new(),
                };
                let update = UpdateNode {
                    where_: where2,
                    non_list_args,
                    list_args,
                    nested_mutations,
                };
                proof {
                    assert(nested_views_upto(create.nested_mutations, 0) =~= Seq::<
                        NestedMutationView,
                    >::empty());
                    assert(triple_view(
                        create.non_list_args,
                        create.list_args,
                        create.nested_mutations,
                    ) =~= (MutArgsView {
                        nested: Seq::empty(),
                        ..triple_view(update.non_list_args, update.list_args, update.nested_mutations)
                    }));
                }
                Ok(WriteQuery::UpsertNode(UpsertNode { where_, create, update }))
            },
            _ => Err(CoreError::QueryValidationError(
                String::from_str("Unsupported top-level action"),
            )),
        }
    }
}

/// Appending a pair appends its image.
proof fn lemma_pairs_view_push(s: Seq<(String, PrismaValue)>, p: (String, PrismaValue))
    ensures
        pairs_view(s.push(p)) == pairs_view(s).push((p.0@, p.1@)),
{
    assert(pairs_view(s.push(p)) =~= pairs_view(s).push((p.0@, p.1@)));
}

/// Appending a value appends its image.
proof fn lemma_vals_view_push(s: Seq<PrismaValue>, v: PrismaValue)
    ensures
        vals_view(s.push(v)) == vals_view(s).push(v@),
{
    assert(vals_view(s.push(v)) =~= vals_view(s).push(v@));
}

/// Copies the scalar arguments.
pub fn clone_args(a: &PrismaArgs) -> (r: PrismaArgs)
    ensures
        args_view(r) == args_view(*a),
{
    let mut pairs: Vec<(String, PrismaValue)> = Vec::new();
    proof {
        assert(pairs_view(pairs@) =~= args_view(*a).subrange(0, 0));
    }
    let mut i: usize = 0;
    while i < a.pairs.len()
        invariant
            i <= a.pairs@.len(),
            pairs_view(pairs@) == args_view(*a).subrange(0, i as int),
        decreases a.pairs@.len() - i,
    {
        let (k, v) = &a.pairs[i];
        let kc = k.clone();
        let vc = crate::values::clone_value(v);
        let ghost old_pairs = pairs@;
        pairs.push((kc, vc));
        i = i + 1;
        proof {
            lemma_pairs_view_push(old_pairs, pairs@.last());
            assert(pairs_view(pairs@) =~= args_view(*a).subrange(0, i as int));
        }
    }
    proof {
        assert(args_view(*a).subrange(0, a.pairs@.len() as int) =~= args_view(*a));
    }
    let r = PrismaArgs { pairs };
    proof {
        assert(args_view(r) =~= args_view(*a));
    }
    r
}

/// Copies the list-replacement instructions.
pub fn clone_list_args(l: &PrismaListArgs) -> (r: PrismaListArgs)
    ensures
        list_args_view(r) == list_args_view(*l),
{
    let mut out: PrismaListArgs = Vec::new();
    proof {
        assert(list_args_view(out) =~= list_args_view(*l).subrange(0, 0));
    }
    let mut i: usize = 0;
    while i < l.len()
        invariant
            i <= l@.len(),
            list_args_view(out) == list_args_view(*l).subrange(0, i as int),
        decreases l@.len() - i,
    {
        let (k, ov) = &l[i];
        let copied: Option<Vec<PrismaValue>> = match ov {
            Some(vs) => {
                let mut inner: Vec<PrismaValue> = Vec::new();
                proof {
                    assert(vals_view(inner@) =~= vals_view(vs@).subrange(0, 0));
                }
                let mut j: usize = 0;
                while j < vs.len()
                    invariant
                        j <= vs@.len(),
                        vals_view(inner@) == vals_view(vs@).subrange(0, j as int),
                    decreases vs@.len() - j,
                {
                    let vc = crate::values::clone_value(&vs[j]);
                    let ghost old_inner = inner@;
                    inner.push(vc);
                    j = j + 1;
                    proof {
                        lemma_vals_view_push(old_inner, inner@.last());
                        assert(vals_view(inner@) =~= vals_view(vs@).subrange(0, j as int));
                    }
                }
                proof {
                    assert(vals_view(vs@).subrange(0, vs@.len() as int) =~= vals_view(vs@));
                }
                Some(inner)
            },
            None => None,
        };
        let kc = k.clone();
        let ghost old_out = out@;
        out.push((kc, copied));
        i = i + 1;
        proof {
            assert(list_pairs_view(old_out.push(out@.last())) =~= list_pairs_view(old_out).push(
                list_pair_view(out@.last()),
            ));
            assert(list_args_view(out) =~= list_args_view(*l).subrange(0, i as int));
        }
    }
    proof {
        assert(list_args_view(*l).subrange(0, l@.len() as int) =~= list_args_view(*l));
    }
    out
}

} // verus!
