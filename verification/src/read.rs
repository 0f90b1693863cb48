//! Request shape inference and the read-query tree builder.
//!
//! A root-level field is matched against every model's expected singular
//! and plural request names; a field nested under an already-resolved
//! relation field takes its shape from that field's cardinality alone.
//! Building recurses through the selection sets, validating every selected
//! field and every argument against the schema.

use vstd::prelude::*;
use crate::args::{QueryArguments, QueryArgsView, extract_query_args, spec_extract_args};
use crate::error::{BuildErrKind, CoreError, err_kind_matches};
use crate::inflect::{Inflector, camel_of, camel_case, spec_singularize};
use crate::request::{Field, Selection, field_height, selection_height, lemma_selection_height_le};
use crate::schema::{InternalDataModel, Model, ModelField, RelationFieldRef, field_name};

verus! {

/// One selected field, scalar or relation-typed, by its position in the
/// model's field list.
#[derive(Debug, PartialEq, Eq, Structural, Clone, Copy)]
pub enum SelectedField {
    Scalar { field: usize },
    Relation { field: usize },
}

/// The selected fields of one level of a query, with the relation field
/// the level hangs under, if any.
#[derive(Debug)]
pub struct SelectedFields {
    pub fields: Vec<SelectedField>,
    pub parent: Option<RelationFieldRef>,
}

/// One node of the typed read-operation tree.
#[derive(Debug)]
pub struct RecordQueryNode {
    pub name: String,
    pub model: usize,
    pub selected_fields: SelectedFields,
    pub nested: Vec<ReadQuery>,
    pub selection_order: Vec<String>,
}

#[derive(Debug)]
pub struct ManyRecordsQueryNode {
    pub name: String,
    pub model: usize,
    pub args: QueryArguments,
    pub selected_fields: SelectedFields,
    pub nested: Vec<ReadQuery>,
    pub selection_order: Vec<String>,
}

#[derive(Debug)]
pub struct RelatedRecordQueryNode {
    pub name: String,
    pub parent_field: RelationFieldRef,
    pub selected_fields: SelectedFields,
    pub nested: Vec<ReadQuery>,
    pub selection_order: Vec<String>,
}

#[derive(Debug)]
pub struct ManyRelatedRecordsQueryNode {
    pub name: String,
    pub parent_field: RelationFieldRef,
    pub args: QueryArguments,
    pub selected_fields: SelectedFields,
    pub nested: Vec<ReadQuery>,
    pub selection_order: Vec<String>,
}

/// The typed read-operation tree: one variant per query shape.
#[derive(Debug)]
pub enum ReadQuery {
    RecordQuery(RecordQueryNode),
    ManyRecordsQuery(ManyRecordsQueryNode),
    RelatedRecordQuery(RelatedRecordQueryNode),
    ManyRelatedRecordsQuery(ManyRelatedRecordsQueryNode),
}

/// Mathematical image of one read-query node.
pub struct ReadNodeView {
    pub name: Seq<char>,
    pub model: Option<int>,
    pub parent_field: Option<RelationFieldRef>,
    pub args: Option<QueryArgsView>,
    pub selected: Seq<SelectedField>,
    pub selected_parent: Option<RelationFieldRef>,
    pub order: Seq<Seq<char>>,
    pub nested: Seq<ReadQueryView>,
}

/// Mathematical image of the read-operation tree.
pub enum ReadQueryView {
    Record(ReadNodeView),
    Many(ReadNodeView),
    Related(ReadNodeView),
    ManyRelated(ReadNodeView),
}

/// Image of one tree node, recursing into the nested queries.
pub open spec fn read_query_view(q: ReadQuery) -> ReadQueryView
    decreases q, 0int,
{
    match q {
        ReadQuery::RecordQuery(n) => ReadQueryView::Record(
            ReadNodeView {
                name: n.name@,
                model: Some(n.model as int),
                parent_field: None,
                args: None,
                selected: n.selected_fields.fields@,
                selected_parent: n.selected_fields.parent,
                order: order_view(n.selection_order),
                nested: nested_views(n.nested, n.nested@.len() as int),
            },
        ),
        ReadQuery::ManyRecordsQuery(n) => ReadQueryView::Many(
            ReadNodeView {
                name: n.name@,
                model: Some(n.model as int),
                parent_field: None,
                args: Some(n.args@),
                selected: n.selected_fields.fields@,
                selected_parent: n.selected_fields.parent,
                order: order_view(n.selection_order),
                nested: nested_views(n.nested, n.nested@.len() as int),
            },
        ),
        ReadQuery::RelatedRecordQuery(n) => ReadQueryView::Related(
            ReadNodeView {
                name: n.name@,
                model: None,
                parent_field: Some(n.parent_field),
                args: None,
                selected: n.selected_fields.fields@,
                selected_parent: n.selected_fields.parent,
                order: order_view(n.selection_order),
                nested: nested_views(n.nested, n.nested@.len() as int),
            },
        ),
        ReadQuery::ManyRelatedRecordsQuery(n) => ReadQueryView::ManyRelated(
            ReadNodeView {
                name: n.name@,
                model: None,
                parent_field: Some(n.parent_field),
                args: Some(n.args@),
                selected: n.selected_fields.fields@,
                selected_parent: n.selected_fields.parent,
                order: order_view(n.selection_order),
                nested: nested_views(n.nested, n.nested@.len() as int),
            },
        ),
    }
}

/// Images of the first `n` nested queries.
pub open spec fn nested_views(nested: Vec<ReadQuery>, n: int) -> Seq<ReadQueryView>
    decreases nested, n,
{
    if n <= 0 || n > nested@.len() {
        Seq::empty()
    } else {
        nested_views(nested, n - 1).push(read_query_view(nested@[n - 1]))
    }
}

/// Images of the selection-order names.
pub open spec fn order_view(order: Vec<String>) -> Seq<Seq<char>> {
    order@.map_values(|s: String| s@)
}

/// A query builder in the making: the model it aims at, the request field
/// it reads, and the relation field it hangs under, if any.
#[derive(Debug, Clone, Copy)]
pub struct BuilderCore<'field> {
    pub model: usize,
    pub field: &'field Field,
    pub parent: Option<RelationFieldRef>,
}

/// The four query shapes a request field can denote.
#[derive(Debug, Clone, Copy)]
pub enum Builder<'field> {
    Single(BuilderCore<'field>),
    Many(BuilderCore<'field>),
    OneRelation(BuilderCore<'field>),
    ManyRelation(BuilderCore<'field>),
}

/// Mathematical image of a builder core.
pub struct BuilderCoreView {
    pub model: int,
    pub field: Field,
    pub parent: Option<RelationFieldRef>,
}

/// Mathematical image of a builder.
pub enum BuilderView {
    Single(BuilderCoreView),
    Many(BuilderCoreView),
    OneRelation(BuilderCoreView),
    ManyRelation(BuilderCoreView),
}

pub open spec fn core_view(c: BuilderCore) -> BuilderCoreView {
    BuilderCoreView { model: c.model as int, field: *c.field, parent: c.parent }
}

pub open spec fn builder_view(b: Builder) -> BuilderView {
    match b {
        Builder::Single(c) => BuilderView::Single(core_view(c)),
        Builder::Many(c) => BuilderView::Many(core_view(c)),
        Builder::OneRelation(c) => BuilderView::OneRelation(core_view(c)),
        Builder::ManyRelation(c) => BuilderView::ManyRelation(core_view(c)),
    }
}

/// The builder core behind any variant.
pub open spec fn view_core(bv: BuilderView) -> BuilderCoreView {
    match bv {
        BuilderView::Single(c) => c,
        BuilderView::Many(c) => c,
        BuilderView::OneRelation(c) => c,
        BuilderView::ManyRelation(c) => c,
    }
}

/// The expected singular request name of a model: camel-cased, with the
/// explicit irregular override checked first.
pub open spec fn spec_normalized_name(g: InternalDataModel, m: int) -> Seq<char> {
    if g.models_seq()[m].name@ == "AUser"@ {
        "aUser"@
    } else {
        camel_of(g.models_seq()[m].name@)
    }
}

/// Which shape a request field denotes on a model: nested under a relation
/// field, the relation's cardinality decides alone; at the root, the
/// field name is matched against the model's singular request name and,
/// singularized, against its plural form.
pub open spec fn spec_infer(
    g: InternalDataModel,
    m: int,
    field: Field,
    parent: Option<RelationFieldRef>,
) -> Option<BuilderView> {
    match parent {
        Some(p) => if g.rf_at(p).is_list {
            Some(
                BuilderView::ManyRelation(
                    BuilderCoreView { model: m, field, parent: Some(p) },
                ),
            )
        } else {
            Some(
                BuilderView::OneRelation(
                    BuilderCoreView { model: m, field, parent: Some(p) },
                ),
            )
        },
        None => if field.name@ == spec_normalized_name(g, m) {
            Some(BuilderView::Single(BuilderCoreView { model: m, field, parent: None }))
        } else if spec_singularize(field.name@) == spec_normalized_name(g, m) {
            Some(BuilderView::Many(BuilderCoreView { model: m, field, parent: None }))
        } else {
            None
        },
    }
}

impl<'field> Builder<'field> {
    /// The core common to every variant.
    pub fn inner(&self) -> (r: &BuilderCore<'field>)
        ensures
            core_view(*r) == view_core(builder_view(*self)),
    {
        match self {
            Builder::Single(c) => c,
            Builder::Many(c) => c,
            Builder::OneRelation(c) => c,
            Builder::ManyRelation(c) => c,
        }
    }

    /// Infer the shape of builder a field denotes on one model.
    pub fn infer(
        g: &InternalDataModel,
        m: usize,
        field: &'field Field,
        parent: Option<RelationFieldRef>,
    ) -> (r: Option<Builder<'field>>)
        requires
            m < g.models_seq().len(),
            parent matches Some(p) ==> g.rf_in_range(p),
        ensures
            match r {
                Some(b) => spec_infer(*g, m as int, *field, parent) == Some(builder_view(b)),
                None => spec_infer(*g, m as int, *field, parent) is None,
            },
    {
        match parent {
            Some(p) => {
                let fields = &g.models()[p.model].fields;
                let is_list = match &fields[p.field] {
                    ModelField::Relation(rf) => rf.is_list,
                    ModelField::Scalar(_) => false,
                };
                if is_list {
                    Some(
                        Builder::ManyRelation(
                            BuilderCore { model: m, field, parent: Some(p) },
                        ),
                    )
                } else {
                    Some(
                        Builder::OneRelation(
                            BuilderCore { model: m, field, parent: Some(p) },
                        ),
                    )
                }
            },
            None => {
                let model_name = &g.models()[m].name;
                let normalized = if *model_name == String::from_str("AUser") {
                    String::from_str("aUser")
                } else {
                    camel_case(model_name)
                };
                if field.name == normalized {
                    Some(Builder::Single(BuilderCore { model: m, field, parent: None }))
                } else if Inflector::singularize(&field.name) == normalized {
                    Some(Builder::Many(BuilderCore { model: m, field, parent: None }))
                } else {
                    None
                }
            },
        }
    }

    /// The first model whose request names match the root field.
    pub open spec fn spec_new_from(g: InternalDataModel, field: Field, m: int) -> Option<
        BuilderView,
    >
        decreases g.models_seq().len() - m,
    {
        if m < 0 || m >= g.models_seq().len() {
            None
        } else {
            match spec_infer(g, m, field, None) {
                Some(b) => Some(b),
                None => Self::spec_new_from(g, field, m + 1),
            }
        }
    }

    /// Resolves a root-level field: the first model whose singular or
    /// plural request name matches, or a validation error naming the field
    /// when none does.
    pub fn new(g: &InternalDataModel, root_field: &'field Field) -> (r: Result<
        Builder<'field>,
        CoreError,
    >)
        ensures
            r matches Ok(b) ==> Self::spec_new_from(*g, *root_field, 0) == Some(builder_view(b))
                && builder_wf(*g, builder_view(b)),
            r matches Err(e) ==> Self::spec_new_from(*g, *root_field, 0) is None
                && e.is_validation(),
    {
        let n = g.models().len();
        let mut m: usize = 0;
        while m < n
            invariant
                m <= n,
                n == g.models_seq().len(),
                Self::spec_new_from(*g, *root_field, 0) == Self::spec_new_from(
                    *g,
                    *root_field,
                    m as int,
                ),
            decreases n - m,
        {
            match Self::infer(g, m, root_field, None) {
                Some(b) => {
                    proof {
                        assert(builder_wf(*g, builder_view(b)));
                    }
                    return Ok(b);
                },
                None => {},
            }
            m = m + 1;
        }
        Err(CoreError::QueryValidationError(String::from_str("Model not found for field")))
    }
}

/// The display name of a field: its alias when given, else its name.
pub open spec fn spec_display_name(f: Field) -> Seq<char> {
    match f.alias {
        Some(a) => a@,
        None => f.name@,
    }
}

/// The selection order of the first `n` selection items: the display name
/// of each field item, fragments skipped.
pub open spec fn spec_selection_order(sels: Seq<Selection>, n: int) -> Seq<Seq<char>>
    decreases n,
{
    if n <= 0 || n > sels.len() {
        Seq::empty()
    } else {
        match sels[n - 1] {
            Selection::Field(f) => spec_selection_order(sels, n - 1).push(spec_display_name(f)),
            _ => spec_selection_order(sels, n - 1),
        }
    }
}

/// Collects the response order of a selection set: the alias of each
/// selected field, or its name where no alias is given.
pub fn collect_selection_order(field: &Field) -> (r: Vec<String>)
    ensures
        order_view(r) == spec_selection_order(
            field.selection_set@,
            field.selection_set@.len() as int,
        ),
{
    let mut out: Vec<String> = Vec::new();
    let mut i: usize = 0;
    while i < field.selection_set.len()
        invariant
            i <= field.selection_set@.len(),
            order_view(out) == spec_selection_order(field.selection_set@, i as int),
        decreases field.selection_set@.len() - i,
    {
        match &field.selection_set[i] {
            Selection::Field(f) => {
                let name = match &f.alias {
                    Some(a) => a.clone(),
                    None => f.name.clone(),
                };
                out.push(name);
            },
            Selection::FragmentSpread => {},
            Selection::InlineFragment => {},
        }
        i = i + 1;
        proof {
            assert(order_view(out) =~= spec_selection_order(field.selection_set@, i as int));
        }
    }
    out
}

/// The first field of the model with the given name, searching from `i`.
pub open spec fn first_field_from(model: Model, name: Seq<char>, i: int) -> Option<int>
    decreases model.fields@.len() - i,
{
    if i < 0 || i >= model.fields@.len() {
        None
    } else if field_name(model.fields@[i]) == name {
        Some(i)
    } else {
        first_field_from(model, name, i + 1)
    }
}

/// The first field of the model with the given name.
pub open spec fn first_field_named(model: Model, name: Seq<char>) -> Option<int> {
    first_field_from(model, name, 0)
}

/// The first-match contract of `find_from_all` pins `first_field_named`.
proof fn lemma_first_field_some(model: Model, name: Seq<char>, f: int, i: int)
    requires
        0 <= i <= f < model.fields@.len(),
        field_name(model.fields@[f]) == name,
        forall|j: int| 0 <= j < f ==> field_name(model.fields@[j]) != name,
    ensures
        first_field_from(model, name, i) == Some(f),
    decreases model.fields@.len() - i,
{
    if i < f {
        lemma_first_field_some(model, name, f, i + 1);
    }
}

proof fn lemma_first_field_none(model: Model, name: Seq<char>, i: int)
    requires
        forall|j: int| 0 <= j < model.fields@.len() ==> field_name(model.fields@[j]) != name,
        0 <= i,
    ensures
        first_field_from(model, name, i) is None,
    decreases model.fields@.len() - i,
{
    if i < model.fields@.len() {
        lemma_first_field_none(model, name, i + 1);
    }
}

/// The first-match facts of `find_from_all` pin `first_field_named`.
pub proof fn lemma_first_field_pin(model: Model, name: Seq<char>, f: int)
    requires
        0 <= f < model.fields@.len(),
        field_name(model.fields@[f]) == name,
        forall|j: int| 0 <= j < f ==> field_name(model.fields@[j]) != name,
    ensures
        first_field_named(model, name) == Some(f),
{
    lemma_first_field_some(model, name, f, 0);
}

/// No field of the name means no first field of the name.
pub proof fn lemma_first_field_pin_none(model: Model, name: Seq<char>)
    requires
        forall|j: int| 0 <= j < model.fields@.len() ==> field_name(model.fields@[j]) != name,
    ensures
        first_field_named(model, name) is None,
{
    lemma_first_field_none(model, name, 0);
}

/// What one selection item resolves to on a model: fragments are not
/// supported, an unknown name is a validation error, a known name selects
/// the field by position and kind.
pub open spec fn spec_select_one(model: Model, sel: Selection) -> Result<
    SelectedField,
    BuildErrKind,
> {
    match sel {
        Selection::Field(f) => match first_field_named(model, f.name@) {
            None => Err(BuildErrKind::Validation),
            Some(idx) => match model.fields@[idx] {
                ModelField::Scalar(_) => Ok(SelectedField::Scalar { field: idx as usize }),
                ModelField::Relation(_) => Ok(SelectedField::Relation { field: idx as usize }),
            },
        },
        _ => Err(BuildErrKind::Unsupported),
    }
}

/// What the first `n` selection items resolve to, first error first.
pub open spec fn spec_selected_upto(model: Model, sels: Seq<Selection>, n: int) -> Result<
    Seq<SelectedField>,
    BuildErrKind,
>
    decreases n,
{
    if n <= 0 || n > sels.len() {
        Ok(Seq::empty())
    } else {
        match spec_selected_upto(model, sels, n - 1) {
            Err(k) => Err(k),
            Ok(acc) => match spec_select_one(model, sels[n - 1]) {
                Err(k) => Err(k),
                Ok(sf) => Ok(acc.push(sf)),
            },
        }
    }
}

/// Resolves every selected sub-field of a selection set against the
/// model: each must name an existing scalar or relation field; fragments
/// and fragment spreads are unsupported.
pub fn collect_selected_fields(
    model: &Model,
    field: &Field,
    parent: Option<RelationFieldRef>,
) -> (r: Result<SelectedFields, CoreError>)
    ensures
        r matches Ok(sf) ==> spec_selected_upto(
            *model,
            field.selection_set@,
            field.selection_set@.len() as int,
        ) == Ok::<_, BuildErrKind>(sf.fields@) && sf.parent == parent,
        r matches Err(e) ==> (spec_selected_upto(
            *model,
            field.selection_set@,
            field.selection_set@.len() as int,
        ) matches Err(k) && err_kind_matches(e, k)),
{
    let mut out: Vec<SelectedField> = Vec::new();
    let mut i: usize = 0;
    while i < field.selection_set.len()
        invariant
            i <= field.selection_set@.len(),
            spec_selected_upto(*model, field.selection_set@, i as int) == Ok::<
                _,
                BuildErrKind,
            >(out@),
        decreases field.selection_set@.len() - i,
    {
        match &field.selection_set[i] {
            Selection::Field(f) => {
                match model.find_from_all(&f.name) {
                    Some(idx) => {
                        proof {
                            lemma_first_field_some(*model, f.name@, idx as int, 0);
                            lemma_selected_still_err(*model, field.selection_set@, i as int);
                        }
                        match &model.fields[idx] {
                            ModelField::Scalar(_) => {
                                out.push(SelectedField::Scalar { field: idx });
                            },
                            ModelField::Relation(_) => {
                                out.push(SelectedField::Relation { field: idx });
                            },
                        }
                    },
                    None => {
                        proof {
                            lemma_first_field_none(*model, f.name@, 0);
                            lemma_selected_still_err(*model, field.selection_set@, i as int);
                        }
                        return Err(CoreError::QueryValidationError(
                            String::from_str("Selected field not found on model"),
                        ));
                    },
                }
            },
            Selection::FragmentSpread => {
                proof {
                    lemma_selected_still_err(*model, field.selection_set@, i as int);
                }
                return Err(CoreError::UnsupportedFeatureError(
                    String::from_str("Fragments and inline fragment spreads"),
                ));
            },
            Selection::InlineFragment => {
                proof {
                    lemma_selected_still_err(*model, field.selection_set@, i as int);
                }
                return Err(CoreError::UnsupportedFeatureError(
                    String::from_str("Fragments and inline fragment spreads"),
                ));
            },
        }
        i = i + 1;
    }
    Ok(SelectedFields { fields: out, parent })
}

/// An error at item `i` is the verdict of every longer prefix whose items
/// before `i` resolve.
proof fn lemma_selected_still_err(model: Model, sels: Seq<Selection>, i: int)
    requires
        0 <= i < sels.len(),
        spec_selected_upto(model, sels, i) is Ok,
    ensures
        spec_select_one(model, sels[i]) matches Err(k) ==> spec_selected_upto(
            model,
            sels,
            sels.len() as int,
        ) == Err::<Seq<SelectedField>, _>(k),
        spec_select_one(model, sels[i]) matches Ok(sf) ==> spec_selected_upto(model, sels, i + 1)
            == Ok::<_, BuildErrKind>(spec_selected_upto(model, sels, i)->Ok_0.push(sf)),
    decreases sels.len() - i,
{
    if spec_select_one(model, sels[i]) is Err {
        lemma_selected_err_propagates(model, sels, i + 1);
    }
}

/// Once a prefix errs, every longer prefix errs the same way.
proof fn lemma_selected_err_propagates(model: Model, sels: Seq<Selection>, n: int)
    requires
        0 < n <= sels.len(),
        spec_selected_upto(model, sels, n) is Err,
    ensures
        spec_selected_upto(model, sels, sels.len() as int) == spec_selected_upto(model, sels, n),
    decreases sels.len() - n,
{
    if n < sels.len() {
        lemma_selected_err_propagates(model, sels, n + 1);
    }
}

/// A builder aims at an existing model and hangs under an existing
/// relation field.
pub open spec fn builder_wf(g: InternalDataModel, bv: BuilderView) -> bool {
    &&& 0 <= view_core(bv).model < g.models_seq().len()
    &&& (view_core(bv).parent matches Some(p) ==> g.rf_in_range(p))
    &&& ((bv is OneRelation || bv is ManyRelation) ==> view_core(bv).parent is Some)
}

/// What the relation sub-selections of the first `n` selection items
/// become: one nested builder per relation field selected, scalars
/// skipped, unknown names and fragments refused.
pub open spec fn spec_nested_upto(
    g: InternalDataModel,
    mi: int,
    sels: Seq<Selection>,
    n: int,
) -> Result<Seq<BuilderView>, BuildErrKind>
    decreases n,
{
    if n <= 0 || n > sels.len() {
        Ok(Seq::empty())
    } else {
        match spec_nested_upto(g, mi, sels, n - 1) {
            Err(k) => Err(k),
            Ok(acc) => match sels[n - 1] {
                Selection::Field(x) => match first_field_named(g.models_seq()[mi], x.name@) {
                    None => Err(BuildErrKind::Validation),
                    Some(idx) => match g.models_seq()[mi].fields@[idx] {
                        ModelField::Scalar(_) => Ok(acc),
                        ModelField::Relation(rf) => match spec_infer(
                            g,
                            rf.related_model as int,
                            x,
                            Some(RelationFieldRef { model: mi as usize, field: idx as usize }),
                        ) {
                            Some(b) => Ok(acc.push(b)),
                            None => Err(BuildErrKind::Validation),
                        },
                    },
                },
                _ => Err(BuildErrKind::Unsupported),
            },
        }
    }
}

/// Collects one nested builder per selected relation field; their shapes
/// are decided by the relation fields' cardinality.
pub fn collect_nested_queries<'field>(
    g: &InternalDataModel,
    mi: usize,
    field: &'field Field,
) -> (r: Result<Vec<Builder<'field>>, CoreError>)
    requires
        g.wf(),
        mi < g.models_seq().len(),
    ensures
        r matches Ok(bs) ==> spec_nested_upto(
            *g,
            mi as int,
            field.selection_set@,
            field.selection_set@.len() as int,
        ) == Ok::<_, BuildErrKind>(bs@.map_values(|b: Builder<'field>| builder_view(b)))
            && (forall|k: int|
            0 <= k < bs@.len() ==> builder_wf(*g, builder_view(#[trigger] bs@[k]))
                && field_height(view_core(builder_view(bs@[k])).field) < field_height(*field)),
        r matches Err(e) ==> (spec_nested_upto(
            *g,
            mi as int,
            field.selection_set@,
            field.selection_set@.len() as int,
        ) matches Err(k) && err_kind_matches(e, k)),
{
    let model = &g.models()[mi];
    let mut out: Vec<Builder<'field>> = Vec::new();
    proof {
        assert(out@.map_values(|b: Builder<'field>| builder_view(b)) =~= Seq::<
            BuilderView,
        >::empty());
    }
    let mut i: usize = 0;
    while i < field.selection_set.len()
        invariant
            i <= field.selection_set@.len(),
            g.wf(),
            mi < g.models_seq().len(),
            *model == g.models_seq()[mi as int],
            spec_nested_upto(*g, mi as int, field.selection_set@, i as int) == Ok::<
                _,
                BuildErrKind,
            >(out@.map_values(|b: Builder<'field>| builder_view(b))),
            forall|k: int|
                0 <= k < out@.len() ==> builder_wf(*g, builder_view(#[trigger] out@[k]))
                    && field_height(view_core(builder_view(out@[k])).field) < field_height(
                    *field,
                ),
        decreases field.selection_set@.len() - i,
    {
        match &field.selection_set[i] {
            Selection::Field(x) => {
                match model.find_from_all(&x.name) {
                    Some(idx) => {
                        proof {
                            lemma_first_field_some(*model, x.name@, idx as int, 0);
                            lemma_nested_still_err(*g, mi as int, field.selection_set@, i as int);
                        }
                        match &model.fields[idx] {
                            ModelField::Scalar(_) => {},
                            ModelField::Relation(rf) => {
                                let parent_ref = RelationFieldRef { model: mi, field: idx };
                                proof {
                                    assert(g.rf_in_range(parent_ref));
                                    lemma_selection_height_le(
                                        field.selection_set,
                                        i as int,
                                        field.selection_set@.len() as int,
                                    );
                                }
                                let b = match Builder::infer(
                                    g,
                                    rf.related_model,
                                    x,
                                    Some(parent_ref),
                                ) {
                                    Some(b) => b,
                                    None => {
                                        proof {
                                            assert(false);
                                        }
                                        return Err(CoreError::QueryValidationError(
                                            String::from_str("Unresolvable nested selection"),
                                        ));
                                    },
                                };
                                out.push(b);
                            },
                        }
                    },
                    None => {
                        proof {
                            lemma_first_field_none(*model, x.name@, 0);
                            lemma_nested_still_err(*g, mi as int, field.selection_set@, i as int);
                        }
                        return Err(CoreError::QueryValidationError(
                            String::from_str("Selected field not found on model"),
                        ));
                    },
                }
            },
            Selection::FragmentSpread => {
                proof {
                    lemma_nested_still_err(*g, mi as int, field.selection_set@, i as int);
                }
                return Err(CoreError::UnsupportedFeatureError(
                    String::from_str("Fragments and inline fragment spreads"),
                ));
            },
            Selection::InlineFragment => {
                proof {
                    lemma_nested_still_err(*g, mi as int, field.selection_set@, i as int);
                }
                return Err(CoreError::UnsupportedFeatureError(
                    String::from_str("Fragments and inline fragment spreads"),
                ));
            },
        }
        i = i + 1;
        proof {
            assert(spec_nested_upto(*g, mi as int, field.selection_set@, i as int) is Ok);
            assert(out@.map_values(|b: Builder<'field>| builder_view(b))
                =~= spec_nested_upto(*g, mi as int, field.selection_set@, i as int)->Ok_0);
        }
    }
    Ok(out)
}

/// Stepping past item `i` of the nested-builder fold.
proof fn lemma_nested_still_err(g: InternalDataModel, mi: int, sels: Seq<Selection>, i: int)
    requires
        0 <= i < sels.len(),
        spec_nested_upto(g, mi, sels, i) is Ok,
    ensures
        spec_nested_step(g, mi, sels[i]) matches Err(k) ==> spec_nested_upto(
            g,
            mi,
            sels,
            sels.len() as int,
        ) == Err::<Seq<BuilderView>, _>(k),
    decreases sels.len() - i,
{
    if spec_nested_step(g, mi, sels[i]) is Err {
        assert(spec_nested_upto(g, mi, sels, i + 1) == spec_nested_step(g, mi, sels[i]));
        lemma_nested_err_propagates(g, mi, sels, i + 1);
    }
}

/// The verdict of one selection item inside the nested-builder fold,
/// without the accumulated prefix.
pub open spec fn spec_nested_step(g: InternalDataModel, mi: int, sel: Selection) -> Result<
    Seq<BuilderView>,
    BuildErrKind,
> {
    match sel {
        Selection::Field(x) => match first_field_named(g.models_seq()[mi], x.name@) {
            None => Err(BuildErrKind::Validation),
            Some(idx) => match g.models_seq()[mi].fields@[idx] {
                ModelField::Scalar(_) => Ok(Seq::empty()),
                ModelField::Relation(rf) => match spec_infer(
                    g,
                    rf.related_model as int,
                    x,
                    Some(RelationFieldRef { model: mi as usize, field: idx as usize }),
                ) {
                    Some(b) => Ok(Seq::empty()),
                    None => Err(BuildErrKind::Validation),
                },
            },
        },
        _ => Err(BuildErrKind::Unsupported),
    }
}

/// Once the nested-builder fold errs, every longer prefix errs the same.
proof fn lemma_nested_err_propagates(g: InternalDataModel, mi: int, sels: Seq<Selection>, n: int)
    requires
        0 < n <= sels.len(),
        spec_nested_upto(g, mi, sels, n) is Err,
    ensures
        spec_nested_upto(g, mi, sels, sels.len() as int) == spec_nested_upto(g, mi, sels, n),
    decreases sels.len() - n,
{
    if n < sels.len() {
        lemma_nested_err_propagates(g, mi, sels, n + 1);
    }
}

/// What building one shaped builder yields: the selected fields, the
/// recognized arguments where the shape is a collection, and the nested
/// queries, each validated against the schema; the first offending piece
/// decides the error.
pub open spec fn spec_build(g: InternalDataModel, bv: BuilderView) -> Result<
    ReadQueryView,
    BuildErrKind,
>
    decreases field_height(view_core(bv).field), 2int, 0int,
{
    let c = view_core(bv);
    if !(0 <= c.model < g.models_seq().len()) {
        Err(BuildErrKind::Validation)
    } else {
        let model = g.models_seq()[c.model];
        let sels = c.field.selection_set@;
        match spec_selected_upto(model, sels, sels.len() as int) {
            Err(k) => Err(k),
            Ok(selected) => {
                let args = spec_extract_args(model, c.field.arguments@);
                let needs_args = bv is Many || bv is ManyRelation;
                if needs_args && args is None {
                    Err(BuildErrKind::Validation)
                } else {
                    match spec_nested_upto(g, c.model, sels, sels.len() as int) {
                        Err(k) => Err(k),
                        Ok(nbs) => match spec_build_list(g, nbs, field_height(c.field)) {
                            Err(k) => Err(k),
                            Ok(nested) => {
                                let node = ReadNodeView {
                                    name: spec_display_name(c.field),
                                    model: if bv is Single || bv is Many {
                                        Some(c.model)
                                    } else {
                                        None
                                    },
                                    parent_field: if bv is Single || bv is Many {
                                        None
                                    } else {
                                        c.parent
                                    },
                                    args: if needs_args {
                                        Some(args->Some_0)
                                    } else {
                                        None
                                    },
                                    selected,
                                    selected_parent: c.parent,
                                    order: spec_selection_order(sels, sels.len() as int),
                                    nested,
                                };
                                match bv {
                                    BuilderView::Single(_) => Ok(ReadQueryView::Record(node)),
                                    BuilderView::Many(_) => Ok(ReadQueryView::Many(node)),
                                    BuilderView::OneRelation(_) => Ok(
                                        ReadQueryView::Related(node),
                                    ),
                                    BuilderView::ManyRelation(_) => Ok(
                                        ReadQueryView::ManyRelated(node),
                                    ),
                                }
                            },
                        },
                    }
                }
            },
        }
    }
}

/// What building a list of nested builders yields, each bounded in height
/// by `h`; the guard keeps the definition total.
pub open spec fn spec_build_list(g: InternalDataModel, bs: Seq<BuilderView>, h: nat) -> Result<
    Seq<ReadQueryView>,
    BuildErrKind,
>
    decreases h, 0int, bs.len(),
{
    if bs.len() == 0 {
        Ok(Seq::empty())
    } else {
        match spec_build_list(g, bs.drop_last(), h) {
            Err(k) => Err(k),
            Ok(acc) => if field_height(view_core(bs.last()).field) < h {
                match spec_build(g, bs.last()) {
                    Err(k) => Err(k),
                    Ok(q) => Ok(acc.push(q)),
                }
            } else {
                Err(BuildErrKind::Validation)
            },
        }
    }
}

/// Builds every nested builder in order, fail-fast.
fn build_nested_queries<'field>(
    g: &InternalDataModel,
    builders: Vec<Builder<'field>>,
    Ghost(h): Ghost<nat>,
) -> (r: Result<Vec<ReadQuery>, CoreError>)
    requires
        g.wf(),
        forall|k: int|
            0 <= k < builders@.len() ==> builder_wf(*g, builder_view(#[trigger] builders@[k]))
                && field_height(view_core(builder_view(builders@[k])).field) < h,
    ensures
        r matches Ok(qs) ==> spec_build_list(
            *g,
            builders@.map_values(|b: Builder<'field>| builder_view(b)),
            h,
        ) == Ok::<_, BuildErrKind>(nested_views(qs, qs@.len() as int)),
        r matches Err(e) ==> (spec_build_list(
            *g,
            builders@.map_values(|b: Builder<'field>| builder_view(b)),
            h,
        ) matches Err(k) && err_kind_matches(e, k)),
    decreases h, 0int, builders@.len(),
{
    let ghost bvs = builders@.map_values(|b: Builder<'field>| builder_view(b));
    let mut out: Vec<ReadQuery> = Vec::new();
    let mut i: usize = 0;
    while i < builders.len()
        invariant
            i <= builders@.len(),
            g.wf(),
            bvs == builders@.map_values(|b: Builder<'field>| builder_view(b)),
            forall|k: int|
                0 <= k < builders@.len() ==> builder_wf(*g, builder_view(
                    #[trigger] builders@[k],
                )) && field_height(view_core(builder_view(builders@[k])).field) < h,
            spec_build_list(*g, bvs.subrange(0, i as int), h) == Ok::<_, BuildErrKind>(
                nested_views(out, out@.len() as int),
            ),
            out@.len() == i as int,
        decreases h, 0int, builders@.len() - i,
    {
        let b = builders[i];
        proof {
            assert(bvs[i as int] == builder_view(builders@[i as int]));
        }
        let q = match b.build(g) {
            Ok(q) => q,
            Err(e) => {
                proof {
                    lemma_build_list_err(*g, bvs, h, i as int);
                }
                return Err(e);
            },
        };
        let ghost out_old = out;
        out.push(q);
        i = i + 1;
        proof {
            assert(bvs.subrange(0, i as int).drop_last() =~= bvs.subrange(0, i as int - 1));
            assert(bvs.subrange(0, i as int).last() == bvs[i as int - 1]);
            lemma_nested_views_prefix(out, out_old, out_old@.len() as int);
            assert(out@[out@.len() - 1] == q);
            assert(nested_views(out, out@.len() as int) == nested_views(
                out,
                out@.len() as int - 1,
            ).push(read_query_view(q)));
        }
    }
    proof {
        assert(bvs.subrange(0, bvs.len() as int) =~= bvs);
    }
    Ok(out)
}

/// The image of a prefix only reads the elements inside it.
proof fn lemma_nested_views_prefix(a: Vec<ReadQuery>, b: Vec<ReadQuery>, n: int)
    requires
        0 <= n <= a@.len(),
        n <= b@.len(),
        forall|k: int| 0 <= k < n ==> a@[k] == b@[k],
    ensures
        nested_views(a, n) == nested_views(b, n),
    decreases n,
{
    if n > 0 {
        lemma_nested_views_prefix(a, b, n - 1);
    }
}

/// An element that fails to build poisons the whole list.
proof fn lemma_build_list_err(g: InternalDataModel, bs: Seq<BuilderView>, h: nat, i: int)
    requires
        0 <= i < bs.len(),
        spec_build_list(g, bs.subrange(0, i), h) is Ok,
        field_height(view_core(bs[i]).field) < h,
        spec_build(g, bs[i]) is Err,
    ensures
        (spec_build(g, bs[i]) matches Err(k) ==> spec_build_list(g, bs, h) == Err::<
            Seq<ReadQueryView>,
            BuildErrKind,
        >(k)),
    decreases bs.len(),
{
    if i == bs.len() - 1 {
        assert(bs.drop_last() =~= bs.subrange(0, i));
        assert(bs.last() == bs[i]);
    } else {
        assert(bs.drop_last().subrange(0, i) =~= bs.subrange(0, i));
        assert(bs.drop_last()[i] == bs[i]);
        lemma_build_list_err(g, bs.drop_last(), h, i);
    }
}

impl<'field> Builder<'field> {
    /// Builds the typed read query this builder denotes, validating the
    /// selection, the arguments and every nested selection against the
    /// schema, recursively.
    pub fn build(self, g: &InternalDataModel) -> (r: Result<ReadQuery, CoreError>)
        requires
            g.wf(),
            builder_wf(*g, builder_view(self)),
        ensures
            r matches Ok(q) ==> spec_build(*g, builder_view(self)) == Ok::<_, BuildErrKind>(
                read_query_view(q),
            ),
            r matches Err(e) ==> (spec_build(*g, builder_view(self)) matches Err(k)
                && err_kind_matches(e, k)),
        decreases field_height(view_core(builder_view(self)).field), 2int, 0int,
    {
        let c = *self.inner();
        let model = &g.models()[c.model];
        let selected_fields = match collect_selected_fields(model, c.field, c.parent) {
            Ok(sf) => sf,
            Err(e) => {
                return Err(e);
            },
        };
        let needs_args = match &self {
            Builder::Many(_) => true,
            Builder::ManyRelation(_) => true,
            _ => false,
        };
        let args = if needs_args {
            match extract_query_args(c.field, model) {
                Ok(a) => Some(a),
                Err(e) => {
                    return Err(e);
                },
            }
        } else {
            None
        };
        let nested_builders = match collect_nested_queries(g, c.model, c.field) {
            Ok(bs) => bs,
            Err(e) => {
                return Err(e);
            },
        };
        let nested = match build_nested_queries(
            g,
            nested_builders,
            Ghost(field_height(*c.field)),
        ) {
            Ok(qs) => qs,
            Err(e) => {
                return Err(e);
            },
        };
        let selection_order = collect_selection_order(c.field);
        let name = match &c.field.alias {
            Some(a) => a.clone(),
            None => c.field.name.clone(),
        };
        match self {
            Builder::Single(_) => Ok(
                ReadQuery::RecordQuery(
                    RecordQueryNode {
                        name,
                        model: c.model,
                        selected_fields,
                        nested,
                        selection_order,
                    },
                ),
            ),
            Builder::Many(_) => Ok(
                ReadQuery::ManyRecordsQuery(
                    ManyRecordsQueryNode {
                        name,
                        model: c.model,
                        args: args.unwrap(),
                        selected_fields,
                        nested,
                        selection_order,
                    },
                ),
            ),
            Builder::OneRelation(_) => Ok(
                ReadQuery::RelatedRecordQuery(
                    RelatedRecordQueryNode {
                        name,
                        parent_field: parent_or_default(c.parent),
                        selected_fields,
                        nested,
                        selection_order,
                    },
                ),
            ),
            Builder::ManyRelation(_) => Ok(
                ReadQuery::ManyRelatedRecordsQuery(
                    ManyRelatedRecordsQueryNode {
                        name,
                        parent_field: parent_or_default(c.parent),
                        args: args.unwrap(),
                        selected_fields,
                        nested,
                        selection_order,
                    },
                ),
            ),
        }
    }
}

/// The relation field a related query hangs under.
fn parent_or_default(p: Option<RelationFieldRef>) -> (r: RelationFieldRef)
    ensures
        p matches Some(q) ==> r == q,
{
    match p {
        Some(q) => q,
        None => RelationFieldRef { model: 0, field: 0 },
    }
}

/// Law: a field nested under a list-valued relation field resolves to the
/// nested-collection shape, and under a singular one to the
/// nested-singular shape, regardless of the field's own name.
pub proof fn lemma_nested_shape_by_cardinality(
    g: InternalDataModel,
    m: int,
    field: Field,
    p: RelationFieldRef,
)
    ensures
        g.rf_at(p).is_list ==> spec_infer(g, m, field, Some(p)) == Some(
            BuilderView::ManyRelation(BuilderCoreView { model: m, field, parent: Some(p) }),
        ),
        !g.rf_at(p).is_list ==> spec_infer(g, m, field, Some(p)) == Some(
            BuilderView::OneRelation(BuilderCoreView { model: m, field, parent: Some(p) }),
        ),
{
}

} // verus!
