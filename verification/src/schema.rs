//! The immutable schema graph: models, fields, relations, enums.
//!
//! The graph owns every model and relation and is addressed by index; a
//! relation field holds lookup indices (its owning relation, its related
//! model), never a direct reference, so the cyclic model / relation /
//! relation-field structure is represented without ownership cycles.
//! After construction the graph is immutable except for one derived cache,
//! the index of all relation fields, computed on first demand and memoized.

use vstd::prelude::*;
use once_cell::sync::OnceCell;
use crate::error::CoreError;

verus! {

/// A scalar (non-relational) field of a model.
#[derive(Debug)]
pub struct ScalarField {
    pub name: String,
    pub is_list: bool,
}

/// A relation-typed field of a model; `relation` and `related_model` are
/// indices into the owning graph.
#[derive(Debug)]
pub struct RelationField {
    pub name: String,
    pub relation: usize,
    pub related_model: usize,
    pub is_list: bool,
    pub is_required: bool,
}

/// A field of a model, scalar or relation-typed.
#[derive(Debug)]
pub enum ModelField {
    Scalar(ScalarField),
    Relation(RelationField),
}

/// A model: a name and its ordered field list.
#[derive(Debug)]
pub struct Model {
    pub name: String,
    pub fields: Vec<ModelField>,
}

/// The name a field answers to, whatever its kind.
pub open spec fn field_name(mf: ModelField) -> Seq<char> {
    match mf {
        ModelField::Scalar(s) => s.name@,
        ModelField::Relation(r) => r.name@,
    }
}

impl Model {
    /// Finds the first field of any kind with the given name.
    pub fn find_from_all(&self, name: &String) -> (r: Option<usize>)
        ensures
            r matches Some(f) ==> f < self.fields@.len() && field_name(self.fields@[f as int])
                == name@ && (forall|j: int|
                0 <= j < f ==> field_name(self.fields@[j]) != name@),
            r is None ==> forall|j: int|
                0 <= j < self.fields@.len() ==> field_name(self.fields@[j]) != name@,
    {
        let mut i: usize = 0;
        while i < self.fields.len()
            invariant
                i <= self.fields@.len(),
                forall|j: int| 0 <= j < i ==> field_name(self.fields@[j]) != name@,
            decreases self.fields@.len() - i,
        {
            let matches_name = match &self.fields[i] {
                ModelField::Scalar(sf) => sf.name == *name,
                ModelField::Relation(rf) => rf.name == *name,
            };
            if matches_name {
                return Some(i);
            }
            i = i + 1;
        }
        None
    }

    /// Finds the first scalar field with the given name.
    pub fn find_from_scalar(&self, name: &String) -> (r: Option<usize>)
        ensures
            r matches Some(f) ==> f < self.fields@.len() && self.fields@[f as int] is Scalar
                && field_name(self.fields@[f as int]) == name@ && (forall|j: int|
                0 <= j < f ==> !(self.fields@[j] is Scalar && field_name(self.fields@[j])
                    == name@)),
            r is None ==> forall|j: int|
                0 <= j < self.fields@.len() ==> !(self.fields@[j] is Scalar && field_name(
                    self.fields@[j],
                ) == name@),
    {
        let mut i: usize = 0;
        while i < self.fields.len()
            invariant
                i <= self.fields@.len(),
                forall|j: int|
                    0 <= j < i ==> !(self.fields@[j] is Scalar && field_name(self.fields@[j])
                        == name@),
            decreases self.fields@.len() - i,
        {
            match &self.fields[i] {
                ModelField::Scalar(sf) => {
                    if sf.name == *name {
                        return Some(i);
                    }
                },
                ModelField::Relation(_) => {},
            }
            i = i + 1;
        }
        None
    }
}

/// One endpoint of a relation, with its cardinality and nullability flags.
#[derive(Debug)]
pub struct RelationSide {
    pub model: usize,
    pub is_list: bool,
    pub is_required: bool,
}

/// A relation connects a parent endpoint and a child endpoint; a
/// self-relation connects two endpoints on the same model.
#[derive(Debug)]
pub struct Relation {
    pub name: String,
    pub parent: RelationSide,
    pub child: RelationSide,
}

/// A named enum of the schema.
#[derive(Debug)]
pub struct InternalEnum {
    pub name: String,
    pub values: Vec<String>,
}

/// A lookup key for one relation field: the owning model's index and the
/// field's position inside it.
#[derive(Debug, PartialEq, Eq, Structural, Clone, Copy)]
pub struct RelationFieldRef {
    pub model: usize,
    pub field: usize,
}

/// Declares `once_cell::sync::OnceCell` to the verifier: an opaque cell,
/// written once, read through the trusted accessors below.
#[verifier::external_type_specification]
#[verifier::external_body]
#[verifier::reject_recursive_types(T)]
pub struct ExOnceCell<T>(OnceCell<T>);

/// Description a schema graph is built from.
#[derive(Debug)]
pub struct InternalDataModelTemplate {
    pub models: Vec<ModelTemplate>,
    pub relations: Vec<RelationTemplate>,
    pub enums: Vec<InternalEnum>,
    pub version: Option<String>,
}

/// Description of one model.
#[derive(Debug)]
pub struct ModelTemplate {
    pub name: String,
    pub fields: Vec<FieldTemplate>,
}

/// Description of one field; relation fields name their relation and
/// related model, resolved to indices when the graph is built.
#[derive(Debug)]
pub enum FieldTemplate {
    Scalar { name: String, is_list: bool },
    Relation {
        name: String,
        relation: String,
        related_model: String,
        is_list: bool,
        is_required: bool,
    },
}

/// Description of one relation, endpoints named by model.
#[derive(Debug)]
pub struct RelationTemplate {
    pub name: String,
    pub parent_model: String,
    pub child_model: String,
    pub parent_is_list: bool,
    pub parent_is_required: bool,
    pub child_is_list: bool,
    pub child_is_required: bool,
}

/// The immutable schema graph.
pub struct InternalDataModel {
    pub enums: Vec<InternalEnum>,
    pub version: Option<String>,
    pub db_name: String,
    models: Vec<Model>,
    relations: Vec<Relation>,
    relation_fields: OnceCell<Vec<RelationFieldRef>>,
}

impl InternalDataModel {
    /// The version marker, as a mathematical value.
    pub closed spec fn spec_version(&self) -> Option<String> {
        self.version
    }

    /// The owned enums, as a mathematical sequence.
    pub closed spec fn enums_seq(&self) -> Seq<InternalEnum> {
        self.enums@
    }

    /// The database name, as a mathematical value.
    pub closed spec fn spec_db_name(&self) -> Seq<char> {
        self.db_name@
    }

    /// The version marker of the schema.
    pub fn version(&self) -> (r: &Option<String>)
        ensures
            *r == self.spec_version(),
    {
        &self.version
    }

    /// The enums of the schema.
    pub fn enums(&self) -> (r: &Vec<InternalEnum>)
        ensures
            r@ == self.enums_seq(),
    {
        &self.enums
    }

    /// The database name the schema was built for.
    pub fn db_name(&self) -> (r: &String)
        ensures
            r@ == self.spec_db_name(),
    {
        &self.db_name
    }

    /// The owned models, as a mathematical sequence.
    pub closed spec fn models_seq(&self) -> Seq<Model> {
        self.models@
    }

    /// The owned relations, as a mathematical sequence.
    pub closed spec fn relations_seq(&self) -> Seq<Relation> {
        self.relations@
    }

    /// Well-formedness: names are unique and every stored index is in range.
    pub open spec fn wf(&self) -> bool {
        &&& (forall|i: int, j: int|
            0 <= i < j < self.models_seq().len() ==> self.models_seq()[i].name@
                != self.models_seq()[j].name@)
        &&& (forall|i: int, j: int|
            0 <= i < j < self.relations_seq().len() ==> self.relations_seq()[i].name@
                != self.relations_seq()[j].name@)
        &&& (forall|m: int, f: int|
            0 <= m < self.models_seq().len() && 0 <= f < self.models_seq()[m].fields@.len()
                ==> match #[trigger] self.models_seq()[m].fields@[f] {
                ModelField::Relation(rf) => rf.relation < self.relations_seq().len()
                    && rf.related_model < self.models_seq().len(),
                ModelField::Scalar(_) => true,
            })
        &&& (forall|r: int|
            0 <= r < self.relations_seq().len() ==> self.relations_seq()[r].parent.model
                < self.models_seq().len() && self.relations_seq()[r].child.model
                < self.models_seq().len())
    }

    /// The models of the graph.
    pub fn models(&self) -> (r: &Vec<Model>)
        ensures
            r@ == self.models_seq(),
    {
        &self.models
    }

    /// The relations of the graph.
    pub fn relations(&self) -> (r: &Vec<Relation>)
        ensures
            r@ == self.relations_seq(),
    {
        &self.relations
    }

    /// Whether the schema carries no version tag.
    pub fn is_legacy(&self) -> (r: bool)
        ensures
            r == (self.spec_version() is None),
    {
        match &self.version {
            Option::Some(_) => false,
            Option::None => true,
        }
    }

    /// Finds the model of the given name: the unique index holding it, or
    /// `NotFoundError` exactly when no model has the name.
    pub fn find_model(&self, name: &String) -> (r: Result<usize, CoreError>)
        ensures
            r matches Ok(i) ==> i < self.models_seq().len() && self.models_seq()[i as int].name@
                == name@ && (forall|j: int| 0 <= j < i ==> self.models_seq()[j].name@ != name@),
            r matches Err(e) ==> e.is_not_found() && (forall|j: int|
                0 <= j < self.models_seq().len() ==> self.models_seq()[j].name@ != name@),
    {
        let mut i: usize = 0;
        while i < self.models.len()
            invariant
                i <= self.models@.len(),
                forall|j: int| 0 <= j < i ==> self.models@[j].name@ != name@,
            decreases self.models@.len() - i,
        {
            if self.models[i].name == *name {
                return Ok(i);
            }
            i = i + 1;
        }
        Err(CoreError::NotFoundError(String::from_str("Model not found")))
    }

    /// Finds the relation of the given name: the unique index holding it,
    /// or `NotFoundError` exactly when no relation has the name.
    pub fn find_relation(&self, name: &String) -> (r: Result<usize, CoreError>)
        ensures
            r matches Ok(i) ==> i < self.relations_seq().len() && self.relations_seq()[i as int].name@ == name@ && (forall|j: int|
                0 <= j < i ==> self.relations_seq()[j].name@ != name@),
            r matches Err(e) ==> e.is_not_found() && (forall|j: int|
                0 <= j < self.relations_seq().len() ==> self.relations_seq()[j].name@ != name@),
    {
        let mut i: usize = 0;
        while i < self.relations.len()
            invariant
                i <= self.relations@.len(),
                forall|j: int| 0 <= j < i ==> self.relations@[j].name@ != name@,
            decreases self.relations@.len() - i,
        {
            if self.relations[i].name == *name {
                return Ok(i);
            }
            i = i + 1;
        }
        Err(CoreError::NotFoundError(String::from_str("Relation not found")))
    }

    /// The relation field a lookup key points at, as a mathematical value.
    pub open spec fn rf_at(&self, rf: RelationFieldRef) -> RelationField
        recommends
            self.rf_in_range(rf),
    {
        match self.models_seq()[rf.model as int].fields@[rf.field as int] {
            ModelField::Relation(f) => f,
            ModelField::Scalar(s) => RelationField {
                name: s.name,
                relation: 0,
                related_model: 0,
                is_list: false,
                is_required: false,
            },
        }
    }

    pub open spec fn rf_in_range(&self, rf: RelationFieldRef) -> bool {
        rf.model < self.models_seq().len() && rf.field < self.models_seq()[rf.model as int].fields@.len() && self.models_seq()[rf.model as int].fields@[rf.field as int]
            is Relation
    }

    /// The relation fields of one model, up to field position `n`.
    pub open spec fn model_rfs_upto(&self, m: int, n: int) -> Seq<RelationFieldRef>
        decreases n,
    {
        if n <= 0 || !(0 <= m < self.models_seq().len()) || n > self.models_seq()[m].fields@.len() {
            Seq::empty()
        } else if self.models_seq()[m].fields@[n - 1] is Relation {
            self.model_rfs_upto(m, n - 1).push(
                RelationFieldRef { model: m as usize, field: (n - 1) as usize },
            )
        } else {
            self.model_rfs_upto(m, n - 1)
        }
    }

    /// All relation fields of the first `k` models, in model order then
    /// field order.
    pub open spec fn rfs_upto(&self, k: int) -> Seq<RelationFieldRef>
        decreases k,
    {
        if k <= 0 || k > self.models_seq().len() {
            Seq::empty()
        } else {
            self.rfs_upto(k - 1) + self.model_rfs_upto(
                k - 1,
                self.models_seq()[k - 1].fields@.len() as int,
            )
        }
    }

    /// The derived index: every relation field of the graph.
    pub open spec fn spec_relation_fields(&self) -> Seq<RelationFieldRef> {
        self.rfs_upto(self.models_seq().len() as int)
    }

    /// Walks all models and collects their relation fields.
    fn compute_relation_fields(&self) -> (r: Vec<RelationFieldRef>)
        ensures
            r@ == self.spec_relation_fields(),
    {
        let mut out: Vec<RelationFieldRef> = Vec::new();
        let mut m: usize = 0;
        while m < self.models.len()
            invariant
                m <= self.models@.len(),
                out@ == self.rfs_upto(m as int),
            decreases self.models@.len() - m,
        {
            let fields = &self.models[m].fields;
            let mut f: usize = 0;
            while f < fields.len()
                invariant
                    m < self.models@.len(),
                    f <= fields@.len(),
                    fields@ == self.models_seq()[m as int].fields@,
                    out@ == self.rfs_upto(m as int) + self.model_rfs_upto(m as int, f as int),
                decreases fields@.len() - f,
            {
                match &fields[f] {
                    ModelField::Relation(_) => {
                        out.push(RelationFieldRef { model: m, field: f });
                    },
                    ModelField::Scalar(_) => {},
                }
                f = f + 1;
                proof {
                    assert(out@ =~= self.rfs_upto(m as int) + self.model_rfs_upto(
                        m as int,
                        f as int,
                    ));
                }
            }
            m = m + 1;
            proof {
                assert(out@ =~= self.rfs_upto(m as int));
            }
        }
        out
    }

    /// Relies on `once_cell::sync::OnceCell::get_or_init`: returns the
    /// stored value, initializing it once from the closure if the cell is
    /// empty. The cell starts empty, is private, and is only ever
    /// initialized here, from `compute_relation_fields` on this graph, which
    /// is immutable after construction; so whatever call stored the value,
    /// the value is `compute_relation_fields(self)`, and concurrent first
    /// accesses converge to that same value.
    #[verifier::external_body]
    fn cached_relation_fields(&self) -> (r: &Vec<RelationFieldRef>)
        ensures
            r@ == self.spec_relation_fields(),
    {
        self.relation_fields.get_or_init(|| self.compute_relation_fields())
    }

    /// All relation fields across all models, lazily computed on first
    /// access and memoized forever after; every call returns the identical
    /// sequence.
    pub fn relation_fields(&self) -> (r: &Vec<RelationFieldRef>)
        ensures
            r@ == self.spec_relation_fields(),
    {
        self.cached_relation_fields()
    }

    /// Whether a relation field targets `model` and is both required and
    /// singular, so that deleting a row of `model` could orphan it.
    pub open spec fn is_requiring(&self, rf: RelationFieldRef, model: int) -> bool {
        self.rf_at(rf).related_model == model && self.rf_at(rf).is_required && !self.rf_at(
            rf,
        ).is_list
    }

    /// Prefix of the requiring-field filter over the derived index.
    pub open spec fn requiring_upto(&self, model: int, n: int) -> Seq<RelationFieldRef>
        decreases n,
    {
        if n <= 0 || n > self.spec_relation_fields().len() {
            Seq::empty()
        } else if self.is_requiring(self.spec_relation_fields()[n - 1], model) {
            self.requiring_upto(model, n - 1).push(self.spec_relation_fields()[n - 1])
        } else {
            self.requiring_upto(model, n - 1)
        }
    }

    /// Every entry of the relation fields of one model is in range.
    proof fn lemma_model_rfs_props(&self, m: int, n: int)
        requires
            0 <= m < self.models_seq().len(),
            0 <= n <= self.models_seq()[m].fields@.len(),
        ensures
            forall|k: int|
                0 <= k < self.model_rfs_upto(m, n).len() ==> (#[trigger] self.model_rfs_upto(
                    m,
                    n,
                )[k]).model == m && self.model_rfs_upto(m, n)[k].field < n && self.rf_in_range(
                    self.model_rfs_upto(m, n)[k],
                ),
        decreases n,
    {
        if n > 0 {
            assert(self.models.len() == self.models_seq().len());
            assert(self.models_seq()[m].fields.len() == self.models_seq()[m].fields@.len());
            self.lemma_model_rfs_props(m, n - 1);
            let prev = self.model_rfs_upto(m, n - 1);
            let cur = self.model_rfs_upto(m, n);
            assert forall|k: int|
                0 <= k < cur.len() implies (#[trigger] cur[k]).model == m && cur[k].field < n
                && self.rf_in_range(cur[k]) by {
                if self.models_seq()[m].fields@[n - 1] is Relation {
                    assert(cur == prev.push(
                        RelationFieldRef { model: m as usize, field: (n - 1) as usize },
                    ));
                    if k < prev.len() {
                        assert(cur[k] == prev[k]);
                    } else {
                        assert(cur[k] == RelationFieldRef {
                            model: m as usize,
                            field: (n - 1) as usize,
                        });
                    }
                } else {
                    assert(cur == prev);
                    assert(cur[k] == prev[k]);
                }
            }
            assert forall|k: int|
                0 <= k < self.model_rfs_upto(m, n).len() implies (#[trigger] self.model_rfs_upto(
                m,
                n,
            )[k]).model == m && self.model_rfs_upto(m, n)[k].field < n && self.rf_in_range(
                self.model_rfs_upto(m, n)[k],
            ) by {
                assert(self.model_rfs_upto(m, n) == cur);
            }
        }
    }

    /// Every entry of the derived index prefix is in range.
    proof fn lemma_rfs_upto_props(&self, k: int)
        requires
            0 <= k <= self.models_seq().len(),
        ensures
            forall|i: int|
                0 <= i < self.rfs_upto(k).len() ==> self.rf_in_range(
                    #[trigger] self.rfs_upto(k)[i],
                ),
        decreases k,
    {
        if k > 0 {
            self.lemma_rfs_upto_props(k - 1);
            self.lemma_model_rfs_props(k - 1, self.models_seq()[k - 1].fields@.len() as int);
            assert forall|i: int|
                0 <= i < self.rfs_upto(k).len() implies self.rf_in_range(
                #[trigger] self.rfs_upto(k)[i],
            ) by {
                let pre = self.rfs_upto(k - 1);
                let tail = self.model_rfs_upto(k - 1, self.models_seq()[k - 1].fields@.len() as int);
                if i < pre.len() {
                    assert(self.rfs_upto(k)[i] == pre[i]);
                } else {
                    assert(self.rfs_upto(k)[i] == tail[i - pre.len()]);
                }
            }
        }
    }

    /// Every entry of the derived relation-field index is in range.
    pub proof fn lemma_relation_fields_in_range(&self)
        ensures
            forall|i: int|
                0 <= i < self.spec_relation_fields().len() ==> self.rf_in_range(
                    #[trigger] self.spec_relation_fields()[i],
                ),
    {
        self.lemma_rfs_upto_props(self.models_seq().len() as int);
    }

    /// The relation fields targeting `model` that are required and
    /// singular: the deletions of `model` rows these fields would not
    /// survive.
    pub fn fields_requiring_model(&self, model: usize) -> (r: Vec<RelationFieldRef>)
        ensures
            r@ == self.requiring_upto(model as int, self.spec_relation_fields().len() as int),
    {
        proof {
            self.lemma_relation_fields_in_range();
        }
        let rfs = self.relation_fields();
        let mut out: Vec<RelationFieldRef> = Vec::new();
        let mut i: usize = 0;
        while i < rfs.len()
            invariant
                i <= rfs@.len(),
                rfs@ == self.spec_relation_fields(),
                out@ == self.requiring_upto(model as int, i as int),
                forall|k: int|
                    0 <= k < rfs@.len() ==> self.rf_in_range(#[trigger] rfs@[k]),
            decreases rfs@.len() - i,
        {
            let rf = rfs[i];
            let fields = &self.models[rf.model].fields;
            match &fields[rf.field] {
                ModelField::Relation(f) => {
                    if f.related_model == model && f.is_required && !f.is_list {
                        out.push(rf);
                    }
                },
                ModelField::Scalar(_) => {},
            }
            i = i + 1;
            proof {
                assert(out@ =~= self.requiring_upto(model as int, i as int));
            }
        }
        out
    }
}

/// Law: on a well-formed graph, model lookup is deterministic — two
/// indices that both satisfy the first-match contract of `find_model` for
/// the same name coincide, so repeated lookups return the identical entity
/// and never an entity with a merely similar name.
pub proof fn lemma_find_model_deterministic(
    g: InternalDataModel,
    name: Seq<char>,
    i: int,
    j: int,
)
    requires
        0 <= i < g.models_seq().len(),
        0 <= j < g.models_seq().len(),
        g.models_seq()[i].name@ == name,
        g.models_seq()[j].name@ == name,
        forall|k: int| 0 <= k < i ==> g.models_seq()[k].name@ != name,
        forall|k: int| 0 <= k < j ==> g.models_seq()[k].name@ != name,
    ensures
        i == j,
{
}

/// Law: on a well-formed graph two models never share a name, so the index
/// `find_model` returns is the unique holder of the name.
pub proof fn lemma_model_name_unique(g: InternalDataModel, i: int, j: int)
    requires
        g.wf(),
        0 <= i < g.models_seq().len(),
        0 <= j < g.models_seq().len(),
        g.models_seq()[i].name@ == g.models_seq()[j].name@,
    ensures
        i == j,
{
}

/// Law: relation lookup is deterministic in the same way as model lookup.
pub proof fn lemma_find_relation_deterministic(
    g: InternalDataModel,
    name: Seq<char>,
    i: int,
    j: int,
)
    requires
        0 <= i < g.relations_seq().len(),
        0 <= j < g.relations_seq().len(),
        g.relations_seq()[i].name@ == name,
        g.relations_seq()[j].name@ == name,
        forall|k: int| 0 <= k < i ==> g.relations_seq()[k].name@ != name,
        forall|k: int| 0 <= k < j ==> g.relations_seq()[k].name@ != name,
    ensures
        i == j,
{
}

/// Law: the derived relation-field index is idempotent — every call of
/// `relation_fields` returns the one sequence `spec_relation_fields`
/// determines, so any two results, however far apart and from whichever
/// thread won the race to initialize the cache, are identical.
pub proof fn lemma_relation_fields_idempotent(
    g: InternalDataModel,
    first: Seq<RelationFieldRef>,
    second: Seq<RelationFieldRef>,
)
    requires
        first == g.spec_relation_fields(),
        second == g.spec_relation_fields(),
    ensures
        first == second,
{
}

/// Finds a name in a list: the first index holding it.
pub fn find_name(names: &Vec<String>, target: &String) -> (r: Option<usize>)
    ensures
        r matches Some(i) ==> i < names@.len() && names@[i as int]@ == target@ && (forall|j: int|
            0 <= j < i ==> names@[j]@ != target@),
        r is None ==> forall|j: int| 0 <= j < names@.len() ==> names@[j]@ != target@,
{
    let mut i: usize = 0;
    while i < names.len()
        invariant
            i <= names@.len(),
            forall|j: int| 0 <= j < i ==> names@[j]@ != target@,
        decreases names@.len() - i,
    {
        if names[i] == *target {
            return Some(i);
        }
        i = i + 1;
    }
    None
}

/// Whether all names in the list differ from each other.
pub open spec fn names_unique(names: Seq<String>) -> bool {
    forall|i: int, j: int| 0 <= i < j < names.len() ==> names[i]@ != names[j]@
}

/// Checks a name list for duplicates.
pub fn check_names_unique(names: &Vec<String>) -> (r: bool)
    ensures
        r == names_unique(names@),
{
    let mut i: usize = 0;
    while i < names.len()
        invariant
            i <= names@.len(),
            forall|a: int, b: int| 0 <= a < b < i ==> names@[a]@ != names@[b]@,
        decreases names@.len() - i,
    {
        let mut j: usize = 0;
        while j < i
            invariant
                j <= i < names@.len(),
                forall|a: int, b: int| 0 <= a < b < i ==> names@[a]@ != names@[b]@,
                forall|a: int| 0 <= a < j ==> names@[a]@ != names@[i as int]@,
            decreases i - j,
        {
            if names[j] == names[i] {
                proof {
                    assert(0 <= j < i < names@.len() && names@[j as int]@ == names@[i as int]@);
                }
                return false;
            }
            j = j + 1;
        }
        i = i + 1;
    }
    true
}

/// Relies on `once_cell::sync::OnceCell::new`: builds the cell; per its
/// documentation the new cell is empty.
#[verifier::external_body]
fn empty_cell() -> OnceCell<Vec<RelationFieldRef>> {
    OnceCell::new()
}

/// Whether some model of the description has the given name.
pub open spec fn model_name_exists(models: Seq<ModelTemplate>, name: Seq<char>) -> bool {
    exists|m: int| 0 <= m < models.len() && models[m].name@ == name
}

/// Whether some relation of the description has the given name.
pub open spec fn relation_name_exists(relations: Seq<RelationTemplate>, name: Seq<char>) -> bool {
    exists|r: int| 0 <= r < relations.len() && relations[r].name@ == name
}

/// The model names of a description, in order.
pub open spec fn template_model_names(models: Seq<ModelTemplate>) -> Seq<String> {
    models.map_values(|m: ModelTemplate| m.name)
}

/// The relation names of a description, in order.
pub open spec fn template_relation_names(relations: Seq<RelationTemplate>) -> Seq<String> {
    relations.map_values(|r: RelationTemplate| r.name)
}

/// Collects the model names of a description, in order.
pub fn collect_model_names(models: &Vec<ModelTemplate>) -> (r: Vec<String>)
    ensures
        r@ == template_model_names(models@),
{
    let mut out: Vec<String> = Vec::new();
    let mut i: usize = 0;
    while i < models.len()
        invariant
            i <= models@.len(),
            out@ == template_model_names(models@).subrange(0, i as int),
        decreases models@.len() - i,
    {
        out.push(models[i].name.clone());
        i = i + 1;
        proof {
            assert(out@ =~= template_model_names(models@).subrange(0, i as int));
        }
    }
    proof {
        let full = template_model_names(models@);
        assert(full.subrange(0, full.len() as int) =~= full);
    }
    out
}

/// Collects the relation names of a description, in order.
pub fn collect_relation_names(relations: &Vec<RelationTemplate>) -> (r: Vec<String>)
    ensures
        r@ == template_relation_names(relations@),
{
    let mut out: Vec<String> = Vec::new();
    let mut i: usize = 0;
    while i < relations.len()
        invariant
            i <= relations@.len(),
            out@ == template_relation_names(relations@).subrange(0, i as int),
        decreases relations@.len() - i,
    {
        out.push(relations[i].name.clone());
        i = i + 1;
        proof {
            assert(out@ =~= template_relation_names(relations@).subrange(
                0,
                i as int,
            ));
        }
    }
    proof {
        let full = template_relation_names(relations@);
        assert(full.subrange(0, full.len() as int) =~= full);
    }
    out
}

impl InternalDataModelTemplate {
    /// Whether the description can be built: names unique, every relation
    /// endpoint and relation field resolvable by name.
    pub open spec fn spec_template_ok(&self) -> bool {
        &&& names_unique(template_model_names(self.models@))
        &&& names_unique(template_relation_names(self.relations@))
        &&& (forall|r: int|
            0 <= r < self.relations@.len() ==> model_name_exists(
                self.models@,
                (#[trigger] self.relations@[r]).parent_model@,
            ) && model_name_exists(self.models@, self.relations@[r].child_model@))
        &&& (forall|m: int, f: int|
            0 <= m < self.models@.len() && 0 <= f < self.models@[m].fields@.len()
                ==> match #[trigger] self.models@[m].fields@[f] {
                FieldTemplate::Relation { relation, related_model, .. } => relation_name_exists(
                    self.relations@,
                    relation@,
                ) && model_name_exists(self.models@, related_model@),
                FieldTemplate::Scalar { .. } => true,
            })
    }

    /// Builds the schema graph, resolving every name to an index.
    /// Succeeds exactly when the description is buildable; the graph is
    /// then well-formed and mirrors the description entity by entity.
    pub fn build(self, db_name: String) -> (r: Result<InternalDataModel, CoreError>)
        ensures
            r is Ok <==> self.spec_template_ok(),
            r matches Ok(g) ==> g.wf() && self.corresponds(g) && g.spec_db_name() == db_name@,
            r matches Err(e) ==> e.is_validation() || e.is_not_found(),
    {
        let ghost templ = self;
        let model_names = collect_model_names(&self.models);
        let relation_names = collect_relation_names(&self.relations);
        if !check_names_unique(&model_names) {
            return Err(CoreError::QueryValidationError(
                String::from_str("Duplicate model name in schema description"),
            ));
        }
        if !check_names_unique(&relation_names) {
            return Err(CoreError::QueryValidationError(
                String::from_str("Duplicate relation name in schema description"),
            ));
        }
        let mut relations: Vec<Relation> = Vec::new();
        let mut r: usize = 0;
        while r < self.relations.len()
            invariant
                r <= self.relations@.len(),
                model_names@ == template_model_names(self.models@),
                relations@.len() == r as int,
                forall|k: int|
                    0 <= k < r ==> relation_built(
                        self.relations@[k],
                        #[trigger] relations@[k],
                        self.models@,
                    ),
                forall|k: int|
                    0 <= k < r ==> (#[trigger] relations@[k]).parent.model < self.models@.len()
                        && relations@[k].child.model < self.models@.len(),
            decreases self.relations@.len() - r,
        {
            let rt = &self.relations[r];
            let pi = match find_name(&model_names, &rt.parent_model) {
                Some(i) => i,
                None => {
                    proof {
                        assert(!self.spec_template_ok()) by {
                            if self.spec_template_ok() {
                                let mm = choose|mm: int|
                                    0 <= mm < self.models@.len() && self.models@[mm].name@
                                        == self.relations@[r as int].parent_model@;
                                assert(model_names@[mm]@ == self.relations@[r as int].parent_model@);
                            }
                        }
                    }
                    return Err(CoreError::NotFoundError(
                        String::from_str("Relation endpoint names an unknown model"),
                    ));
                },
            };
            let ci = match find_name(&model_names, &rt.child_model) {
                Some(i) => i,
                None => {
                    proof {
                        assert(!self.spec_template_ok()) by {
                            if self.spec_template_ok() {
                                let mm = choose|mm: int|
                                    0 <= mm < self.models@.len() && self.models@[mm].name@
                                        == self.relations@[r as int].child_model@;
                                assert(model_names@[mm]@ == self.relations@[r as int].child_model@);
                            }
                        }
                    }
                    return Err(CoreError::NotFoundError(
                        String::from_str("Relation endpoint names an unknown model"),
                    ));
                },
            };
            relations.push(
                Relation {
                    name: rt.name.clone(),
                    parent: RelationSide {
                        model: pi,
                        is_list: rt.parent_is_list,
                        is_required: rt.parent_is_required,
                    },
                    child: RelationSide {
                        model: ci,
                        is_list: rt.child_is_list,
                        is_required: rt.child_is_required,
                    },
                },
            );
            r = r + 1;
        }
        let mut models: Vec<Model> = Vec::new();
        let mut m: usize = 0;
        while m < self.models.len()
            invariant
                m <= self.models@.len(),
                model_names@ == template_model_names(self.models@),
                relation_names@ == template_relation_names(self.relations@),
                relations@.len() == self.relations@.len(),
                models@.len() == m as int,
                forall|k: int|
                    0 <= k < m ==> model_built(
                        self.models@[k],
                        #[trigger] models@[k],
                        self.models@,
                        self.relations@,
                    ),
            decreases self.models@.len() - m,
        {
            let mt = &self.models[m];
            let mut fields: Vec<ModelField> = Vec::new();
            let mut f: usize = 0;
            while f < mt.fields.len()
                invariant
                    f <= mt.fields@.len(),
                    m < self.models@.len(),
                    mt.fields@ == self.models@[m as int].fields@,
                    model_names@ == template_model_names(self.models@),
                    relation_names@ == template_relation_names(self.relations@),
                    relations@.len() == self.relations@.len(),
                    fields@.len() == f as int,
                    forall|k: int|
                        0 <= k < f ==> field_built(
                            mt.fields@[k],
                            #[trigger] fields@[k],
                            self.models@,
                            self.relations@,
                        ),
                decreases mt.fields@.len() - f,
            {
                match &mt.fields[f] {
                    FieldTemplate::Scalar { name, is_list } => {
                        fields.push(
                            ModelField::Scalar(
                                ScalarField { name: name.clone(), is_list: *is_list },
                            ),
                        );
                    },
                    FieldTemplate::Relation { name, relation, related_model, is_list, is_required } => {
                        let ri = match find_name(&relation_names, relation) {
                            Some(i) => i,
                            None => {
                                proof {
                                    assert(!self.spec_template_ok()) by {
                                        if self.spec_template_ok() {
                                            assert(match self.models@[m as int].fields@[f as int] {
                                                FieldTemplate::Relation { relation, .. } => exists|
                                                    r0: int,
                                                |
                                                    0 <= r0 < self.relations@.len()
                                                        && self.relations@[r0].name@ == relation@,
                                                FieldTemplate::Scalar { .. } => true,
                                            });
                                            let r0 = choose|r0: int|
                                                0 <= r0 < self.relations@.len()
                                                    && self.relations@[r0].name@ == relation@;
                                            assert(relation_names@[r0]@ == relation@);
                                        }
                                    }
                                }
                                return Err(CoreError::NotFoundError(
                                    String::from_str("Field names an unknown relation"),
                                ));
                            },
                        };
                        let rmi = match find_name(&model_names, related_model) {
                            Some(i) => i,
                            None => {
                                proof {
                                    assert(!self.spec_template_ok()) by {
                                        if self.spec_template_ok() {
                                            assert(match self.models@[m as int].fields@[f as int] {
                                                FieldTemplate::Relation { related_model, .. } => exists|
                                                    m0: int,
                                                |
                                                    0 <= m0 < self.models@.len()
                                                        && self.models@[m0].name@
                                                        == related_model@,
                                                FieldTemplate::Scalar { .. } => true,
                                            });
                                            let m0 = choose|m0: int|
                                                0 <= m0 < self.models@.len() && self.models@[m0].name@ == related_model@;
                                            assert(model_names@[m0]@ == related_model@);
                                        }
                                    }
                                }
                                return Err(CoreError::NotFoundError(
                                    String::from_str("Field names an unknown model"),
                                ));
                            },
                        };
                        fields.push(
                            ModelField::Relation(
                                RelationField {
                                    name: name.clone(),
                                    relation: ri,
                                    related_model: rmi,
                                    is_list: *is_list,
                                    is_required: *is_required,
                                },
                            ),
                        );
                    },
                }
                f = f + 1;
            }
            models.push(Model { name: mt.name.clone(), fields });
            m = m + 1;
        }
        proof {
            assert forall|i: int, j: int|
                0 <= i < j < models@.len() implies models@[i].name@
                != models@[j].name@ by {
                let mnames = template_model_names(self.models@);
                assert(mnames[i]@ != mnames[j]@);
                assert(models@[i].name@ == self.models@[i].name@);
                assert(models@[j].name@ == self.models@[j].name@);
            }
            assert forall|i: int, j: int|
                0 <= i < j < relations@.len() implies relations@[i].name@
                != relations@[j].name@ by {
                let rnames = template_relation_names(self.relations@);
                assert(rnames[i]@ != rnames[j]@);
                assert(relation_built(self.relations@[i], relations@[i], self.models@));
                assert(relation_built(self.relations@[j], relations@[j], self.models@));
            }
            assert forall|mi: int, fi: int|
                0 <= mi < models@.len() && 0 <= fi < models@[mi].fields@.len() implies match #[trigger] models@[mi].fields@[fi] {
                ModelField::Relation(rf) => rf.relation < relations@.len()
                    && rf.related_model < models@.len(),
                ModelField::Scalar(_) => true,
            } by {
                assert(model_built(self.models@[mi], models@[mi], self.models@, self.relations@));
                assert(field_built(self.models@[mi].fields@[fi], models@[mi].fields@[fi], self.models@, self.relations@));
            }
            assert forall|r0: int|
                0 <= r0 < self.relations@.len() implies model_name_exists(
                self.models@,
                (#[trigger] self.relations@[r0]).parent_model@,
            ) && model_name_exists(self.models@, self.relations@[r0].child_model@) by {
                let rel = relations@[r0];
                assert(relation_built(self.relations@[r0], rel, self.models@));
                assert(0 <= rel.parent.model < self.models@.len() && self.models@[rel.parent.model as int].name@ == self.relations@[r0].parent_model@);
                assert(0 <= rel.child.model < self.models@.len() && self.models@[rel.child.model as int].name@ == self.relations@[r0].child_model@);
                assert(model_name_exists(self.models@, self.relations@[r0].parent_model@));
                assert(model_name_exists(self.models@, self.relations@[r0].child_model@));
            }
            assert forall|m0: int, f0: int|
                0 <= m0 < self.models@.len() && 0 <= f0 < self.models@[m0].fields@.len() implies match #[trigger] self.models@[m0].fields@[f0] {
                FieldTemplate::Relation { relation, related_model, .. } => relation_name_exists(
                    self.relations@,
                    relation@,
                ) && model_name_exists(self.models@, related_model@),
                FieldTemplate::Scalar { .. } => true,
            } by {
                assert(model_built(self.models@[m0], models@[m0], self.models@, self.relations@));
                let bf = models@[m0].fields@[f0];
                assert(field_built(self.models@[m0].fields@[f0], bf, self.models@, self.relations@));
                match self.models@[m0].fields@[f0] {
                    FieldTemplate::Relation { relation, related_model, .. } => {
                        match bf {
                            ModelField::Relation(rf) => {
                                assert(0 <= rf.relation < self.relations@.len() && self.relations@[rf.relation as int].name@ == relation@);
                                assert(0 <= rf.related_model < self.models@.len() && self.models@[rf.related_model as int].name@ == related_model@);
                                assert(relation_name_exists(self.relations@, relation@));
                                assert(model_name_exists(self.models@, related_model@));
                            },
                            ModelField::Scalar(_) => {
                                assert(false);
                            },
                        }
                    },
                    FieldTemplate::Scalar { .. } => {},
                }
            }
            assert(self.spec_template_ok());
        }
        let graph = InternalDataModel {
            enums: self.enums,
            version: self.version,
            db_name,
            models,
            relations,
            relation_fields: empty_cell(),
        };
        proof {
            assert(graph.models_seq() == models@ && graph.relations_seq() == relations@);
            assert(graph.wf());
        }
        Ok(graph)
    }

    /// Whether a built graph mirrors this description entity by entity.
    pub open spec fn corresponds(&self, g: InternalDataModel) -> bool {
        &&& g.models_seq().len() == self.models@.len()
        &&& g.relations_seq().len() == self.relations@.len()
        &&& (forall|k: int|
            0 <= k < self.models@.len() ==> model_built(
                self.models@[k],
                #[trigger] g.models_seq()[k],
                self.models@,
                self.relations@,
            ))
        &&& (forall|k: int|
            0 <= k < self.relations@.len() ==> relation_built(
                self.relations@[k],
                #[trigger] g.relations_seq()[k],
                self.models@,
            ))
        &&& g.spec_version() == self.version
        &&& g.enums_seq() == self.enums@
    }
}

/// A built relation mirrors its description: same name and flags, endpoints
/// resolved to the models the description names.
pub open spec fn relation_built(
    rt: RelationTemplate,
    rel: Relation,
    models: Seq<ModelTemplate>,
) -> bool {
    &&& rel.name@ == rt.name@
    &&& rel.parent.is_list == rt.parent_is_list
    &&& rel.parent.is_required == rt.parent_is_required
    &&& rel.child.is_list == rt.child_is_list
    &&& rel.child.is_required == rt.child_is_required
    &&& rel.parent.model < models.len() && models[rel.parent.model as int].name@
        == rt.parent_model@
    &&& rel.child.model < models.len() && models[rel.child.model as int].name@ == rt.child_model@
}

/// A built field mirrors its description: same name and flags, and for a
/// relation field, indices pointing at the relation and model the
/// description names.
pub open spec fn field_built(
    ft: FieldTemplate,
    mf: ModelField,
    models: Seq<ModelTemplate>,
    relations: Seq<RelationTemplate>,
) -> bool {
    match (ft, mf) {
        (FieldTemplate::Scalar { name, is_list }, ModelField::Scalar(s)) => s.name@ == name@
            && s.is_list == is_list,
        (
            FieldTemplate::Relation { name, relation, related_model, is_list, is_required },
            ModelField::Relation(rf),
        ) => rf.name@ == name@ && rf.is_list == is_list && rf.is_required == is_required
            && rf.relation < relations.len() && relations[rf.relation as int].name@ == relation@
            && rf.related_model < models.len() && models[rf.related_model as int].name@
            == related_model@,
        _ => false,
    }
}

/// A built model mirrors its description field by field.
pub open spec fn model_built(
    mt: ModelTemplate,
    model: Model,
    models: Seq<ModelTemplate>,
    relations: Seq<RelationTemplate>,
) -> bool {
    &&& model.name@ == mt.name@
    &&& model.fields@.len() == mt.fields@.len()
    &&& (forall|k: int|
        0 <= k < mt.fields@.len() ==> field_built(
            mt.fields@[k],
            #[trigger] model.fields@[k],
            models,
            relations,
        ))
}

} // verus!
