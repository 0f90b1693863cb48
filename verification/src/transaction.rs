//! The transaction capability the mutation executors operate through.
//!
//! The capability offers id resolution, filtered id listing, relation-link
//! writes and batched updates; its abstract state is a view holding the
//! active relation links, the selector table, the filter tables and the
//! log of issued updates. Every operation's effect is stated against that
//! view, and `MemoryTransaction` is a verified in-memory store implementing
//! the capability, so the executors' guarantees hold of real executions.

use vstd::prelude::*;
use crate::args::Filter;
use crate::error::CoreError;
use crate::schema::RelationFieldRef;
use crate::values::{GraphqlId, IdView, NodeSelector, PrismaValue, SelectorView, ValueView,
    clone_id, id_eq, selector_eq, value_eq};
use crate::write::{PrismaArgs, args_view, vals_view};

verus! {

/// Images of a list of row identifiers.
pub open spec fn ids_view(s: Seq<GraphqlId>) -> Seq<IdView> {
    s.map_values(|id: GraphqlId| id@)
}

/// Image of one link.
pub open spec fn link_view(l: (GraphqlId, GraphqlId)) -> (IdView, IdView) {
    (l.0@, l.1@)
}

/// Images of a list of links.
pub open spec fn links_view(s: Seq<(GraphqlId, GraphqlId)>) -> Seq<(IdView, IdView)> {
    s.map_values(|l: (GraphqlId, GraphqlId)| link_view(l))
}

/// The abstract state of a transaction: the active links of the relation
/// under mutation, the selector table, the two filter tables, and the log
/// of issued update statements.
pub struct TxView {
    pub links: Seq<(IdView, IdView)>,
    pub rows: Seq<(SelectorView, IdView)>,
    pub filter_rows: Seq<(int, Seq<(Seq<char>, ValueView)>, Seq<IdView>)>,
    pub parent_rows: Seq<
        (RelationFieldRef, Seq<IdView>, Option<Seq<(Seq<char>, ValueView)>>, Seq<IdView>),
    >,
    pub updates: Seq<UpdateView>,
}

/// One issued update statement.
pub enum UpdateView {
    ScalarBatch { model: int, ids: Seq<IdView>, args: Seq<(Seq<char>, ValueView)> },
    ListReplace { model: int, ids: Seq<IdView>, name: Seq<char>, values: Option<Seq<ValueView>> },
}

/// The row id a selector resolves to: the first entry of the selector
/// table holding it.
pub open spec fn found_id(rows: Seq<(SelectorView, IdView)>, sel: SelectorView) -> Option<IdView>
    decreases rows.len(),
{
    if rows.len() == 0 {
        None
    } else if rows[0].0 == sel {
        Some(rows[0].1)
    } else {
        found_id(rows.drop_first(), sel)
    }
}

/// The ids a global filter resolves to: the first table entry for the
/// model and filter, or nothing.
pub open spec fn filtered_ids(
    frs: Seq<(int, Seq<(Seq<char>, ValueView)>, Seq<IdView>)>,
    model: int,
    filter: Seq<(Seq<char>, ValueView)>,
) -> Seq<IdView>
    decreases frs.len(),
{
    if frs.len() == 0 {
        Seq::empty()
    } else if frs[0].0 == model && frs[0].1 == filter {
        frs[0].2
    } else {
        filtered_ids(frs.drop_first(), model, filter)
    }
}

/// The ids a parent-scoped filter resolves to.
pub open spec fn parent_filtered_ids(
    prs: Seq<(RelationFieldRef, Seq<IdView>, Option<Seq<(Seq<char>, ValueView)>>, Seq<IdView>)>,
    rf: RelationFieldRef,
    parents: Seq<IdView>,
    filter: Option<Seq<(Seq<char>, ValueView)>>,
) -> Seq<IdView>
    decreases prs.len(),
{
    if prs.len() == 0 {
        Seq::empty()
    } else if prs[0].0 == rf && prs[0].1 == parents && prs[0].2 == filter {
        prs[0].3
    } else {
        parent_filtered_ids(prs.drop_first(), rf, parents, filter)
    }
}

/// The children linked to a parent, among the first `n` links, in order.
pub open spec fn children_upto(ls: Seq<(IdView, IdView)>, p: IdView, n: int) -> Seq<IdView>
    decreases n,
{
    if n <= 0 || n > ls.len() {
        Seq::empty()
    } else if ls[n - 1].0 == p {
        children_upto(ls, p, n - 1).push(ls[n - 1].1)
    } else {
        children_upto(ls, p, n - 1)
    }
}

/// All children linked to a parent.
pub open spec fn children_of(ls: Seq<(IdView, IdView)>, p: IdView) -> Seq<IdView> {
    children_upto(ls, p, ls.len() as int)
}

/// The occurrences of one exact link among the first `n` links.
pub open spec fn pairs_upto(ls: Seq<(IdView, IdView)>, p: IdView, c: IdView, n: int) -> Seq<IdView>
    decreases n,
{
    if n <= 0 || n > ls.len() {
        Seq::empty()
    } else if ls[n - 1].0 == p && ls[n - 1].1 == c {
        pairs_upto(ls, p, c, n - 1).push(ls[n - 1].1)
    } else {
        pairs_upto(ls, p, c, n - 1)
    }
}

pub open spec fn pairs_of(ls: Seq<(IdView, IdView)>, p: IdView, c: IdView) -> Seq<IdView> {
    pairs_upto(ls, p, c, ls.len() as int)
}

/// The links left after removing every link of one parent, among the
/// first `n`.
pub open spec fn remove_parent_upto(ls: Seq<(IdView, IdView)>, p: IdView, n: int) -> Seq<
    (IdView, IdView),
>
    decreases n,
{
    if n <= 0 || n > ls.len() {
        Seq::empty()
    } else if ls[n - 1].0 == p {
        remove_parent_upto(ls, p, n - 1)
    } else {
        remove_parent_upto(ls, p, n - 1).push(ls[n - 1])
    }
}

pub open spec fn remove_parent(ls: Seq<(IdView, IdView)>, p: IdView) -> Seq<(IdView, IdView)> {
    remove_parent_upto(ls, p, ls.len() as int)
}

/// The links left after removing every link of one child.
pub open spec fn remove_child_upto(ls: Seq<(IdView, IdView)>, c: IdView, n: int) -> Seq<
    (IdView, IdView),
>
    decreases n,
{
    if n <= 0 || n > ls.len() {
        Seq::empty()
    } else if ls[n - 1].1 == c {
        remove_child_upto(ls, c, n - 1)
    } else {
        remove_child_upto(ls, c, n - 1).push(ls[n - 1])
    }
}

pub open spec fn remove_child(ls: Seq<(IdView, IdView)>, c: IdView) -> Seq<(IdView, IdView)> {
    remove_child_upto(ls, c, ls.len() as int)
}

/// The links left after removing one exact pair, every occurrence.
pub open spec fn remove_pair_upto(ls: Seq<(IdView, IdView)>, p: IdView, c: IdView, n: int) -> Seq<
    (IdView, IdView),
>
    decreases n,
{
    if n <= 0 || n > ls.len() {
        Seq::empty()
    } else if ls[n - 1].0 == p && ls[n - 1].1 == c {
        remove_pair_upto(ls, p, c, n - 1)
    } else {
        remove_pair_upto(ls, p, c, n - 1).push(ls[n - 1])
    }
}

pub open spec fn remove_pair(ls: Seq<(IdView, IdView)>, p: IdView, c: IdView) -> Seq<
    (IdView, IdView),
> {
    remove_pair_upto(ls, p, c, ls.len() as int)
}

/// A typed pre-flight query against the link store.
#[derive(Debug)]
pub enum SelectQuery {
    ChildrenOf(GraphqlId),
    LinkedPair(GraphqlId, GraphqlId),
}

/// A fire-and-forget mutation of the link store.
#[derive(Debug)]
pub enum RelationWrite {
    AddLink(GraphqlId, GraphqlId),
    RemoveByParent(GraphqlId),
    RemoveByChild(GraphqlId),
    RemoveByPair(GraphqlId, GraphqlId),
}

/// What a write does to the links.
pub open spec fn apply_write(ls: Seq<(IdView, IdView)>, w: RelationWrite) -> Seq<(IdView, IdView)> {
    match w {
        RelationWrite::AddLink(p, c) => ls.push((p@, c@)),
        RelationWrite::RemoveByParent(p) => remove_parent(ls, p@),
        RelationWrite::RemoveByChild(c) => remove_child(ls, c@),
        RelationWrite::RemoveByPair(p, c) => remove_pair(ls, p@, c@),
    }
}

/// An update statement to issue.
#[derive(Debug)]
pub enum UpdateWrite {
    ScalarBatch { model: usize, ids: Vec<GraphqlId>, args: PrismaArgs },
    ListReplace { model: usize, ids: Vec<GraphqlId>, name: String, values: Option<Vec<PrismaValue>> },
}

/// Image of an update statement.
pub open spec fn update_write_view(u: UpdateWrite) -> UpdateView {
    match u {
        UpdateWrite::ScalarBatch { model, ids, args } => UpdateView::ScalarBatch {
            model: model as int,
            ids: ids_view(ids@),
            args: args_view(args),
        },
        UpdateWrite::ListReplace { model, ids, name, values } => UpdateView::ListReplace {
            model: model as int,
            ids: ids_view(ids@),
            name: name@,
            values: match values {
                Some(vs) => Some(vals_view(vs@)),
                None => None,
            },
        },
    }
}

/// The transaction capability: sequential, blocking operations against one
/// unit of work, specified against the abstract view. A required-check or
/// lookup that fails stops the caller before any dependent write.
pub trait Transaction {
    /// The abstract state.
    spec fn tx_view(&self) -> TxView;

    /// Resolves a pre-flight query to the matching ids; reads only.
    fn select_ids(&mut self, q: &SelectQuery) -> (r: Vec<GraphqlId>)
        ensures
            final(self).tx_view() == old(self).tx_view(),
            (q matches SelectQuery::ChildrenOf(p) ==> ids_view(r@) == children_of(
                old(self).tx_view().links,
                p@,
            )),
            (q matches SelectQuery::LinkedPair(p, c) ==> ids_view(r@) == pairs_of(
                old(self).tx_view().links,
                p@,
                c@,
            )),
    ;

    /// Resolves a selector to the one row id it matches, `NotFoundError`
    /// exactly when it matches none; reads only.
    fn find_id(&mut self, sel: &NodeSelector) -> (r: Result<GraphqlId, CoreError>)
        ensures
            final(self).tx_view() == old(self).tx_view(),
            (r matches Ok(id) ==> found_id(old(self).tx_view().rows, sel@) == Some(id@)),
            (r matches Err(e) ==> e.is_not_found() && found_id(old(self).tx_view().rows, sel@)
                is None),
    ;

    /// Issues a link mutation; only the links change.
    fn write(&mut self, w: &RelationWrite)
        ensures
            final(self).tx_view() == (TxView {
                links: apply_write(old(self).tx_view().links, *w),
                ..old(self).tx_view()
            }),
    ;

    /// Issues an update statement; only the update log grows.
    fn update(&mut self, u: UpdateWrite)
        ensures
            final(self).tx_view() == (TxView {
                updates: old(self).tx_view().updates.push(update_write_view(u)),
                ..old(self).tx_view()
            }),
    ;

    /// Resolves a filter to the full id set for a model; reads only.
    fn filter_ids(&mut self, model: usize, filter: &Filter) -> (r: Vec<GraphqlId>)
        ensures
            final(self).tx_view() == old(self).tx_view(),
            ids_view(r@) == filtered_ids(old(self).tx_view().filter_rows, model as int, filter@),
    ;

    /// Resolves a filter narrowed to the rows reachable from the parents
    /// through a relation field; reads only.
    fn filter_ids_by_parents(
        &mut self,
        rf: RelationFieldRef,
        parents: &Vec<GraphqlId>,
        filter: &Option<Filter>,
    ) -> (r: Vec<GraphqlId>)
        ensures
            final(self).tx_view() == old(self).tx_view(),
            ids_view(r@) == parent_filtered_ids(
                old(self).tx_view().parent_rows,
                rf,
                ids_view(parents@),
                match *filter {
                    Some(f) => Some(f@),
                    None => None,
                },
            ),
    ;
}

/// Image of one selector-table entry.
pub open spec fn row_view(r: (NodeSelector, GraphqlId)) -> (SelectorView, IdView) {
    (r.0@, r.1@)
}

/// Images of the selector table.
pub open spec fn rows_view(s: Seq<(NodeSelector, GraphqlId)>) -> Seq<(SelectorView, IdView)> {
    s.map_values(|r: (NodeSelector, GraphqlId)| row_view(r))
}

/// Image of one global-filter table entry.
pub open spec fn filter_entry_view(e: (usize, Filter, Vec<GraphqlId>)) -> (
    int,
    Seq<(Seq<char>, ValueView)>,
    Seq<IdView>,
) {
    (e.0 as int, e.1@, ids_view(e.2@))
}

/// Images of the global-filter table.
pub open spec fn filter_table_view(s: Seq<(usize, Filter, Vec<GraphqlId>)>) -> Seq<
    (int, Seq<(Seq<char>, ValueView)>, Seq<IdView>),
> {
    s.map_values(|e: (usize, Filter, Vec<GraphqlId>)| filter_entry_view(e))
}

/// Image of one parent-filter table entry.
pub open spec fn parent_entry_view(
    e: (RelationFieldRef, Vec<GraphqlId>, Option<Filter>, Vec<GraphqlId>),
) -> (RelationFieldRef, Seq<IdView>, Option<Seq<(Seq<char>, ValueView)>>, Seq<IdView>) {
    (
        e.0,
        ids_view(e.1@),
        match e.2 {
            Some(f) => Some(f@),
            None => None,
        },
        ids_view(e.3@),
    )
}

/// Images of the parent-filter table.
pub open spec fn parent_table_view(
    s: Seq<(RelationFieldRef, Vec<GraphqlId>, Option<Filter>, Vec<GraphqlId>)>,
) -> Seq<(RelationFieldRef, Seq<IdView>, Option<Seq<(Seq<char>, ValueView)>>, Seq<IdView>)> {
    s.map_values(
        |e: (RelationFieldRef, Vec<GraphqlId>, Option<Filter>, Vec<GraphqlId>)| parent_entry_view(e),
    )
}

/// Images of the update log.
pub open spec fn updates_view(s: Seq<UpdateWrite>) -> Seq<UpdateView> {
    s.map_values(|u: UpdateWrite| update_write_view(u))
}

/// Value equality of two filters, by image.
pub fn filter_eq(a: &Filter, b: &Filter) -> (r: bool)
    ensures
        r == (a@ == b@),
{
    let n = a.conditions.len();
    if n != b.conditions.len() {
        proof {
            assert(a@.len() == a.conditions@.len() && b@.len() == b.conditions@.len());
        }
        return false;
    }
    let mut i: usize = 0;
    while i < n
        invariant
            i <= n,
            n == a.conditions@.len(),
            n == b.conditions@.len(),
            forall|j: int| 0 <= j < i ==> a@[j] == b@[j],
        decreases n - i,
    {
        let (ka, va) = &a.conditions[i];
        let (kb, vb) = &b.conditions[i];
        if !(*ka == *kb) || !value_eq(va, vb) {
            proof {
                assert(a@[i as int] == (a.conditions@[i as int].0@, a.conditions@[i as int].1@));
                assert(b@[i as int] == (b.conditions@[i as int].0@, b.conditions@[i as int].1@));
            }
            return false;
        }
        proof {
            assert(a@[i as int] == (a.conditions@[i as int].0@, a.conditions@[i as int].1@));
            assert(b@[i as int] == (b.conditions@[i as int].0@, b.conditions@[i as int].1@));
        }
        i = i + 1;
    }
    proof {
        assert(a@ =~= b@);
    }
    true
}

/// Value equality of two id lists, by image.
pub fn ids_eq(a: &Vec<GraphqlId>, b: &Vec<GraphqlId>) -> (r: bool)
    ensures
        r == (ids_view(a@) == ids_view(b@)),
{
    if a.len() != b.len() {
        proof {
            assert(ids_view(a@).len() == a@.len() && ids_view(b@).len() == b@.len());
        }
        return false;
    }
    let mut i: usize = 0;
    while i < a.len()
        invariant
            i <= a@.len(),
            a@.len() == b@.len(),
            forall|j: int| 0 <= j < i ==> ids_view(a@)[j] == ids_view(b@)[j],
        decreases a@.len() - i,
    {
        if !id_eq(&a[i], &b[i]) {
            proof {
                assert(ids_view(a@)[i as int] == a@[i as int]@);
                assert(ids_view(b@)[i as int] == b@[i as int]@);
            }
            return false;
        }
        proof {
            assert(ids_view(a@)[i as int] == a@[i as int]@);
            assert(ids_view(b@)[i as int] == b@[i as int]@);
        }
        i = i + 1;
    }
    proof {
        assert(ids_view(a@) =~= ids_view(b@));
    }
    true
}

/// A verified in-memory transaction: the store behind the capability for
/// executions and tests.
pub struct MemoryTransaction {
    pub links: Vec<(GraphqlId, GraphqlId)>,
    pub rows: Vec<(NodeSelector, GraphqlId)>,
    pub filter_table: Vec<(usize, Filter, Vec<GraphqlId>)>,
    pub parent_table: Vec<(RelationFieldRef, Vec<GraphqlId>, Option<Filter>, Vec<GraphqlId>)>,
    pub updates: Vec<UpdateWrite>,
}

impl MemoryTransaction {
    /// An empty store.
    pub fn new() -> (r: MemoryTransaction)
        ensures
            r.tx_view().links == Seq::<(IdView, IdView)>::empty(),
            r.tx_view().rows == Seq::<(SelectorView, IdView)>::empty(),
            r.tx_view().filter_rows == Seq::<
                (int, Seq<(Seq<char>, ValueView)>, Seq<IdView>),
            >::empty(),
            r.tx_view().parent_rows == Seq::<
                (RelationFieldRef, Seq<IdView>, Option<Seq<(Seq<char>, ValueView)>>, Seq<IdView>),
            >::empty(),
            r.tx_view().updates == Seq::<UpdateView>::empty(),
    {
        let r = MemoryTransaction {
            links: Vec::new(),
            rows: Vec::new(),
            filter_table: Vec::new(),
            parent_table: Vec::new(),
            updates: Vec::new(),
        };
        proof {
            assert(links_view(r.links@) =~= Seq::<(IdView, IdView)>::empty());
            assert(rows_view(r.rows@) =~= Seq::<(SelectorView, IdView)>::empty());
            assert(filter_table_view(r.filter_table@) =~= Seq::<
                (int, Seq<(Seq<char>, ValueView)>, Seq<IdView>),
            >::empty());
            assert(parent_table_view(r.parent_table@) =~= Seq::<
                (RelationFieldRef, Seq<IdView>, Option<Seq<(Seq<char>, ValueView)>>, Seq<IdView>),
            >::empty());
            assert(updates_view(r.updates@) =~= Seq::<UpdateView>::empty());
        }
        r
    }

    /// Registers a selector resolution.
    pub fn add_row(&mut self, sel: NodeSelector, id: GraphqlId)
        ensures
            final(self).tx_view() == (TxView {
                rows: old(self).tx_view().rows.push((sel@, id@)),
                ..old(self).tx_view()
            }),
    {
        self.rows.push((sel, id));
        proof {
            assert(rows_view(self.rows@) =~= rows_view(old(self).rows@).push(
                (self.rows@.last().0@, self.rows@.last().1@),
            ));
        }
    }

    /// Establishes an existing link.
    pub fn add_link(&mut self, parent: GraphqlId, child: GraphqlId)
        ensures
            final(self).tx_view() == (TxView {
                links: old(self).tx_view().links.push((parent@, child@)),
                ..old(self).tx_view()
            }),
    {
        self.links.push((parent, child));
        proof {
            assert(links_view(self.links@) =~= links_view(old(self).links@).push(
                link_view(self.links@.last()),
            ));
        }
    }

    /// Registers the response of a global filter.
    pub fn add_filter_rows(&mut self, model: usize, filter: Filter, ids: Vec<GraphqlId>)
        ensures
            final(self).tx_view() == (TxView {
                filter_rows: old(self).tx_view().filter_rows.push(
                    (model as int, filter@, ids_view(ids@)),
                ),
                ..old(self).tx_view()
            }),
    {
        self.filter_table.push((model, filter, ids));
        proof {
            assert(filter_table_view(self.filter_table@) =~= filter_table_view(
                old(self).filter_table@,
            ).push(filter_entry_view(self.filter_table@.last())));
        }
    }

    /// Registers the response of a parent-scoped filter.
    pub fn add_parent_rows(
        &mut self,
        rf: RelationFieldRef,
        parents: Vec<GraphqlId>,
        filter: Option<Filter>,
        ids: Vec<GraphqlId>,
    )
        ensures
            final(self).tx_view() == (TxView {
                parent_rows: old(self).tx_view().parent_rows.push(
                    (
                        rf,
                        ids_view(parents@),
                        match filter {
                            Some(f) => Some(f@),
                            None => None,
                        },
                        ids_view(ids@),
                    ),
                ),
                ..old(self).tx_view()
            }),
    {
        self.parent_table.push((rf, parents, filter, ids));
        proof {
            assert(parent_table_view(self.parent_table@) =~= parent_table_view(
                old(self).parent_table@,
            ).push(parent_entry_view(self.parent_table@.last())));
        }
    }

    /// The current links, for inspection.
    pub fn links_vec(&self) -> (r: &Vec<(GraphqlId, GraphqlId)>)
        ensures
            links_view(r@) == self.tx_view().links,
    {
        &self.links
    }

    /// The update statements issued so far, for inspection.
    pub fn updates_vec(&self) -> (r: &Vec<UpdateWrite>)
        ensures
            updates_view(r@) == self.tx_view().updates,
    {
        &self.updates
    }
}

/// A selector found at position `i`, with no earlier match, is the one
/// the table resolves.
proof fn lemma_found_id_pin(rows: Seq<(SelectorView, IdView)>, sel: SelectorView, i: int)
    requires
        0 <= i < rows.len(),
        rows[i].0 == sel,
        forall|j: int| 0 <= j < i ==> rows[j].0 != sel,
    ensures
        found_id(rows, sel) == Some(rows[i].1),
    decreases i,
{
    if i > 0 {
        assert(rows.drop_first()[i - 1] == rows[i]);
        assert forall|j: int| 0 <= j < i - 1 implies rows.drop_first()[j].0 != sel by {
            assert(rows.drop_first()[j] == rows[j + 1]);
        }
        lemma_found_id_pin(rows.drop_first(), sel, i - 1);
    }
}

proof fn lemma_found_id_none(rows: Seq<(SelectorView, IdView)>, sel: SelectorView)
    requires
        forall|j: int| 0 <= j < rows.len() ==> rows[j].0 != sel,
    ensures
        found_id(rows, sel) is None,
    decreases rows.len(),
{
    if rows.len() > 0 {
        assert forall|j: int| 0 <= j < rows.drop_first().len() implies rows.drop_first()[j].0
            != sel by {
            assert(rows.drop_first()[j] == rows[j + 1]);
        }
        lemma_found_id_none(rows.drop_first(), sel);
    }
}

proof fn lemma_filtered_pin(
    frs: Seq<(int, Seq<(Seq<char>, ValueView)>, Seq<IdView>)>,
    model: int,
    filter: Seq<(Seq<char>, ValueView)>,
    i: int,
)
    requires
        0 <= i < frs.len(),
        frs[i].0 == model && frs[i].1 == filter,
        forall|j: int| 0 <= j < i ==> !(frs[j].0 == model && frs[j].1 == filter),
    ensures
        filtered_ids(frs, model, filter) == frs[i].2,
    decreases i,
{
    if i > 0 {
        assert(frs.drop_first()[i - 1] == frs[i]);
        assert forall|j: int| 0 <= j < i - 1 implies !(frs.drop_first()[j].0 == model
            && frs.drop_first()[j].1 == filter) by {
            assert(frs.drop_first()[j] == frs[j + 1]);
        }
        lemma_filtered_pin(frs.drop_first(), model, filter, i - 1);
    }
}

proof fn lemma_filtered_none(
    frs: Seq<(int, Seq<(Seq<char>, ValueView)>, Seq<IdView>)>,
    model: int,
    filter: Seq<(Seq<char>, ValueView)>,
)
    requires
        forall|j: int| 0 <= j < frs.len() ==> !(frs[j].0 == model && frs[j].1 == filter),
    ensures
        filtered_ids(frs, model, filter) == Seq::<IdView>::empty(),
    decreases frs.len(),
{
    if frs.len() > 0 {
        assert forall|j: int| 0 <= j < frs.drop_first().len() implies !(frs.drop_first()[j].0
            == model && frs.drop_first()[j].1 == filter) by {
            assert(frs.drop_first()[j] == frs[j + 1]);
        }
        lemma_filtered_none(frs.drop_first(), model, filter);
    }
}

proof fn lemma_parent_pin(
    prs: Seq<(RelationFieldRef, Seq<IdView>, Option<Seq<(Seq<char>, ValueView)>>, Seq<IdView>)>,
    rf: RelationFieldRef,
    parents: Seq<IdView>,
    filter: Option<Seq<(Seq<char>, ValueView)>>,
    i: int,
)
    requires
        0 <= i < prs.len(),
        prs[i].0 == rf && prs[i].1 == parents && prs[i].2 == filter,
        forall|j: int|
            0 <= j < i ==> !(prs[j].0 == rf && prs[j].1 == parents && prs[j].2 == filter),
    ensures
        parent_filtered_ids(prs, rf, parents, filter) == prs[i].3,
    decreases i,
{
    if i > 0 {
        assert(prs.drop_first()[i - 1] == prs[i]);
        assert forall|j: int| 0 <= j < i - 1 implies !(prs.drop_first()[j].0 == rf
            && prs.drop_first()[j].1 == parents && prs.drop_first()[j].2 == filter) by {
            assert(prs.drop_first()[j] == prs[j + 1]);
        }
        lemma_parent_pin(prs.drop_first(), rf, parents, filter, i - 1);
    }
}

proof fn lemma_parent_none(
    prs: Seq<(RelationFieldRef, Seq<IdView>, Option<Seq<(Seq<char>, ValueView)>>, Seq<IdView>)>,
    rf: RelationFieldRef,
    parents: Seq<IdView>,
    filter: Option<Seq<(Seq<char>, ValueView)>>,
)
    requires
        forall|j: int|
            0 <= j < prs.len() ==> !(prs[j].0 == rf && prs[j].1 == parents && prs[j].2 == filter),
    ensures
        parent_filtered_ids(prs, rf, parents, filter) == Seq::<IdView>::empty(),
    decreases prs.len(),
{
    if prs.len() > 0 {
        assert forall|j: int| 0 <= j < prs.drop_first().len() implies !(prs.drop_first()[j].0
            == rf && prs.drop_first()[j].1 == parents && prs.drop_first()[j].2 == filter) by {
            assert(prs.drop_first()[j] == prs[j + 1]);
        }
        lemma_parent_none(prs.drop_first(), rf, parents, filter);
    }
}

impl Transaction for MemoryTransaction {
    open spec fn tx_view(&self) -> TxView {
        TxView {
            links: links_view(self.links@),
            rows: rows_view(self.rows@),
            filter_rows: filter_table_view(self.filter_table@),
            parent_rows: parent_table_view(self.parent_table@),
            updates: updates_view(self.updates@),
        }
    }

    fn select_ids(&mut self, q: &SelectQuery) -> (r: Vec<GraphqlId>) {
        let mut out: Vec<GraphqlId> = Vec::new();
        match q {
            SelectQuery::ChildrenOf(p) => {
                let mut i: usize = 0;
                while i < self.links.len()
                    invariant
                        i <= self.links@.len(),
                        *self == *old(self),
                        ids_view(out@) == children_upto(links_view(self.links@), p@, i as int),
                    decreases self.links@.len() - i,
                {
                    proof {
                        assert(links_view(self.links@)[i as int] == link_view(
                            self.links@[i as int],
                        ));
                    }
                    if id_eq(&self.links[i].0, p) {
                        out.push(clone_id(&self.links[i].1));
                    }
                    i = i + 1;
                    proof {
                        assert(ids_view(out@) =~= children_upto(
                            links_view(self.links@),
                            p@,
                            i as int,
                        ));
                    }
                }
                proof {
                    assert(links_view(self.links@).len() == self.links@.len());
                }
            },
            SelectQuery::LinkedPair(p, c) => {
                let mut i: usize = 0;
                while i < self.links.len()
                    invariant
                        i <= self.links@.len(),
                        *self == *old(self),
                        ids_view(out@) == pairs_upto(links_view(self.links@), p@, c@, i as int),
                    decreases self.links@.len() - i,
                {
                    proof {
                        assert(links_view(self.links@)[i as int] == link_view(
                            self.links@[i as int],
                        ));
                    }
                    if id_eq(&self.links[i].0, p) && id_eq(&self.links[i].1, c) {
                        out.push(clone_id(&self.links[i].1));
                    }
                    i = i + 1;
                    proof {
                        assert(ids_view(out@) =~= pairs_upto(
                            links_view(self.links@),
                            p@,
                            c@,
                            i as int,
                        ));
                    }
                }
                proof {
                    assert(links_view(self.links@).len() == self.links@.len());
                }
            },
        }
        out
    }

    fn find_id(&mut self, sel: &NodeSelector) -> (r: Result<GraphqlId, CoreError>) {
        let mut i: usize = 0;
        while i < self.rows.len()
            invariant
                i <= self.rows@.len(),
                *self == *old(self),
                forall|j: int| 0 <= j < i ==> rows_view(self.rows@)[j].0 != sel@,
            decreases self.rows@.len() - i,
        {
            proof {
                assert(rows_view(self.rows@)[i as int] == row_view(self.rows@[i as int]));
            }
            if selector_eq(&self.rows[i].0, sel) {
                proof {
                    lemma_found_id_pin(rows_view(self.rows@), sel@, i as int);
                }
                return Ok(clone_id(&self.rows[i].1));
            }
            i = i + 1;
        }
        proof {
            assert(rows_view(self.rows@).len() == self.rows@.len());
            lemma_found_id_none(rows_view(self.rows@), sel@);
        }
        Err(CoreError::NotFoundError(String::from_str("Node not found for selector")))
    }

    fn write(&mut self, w: &RelationWrite) {
        match w {
            RelationWrite::AddLink(p, c) => {
                self.links.push((clone_id(p), clone_id(c)));
                proof {
                    assert(links_view(self.links@) =~= links_view(old(self).links@).push(
                        (p@, c@),
                    ));
                }
            },
            RelationWrite::RemoveByParent(p) => {
                let mut kept: Vec<(GraphqlId, GraphqlId)> = Vec::new();
                let mut i: usize = 0;
                while i < self.links.len()
                    invariant
                        i <= self.links@.len(),
                        *self == *old(self),
                        links_view(kept@) == remove_parent_upto(
                            links_view(self.links@),
                            p@,
                            i as int,
                        ),
                    decreases self.links@.len() - i,
                {
                    proof {
                        assert(links_view(self.links@)[i as int] == link_view(
                            self.links@[i as int],
                        ));
                    }
                    if !id_eq(&self.links[i].0, p) {
                        let (a, b) = &self.links[i];
                        kept.push((clone_id(a), clone_id(b)));
                    }
                    i = i + 1;
                    proof {
                        assert(links_view(kept@) =~= remove_parent_upto(
                            links_view(self.links@),
                            p@,
                            i as int,
                        ));
                    }
                }
                proof {
                    assert(links_view(self.links@).len() == self.links@.len());
                }
                self.links = kept;
            },
            RelationWrite::RemoveByChild(c) => {
                let mut kept: Vec<(GraphqlId, GraphqlId)> = Vec::new();
                let mut i: usize = 0;
                while i < self.links.len()
                    invariant
                        i <= self.links@.len(),
                        *self == *old(self),
                        links_view(kept@) == remove_child_upto(
                            links_view(self.links@),
                            c@,
                            i as int,
                        ),
                    decreases self.links@.len() - i,
                {
                    proof {
                        assert(links_view(self.links@)[i as int] == link_view(
                            self.links@[i as int],
                        ));
                    }
                    if !id_eq(&self.links[i].1, c) {
                        let (a, b) = &self.links[i];
                        kept.push((clone_id(a), clone_id(b)));
                    }
                    i = i + 1;
                    proof {
                        assert(links_view(kept@) =~= remove_child_upto(
                            links_view(self.links@),
                            c@,
                            i as int,
                        ));
                    }
                }
                proof {
                    assert(links_view(self.links@).len() == self.links@.len());
                }
                self.links = kept;
            },
            RelationWrite::RemoveByPair(p, c) => {
                let mut kept: Vec<(GraphqlId, GraphqlId)> = Vec::new();
                let mut i: usize = 0;
                while i < self.links.len()
                    invariant
                        i <= self.links@.len(),
                        *self == *old(self),
                        links_view(kept@) == remove_pair_upto(
                            links_view(self.links@),
                            p@,
                            c@,
                            i as int,
                        ),
                    decreases self.links@.len() - i,
                {
                    proof {
                        assert(links_view(self.links@)[i as int] == link_view(
                            self.links@[i as int],
                        ));
                    }
                    if !(id_eq(&self.links[i].0, p) && id_eq(&self.links[i].1, c)) {
                        let (a, b) = &self.links[i];
                        kept.push((clone_id(a), clone_id(b)));
                    }
                    i = i + 1;
                    proof {
                        assert(links_view(kept@) =~= remove_pair_upto(
                            links_view(self.links@),
                            p@,
                            c@,
                            i as int,
                        ));
                    }
                }
                proof {
                    assert(links_view(self.links@).len() == self.links@.len());
                }
                self.links = kept;
            },
        }
    }

    fn update(&mut self, u: UpdateWrite) {
        self.updates.push(u);
        proof {
            assert(updates_view(self.updates@) =~= updates_view(old(self).updates@).push(
                update_write_view(self.updates@.last()),
            ));
        }
    }

    fn filter_ids(&mut self, model: usize, filter: &Filter) -> (r: Vec<GraphqlId>) {
        let mut i: usize = 0;
        while i < self.filter_table.len()
            invariant
                i <= self.filter_table@.len(),
                *self == *old(self),
                forall|j: int|
                    0 <= j < i ==> !((#[trigger] filter_table_view(self.filter_table@)[j]).0
                        == model as int && filter_table_view(self.filter_table@)[j].1 == filter@),
            decreases self.filter_table@.len() - i,
        {
            proof {
                assert(filter_table_view(self.filter_table@)[i as int] == filter_entry_view(
                    self.filter_table@[i as int],
                ));
            }
            let hit = self.filter_table[i].0 == model && filter_eq(&self.filter_table[i].1, filter);
            if hit {
                proof {
                    lemma_filtered_pin(
                        filter_table_view(self.filter_table@),
                        model as int,
                        filter@,
                        i as int,
                    );
                }
                return clone_ids(&self.filter_table[i].2);
            }
            i = i + 1;
        }
        proof {
            assert(filter_table_view(self.filter_table@).len() == self.filter_table@.len());
            lemma_filtered_none(filter_table_view(self.filter_table@), model as int, filter@);
        }
        let empty: Vec<GraphqlId> = Vec::new();
        proof {
            assert(ids_view(empty@) =~= Seq::<IdView>::empty());
        }
        empty
    }

    fn filter_ids_by_parents(
        &mut self,
        rf: RelationFieldRef,
        parents: &Vec<GraphqlId>,
        filter: &Option<Filter>,
    ) -> (r: Vec<GraphqlId>) {
        let mut i: usize = 0;
        while i < self.parent_table.len()
            invariant
                i <= self.parent_table@.len(),
                *self == *old(self),
                forall|j: int|
                    0 <= j < i ==> !((#[trigger] parent_table_view(self.parent_table@)[j]).0 == rf
                        && parent_table_view(self.parent_table@)[j].1 == ids_view(parents@)
                        && parent_table_view(self.parent_table@)[j].2 == (match *filter {
                        Some(f) => Some(f@),
                        None => None,
                    })),
            decreases self.parent_table@.len() - i,
        {
            proof {
                assert(parent_table_view(self.parent_table@)[i as int] == parent_entry_view(
                    self.parent_table@[i as int],
                ));
            }
            let entry = &self.parent_table[i];
            let rf_hit = entry.0.model == rf.model && entry.0.field == rf.field;
            let parents_hit = ids_eq(&entry.1, parents);
            let filter_hit = match (&entry.2, filter) {
                (Some(a), Some(b)) => filter_eq(a, b),
                (None, None) => true,
                _ => false,
            };
            if rf_hit && parents_hit && filter_hit {
                proof {
                    lemma_parent_pin(
                        parent_table_view(self.parent_table@),
                        rf,
                        ids_view(parents@),
                        match filter {
                            Some(f) => Some(f@),
                            None => None,
                        },
                        i as int,
                    );
                }
                return clone_ids(&self.parent_table[i].3);
            }
            i = i + 1;
        }
        proof {
            assert(parent_table_view(self.parent_table@).len() == self.parent_table@.len());
            lemma_parent_none(
                parent_table_view(self.parent_table@),
                rf,
                ids_view(parents@),
                match filter {
                    Some(f) => Some(f@),
                    None => None,
                },
            );
        }
        let empty: Vec<GraphqlId> = Vec::new();
        proof {
            assert(ids_view(empty@) =~= Seq::<IdView>::empty());
        }
        empty
    }
}

/// Copies a list of row identifiers.
pub fn clone_ids(v: &Vec<GraphqlId>) -> (r: Vec<GraphqlId>)
    ensures
        ids_view(r@) == ids_view(v@),
{
    let mut out: Vec<GraphqlId> = Vec::new();
    let mut i: usize = 0;
    while i < v.len()
        invariant
            i <= v@.len(),
            out@.len() == i as int,
            ids_view(out@) == ids_view(v@).subrange(0, i as int),
        decreases v@.len() - i,
    {
        out.push(clone_id(&v[i]));
        i = i + 1;
        proof {
            assert(ids_view(out@)[i as int - 1] == out@[i as int - 1]@);
            assert(ids_view(v@)[i as int - 1] == v@[i as int - 1]@);
            assert forall|j: int| 0 <= j < i - 1 implies ids_view(out@)[j] == ids_view(
                v@,
            ).subrange(0, i as int)[j] by {
                assert(ids_view(out@)[j] == out@[j]@);
            }
            assert(ids_view(out@) =~= ids_view(v@).subrange(0, i as int));
        }
    }
    proof {
        assert(ids_view(v@).subrange(0, v@.len() as int) =~= ids_view(v@));
    }
    out
}

} // verus!
