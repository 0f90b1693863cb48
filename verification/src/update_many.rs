//! The batch update executor: scalar and list-valued updates across every
//! row matching a filter, globally or scoped to a parent's related rows.
//!
//! The filter is resolved eagerly to the full id set; an empty set is a
//! no-op returning zero, otherwise one scalar-update batch is issued and
//! then one list-update pass per list argument, and the matched-row count
//! is returned.

use vstd::prelude::*;
use crate::args::Filter;
use crate::error::CoreError;
use crate::schema::RelationFieldRef;
use crate::transaction::{Transaction, TxView, UpdateView, UpdateWrite, clone_ids, filtered_ids,
    ids_view, parent_filtered_ids};
use crate::values::{GraphqlId, IdView, PrismaValue, ValueView, clone_id, clone_value};
use crate::write::{PrismaArgs, PrismaListArgs, args_view, clone_args, list_pairs_view,
    list_pair_view, vals_view};

verus! {

/// The update statements a list-argument pass issues, one per argument,
/// in order, over the first `n` arguments.
pub open spec fn list_updates_upto(
    model: int,
    ids: Seq<IdView>,
    lists: Seq<(Seq<char>, Option<Seq<ValueView>>)>,
    n: int,
) -> Seq<UpdateView>
    decreases n,
{
    if n <= 0 || n > lists.len() {
        Seq::empty()
    } else {
        list_updates_upto(model, ids, lists, n - 1).push(
            UpdateView::ListReplace {
                model,
                ids,
                name: lists[n - 1].0,
                values: lists[n - 1].1,
            },
        )
    }
}

/// The update log a batch update leaves behind: untouched for an empty id
/// set, else the scalar batch followed by one list update per argument.
pub open spec fn spec_batch_log(
    old_log: Seq<UpdateView>,
    model: int,
    ids: Seq<IdView>,
    args: Seq<(Seq<char>, ValueView)>,
    lists: Seq<(Seq<char>, Option<Seq<ValueView>>)>,
) -> Seq<UpdateView> {
    if ids.len() == 0 {
        old_log
    } else {
        old_log.push(UpdateView::ScalarBatch { model, ids, args }) + list_updates_upto(
            model,
            ids,
            lists,
            lists.len() as int,
        )
    }
}

/// Updates every row matching the filter: returns the matched-row count,
/// issuing no writes when it is zero, else exactly one scalar batch and
/// one list pass per list argument.
pub fn execute<T: Transaction>(
    conn: &mut T,
    model: usize,
    filter: &Filter,
    non_list_args: &PrismaArgs,
    list_args: &PrismaListArgs,
) -> (r: Result<usize, CoreError>)
    ensures
        final(conn).tx_view() == (TxView {
            updates: spec_batch_log(
                old(conn).tx_view().updates,
                model as int,
                filtered_ids(old(conn).tx_view().filter_rows, model as int, filter@),
                args_view(*non_list_args),
                list_pairs_view(list_args@),
            ),
            ..old(conn).tx_view()
        }),
        r matches Ok(n) ==> n == filtered_ids(
            old(conn).tx_view().filter_rows,
            model as int,
            filter@,
        ).len(),
        r is Ok,
{
    let ghost v0 = old(conn).tx_view();
    let ids = conn.filter_ids(model, filter);
    let ghost idsv = ids_view(ids@);
    let count = ids.len();
    proof {
        assert(idsv.len() == ids@.len());
    }
    if count == 0 {
        return Ok(0);
    }
    conn.update(
        UpdateWrite::ScalarBatch {
            model,
            ids: clone_ids(&ids),
            args: clone_args(non_list_args),
        },
    );
    let mut i: usize = 0;
    while i < list_args.len()
        invariant
            i <= list_args@.len(),
            v0 == old(conn).tx_view(),
            idsv == ids_view(ids@),
            idsv.len() == ids@.len(),
            idsv.len() > 0,
            ids@.len() == count,
            idsv == filtered_ids(v0.filter_rows, model as int, filter@),
            conn.tx_view() == (TxView {
                updates: v0.updates.push(
                    UpdateView::ScalarBatch {
                        model: model as int,
                        ids: idsv,
                        args: args_view(*non_list_args),
                    },
                ) + list_updates_upto(
                    model as int,
                    idsv,
                    list_pairs_view(list_args@),
                    i as int,
                ),
                ..v0
            }),
        decreases list_args@.len() - i,
    {
        let (k, ov) = &list_args[i];
        let values: Option<Vec<PrismaValue>> = match ov {
            Some(vs) => {
                let mut inner: Vec<PrismaValue> = Vec::new();
                proof {
                    assert(vals_view(inner@) =~= vals_view(vs@).subrange(0, 0));
                }
                let mut j: usize = 0;
                while j < vs.len()
                    invariant
                        j <= vs@.len(),
                        inner@.len() == j as int,
                        vals_view(inner@) == vals_view(vs@).subrange(0, j as int),
                    decreases vs@.len() - j,
                {
                    let vc = clone_value(&vs[j]);
                    inner.push(vc);
                    j = j + 1;
                    proof {
                        assert(vals_view(inner@)[j as int - 1] == inner@[j as int - 1]@);
                        assert(vals_view(vs@)[j as int - 1] == vs@[j as int - 1]@);
                        assert forall|t: int| 0 <= t < j - 1 implies vals_view(inner@)[t]
                            == vals_view(vs@).subrange(0, j as int)[t] by {
                            assert(vals_view(inner@)[t] == inner@[t]@);
                        }
                        assert(vals_view(inner@) =~= vals_view(vs@).subrange(0, j as int));
                    }
                }
                proof {
                    assert(vals_view(vs@).subrange(0, vs@.len() as int) =~= vals_view(vs@));
                }
                Some(inner)
            },
            None => None,
        };
        conn.update(
            UpdateWrite::ListReplace { model, ids: clone_ids(&ids), name: k.clone(), values },
        );
        i = i + 1;
        proof {
            assert(list_pairs_view(list_args@)[i as int - 1] == list_pair_view(
                list_args@[i as int - 1],
            ));
            assert(conn.tx_view().updates =~= v0.updates.push(
                UpdateView::ScalarBatch {
                    model: model as int,
                    ids: idsv,
                    args: args_view(*non_list_args),
                },
            ) + list_updates_upto(model as int, idsv, list_pairs_view(list_args@), i as int));
        }
    }
    proof {
        assert(list_pairs_view(list_args@).len() == list_args@.len());
    }
    Ok(count)
}

/// Updates the rows related to the parent through the relation field,
/// narrowed by the filter when one is given; otherwise as `execute`.
pub fn execute_nested<T: Transaction>(
    conn: &mut T,
    parent_id: &GraphqlId,
    filter: &Option<Filter>,
    relation_field: RelationFieldRef,
    model: usize,
    non_list_args: &PrismaArgs,
    list_args: &PrismaListArgs,
) -> (r: Result<usize, CoreError>)
    ensures
        final(conn).tx_view() == (TxView {
            updates: spec_batch_log(
                old(conn).tx_view().updates,
                model as int,
                parent_filtered_ids(
                    old(conn).tx_view().parent_rows,
                    relation_field,
                    seq![parent_id@],
                    match filter {
                        Some(f) => Some(f@),
                        None => None,
                    },
                ),
                args_view(*non_list_args),
                list_pairs_view(list_args@),
            ),
            ..old(conn).tx_view()
        }),
        r matches Ok(n) ==> n == parent_filtered_ids(
            old(conn).tx_view().parent_rows,
            relation_field,
            seq![parent_id@],
            match filter {
                Some(f) => Some(f@),
                None => None,
            },
        ).len(),
        r is Ok,
{
    let ghost v0 = old(conn).tx_view();
    let mut parents: Vec<GraphqlId> = Vec::new();
    parents.push(clone_id(parent_id));
    proof {
        assert(ids_view(parents@) =~= seq![parent_id@]);
    }
    let ids = conn.filter_ids_by_parents(relation_field, &parents, filter);
    let ghost idsv = ids_view(ids@);
    let count = ids.len();
    proof {
        assert(idsv.len() == ids@.len());
    }
    if count == 0 {
        return Ok(0);
    }
    conn.update(
        UpdateWrite::ScalarBatch {
            model,
            ids: clone_ids(&ids),
            args: clone_args(non_list_args),
        },
    );
    let mut i: usize = 0;
    while i < list_args.len()
        invariant
            i <= list_args@.len(),
            v0 == old(conn).tx_view(),
            idsv == ids_view(ids@),
            idsv.len() == ids@.len(),
            idsv.len() > 0,
            ids@.len() == count,
            idsv == parent_filtered_ids(
                v0.parent_rows,
                relation_field,
                seq![parent_id@],
                match filter {
                    Some(f) => Some(f@),
                    None => None,
                },
            ),
            conn.tx_view() == (TxView {
                updates: v0.updates.push(
                    UpdateView::ScalarBatch {
                        model: model as int,
                        ids: idsv,
                        args: args_view(*non_list_args),
                    },
                ) + list_updates_upto(
                    model as int,
                    idsv,
                    list_pairs_view(list_args@),
                    i as int,
                ),
                ..v0
            }),
        decreases list_args@.len() - i,
    {
        let (k, ov) = &list_args[i];
        let values: Option<Vec<PrismaValue>> = match ov {
            Some(vs) => {
                let mut inner: Vec<PrismaValue> = Vec::new();
                proof {
                    assert(vals_view(inner@) =~= vals_view(vs@).subrange(0, 0));
                }
                let mut j: usize = 0;
                while j < vs.len()
                    invariant
                        j <= vs@.len(),
                        inner@.len() == j as int,
                        vals_view(inner@) == vals_view(vs@).subrange(0, j as int),
                    decreases vs@.len() - j,
                {
                    let vc = clone_value(&vs[j]);
                    inner.push(vc);
                    j = j + 1;
                    proof {
                        assert(vals_view(inner@)[j as int - 1] == inner@[j as int - 1]@);
                        assert(vals_view(vs@)[j as int - 1] == vs@[j as int - 1]@);
                        assert forall|t: int| 0 <= t < j - 1 implies vals_view(inner@)[t]
                            == vals_view(vs@).subrange(0, j as int)[t] by {
                            assert(vals_view(inner@)[t] == inner@[t]@);
                        }
                        assert(vals_view(inner@) =~= vals_view(vs@).subrange(0, j as int));
                    }
                }
                proof {
                    assert(vals_view(vs@).subrange(0, vs@.len() as int) =~= vals_view(vs@));
                }
                Some(inner)
            },
            None => None,
        };
        conn.update(
            UpdateWrite::ListReplace { model, ids: clone_ids(&ids), name: k.clone(), values },
        );
        i = i + 1;
        proof {
            assert(list_pairs_view(list_args@)[i as int - 1] == list_pair_view(
                list_args@[i as int - 1],
            ));
            assert(conn.tx_view().updates =~= v0.updates.push(
                UpdateView::ScalarBatch {
                    model: model as int,
                    ids: idsv,
                    args: args_view(*non_list_args),
                },
            ) + list_updates_upto(model as int, idsv, list_pairs_view(list_args@), i as int));
        }
    }
    proof {
        assert(list_pairs_view(list_args@).len() == list_args@.len());
    }
    Ok(count)
}

/// Law: a batch update on a filter matching zero rows returns zero and
/// issues no writes; matching `n` rows it returns `n` and issues exactly
/// one scalar-update batch and one list-update pass per list argument.
pub proof fn lemma_batch_update_counts(
    old_log: Seq<UpdateView>,
    model: int,
    ids: Seq<IdView>,
    args: Seq<(Seq<char>, ValueView)>,
    lists: Seq<(Seq<char>, Option<Seq<ValueView>>)>,
)
    ensures
        ids.len() == 0 ==> spec_batch_log(old_log, model, ids, args, lists) == old_log,
        ids.len() > 0 ==> spec_batch_log(old_log, model, ids, args, lists).len() == old_log.len()
            + 1 + lists.len(),
        ids.len() > 0 ==> spec_batch_log(old_log, model, ids, args, lists)[old_log.len() as int]
            == (UpdateView::ScalarBatch { model, ids, args }),
{
    if ids.len() > 0 {
        lemma_list_updates_len(model, ids, lists, lists.len() as int);
    }
}

proof fn lemma_list_updates_len(
    model: int,
    ids: Seq<IdView>,
    lists: Seq<(Seq<char>, Option<Seq<ValueView>>)>,
    n: int,
)
    requires
        0 <= n <= lists.len(),
    ensures
        list_updates_upto(model, ids, lists, n).len() == n,
    decreases n,
{
    if n > 0 {
        lemma_list_updates_len(model, ids, lists, n - 1);
    }
}

} // verus!
