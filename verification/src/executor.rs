//! The nested relation mutation executor: connect, disconnect and set,
//! with their required-check rules, over a transaction capability.
//!
//! Required-checks always precede the removals they guard, and removals
//! precede the writes that depend on them: a failed check or lookup stops
//! the operation before any dependent write, so an error leaves the links
//! exactly as the operation found them (or, for `set`, as the committed
//! prefix left them — the list is applied fail-fast, not atomically).

use vstd::prelude::*;
use crate::error::CoreError;
use crate::schema::Relation;
use crate::transaction::{RelationWrite, SelectQuery, Transaction, TxView, children_of, pairs_of,
    remove_child, remove_parent, remove_pair, ids_view};
use crate::values::{GraphqlId, IdView, NodeSelector, SelectorView, clone_id};

verus! {

/// When `connect` must run a required-check: exactly when the parent side
/// is singular and required and the child side is singular.
pub open spec fn connect_check_applies(rel: Relation) -> bool {
    !rel.parent.is_list && rel.parent.is_required && !rel.child.is_list
}

/// The disallowed state the connect check reports: with a required child
/// side the configuration itself is a violation; otherwise an existing
/// child link of the parent is.
pub open spec fn connect_check_fails(
    links: Seq<(IdView, IdView)>,
    rel: Relation,
    parent: IdView,
) -> bool {
    rel.child.is_required || children_of(links, parent).len() > 0
}

/// When `disconnect` must refuse outright: the five cardinality
/// configurations in which severing the link is unsafe. The table is
/// deliberately kept independent of the connect table.
pub open spec fn disconnect_check_applies(rel: Relation) -> bool {
    let p_l = rel.parent.is_list;
    let p_r = rel.parent.is_required;
    let c_l = rel.child.is_list;
    let c_r = rel.child.is_required;
    ||| (!p_l && p_r && !c_l && c_r)
    ||| (!p_l && p_r && !c_l && !c_r)
    ||| (!p_l && !p_r && !c_l && c_r)
    ||| (p_l && !p_r && !c_l && c_r)
    ||| (!p_l && p_r && c_l && !c_r)
}

/// The verdict kind of an executor operation, for the specifications.
#[derive(Debug, PartialEq, Eq, Structural, Clone, Copy)]
pub enum ExecErr {
    NotFound,
    RelationViolation,
}

/// Whether an error value carries the verdict kind.
pub open spec fn exec_err_matches(e: CoreError, k: ExecErr) -> bool {
    match k {
        ExecErr::NotFound => e is NotFoundError,
        ExecErr::RelationViolation => e is RelationViolation,
    }
}

/// What `connect` decides and does, as a function of the starting state:
/// the verdict and the links left behind.
pub open spec fn spec_connect(
    v: TxView,
    rel: Relation,
    parent: IdView,
    sel: SelectorView,
) -> (Result<(), ExecErr>, Seq<(IdView, IdView)>) {
    if connect_check_applies(rel) && connect_check_fails(v.links, rel, parent) {
        (Err(ExecErr::RelationViolation), v.links)
    } else {
        match crate::transaction::found_id(v.rows, sel) {
            None => (Err(ExecErr::NotFound), v.links),
            Some(child) => {
                let l1 = if !rel.parent.is_list {
                    remove_parent(v.links, parent)
                } else {
                    v.links
                };
                let l2 = if !rel.child.is_list {
                    remove_child(l1, child)
                } else {
                    l1
                };
                (Ok(()), l2.push((parent, child)))
            },
        }
    }
}

/// Connect a record to the parent: run the required-check where it
/// applies, resolve the child, drop the conflicting link on each singular
/// side, then write the new link last.
pub fn connect<T: Transaction>(
    conn: &mut T,
    parent_id: &GraphqlId,
    rel: &Relation,
    node_selector: &NodeSelector,
) -> (r: Result<(), CoreError>)
    ensures
        final(conn).tx_view() == (TxView {
            links: spec_connect(old(conn).tx_view(), *rel, parent_id@, node_selector@).1,
            ..old(conn).tx_view()
        }),
        r is Ok <==> spec_connect(old(conn).tx_view(), *rel, parent_id@, node_selector@).0 is Ok,
        (r matches Err(e) ==> spec_connect(
            old(conn).tx_view(),
            *rel,
            parent_id@,
            node_selector@,
        ).0 matches Err(k) && exec_err_matches(e, k)),
{
    if !rel.parent.is_list && rel.parent.is_required && !rel.child.is_list {
        if rel.child.is_required {
            return Err(CoreError::RelationViolation(String::from_str("Relation violation")));
        }
        let ids = conn.select_ids(&SelectQuery::ChildrenOf(clone_id(parent_id)));
        if ids.len() > 0 {
            proof {
                assert(ids_view(ids@).len() == ids@.len());
            }
            return Err(CoreError::RelationViolation(String::from_str("Relation violation")));
        }
        proof {
            assert(ids_view(ids@).len() == ids@.len());
        }
    }
    let child_id = match conn.find_id(node_selector) {
        Ok(id) => id,
        Err(e) => {
            return Err(e);
        },
    };
    if !rel.parent.is_list {
        conn.write(&RelationWrite::RemoveByParent(clone_id(parent_id)));
    }
    if !rel.child.is_list {
        conn.write(&RelationWrite::RemoveByChild(clone_id(&child_id)));
    }
    conn.write(&RelationWrite::AddLink(clone_id(parent_id), child_id));
    Ok(())
}

/// What `disconnect` decides and does.
pub open spec fn spec_disconnect(
    v: TxView,
    rel: Relation,
    parent: IdView,
    osel: Option<SelectorView>,
) -> (Result<(), ExecErr>, Seq<(IdView, IdView)>) {
    if disconnect_check_applies(rel) {
        (Err(ExecErr::RelationViolation), v.links)
    } else {
        match osel {
            None => if children_of(v.links, parent).len() > 0 {
                (Ok(()), remove_parent(v.links, parent))
            } else {
                (Err(ExecErr::RelationViolation), v.links)
            },
            Some(sel) => match crate::transaction::found_id(v.rows, sel) {
                None => (Err(ExecErr::NotFound), v.links),
                Some(child) => if pairs_of(v.links, parent, child).len() > 0 {
                    (Ok(()), remove_pair(v.links, parent, child))
                } else {
                    (Err(ExecErr::RelationViolation), v.links)
                },
            },
        }
    }
}

/// Disconnect a record from the parent: refuse outright in the unsafe
/// configurations; without a selector, verify the parent is connected and
/// remove by parent; with one, resolve the child, verify that exact pair
/// is connected, and remove it.
pub fn disconnect<T: Transaction>(
    conn: &mut T,
    parent_id: &GraphqlId,
    rel: &Relation,
    node_selector: &Option<NodeSelector>,
) -> (r: Result<(), CoreError>)
    ensures
        final(conn).tx_view() == (TxView {
            links: spec_disconnect(
                old(conn).tx_view(),
                *rel,
                parent_id@,
                match node_selector {
                    Some(sel) => Some(sel@),
                    None => None,
                },
            ).1,
            ..old(conn).tx_view()
        }),
        r is Ok <==> spec_disconnect(
            old(conn).tx_view(),
            *rel,
            parent_id@,
            match node_selector {
                Some(sel) => Some(sel@),
                None => None,
            },
        ).0 is Ok,
        (r matches Err(e) ==> spec_disconnect(
            old(conn).tx_view(),
            *rel,
            parent_id@,
            match node_selector {
                Some(sel) => Some(sel@),
                None => None,
            },
        ).0 matches Err(k) && exec_err_matches(e, k)),
{
    let p_l = rel.parent.is_list;
    let p_r = rel.parent.is_required;
    let c_l = rel.child.is_list;
    let c_r = rel.child.is_required;
    let unsafe_config = (!p_l && p_r && !c_l && c_r) || (!p_l && p_r && !c_l && !c_r) || (!p_l
        && !p_r && !c_l && c_r) || (p_l && !p_r && !c_l && c_r) || (!p_l && p_r && c_l && !c_r);
    if unsafe_config {
        return Err(CoreError::RelationViolation(String::from_str("Relation violation")));
    }
    match node_selector {
        None => {
            let ids = conn.select_ids(&SelectQuery::ChildrenOf(clone_id(parent_id)));
            proof {
                assert(ids_view(ids@).len() == ids@.len());
            }
            if ids.len() == 0 {
                return Err(CoreError::RelationViolation(
                    String::from_str("Relation violation"),
                ));
            }
            conn.write(&RelationWrite::RemoveByParent(clone_id(parent_id)));
            Ok(())
        },
        Some(selector) => {
            let child_id = match conn.find_id(selector) {
                Ok(id) => id,
                Err(e) => {
                    return Err(e);
                },
            };
            let ids = conn.select_ids(
                &SelectQuery::LinkedPair(clone_id(parent_id), clone_id(&child_id)),
            );
            proof {
                assert(ids_view(ids@).len() == ids@.len());
            }
            if ids.len() == 0 {
                return Err(CoreError::RelationViolation(
                    String::from_str("Relation violation"),
                ));
            }
            conn.write(&RelationWrite::RemoveByPair(clone_id(parent_id), child_id));
            Ok(())
        },
    }
}

/// What connecting the selectors one by one, fail-fast, does from
/// position `i` on.
pub open spec fn spec_set_from(
    rows: Seq<(SelectorView, IdView)>,
    links: Seq<(IdView, IdView)>,
    rel: Relation,
    parent: IdView,
    sels: Seq<SelectorView>,
    i: int,
) -> (Result<(), ExecErr>, Seq<(IdView, IdView)>)
    decreases sels.len() - i,
{
    if i < 0 || i >= sels.len() {
        (Ok(()), links)
    } else {
        match crate::transaction::found_id(rows, sels[i]) {
            None => (Err(ExecErr::NotFound), links),
            Some(child) => {
                let l1 = if !rel.child.is_list {
                    remove_child(links, child)
                } else {
                    links
                };
                spec_set_from(rows, l1.push((parent, child)), rel, parent, sels, i + 1)
            },
        }
    }
}

/// What `set` decides and does: all links of the parent are removed, then
/// each selector is resolved and connected in order, each child first cut
/// loose from any other parent when the child side is singular.
pub open spec fn spec_set(
    v: TxView,
    rel: Relation,
    parent: IdView,
    sels: Seq<SelectorView>,
) -> (Result<(), ExecErr>, Seq<(IdView, IdView)>) {
    spec_set_from(v.rows, remove_parent(v.links, parent), rel, parent, sels, 0)
}

/// Images of a selector list.
pub open spec fn selectors_view(s: Seq<NodeSelector>) -> Seq<SelectorView> {
    s.map_values(|sel: NodeSelector| sel@)
}

/// Connects multiple records into the parent, replacing whatever was
/// linked before; no required-check applies to a replacement of the whole
/// link set. A mid-list failure leaves the already-connected prefix
/// committed (fail-fast, not atomic); atomicity across the list, if
/// needed, belongs to the enclosing transaction.
pub fn set<T: Transaction>(
    conn: &mut T,
    parent_id: &GraphqlId,
    rel: &Relation,
    node_selectors: &Vec<NodeSelector>,
) -> (r: Result<(), CoreError>)
    ensures
        final(conn).tx_view() == (TxView {
            links: spec_set(
                old(conn).tx_view(),
                *rel,
                parent_id@,
                selectors_view(node_selectors@),
            ).1,
            ..old(conn).tx_view()
        }),
        r is Ok <==> spec_set(
            old(conn).tx_view(),
            *rel,
            parent_id@,
            selectors_view(node_selectors@),
        ).0 is Ok,
        (r matches Err(e) ==> spec_set(
            old(conn).tx_view(),
            *rel,
            parent_id@,
            selectors_view(node_selectors@),
        ).0 matches Err(k) && exec_err_matches(e, k)),
{
    let ghost v0 = old(conn).tx_view();
    let ghost sels = selectors_view(node_selectors@);
    conn.write(&RelationWrite::RemoveByParent(clone_id(parent_id)));
    let mut i: usize = 0;
    while i < node_selectors.len()
        invariant
            i <= node_selectors@.len(),
            v0 == old(conn).tx_view(),
            sels == selectors_view(node_selectors@),
            sels.len() == node_selectors@.len(),
            conn.tx_view().rows == v0.rows,
            conn.tx_view().filter_rows == v0.filter_rows,
            conn.tx_view().parent_rows == v0.parent_rows,
            conn.tx_view().updates == v0.updates,
            spec_set_from(v0.rows, remove_parent(v0.links, parent_id@), *rel, parent_id@, sels, 0)
                == spec_set_from(v0.rows, conn.tx_view().links, *rel, parent_id@, sels, i as int),
        decreases node_selectors@.len() - i,
    {
        proof {
            assert(sels[i as int] == node_selectors@[i as int]@);
        }
        let ghost lk = conn.tx_view().links;
        let child_id = match conn.find_id(&node_selectors[i]) {
            Ok(id) => id,
            Err(e) => {
                proof {
                    assert(spec_set_from(v0.rows, lk, *rel, parent_id@, sels, i as int) == (
                        Err::<(), ExecErr>(ExecErr::NotFound),
                        lk,
                    ));
                }
                return Err(e);
            },
        };
        if !rel.child.is_list {
            conn.write(&RelationWrite::RemoveByChild(clone_id(&child_id)));
        }
        conn.write(&RelationWrite::AddLink(clone_id(parent_id), child_id));
        i = i + 1;
        proof {
            let l1 = if !rel.child.is_list {
                remove_child(lk, child_id@)
            } else {
                lk
            };
            assert(conn.tx_view().links == l1.push((parent_id@, child_id@)));
            assert(spec_set_from(v0.rows, lk, *rel, parent_id@, sels, i as int - 1)
                == spec_set_from(v0.rows, conn.tx_view().links, *rel, parent_id@, sels, i as int));
        }
    }
    proof {
        assert(spec_set_from(
            v0.rows,
            conn.tx_view().links,
            *rel,
            parent_id@,
            sels,
            sels.len() as int,
        ) == (Ok::<(), ExecErr>(()), conn.tx_view().links));
    }
    Ok(())
}

/// Law: `connect` runs its required-check exactly in the configurations
/// of the connect table, and never writes past a failed check — a failed
/// check leaves the links untouched; with a list-valued parent side no
/// check applies, so `connect` never reports a relation violation.
pub proof fn lemma_connect_check_table(v: TxView, rel: Relation, parent: IdView, sel: SelectorView)
    ensures
        rel.parent.is_list ==> !connect_check_applies(rel) && !(spec_connect(
            v,
            rel,
            parent,
            sel,
        ).0 matches Err(k) && k is RelationViolation),
        (connect_check_applies(rel) && connect_check_fails(v.links, rel, parent)) ==> spec_connect(
            v,
            rel,
            parent,
            sel,
        ) == (Err::<(), ExecErr>(ExecErr::RelationViolation), v.links),
{
}

/// Law: `disconnect` without a selector on a relation with no existing
/// connection from the parent reports a relation violation, never a
/// silent no-op — whether through the unsafe-configuration table or the
/// connectedness check — and leaves the links untouched.
pub proof fn lemma_disconnect_absent_connection(v: TxView, rel: Relation, parent: IdView)
    requires
        children_of(v.links, parent).len() == 0,
    ensures
        spec_disconnect(v, rel, parent, None).0 matches Err(k) && k is RelationViolation,
        spec_disconnect(v, rel, parent, None).1 == v.links,
{
}

/// Membership after removing a parent's links: a pair survives exactly
/// when it was among the first `n` and names another parent.
proof fn lemma_remove_parent_mem(ls: Seq<(IdView, IdView)>, p: IdView, n: int, x: (IdView, IdView))
    requires
        0 <= n <= ls.len(),
    ensures
        crate::transaction::remove_parent_upto(ls, p, n).contains(x) <==> ((exists|i: int|
            0 <= i < n && ls[i] == x) && x.0 != p),
    decreases n,
{
    if n > 0 {
        lemma_remove_parent_mem(ls, p, n - 1, x);
        let prev = crate::transaction::remove_parent_upto(ls, p, n - 1);
        let cur = crate::transaction::remove_parent_upto(ls, p, n);
        let keep = ls[n - 1].0 != p;
        if keep {
            assert(cur == prev.push(ls[n - 1]));
            lemma_push_mem(prev, ls[n - 1], x);
        } else {
            assert(cur == prev);
        }
        if cur.contains(x) {
            if keep && x == ls[n - 1] {
                assert(0 <= n - 1 < n && ls[n - 1] == x);
            } else {
                assert(prev.contains(x));
                let i = choose|i: int| 0 <= i < n - 1 && ls[i] == x;
                assert(0 <= i < n && ls[i] == x);
            }
        }
        if (exists|i: int| 0 <= i < n && ls[i] == x) && x.0 != p {
            let i = choose|i: int| 0 <= i < n && ls[i] == x;
            if i == n - 1 {
                assert(keep);
                assert(cur.contains(x));
            } else {
                assert(0 <= i < n - 1 && ls[i] == x);
                assert(prev.contains(x));
                if keep {
                    assert(cur.contains(x));
                } else {
                    assert(cur.contains(x));
                }
            }
        }
    }
}

/// Membership after removing a child's links.
proof fn lemma_remove_child_mem(ls: Seq<(IdView, IdView)>, c: IdView, n: int, x: (IdView, IdView))
    requires
        0 <= n <= ls.len(),
    ensures
        crate::transaction::remove_child_upto(ls, c, n).contains(x) <==> ((exists|i: int|
            0 <= i < n && ls[i] == x) && x.1 != c),
    decreases n,
{
    if n > 0 {
        lemma_remove_child_mem(ls, c, n - 1, x);
        let prev = crate::transaction::remove_child_upto(ls, c, n - 1);
        let cur = crate::transaction::remove_child_upto(ls, c, n);
        let keep = ls[n - 1].1 != c;
        if keep {
            assert(cur == prev.push(ls[n - 1]));
            lemma_push_mem(prev, ls[n - 1], x);
        } else {
            assert(cur == prev);
        }
        if cur.contains(x) {
            if keep && x == ls[n - 1] {
                assert(0 <= n - 1 < n && ls[n - 1] == x);
            } else {
                assert(prev.contains(x));
                let i = choose|i: int| 0 <= i < n - 1 && ls[i] == x;
                assert(0 <= i < n && ls[i] == x);
            }
        }
        if (exists|i: int| 0 <= i < n && ls[i] == x) && x.1 != c {
            let i = choose|i: int| 0 <= i < n && ls[i] == x;
            if i == n - 1 {
                assert(keep);
                assert(cur.contains(x));
            } else {
                assert(0 <= i < n - 1 && ls[i] == x);
                assert(prev.contains(x));
                assert(cur.contains(x));
            }
        }
    }
}

/// Membership in a pushed sequence.
proof fn lemma_push_mem(s: Seq<(IdView, IdView)>, e: (IdView, IdView), x: (IdView, IdView))
    ensures
        s.push(e).contains(x) <==> (s.contains(x) || x == e),
{
    if x == e {
        assert(s.push(e)[s.len() as int] == e);
        assert(s.push(e).contains(x));
    }
    if s.contains(x) {
        let i = choose|i: int| 0 <= i < s.len() && s[i] == x;
        assert(s.push(e)[i] == x);
        assert(s.push(e).contains(x));
    }
    if s.push(e).contains(x) && x != e {
        let i = choose|i: int| 0 <= i < s.push(e).len() && s.push(e)[i] == x;
        assert(s[i] == x);
        assert(s.contains(x));
    }
}

/// Law: `set` with two resolvable selectors on a relation whose child
/// side is singular leaves both children connected to the parent and
/// disconnected from every other parent; and when only the first selector
/// resolves, the first child's connection is already committed when the
/// failure is reported — partial state, not a rollback.
pub proof fn lemma_set_two(
    v: TxView,
    rel: Relation,
    parent: IdView,
    s1: SelectorView,
    s2: SelectorView,
    c1: IdView,
    c2: IdView,
)
    requires
        !rel.child.is_list,
        crate::transaction::found_id(v.rows, s1) == Some(c1),
        c1 != c2,
    ensures
        crate::transaction::found_id(v.rows, s2) == Some(c2) ==> spec_set(
            v,
            rel,
            parent,
            seq![s1, s2],
        ).0 is Ok && spec_set(v, rel, parent, seq![s1, s2]).1.contains((parent, c1)) && spec_set(
            v,
            rel,
            parent,
            seq![s1, s2],
        ).1.contains((parent, c2)) && (forall|q: IdView|
            q != parent ==> !spec_set(v, rel, parent, seq![s1, s2]).1.contains((q, c1))
                && !spec_set(v, rel, parent, seq![s1, s2]).1.contains((q, c2))),
        crate::transaction::found_id(v.rows, s2) is None ==> (spec_set(
            v,
            rel,
            parent,
            seq![s1, s2],
        ).0 matches Err(k) && k is NotFound) && spec_set(v, rel, parent, seq![s1, s2]).1.contains(
            (parent, c1),
        ),
{
    let sels = seq![s1, s2];
    let base = remove_parent(v.links, parent);
    assert(sels[0] == s1 && sels[1] == s2);
    let l1 = remove_child(base, c1);
    let links1 = l1.push((parent, c1));
    assert(spec_set_from(v.rows, base, rel, parent, sels, 0) == spec_set_from(
        v.rows,
        links1,
        rel,
        parent,
        sels,
        1,
    ));
    if crate::transaction::found_id(v.rows, s2) is None {
        assert(spec_set_from(v.rows, links1, rel, parent, sels, 1) == (
            Err::<(), ExecErr>(ExecErr::NotFound),
            links1,
        ));
        lemma_push_mem(l1, (parent, c1), (parent, c1));
    }
    if crate::transaction::found_id(v.rows, s2) == Some(c2) {
        let l2 = remove_child(links1, c2);
        let links2 = l2.push((parent, c2));
        assert(spec_set_from(v.rows, links1, rel, parent, sels, 1) == spec_set_from(
            v.rows,
            links2,
            rel,
            parent,
            sels,
            2,
        ));
        assert(spec_set_from(v.rows, links2, rel, parent, sels, 2) == (
            Ok::<(), ExecErr>(()),
            links2,
        ));
        lemma_push_mem(l2, (parent, c2), (parent, c2));
        assert(links2.contains((parent, c2)));
        lemma_push_mem(l1, (parent, c1), (parent, c1));
        assert(links1.contains((parent, c1)));
        lemma_remove_child_mem(links1, c2, links1.len() as int, (parent, c1));
        assert(l2.contains((parent, c1)));
        lemma_push_mem(l2, (parent, c2), (parent, c1));
        assert(links2.contains((parent, c1)));
        assert forall|q: IdView| q != parent implies !links2.contains((q, c1)) && !links2.contains(
            (q, c2),
        ) by {
            lemma_push_mem(l2, (parent, c2), (q, c1));
            lemma_push_mem(l2, (parent, c2), (q, c2));
            lemma_remove_child_mem(links1, c2, links1.len() as int, (q, c1));
            lemma_remove_child_mem(links1, c2, links1.len() as int, (q, c2));
            lemma_push_mem(l1, (parent, c1), (q, c1));
            lemma_remove_child_mem(base, c1, base.len() as int, (q, c1));
        }
    }
}

} // verus!
