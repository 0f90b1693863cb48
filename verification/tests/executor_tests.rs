//! The nested relation mutation executor and the batch update executor,
//! run against the verified in-memory transaction.

use query_core::args::Filter;
use query_core::error::CoreError;
use query_core::executor::{connect, disconnect};
use query_core::schema::{Relation, RelationFieldRef, RelationSide};
use query_core::transaction::{MemoryTransaction, UpdateWrite};
use query_core::update_many::{execute, execute_nested};
use query_core::values::{GraphqlId, NodeSelector, PrismaValue};

fn rel(p_l: bool, p_r: bool, c_l: bool, c_r: bool) -> Relation {
    Relation {
        name: "R".to_string(),
        parent: RelationSide { model: 0, is_list: p_l, is_required: p_r },
        child: RelationSide { model: 1, is_list: c_l, is_required: c_r },
    }
}

fn id(n: usize) -> GraphqlId {
    GraphqlId::Int(n)
}

fn sel(n: usize) -> NodeSelector {
    NodeSelector { model: 1, field: "id".to_string(), value: PrismaValue::Int(n as i64) }
}

fn has_link(conn: &MemoryTransaction, p: usize, c: usize) -> bool {
    conn.links_vec().iter().any(|(a, b)| *a == id(p) && *b == id(c))
}

#[test]
fn connect_checks_before_writing_when_table_applies() {
    // Parent non-list and required, child non-list and not required: the
    // check applies and reports the parent's existing child link.
    let mut conn = MemoryTransaction::new();
    conn.add_link(id(1), id(2));
    conn.add_row(sel(3), id(3));
    match connect(&mut conn, &id(1), &rel(false, true, false, false), &sel(3)) {
        Err(CoreError::RelationViolation(_)) => {}
        other => panic!("expected RelationViolation, got {:?}", other),
    }
    // The failed check blocked every write: the links are untouched.
    assert!(has_link(&conn, 1, 2));
    assert!(!has_link(&conn, 1, 3));
}

#[test]
fn connect_with_required_child_side_is_refused_outright() {
    let mut conn = MemoryTransaction::new();
    conn.add_row(sel(3), id(3));
    match connect(&mut conn, &id(1), &rel(false, true, false, true), &sel(3)) {
        Err(CoreError::RelationViolation(_)) => {}
        other => panic!("expected RelationViolation, got {:?}", other),
    }
    assert!(conn.links_vec().is_empty());
}

#[test]
fn connect_with_list_parent_runs_no_check() {
    // Same starting state as the checked case, but the parent side is a
    // list: no check applies and the connect goes through.
    let mut conn = MemoryTransaction::new();
    conn.add_link(id(1), id(2));
    conn.add_row(sel(3), id(3));
    connect(&mut conn, &id(1), &rel(true, false, false, false), &sel(3)).unwrap();
    assert!(has_link(&conn, 1, 3));
    assert!(has_link(&conn, 1, 2));
}

#[test]
fn connect_replaces_singular_sides() {
    // Parent side singular and not required: the parent's old link and the
    // child's old link both go before the new link is written.
    let mut conn = MemoryTransaction::new();
    conn.add_link(id(1), id(2));
    conn.add_link(id(9), id(3));
    conn.add_row(sel(3), id(3));
    connect(&mut conn, &id(1), &rel(false, false, false, false), &sel(3)).unwrap();
    assert!(has_link(&conn, 1, 3));
    assert!(!has_link(&conn, 1, 2));
    assert!(!has_link(&conn, 9, 3));
}

#[test]
fn connect_missing_child_is_not_found() {
    let mut conn = MemoryTransaction::new();
    match connect(&mut conn, &id(1), &rel(true, false, true, false), &sel(3)) {
        Err(CoreError::NotFoundError(_)) => {}
        other => panic!("expected NotFoundError, got {:?}", other),
    }
    assert!(conn.links_vec().is_empty());
}

#[test]
fn disconnect_without_selector_and_no_connection_is_violation() {
    // Required singular parent side: the unsafe-configuration table
    // already refuses; with no existing connection this is a violation,
    // never a silent no-op.
    let mut conn = MemoryTransaction::new();
    match disconnect(&mut conn, &id(1), &rel(false, true, false, false), &None) {
        Err(CoreError::RelationViolation(_)) => {}
        other => panic!("expected RelationViolation, got {:?}", other),
    }
    // A configuration outside the table, still with no connection: the
    // connectedness check reports the violation.
    let mut conn = MemoryTransaction::new();
    match disconnect(&mut conn, &id(1), &rel(true, false, true, false), &None) {
        Err(CoreError::RelationViolation(_)) => {}
        other => panic!("expected RelationViolation, got {:?}", other),
    }
}

#[test]
fn disconnect_removes_by_parent_or_by_pair() {
    let mut conn = MemoryTransaction::new();
    conn.add_link(id(1), id(2));
    conn.add_link(id(1), id(3));
    disconnect(&mut conn, &id(1), &rel(true, false, true, false), &None).unwrap();
    assert!(conn.links_vec().is_empty());

    let mut conn = MemoryTransaction::new();
    conn.add_link(id(1), id(2));
    conn.add_link(id(1), id(3));
    conn.add_row(sel(2), id(2));
    disconnect(&mut conn, &id(1), &rel(true, false, true, false), &Some(sel(2))).unwrap();
    assert!(!has_link(&conn, 1, 2));
    assert!(has_link(&conn, 1, 3));
}

#[test]
fn disconnect_unconnected_pair_is_violation() {
    let mut conn = MemoryTransaction::new();
    conn.add_row(sel(2), id(2));
    match disconnect(&mut conn, &id(1), &rel(true, false, true, false), &Some(sel(2))) {
        Err(CoreError::RelationViolation(_)) => {}
        other => panic!("expected RelationViolation, got {:?}", other),
    }
}

#[test]
fn set_connects_both_and_steals_from_previous_parents() {
    let mut conn = MemoryTransaction::new();
    conn.add_link(id(9), id(2));
    conn.add_link(id(1), id(7));
    conn.add_row(sel(2), id(2));
    conn.add_row(sel(3), id(3));
    query_core::executor::set(&mut conn, &id(1), &rel(true, false, false, false), &vec![sel(2), sel(3)]).unwrap();
    assert!(has_link(&conn, 1, 2));
    assert!(has_link(&conn, 1, 3));
    // The old parent of c1 lost its link, and the parent's old child is gone.
    assert!(!has_link(&conn, 9, 2));
    assert!(!has_link(&conn, 1, 7));
}

#[test]
fn set_is_fail_fast_not_atomic() {
    let mut conn = MemoryTransaction::new();
    conn.add_row(sel(2), id(2));
    // sel(3) resolves to no row: the second connect fails, the first stays.
    match query_core::executor::set(&mut conn, &id(1), &rel(true, false, false, false), &vec![sel(2), sel(3)]) {
        Err(CoreError::NotFoundError(_)) => {}
        other => panic!("expected NotFoundError, got {:?}", other),
    }
    assert!(has_link(&conn, 1, 2));
    assert!(!has_link(&conn, 1, 3));
}

fn name_filter() -> Filter {
    Filter {
        conditions: vec![("name".to_string(), PrismaValue::Text("Ada".to_string()))],
    }
}

fn scalar_args() -> query_core::write::PrismaArgs {
    let mut args = query_core::write::PrismaArgs::new();
    args.insert("name".to_string(), PrismaValue::Text("Grace".to_string()));
    args
}

#[test]
fn batch_update_on_empty_match_is_a_no_op() {
    let mut conn = MemoryTransaction::new();
    // No registered response: the filter matches nothing.
    let n = execute(&mut conn, 0, &name_filter(), &scalar_args(), &vec![]).unwrap();
    assert_eq!(n, 0);
    assert!(conn.updates_vec().is_empty());
}

#[test]
fn batch_update_issues_one_batch_and_one_list_pass_each() {
    let mut conn = MemoryTransaction::new();
    conn.add_filter_rows(0, name_filter(), vec![id(1), id(2), id(3)]);
    let list_args = vec![(
        "tags".to_string(),
        Some(vec![PrismaValue::Int(1), PrismaValue::Int(2)]),
    )];
    let n = execute(&mut conn, 0, &name_filter(), &scalar_args(), &list_args).unwrap();
    assert_eq!(n, 3);
    let updates = conn.updates_vec();
    assert_eq!(updates.len(), 2);
    match &updates[0] {
        UpdateWrite::ScalarBatch { ids, .. } => assert_eq!(ids.len(), 3),
        other => panic!("expected ScalarBatch, got {:?}", other),
    }
    match &updates[1] {
        UpdateWrite::ListReplace { name, .. } => assert_eq!(name, "tags"),
        other => panic!("expected ListReplace, got {:?}", other),
    }
}

#[test]
fn batch_update_nested_scopes_to_the_parent() {
    let mut conn = MemoryTransaction::new();
    let rf = RelationFieldRef { model: 0, field: 2 };
    conn.add_parent_rows(rf, vec![id(1)], None, vec![id(5)]);
    let n = execute_nested(&mut conn, &id(1), &None, rf, 1, &scalar_args(), &vec![]).unwrap();
    assert_eq!(n, 1);
    assert_eq!(conn.updates_vec().len(), 1);
    // A different parent matches no registered response.
    let n = execute_nested(&mut conn, &id(2), &None, rf, 1, &scalar_args(), &vec![]).unwrap();
    assert_eq!(n, 0);
    assert_eq!(conn.updates_vec().len(), 1);
}
