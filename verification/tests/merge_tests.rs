use gridsync::merge::{merge_grids, apply_change, str_lex_lt};
use gridsync::model::{ChangeEvent, Column, Row, init_data};

fn change(row: usize, column: usize, value: &str) -> ChangeEvent {
    ChangeEvent { row, column, value: value.to_string() }
}

fn cols_equal(a: &Column, b: &Column) -> bool {
    a.peer == b.peer && a.timestamp == b.timestamp && a.idx == b.idx && a.value == b.value
}

fn grids_equal(a: &Vec<Row>, b: &Vec<Row>) -> bool {
    a.len() == b.len()
        && a.iter().zip(b.iter()).all(|(ra, rb)| {
            ra.idx == rb.idx
                && ra.columns.len() == rb.columns.len()
                && ra.columns.iter().zip(rb.columns.iter()).all(|(ca, cb)| cols_equal(ca, cb))
        })
}

fn clone_grid(g: &Vec<Row>) -> Vec<Row> {
    g.iter()
        .map(|r| Row {
            idx: r.idx,
            columns: r
                .columns
                .iter()
                .map(|c| Column {
                    peer: c.peer.clone(),
                    timestamp: c.timestamp,
                    idx: c.idx,
                    value: c.value.clone(),
                })
                .collect(),
        })
        .collect()
}

#[test]
fn initial_grid_shape() {
    let g = init_data();
    assert_eq!(g.len(), 3);
    for (i, row) in g.iter().enumerate() {
        assert_eq!(row.idx, i);
        assert_eq!(row.columns.len(), 3);
        for (j, c) in row.columns.iter().enumerate() {
            assert_eq!(c.idx, j);
            assert_eq!(c.value, "");
            assert_eq!(c.timestamp, 0);
            assert_eq!(c.peer, "");
        }
    }
}

#[test]
fn local_edit_bumps_timestamp_and_writer() {
    let mut g = init_data();
    apply_change(&mut g, &change(0, 0, "x"), &"Alice".to_string());
    let c = &g[0].columns[0];
    assert_eq!(c.value, "x");
    assert_eq!(c.timestamp, 1);
    assert_eq!(c.peer, "Alice");
    // every other cell untouched
    assert_eq!(g[1].columns[2].timestamp, 0);
    assert_eq!(g[0].columns[1].value, "");
}

#[test]
fn scenario_a_newer_remote_cell_is_adopted() {
    let mut alice = init_data();
    apply_change(&mut alice, &change(0, 0, "x"), &"Alice".to_string());
    let mut bob = init_data();
    merge_grids(&mut bob, &alice, false);
    let c = &bob[0].columns[0];
    assert_eq!(c.value, "x");
    assert_eq!(c.timestamp, 1);
    assert_eq!(c.peer, "Alice");
}

#[test]
fn older_remote_cell_is_ignored() {
    let mut local = init_data();
    apply_change(&mut local, &change(2, 1, "keep"), &"Alice".to_string());
    let remote = init_data();
    merge_grids(&mut local, &remote, false);
    assert_eq!(local[2].columns[1].value, "keep");
    assert_eq!(local[2].columns[1].timestamp, 1);
}

#[test]
fn scenario_b_tie_keeps_one_of_the_two_values() {
    let mut alice = init_data();
    apply_change(&mut alice, &change(1, 2, "p"), &"Alice".to_string());
    let mut bob = init_data();
    apply_change(&mut bob, &change(1, 2, "q"), &"Bob".to_string());
    let bob_snapshot = clone_grid(&bob);
    merge_grids(&mut alice, &bob_snapshot, false);
    let v = &alice[1].columns[2].value;
    assert!(v == "p" || v == "q");
    assert_eq!(alice[1].columns[2].timestamp, 1);
}

#[test]
fn scenario_b_deterministic_tie_break_converges() {
    let mut alice = init_data();
    apply_change(&mut alice, &change(1, 2, "p"), &"Alice".to_string());
    let mut bob = init_data();
    apply_change(&mut bob, &change(1, 2, "q"), &"Bob".to_string());
    let alice_snapshot = clone_grid(&alice);
    let bob_snapshot = clone_grid(&bob);
    merge_grids(&mut alice, &bob_snapshot, true);
    merge_grids(&mut bob, &alice_snapshot, true);
    // the lexicographically larger writer, Bob, wins on both replicas
    assert!(grids_equal(&alice, &bob));
    assert_eq!(alice[1].columns[2].value, "q");
    assert_eq!(alice[1].columns[2].peer, "Bob");
}

#[test]
fn merge_timestamps_never_decrease() {
    let mut local = init_data();
    apply_change(&mut local, &change(0, 0, "a"), &"Alice".to_string());
    apply_change(&mut local, &change(0, 0, "b"), &"Alice".to_string());
    let mut remote = init_data();
    apply_change(&mut remote, &change(0, 0, "z"), &"Zoe".to_string());
    apply_change(&mut remote, &change(2, 2, "w"), &"Zoe".to_string());
    let before: Vec<usize> = local
        .iter()
        .flat_map(|r| r.columns.iter().map(|c| c.timestamp))
        .collect();
    merge_grids(&mut local, &remote, false);
    merge_grids(&mut local, &remote, false);
    let after: Vec<usize> = local
        .iter()
        .flat_map(|r| r.columns.iter().map(|c| c.timestamp))
        .collect();
    for (b, a) in before.iter().zip(after.iter()) {
        assert!(a >= b);
    }
}

#[test]
fn merge_twice_with_strictly_newer_remote_is_idempotent() {
    let local0 = init_data();
    let mut remote = init_data();
    for i in 0..3 {
        for j in 0..3 {
            apply_change(&mut remote, &change(i, j, "r"), &"Rita".to_string());
        }
    }
    let mut once = clone_grid(&local0);
    merge_grids(&mut once, &remote, false);
    let mut twice = clone_grid(&once);
    merge_grids(&mut twice, &remote, false);
    assert!(grids_equal(&once, &twice));
    assert!(grids_equal(&once, &remote));
}

#[test]
fn writer_order_is_lexicographic() {
    assert!(str_lex_lt("Alice", "Bob"));
    assert!(!str_lex_lt("Bob", "Alice"));
    assert!(str_lex_lt("", "A"));
    assert!(!str_lex_lt("same", "same"));
    assert!(str_lex_lt("Al", "Alice"));
}
