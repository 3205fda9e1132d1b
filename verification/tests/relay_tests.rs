use gridsync::client::{apply_remote, local_edit_event};
use gridsync::codec::{encode_client_list_event, encode_grid_event};
use gridsync::decode::{decode_frame, Decoded};
use gridsync::model::{ChangeEvent, GridEvent, init_data};
use gridsync::relay::Relay;

fn drain_all(relay: &mut Relay) {
    for k in 0..relay.sessions.len() {
        relay.take_outbox_at(k);
    }
}

#[test]
fn join_announces_the_client_list_to_everyone() {
    let mut relay = Relay::new();
    relay.join("Alice".to_string(), 1);
    assert_eq!(relay.sessions.len(), 1);
    let expected = encode_client_list_event(&vec!["Alice".to_string()]);
    assert_eq!(relay.sessions[0].outbox, vec![expected]);

    relay.join("Bob".to_string(), 2);
    let expected2 = encode_client_list_event(&vec!["Alice".to_string(), "Bob".to_string()]);
    // Alice has both announcements, in order; Bob only the second
    assert_eq!(relay.sessions[0].outbox.len(), 2);
    assert_eq!(relay.sessions[0].outbox[1], expected2);
    assert_eq!(relay.sessions[1].outbox, vec![expected2]);
}

#[test]
fn registry_convergence_after_a_leave() {
    let mut relay = Relay::new();
    relay.join("A".to_string(), 1);
    relay.join("B".to_string(), 2);
    relay.join("C".to_string(), 3);
    drain_all(&mut relay);

    relay.leave(&"B".to_string());
    assert_eq!(relay.sessions.len(), 2);
    let expected = encode_client_list_event(&vec!["A".to_string(), "C".to_string()]);
    for s in &relay.sessions {
        assert_eq!(s.outbox.len(), 1);
        assert_eq!(s.outbox[0], expected);
        assert!(!s.outbox[0].contains("B"));
    }
}

#[test]
fn leave_of_an_unknown_identity_is_a_registry_no_op() {
    let mut relay = Relay::new();
    relay.join("A".to_string(), 1);
    drain_all(&mut relay);
    relay.leave(&"Ghost".to_string());
    assert_eq!(relay.sessions.len(), 1);
    assert_eq!(relay.sessions[0].name, "A");
    // the client list is still broadcast, as on any disconnect
    let expected = encode_client_list_event(&vec!["A".to_string()]);
    assert_eq!(relay.sessions[0].outbox, vec![expected]);
}

#[test]
fn no_self_echo_on_grid_updates() {
    let mut relay = Relay::new();
    relay.join("Alice".to_string(), 1);
    relay.join("Bob".to_string(), 2);
    drain_all(&mut relay);

    let mut g = init_data();
    let frame = local_edit_event(
        &mut g,
        &ChangeEvent { row: 0, column: 0, value: "x".to_string() },
        &"Alice".to_string(),
    );
    let decoded = decode_frame(&frame);
    let current = relay.dispatch(1, Some("Alice".to_string()), decoded);
    assert_eq!(current, Some("Alice".to_string()));

    // Alice, the sender, gets nothing back; Bob gets the re-encoded snapshot
    assert!(relay.sessions[0].outbox.is_empty());
    let expected = encode_grid_event(&g, "Alice");
    assert_eq!(relay.sessions[1].outbox, vec![expected]);
}

#[test]
fn fifo_per_recipient() {
    let mut relay = Relay::new();
    relay.join("Alice".to_string(), 1);
    relay.join("Bob".to_string(), 2);
    drain_all(&mut relay);

    let mut g = init_data();
    let e1 = local_edit_event(
        &mut g,
        &ChangeEvent { row: 0, column: 0, value: "1".to_string() },
        &"Alice".to_string(),
    );
    let snapshot1 = encode_grid_event(&g, "Alice");
    let e2 = local_edit_event(
        &mut g,
        &ChangeEvent { row: 0, column: 0, value: "2".to_string() },
        &"Alice".to_string(),
    );
    let snapshot2 = encode_grid_event(&g, "Alice");
    relay.dispatch(1, Some("Alice".to_string()), decode_frame(&e1));
    relay.dispatch(1, Some("Alice".to_string()), decode_frame(&e2));

    let delivered = relay.take_outbox_at(1);
    assert_eq!(delivered, vec![snapshot1, snapshot2]);
}

#[test]
fn scenario_c_taken_name_is_silently_replaced() {
    let mut relay = Relay::new();
    relay.join("Alice".to_string(), 1);
    relay.join("Bob".to_string(), 2);
    relay.join("Alice".to_string(), 3);

    // still two entries; the key "Alice" now belongs to the new connection
    assert_eq!(relay.sessions.len(), 2);
    assert_eq!(relay.sessions[0].name, "Alice");
    assert_eq!(relay.sessions[0].conn, 3);
    assert_eq!(relay.sessions[1].name, "Bob");

    // broadcasts addressed around or to "Alice" now reach connection 3,
    // never connection 1
    drain_all(&mut relay);
    let mut g = init_data();
    let frame = local_edit_event(
        &mut g,
        &ChangeEvent { row: 1, column: 1, value: "b".to_string() },
        &"Bob".to_string(),
    );
    relay.dispatch(2, Some("Bob".to_string()), decode_frame(&frame));
    assert_eq!(relay.sessions[0].conn, 3);
    assert_eq!(relay.sessions[0].outbox.len(), 1);
    assert!(relay.sessions[1].outbox.is_empty());
}

#[test]
fn disconnect_with_an_identity_leaves_the_registry() {
    let mut relay = Relay::new();
    relay.join("Alice".to_string(), 1);
    relay.join("Bob".to_string(), 2);
    relay.handle_disconnect(Some("Alice".to_string()));
    assert_eq!(relay.sessions.len(), 1);
    assert_eq!(relay.sessions[0].name, "Bob");
}

#[test]
fn disconnect_before_join_leaves_no_trace() {
    let mut relay = Relay::new();
    relay.join("Alice".to_string(), 1);
    drain_all(&mut relay);
    relay.handle_disconnect(None);
    assert_eq!(relay.sessions.len(), 1);
    assert!(relay.sessions[0].outbox.is_empty());
}

#[test]
fn unknown_and_malformed_frames_change_nothing() {
    let mut relay = Relay::new();
    relay.join("Alice".to_string(), 1);
    drain_all(&mut relay);
    let current = relay.dispatch(1, Some("Alice".to_string()), decode_frame("garbage"));
    assert_eq!(current, Some("Alice".to_string()));
    let current2 = relay.dispatch(1, current, decode_frame("{\"t\":\"PING\",\"data\":{}}"));
    assert_eq!(current2, Some("Alice".to_string()));
    assert_eq!(relay.sessions.len(), 1);
    assert!(relay.sessions[0].outbox.is_empty());
}

#[test]
fn scenario_a_end_to_end() {
    // Alice and Bob join; Alice edits (0,0) to "x"; the relay forwards her
    // snapshot to Bob only; Bob's merge adopts the newer cell.
    let mut relay = Relay::new();
    relay.join("Alice".to_string(), 1);
    relay.join("Bob".to_string(), 2);
    drain_all(&mut relay);

    let mut alice_grid = init_data();
    let frame = local_edit_event(
        &mut alice_grid,
        &ChangeEvent { row: 0, column: 0, value: "x".to_string() },
        &"Alice".to_string(),
    );
    assert_eq!(alice_grid[0].columns[0].timestamp, 1);
    relay.dispatch(1, Some("Alice".to_string()), decode_frame(&frame));

    assert!(relay.sessions[0].outbox.is_empty());
    let to_bob = relay.take_outbox_at(1);
    assert_eq!(to_bob.len(), 1);

    let mut bob_grid = init_data();
    let mut bob_roster: Vec<String> = Vec::new();
    apply_remote(&mut bob_grid, &mut bob_roster, &decode_frame(&to_bob[0]), false);
    let c = &bob_grid[0].columns[0];
    assert_eq!(c.value, "x");
    assert_eq!(c.timestamp, 1);
    assert_eq!(c.peer, "Alice");
}

#[test]
fn client_list_frame_updates_the_roster_only() {
    let frame = encode_client_list_event(&vec!["Ann".to_string(), "Cid".to_string()]);
    let mut grid = init_data();
    let mut roster: Vec<String> = Vec::new();
    apply_remote(&mut grid, &mut roster, &decode_frame(&frame), false);
    assert_eq!(roster, vec!["Ann".to_string(), "Cid".to_string()]);
    assert_eq!(grid[0].columns[0].timestamp, 0);
}

#[test]
fn snapshot_identities_lists_registry_order() {
    let mut relay = Relay::new();
    relay.join("C".to_string(), 1);
    relay.join("A".to_string(), 2);
    assert_eq!(relay.snapshot_identities(), vec!["C".to_string(), "A".to_string()]);
}

#[test]
fn forwarded_grid_is_reencoded_bytes_for_bytes() {
    let mut relay = Relay::new();
    relay.join("Alice".to_string(), 1);
    relay.join("Bob".to_string(), 2);
    drain_all(&mut relay);

    let mut g = init_data();
    g[2].columns[2].value = "deep \"quote\"".to_string();
    g[2].columns[2].timestamp = 7;
    g[2].columns[2].peer = "Alice".to_string();
    let ev = GridEvent { data: g, sender: "Alice".to_string() };
    let expected = encode_grid_event(&ev.data, "Alice");
    relay.dispatch(1, Some("Alice".to_string()), Decoded::Grid(ev));
    assert_eq!(relay.sessions[1].outbox, vec![expected]);
}
