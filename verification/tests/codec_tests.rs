use gridsync::codec::{encode_client_list_event, encode_grid_event, encode_init_event};
use gridsync::decode::{decode_frame, Decoded};
use gridsync::merge::apply_change;
use gridsync::model::{ChangeEvent, init_data};

#[test]
fn init_event_exact_text() {
    let frame = encode_init_event("Alice");
    assert_eq!(frame, "{\"t\":\"INIT\",\"data\":{\"name\":\"Alice\"}}");
}

#[test]
fn init_event_escapes_quotes_backslashes_and_controls() {
    let frame = encode_init_event("a\"b\\c\nd");
    assert_eq!(frame, "{\"t\":\"INIT\",\"data\":{\"name\":\"a\\\"b\\\\c\\u000ad\"}}");
}

#[test]
fn client_list_exact_text() {
    let names = vec!["Alice".to_string(), "Bob".to_string()];
    let frame = encode_client_list_event(&names);
    assert_eq!(
        frame,
        "{\"t\":\"CLIENT_LIST\",\"data\":{\"clients\":[{\"name\":\"Alice\"},{\"name\":\"Bob\"}]}}"
    );
}

#[test]
fn client_list_empty_exact_text() {
    let frame = encode_client_list_event(&Vec::new());
    assert_eq!(frame, "{\"t\":\"CLIENT_LIST\",\"data\":{\"clients\":[]}}");
}

#[test]
fn grid_event_is_valid_json_for_serde() {
    let mut g = init_data();
    apply_change(
        &mut g,
        &ChangeEvent { row: 1, column: 2, value: "hi".to_string() },
        &"Ann".to_string(),
    );
    let frame = encode_grid_event(&g, "Ann");
    let v: serde_json::Value = serde_json::from_str(&frame).expect("frame parses");
    assert_eq!(v.get("t").unwrap().as_str().unwrap(), "GRID");
    let data = v.get("data").unwrap();
    assert_eq!(data.get("sender").unwrap().as_str().unwrap(), "Ann");
    let rows = data.get("data").unwrap().as_array().unwrap();
    assert_eq!(rows.len(), 3);
    let cell = rows[1].get("columns").unwrap().as_array().unwrap()[2].clone();
    assert_eq!(cell.get("value").unwrap().as_str().unwrap(), "hi");
    assert_eq!(cell.get("timestamp").unwrap().as_u64().unwrap(), 1);
    assert_eq!(cell.get("peer").unwrap().as_str().unwrap(), "Ann");
    assert_eq!(cell.get("idx").unwrap().as_u64().unwrap(), 2);
}

#[test]
fn grid_event_exact_text_for_the_initial_grid() {
    let g = init_data();
    let frame = encode_grid_event(&g, "A");
    let cell = |j: usize| {
        format!("{{\"peer\":\"\",\"timestamp\":0,\"idx\":{},\"value\":\"\"}}", j)
    };
    let row = |i: usize| {
        format!("{{\"idx\":{},\"columns\":[{},{},{}]}}", i, cell(0), cell(1), cell(2))
    };
    let expected = format!(
        "{{\"t\":\"GRID\",\"data\":{{\"data\":[{},{},{}],\"sender\":\"A\"}}}}",
        row(0),
        row(1),
        row(2)
    );
    assert_eq!(frame, expected);
}

#[test]
fn grid_event_round_trips_through_decode() {
    let mut g = init_data();
    apply_change(
        &mut g,
        &ChangeEvent { row: 0, column: 0, value: "x\"y".to_string() },
        &"Alice".to_string(),
    );
    apply_change(
        &mut g,
        &ChangeEvent { row: 2, column: 1, value: "tab\tend".to_string() },
        &"Alice".to_string(),
    );
    let frame = encode_grid_event(&g, "Alice");
    match decode_frame(&frame) {
        Decoded::Grid(ev) => {
            assert_eq!(ev.sender, "Alice");
            assert_eq!(ev.data.len(), 3);
            assert_eq!(ev.data[0].columns[0].value, "x\"y");
            assert_eq!(ev.data[0].columns[0].timestamp, 1);
            assert_eq!(ev.data[0].columns[0].peer, "Alice");
            assert_eq!(ev.data[2].columns[1].value, "tab\tend");
            assert_eq!(ev.data[1].columns[1].value, "");
        },
        _ => panic!("expected a grid frame"),
    }
}

#[test]
fn large_timestamp_is_encoded_in_decimal() {
    let mut g = init_data();
    g[0].columns[0].timestamp = 120450;
    let frame = encode_grid_event(&g, "A");
    assert!(frame.contains("\"timestamp\":120450"));
    match decode_frame(&frame) {
        Decoded::Grid(ev) => assert_eq!(ev.data[0].columns[0].timestamp, 120450),
        _ => panic!("expected a grid frame"),
    }
}

#[test]
fn client_list_round_trips_through_decode() {
    let names = vec!["Ann".to_string(), "Bo\"b".to_string()];
    let frame = encode_client_list_event(&names);
    match decode_frame(&frame) {
        Decoded::ClientList(ev) => {
            assert_eq!(ev.clients.len(), 2);
            assert_eq!(ev.clients[0].name, "Ann");
            assert_eq!(ev.clients[1].name, "Bo\"b");
        },
        _ => panic!("expected a client list frame"),
    }
}

#[test]
fn init_round_trips_through_decode() {
    let frame = encode_init_event("Alice");
    match decode_frame(&frame) {
        Decoded::Init(ev) => assert_eq!(ev.name, "Alice"),
        _ => panic!("expected a join frame"),
    }
}

#[test]
fn invalid_json_is_malformed() {
    assert!(matches!(decode_frame("this is not json"), Decoded::Malformed));
    assert!(matches!(decode_frame(""), Decoded::Malformed));
    assert!(matches!(decode_frame("{\"t\":\"GRID\"}"), Decoded::Malformed));
}

#[test]
fn unknown_tag_is_ignored_but_recognized() {
    assert!(matches!(
        decode_frame("{\"t\":\"PING\",\"data\":{}}"),
        Decoded::Unknown
    ));
}

#[test]
fn wrongly_shaped_grid_is_malformed() {
    // only two rows instead of the fixed three
    let frame = "{\"t\":\"GRID\",\"data\":{\"data\":[{\"idx\":0,\"columns\":[]},{\"idx\":1,\"columns\":[]}],\"sender\":\"A\"}}";
    assert!(matches!(decode_frame(frame), Decoded::Malformed));
    // grid payload that is not an array at all
    let frame2 = "{\"t\":\"GRID\",\"data\":{\"data\":7,\"sender\":\"A\"}}";
    assert!(matches!(decode_frame(frame2), Decoded::Malformed));
}

#[test]
fn init_without_name_is_malformed() {
    assert!(matches!(
        decode_frame("{\"t\":\"INIT\",\"data\":{}}"),
        Decoded::Malformed
    ));
}
