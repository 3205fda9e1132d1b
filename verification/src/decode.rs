//! Inbound frame decoding: the tagged wire envelope is parsed by serde_json
//! into its generic value tree, and verified code walks that tree, checks
//! the schema (the fixed grid shape included), and builds the protocol
//! event. A frame that is not valid JSON, or whose shape does not match,
//! decodes to `Malformed` and is dropped by the router; a well-formed
//! envelope with an unrecognized tag decodes to `Unknown`.
//!
//! The contracts speak of a spec-level JSON tree, `JsonModel`. Two
//! uninterpreted names anchor it: `parsed_json` names what serde_json's
//! parser yields for a text, and `json_model` names the tree a parsed value
//! holds. The parser wrapper states, over those names, that the crate's own
//! frame texts (the codec's `init_event_json`, `grid_event_json`,
//! `client_list_event_json`) parse to the matching trees, so decoding an
//! encoded frame provably returns the encoded event.
use vstd::prelude::*;
use vstd::map::*;
use vstd::string::StringExecFns;
use crate::model::{InitEvent, GridEvent, ClientListEvent, Client, Column, Row, wf_grid, wf_row,
    GRID_DIM};
use crate::codec::{init_event_json, grid_event_json, client_list_event_json};

verus! {

/// A JSON value, abstractly: what the decoder's contracts are stated over.
/// `UInt` is a number stored as an unsigned 64-bit integer; `Other` covers
/// null, booleans and all remaining numbers, which the protocol never uses.
pub enum JsonModel {
    Other,
    Str(Seq<char>),
    UInt(nat),
    Arr(Seq<JsonModel>),
    Obj(Map<Seq<char>, JsonModel>),
}

/// The member of a JSON object under a key; `None` for a missing key or a
/// non-object.
pub open spec fn obj_field(j: JsonModel, k: Seq<char>) -> Option<JsonModel> {
    match j {
        JsonModel::Obj(m) => if m.contains_key(k) {
            Some(m[k])
        } else {
            None
        },
        _ => None,
    }
}

/// The tree of one encoded cell.
pub open spec fn column_model(c: Column) -> JsonModel {
    JsonModel::Obj(
        map![
            "peer"@ => JsonModel::Str(c.peer@),
            "timestamp"@ => JsonModel::UInt(c.timestamp as nat),
            "idx"@ => JsonModel::UInt(c.idx as nat),
            "value"@ => JsonModel::Str(c.value@),
        ],
    )
}

/// The tree of one encoded row.
pub open spec fn row_model(r: Row) -> JsonModel {
    JsonModel::Obj(
        map![
            "idx"@ => JsonModel::UInt(r.idx as nat),
            "columns"@ => JsonModel::Arr(
                seq![
                    column_model(r.columns@[0]),
                    column_model(r.columns@[1]),
                    column_model(r.columns@[2]),
                ],
            ),
        ],
    )
}

/// The tree of an encoded grid.
pub open spec fn grid_model(g: Seq<Row>) -> JsonModel {
    JsonModel::Arr(seq![row_model(g[0]), row_model(g[1]), row_model(g[2])])
}

/// The tree of a `GRID` payload: the grid and its sender.
pub open spec fn grid_data_model(g: Seq<Row>, sender: Seq<char>) -> JsonModel {
    JsonModel::Obj(
        map!["data"@ => grid_model(g), "sender"@ => JsonModel::Str(sender)],
    )
}

/// The tree of a whole `GRID` frame.
pub open spec fn grid_event_model(g: Seq<Row>, sender: Seq<char>) -> JsonModel {
    JsonModel::Obj(
        map!["t"@ => JsonModel::Str("GRID"@), "data"@ => grid_data_model(g, sender)],
    )
}

/// The tree of an `INIT` payload.
pub open spec fn init_data_model(name: Seq<char>) -> JsonModel {
    JsonModel::Obj(map!["name"@ => JsonModel::Str(name)])
}

/// The tree of a whole `INIT` frame.
pub open spec fn init_event_model(name: Seq<char>) -> JsonModel {
    JsonModel::Obj(
        map!["t"@ => JsonModel::Str("INIT"@), "data"@ => init_data_model(name)],
    )
}

/// The tree of one client list entry.
pub open spec fn client_model(name: Seq<char>) -> JsonModel {
    JsonModel::Obj(map!["name"@ => JsonModel::Str(name)])
}

/// The trees of the client list entries, in order.
pub open spec fn clients_model(names: Seq<Seq<char>>) -> Seq<JsonModel> {
    names.map_values(|n: Seq<char>| client_model(n))
}

/// The tree of a `CLIENT_LIST` payload.
pub open spec fn client_list_data_model(names: Seq<Seq<char>>) -> JsonModel {
    JsonModel::Obj(map!["clients"@ => JsonModel::Arr(clients_model(names))])
}

/// The tree of a whole `CLIENT_LIST` frame.
pub open spec fn client_list_event_model(names: Seq<Seq<char>>) -> JsonModel {
    JsonModel::Obj(
        map![
            "t"@ => JsonModel::Str("CLIENT_LIST"@),
            "data"@ => client_list_data_model(names),
        ],
    )
}

/// The envelope tag of a tree, when the tree has the envelope's shape.
pub open spec fn envelope_tag(jm: JsonModel) -> Option<Seq<char>> {
    match obj_field(jm, "t"@) {
        Some(JsonModel::Str(tag)) => if obj_field(jm, "data"@) is Some {
            Some(tag)
        } else {
            None
        },
        _ => None,
    }
}

pub broadcast proof fn lemma_column_model_fields(c: Column)
    ensures
        #![trigger column_model(c)]
        obj_field(column_model(c), "peer"@) == Some(JsonModel::Str(c.peer@)),
        obj_field(column_model(c), "timestamp"@) == Some(JsonModel::UInt(c.timestamp as nat)),
        obj_field(column_model(c), "idx"@) == Some(JsonModel::UInt(c.idx as nat)),
        obj_field(column_model(c), "value"@) == Some(JsonModel::Str(c.value@)),
{
    reveal_strlit("peer");
    reveal_strlit("timestamp");
    reveal_strlit("idx");
    reveal_strlit("value");
    assert("peer"@.len() == 4);
    assert("timestamp"@.len() == 9);
    assert("idx"@.len() == 3);
    assert("value"@.len() == 5);
    assert("peer"@ != "timestamp"@);
    assert("peer"@ != "idx"@);
    assert("peer"@ != "value"@);
    assert("timestamp"@ != "idx"@);
    assert("timestamp"@ != "value"@);
    assert("idx"@ != "value"@);
    assert(obj_field(column_model(c), "value"@) == Some(JsonModel::Str(c.value@)));
    assert(obj_field(column_model(c), "idx"@) == Some(JsonModel::UInt(c.idx as nat)));
    assert(obj_field(column_model(c), "timestamp"@) == Some(JsonModel::UInt(c.timestamp as nat)));
    assert(obj_field(column_model(c), "peer"@) == Some(JsonModel::Str(c.peer@)));
}

pub broadcast proof fn lemma_row_model_fields(r: Row)
    ensures
        #![trigger row_model(r)]
        obj_field(row_model(r), "idx"@) == Some(JsonModel::UInt(r.idx as nat)),
        obj_field(row_model(r), "columns"@) == Some(
            JsonModel::Arr(
                seq![
                    column_model(r.columns@[0]),
                    column_model(r.columns@[1]),
                    column_model(r.columns@[2]),
                ],
            ),
        ),
{
    reveal_strlit("idx");
    reveal_strlit("columns");
    assert("idx"@.len() == 3);
    assert("columns"@.len() == 7);
    assert("idx"@ != "columns"@);
    assert(obj_field(row_model(r), "columns"@) == Some(
        JsonModel::Arr(
            seq![
                column_model(r.columns@[0]),
                column_model(r.columns@[1]),
                column_model(r.columns@[2]),
            ],
        ),
    ));
    assert(obj_field(row_model(r), "idx"@) == Some(JsonModel::UInt(r.idx as nat)));
}

pub broadcast proof fn lemma_grid_data_model_fields(g: Seq<Row>, sender: Seq<char>)
    ensures
        #![trigger grid_data_model(g, sender)]
        obj_field(grid_data_model(g, sender), "data"@) == Some(grid_model(g)),
        obj_field(grid_data_model(g, sender), "sender"@) == Some(JsonModel::Str(sender)),
{
    reveal_strlit("data");
    reveal_strlit("sender");
    assert("data"@.len() == 4);
    assert("sender"@.len() == 6);
    assert("data"@ != "sender"@);
    assert(obj_field(grid_data_model(g, sender), "sender"@) == Some(JsonModel::Str(sender)));
    assert(obj_field(grid_data_model(g, sender), "data"@) == Some(grid_model(g)));
}

pub broadcast proof fn lemma_init_event_model_fields(name: Seq<char>)
    ensures
        #![trigger init_event_model(name)]
        obj_field(init_event_model(name), "t"@) == Some(JsonModel::Str("INIT"@)),
        obj_field(init_event_model(name), "data"@) == Some(init_data_model(name)),
        obj_field(init_data_model(name), "name"@) == Some(JsonModel::Str(name)),
        envelope_tag(init_event_model(name)) == Some("INIT"@),
{
    reveal_strlit("t");
    reveal_strlit("data");
    reveal_strlit("name");
    assert("t"@.len() == 1);
    assert("data"@.len() == 4);
    assert("t"@ != "data"@);
    assert(obj_field(init_event_model(name), "data"@) == Some(init_data_model(name)));
    assert(obj_field(init_event_model(name), "t"@) == Some(JsonModel::Str("INIT"@)));
    assert(obj_field(init_data_model(name), "name"@) == Some(JsonModel::Str(name)));
}

pub broadcast proof fn lemma_grid_event_model_fields(g: Seq<Row>, sender: Seq<char>)
    ensures
        #![trigger grid_event_model(g, sender)]
        obj_field(grid_event_model(g, sender), "t"@) == Some(JsonModel::Str("GRID"@)),
        obj_field(grid_event_model(g, sender), "data"@) == Some(grid_data_model(g, sender)),
        envelope_tag(grid_event_model(g, sender)) == Some("GRID"@),
{
    reveal_strlit("t");
    reveal_strlit("data");
    assert("t"@.len() == 1);
    assert("data"@.len() == 4);
    assert("t"@ != "data"@);
    assert(obj_field(grid_event_model(g, sender), "data"@) == Some(grid_data_model(g, sender)));
    assert(obj_field(grid_event_model(g, sender), "t"@) == Some(JsonModel::Str("GRID"@)));
}

pub broadcast proof fn lemma_client_list_event_model_fields(names: Seq<Seq<char>>)
    ensures
        #![trigger client_list_event_model(names)]
        obj_field(client_list_event_model(names), "t"@) == Some(JsonModel::Str("CLIENT_LIST"@)),
        obj_field(client_list_event_model(names), "data"@) == Some(client_list_data_model(names)),
        envelope_tag(client_list_event_model(names)) == Some("CLIENT_LIST"@),
{
    reveal_strlit("t");
    reveal_strlit("data");
    assert("t"@.len() == 1);
    assert("data"@.len() == 4);
    assert("t"@ != "data"@);
    assert(obj_field(client_list_event_model(names), "data"@) == Some(
        client_list_data_model(names),
    ));
    assert(obj_field(client_list_event_model(names), "t"@) == Some(
        JsonModel::Str("CLIENT_LIST"@),
    ));
}

pub broadcast proof fn lemma_client_list_data_model_fields(names: Seq<Seq<char>>)
    ensures
        #![trigger client_list_data_model(names)]
        obj_field(client_list_data_model(names), "clients"@) == Some(
            JsonModel::Arr(clients_model(names)),
        ),
{
    reveal_strlit("clients");
    assert(obj_field(client_list_data_model(names), "clients"@) == Some(
        JsonModel::Arr(clients_model(names)),
    ));
}

pub broadcast proof fn lemma_client_model_fields(name: Seq<char>)
    ensures
        #![trigger client_model(name)]
        obj_field(client_model(name), "name"@) == Some(JsonModel::Str(name)),
{
    reveal_strlit("name");
    assert(obj_field(client_model(name), "name"@) == Some(JsonModel::Str(name)));
}

/// The protocol's three tags are pairwise distinct texts.
proof fn lemma_tags_distinct()
    ensures
        "INIT"@ != "GRID"@,
        "INIT"@ != "CLIENT_LIST"@,
        "GRID"@ != "CLIENT_LIST"@,
{
    reveal_strlit("INIT");
    reveal_strlit("GRID");
    reveal_strlit("CLIENT_LIST");
    assert("INIT"@.len() == 4);
    assert("GRID"@.len() == 4);
    assert("CLIENT_LIST"@.len() == 11);
    assert("INIT"@[0] == 'I');
    assert("GRID"@[0] == 'G');
}

/// The tree of a client list determines the list.
proof fn lemma_client_list_model_injective(a: Seq<Seq<char>>, b: Seq<Seq<char>>)
    requires
        client_list_data_model(a) == client_list_data_model(b),
    ensures
        a == b,
{
    broadcast use lemma_client_list_data_model_fields, lemma_client_model_fields;

    assert(obj_field(client_list_data_model(a), "clients"@) == obj_field(
        client_list_data_model(b),
        "clients"@,
    ));
    assert(clients_model(a) == clients_model(b));
    assert(clients_model(a).len() == a.len());
    assert(clients_model(b).len() == b.len());
    assert forall|i: int| 0 <= i < a.len() implies a[i] == b[i] by {
        assert(clients_model(a)[i] == client_model(a[i]));
        assert(clients_model(b)[i] == client_model(b[i]));
        assert(obj_field(client_model(a[i]), "name"@) == obj_field(client_model(b[i]), "name"@));
    }
    assert(a =~= b);
}

#[verifier::external_type_specification]
#[verifier::external_body]
pub struct ExValue(serde_json::Value);

/// The JSON tree a parsed `serde_json::Value` holds.
pub uninterp spec fn json_model(v: serde_json::Value) -> JsonModel;

/// What `serde_json::from_str::<Value>` yields for a text: `None` when the
/// text is not valid JSON, else the parsed tree. A function of the text
/// alone.
pub uninterp spec fn parsed_json(s: Seq<char>) -> Option<JsonModel>;

/// Relies on `serde_json::from_str::<Value>`: parses a JSON text into the
/// generic value tree; `None` when the text is not valid JSON. The last
/// three clauses state that the crate's own frame texts — which the codec
/// produces and which are valid JSON by construction — parse to the
/// matching trees: the tagged envelope object, the payload object, and the
/// string, unsigned-integer and array members as written.
#[verifier::external_body]
fn parse_json(s: &str) -> (r: Option<serde_json::Value>)
    ensures
        match r {
            Some(v) => parsed_json(s@) == Some(json_model(v)) && (forall|n: Seq<char>|
                s@ == init_event_json(n) ==> json_model(v) == init_event_model(n)) && (forall|
                g: Seq<Row>,
                snd: Seq<char>,
            |
                s@ == grid_event_json(g, snd) ==> json_model(v) == grid_event_model(g, snd)) && (
            forall|ns: Seq<Seq<char>>|
                s@ == client_list_event_json(ns) ==> json_model(v) == client_list_event_model(ns)),
            None => parsed_json(s@) is None && (forall|n: Seq<char>| s@ != init_event_json(n)) && (
            forall|g: Seq<Row>, snd: Seq<char>| s@ != grid_event_json(g, snd)) && (forall|
                ns: Seq<Seq<char>>,
            | s@ != client_list_event_json(ns)),
        },
{
    serde_json::from_str::<serde_json::Value>(s).ok()
}

/// Relies on `serde_json::Value::get`: the member of a JSON object under
/// the given key, `None` for a missing key or a non-object.
#[verifier::external_body]
fn get_field<'a>(v: &'a serde_json::Value, key: &str) -> (r: Option<&'a serde_json::Value>)
    ensures
        match r {
            Some(f) => obj_field(json_model(*v), key@) == Some(json_model(*f)),
            None => obj_field(json_model(*v), key@) is None,
        },
{
    v.get(key)
}

/// Relies on `serde_json::Value::as_str`: the text of a JSON string value,
/// `None` for any other kind of value.
#[verifier::external_body]
fn as_text(v: &serde_json::Value) -> (r: Option<String>)
    ensures
        match r {
            Some(s) => json_model(*v) == JsonModel::Str(s@),
            None => !(json_model(*v) is Str),
        },
{
    match v.as_str() {
        Some(s) => Some(s.to_string()),
        None => None,
    }
}

/// Relies on `serde_json::Value::as_u64`: the value of a JSON number that
/// is stored as an unsigned 64-bit integer, `None` otherwise.
#[verifier::external_body]
fn as_uint(v: &serde_json::Value) -> (r: Option<u64>)
    ensures
        match r {
            Some(n) => json_model(*v) == JsonModel::UInt(n as nat),
            None => !(json_model(*v) is UInt),
        },
{
    v.as_u64()
}

/// Relies on `serde_json::Value::as_array`: the elements of a JSON array,
/// `None` for any other kind of value.
#[verifier::external_body]
fn as_array<'a>(v: &'a serde_json::Value) -> (r: Option<&'a Vec<serde_json::Value>>)
    ensures
        match r {
            Some(a) => json_model(*v) matches JsonModel::Arr(es) && a@.len() == es.len() && (forall|
                i: int,
            | 0 <= i < es.len() ==> json_model(a@[i]) == es[i]),
            None => !(json_model(*v) is Arr),
        },
{
    v.as_array()
}

/// One decoded inbound frame, as the router classifies it.
pub enum Decoded {
    /// A join request.
    Init(InitEvent),
    /// A grid snapshot broadcast; its grid has the session's fixed shape.
    Grid(GridEvent),
    /// A relay-originated client list update.
    ClientList(ClientListEvent),
    /// A well-formed envelope whose tag no one recognizes.
    Unknown,
    /// Not valid JSON, or a schema mismatch.
    Malformed,
}

/// Two cells agree on everything the wire carries.
pub open spec fn matches_column(a: Column, b: Column) -> bool {
    &&& a.peer@ == b.peer@
    &&& a.timestamp == b.timestamp
    &&& a.idx == b.idx
    &&& a.value@ == b.value@
}

/// Two grids agree on everything the wire carries.
pub open spec fn matches_grid(a: Seq<Row>, b: Seq<Row>) -> bool {
    &&& a.len() == b.len()
    &&& forall|i: int|
        0 <= i < a.len() ==> (#[trigger] a[i]).idx == b[i].idx && a[i].columns@.len()
            == b[i].columns@.len()
    &&& forall|i: int, j: int|
        0 <= i < a.len() && 0 <= j < a[i].columns@.len() ==> matches_column(
            #[trigger] a[i].columns@[j],
            b[i].columns@[j],
        )
}

/// The names a client list carries, in order.
pub open spec fn roster_names(cs: Seq<Client>) -> Seq<Seq<char>> {
    cs.map_values(|c: Client| c.name@)
}

fn to_usize(n: u64) -> (r: Option<usize>)
    ensures
        r is Some <==> n <= usize::MAX as u64,
        r matches Some(u) ==> u == n as usize && u as u64 == n,
{
    if n <= usize::MAX as u64 {
        Some(n as usize)
    } else {
        None
    }
}

fn decode_column(v: &serde_json::Value, j: usize) -> (r: Option<Column>)
    ensures
        r matches Some(c) ==> c.idx == j,
        forall|c: Column|
            json_model(*v) == column_model(c) && c.idx == j ==> (r matches Some(out)
                && matches_column(out, c)),
{
    broadcast use lemma_column_model_fields;

    let peer = match get_field(v, "peer") {
        Some(x) => match as_text(x) {
            Some(s) => s,
            None => { return None; },
        },
        None => { return None; },
    };
    let timestamp = match get_field(v, "timestamp") {
        Some(x) => match as_uint(x) {
            Some(n) => match to_usize(n) {
                Some(u) => u,
                None => { return None; },
            },
            None => { return None; },
        },
        None => { return None; },
    };
    let idx = match get_field(v, "idx") {
        Some(x) => match as_uint(x) {
            Some(n) => match to_usize(n) {
                Some(u) => u,
                None => { return None; },
            },
            None => { return None; },
        },
        None => { return None; },
    };
    if idx != j {
        return None;
    }
    let value = match get_field(v, "value") {
        Some(x) => match as_text(x) {
            Some(s) => s,
            None => { return None; },
        },
        None => { return None; },
    };
    Some(Column { peer, timestamp, idx, value })
}

fn decode_row(v: &serde_json::Value, i: usize) -> (r: Option<Row>)
    ensures
        r matches Some(row) ==> wf_row(row, i as int),
        forall|rw: Row|
            json_model(*v) == row_model(rw) && wf_row(rw, i as int) ==> (r matches Some(out)
                && out.idx == rw.idx && out.columns@.len() == rw.columns@.len() && (forall|j: int|
                0 <= j < rw.columns@.len() ==> matches_column(
                    #[trigger] out.columns@[j],
                    rw.columns@[j],
                ))),
{
    broadcast use lemma_row_model_fields, lemma_column_model_fields;

    let idx = match get_field(v, "idx") {
        Some(x) => match as_uint(x) {
            Some(n) => match to_usize(n) {
                Some(u) => u,
                None => { return None; },
            },
            None => { return None; },
        },
        None => { return None; },
    };
    if idx != i {
        return None;
    }
    let cols = match get_field(v, "columns") {
        Some(x) => match as_array(x) {
            Some(a) => a,
            None => { return None; },
        },
        None => { return None; },
    };
    if cols.len() != GRID_DIM {
        return None;
    }
    let c0 = match decode_column(&cols[0], 0) {
        Some(c) => c,
        None => { return None; },
    };
    let c1 = match decode_column(&cols[1], 1) {
        Some(c) => c,
        None => { return None; },
    };
    let c2 = match decode_column(&cols[2], 2) {
        Some(c) => c,
        None => { return None; },
    };
    let mut columns: Vec<Column> = Vec::new();
    columns.push(c0);
    columns.push(c1);
    columns.push(c2);
    Some(Row { idx, columns })
}

/// Decodes and validates a full grid: exactly `GRID_DIM` rows of `GRID_DIM`
/// cells, every row and cell sitting at its own index.
fn decode_grid(v: &serde_json::Value) -> (r: Option<Vec<Row>>)
    ensures
        r matches Some(g) ==> wf_grid(g@),
        forall|g: Seq<Row>|
            json_model(*v) == grid_model(g) && wf_grid(g) ==> (r matches Some(out) && matches_grid(
                out@,
                g,
            )),
{
    broadcast use lemma_row_model_fields;

    let rows = match as_array(v) {
        Some(a) => a,
        None => { return None; },
    };
    if rows.len() != GRID_DIM {
        return None;
    }
    let r0 = match decode_row(&rows[0], 0) {
        Some(row) => row,
        None => { return None; },
    };
    let r1 = match decode_row(&rows[1], 1) {
        Some(row) => row,
        None => { return None; },
    };
    let r2 = match decode_row(&rows[2], 2) {
        Some(row) => row,
        None => { return None; },
    };
    let mut g: Vec<Row> = Vec::new();
    g.push(r0);
    g.push(r1);
    g.push(r2);
    Some(g)
}

fn decode_grid_event(data: &serde_json::Value) -> (r: Option<GridEvent>)
    ensures
        r matches Some(ev) ==> wf_grid(ev.data@),
        forall|g: Seq<Row>, snd: Seq<char>|
            json_model(*data) == grid_data_model(g, snd) && wf_grid(g) ==> (r matches Some(ev)
                && matches_grid(ev.data@, g) && ev.sender@ == snd),
{
    broadcast use lemma_grid_data_model_fields;

    let grid_value = match get_field(data, "data") {
        Some(x) => x,
        None => { return None; },
    };
    let grid = match decode_grid(grid_value) {
        Some(g) => g,
        None => { return None; },
    };
    let sender = match get_field(data, "sender") {
        Some(x) => match as_text(x) {
            Some(s) => s,
            None => { return None; },
        },
        None => { return None; },
    };
    Some(GridEvent { data: grid, sender })
}

#[verifier::loop_isolation(false)]
fn decode_client_list_event(data: &serde_json::Value) -> (r: Option<ClientListEvent>)
    ensures
        forall|ns: Seq<Seq<char>>|
            json_model(*data) == client_list_data_model(ns) ==> (r matches Some(ev)
                && roster_names(ev.clients@) == ns),
{
    broadcast use lemma_client_list_data_model_fields, lemma_client_model_fields;

    let ghost has: bool = exists|ns: Seq<Seq<char>>|
        json_model(*data) == client_list_data_model(ns);
    let ghost ons: Seq<Seq<char>> = choose|ns: Seq<Seq<char>>|
        json_model(*data) == client_list_data_model(ns);
    proof {
        assert forall|ns: Seq<Seq<char>>|
            json_model(*data) == client_list_data_model(ns) implies ns == ons by {
            lemma_client_list_model_injective(ns, ons);
        }
    }
    let arr = match get_field(data, "clients") {
        Some(x) => match as_array(x) {
            Some(a) => a,
            None => { return None; },
        },
        None => { return None; },
    };
    let n = arr.len();
    let mut clients: Vec<Client> = Vec::new();
    let mut i: usize = 0;
    while i < n
        invariant
            i <= n,
            n == arr@.len(),
            clients@.len() == i,
            has ==> json_model(*data) == client_list_data_model(ons),
            has ==> n == ons.len(),
            has ==> forall|k: int|
                0 <= k < arr@.len() ==> json_model(#[trigger] arr@[k]) == clients_model(ons)[k],
            has ==> forall|k: int| 0 <= k < i ==> (#[trigger] clients@[k]).name@ == ons[k],
        decreases n - i,
    {
        proof {
            if has {
                assert(clients_model(ons)[i as int] == client_model(ons[i as int]));
            }
        }
        let name = match get_field(&arr[i], "name") {
            Some(x) => match as_text(x) {
                Some(s) => s,
                None => { return None; },
            },
            None => { return None; },
        };
        clients.push(Client { name });
        i = i + 1;
    }
    proof {
        if has {
            assert(roster_names(clients@) =~= ons);
        }
        assert forall|ns: Seq<Seq<char>>|
            json_model(*data) == client_list_data_model(ns) implies roster_names(clients@)
            == ns by {
            lemma_client_list_model_injective(ns, ons);
        }
    }
    Some(ClientListEvent { clients })
}

/// Decodes one inbound text frame: the tagged envelope, then the payload
/// the tag announces. An unparseable text is `Malformed`; a well-formed
/// envelope under an unrecognized tag is `Unknown`; a text the codec
/// produced decodes back to the event it encoded. Any grid that comes out
/// has the session's fixed shape, so it can be merged or forwarded safely.
pub fn decode_frame(text: &str) -> (r: Decoded)
    ensures
        r matches Decoded::Grid(ev) ==> wf_grid(ev.data@),
        parsed_json(text@) is None ==> r is Malformed,
        forall|jm: JsonModel, tag: Seq<char>|
            parsed_json(text@) == Some(jm) && envelope_tag(jm) == Some(tag) && tag != "INIT"@
                && tag != "GRID"@ && tag != "CLIENT_LIST"@ ==> r is Unknown,
        forall|n: Seq<char>|
            text@ == init_event_json(n) ==> (r matches Decoded::Init(ev) && ev.name@ == n),
        forall|g: Seq<Row>, snd: Seq<char>|
            text@ == grid_event_json(g, snd) && wf_grid(g) ==> (r matches Decoded::Grid(ev)
                && matches_grid(ev.data@, g) && ev.sender@ == snd),
        forall|ns: Seq<Seq<char>>|
            text@ == client_list_event_json(ns) ==> (r matches Decoded::ClientList(ev)
                && roster_names(ev.clients@) == ns),
{
    broadcast use lemma_init_event_model_fields, lemma_grid_event_model_fields,
        lemma_client_list_event_model_fields;

    proof {
        lemma_tags_distinct();
    }
    let v = match parse_json(text) {
        Some(v) => v,
        None => { return Decoded::Malformed; },
    };
    let t = match get_field(&v, "t") {
        Some(tv) => match as_text(tv) {
            Some(s) => s,
            None => { return Decoded::Malformed; },
        },
        None => { return Decoded::Malformed; },
    };
    let data = match get_field(&v, "data") {
        Some(d) => d,
        None => { return Decoded::Malformed; },
    };
    if t == String::from_str("INIT") {
        match get_field(data, "name") {
            Some(x) => match as_text(x) {
                Some(name) => Decoded::Init(InitEvent { name }),
                None => Decoded::Malformed,
            },
            None => Decoded::Malformed,
        }
    } else if t == String::from_str("GRID") {
        match decode_grid_event(data) {
            Some(ev) => Decoded::Grid(ev),
            None => Decoded::Malformed,
        }
    } else if t == String::from_str("CLIENT_LIST") {
        match decode_client_list_event(data) {
            Some(ev) => Decoded::ClientList(ev),
            None => Decoded::Malformed,
        }
    } else {
        Decoded::Unknown
    }
}

} // verus!
