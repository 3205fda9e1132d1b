//! The shared data model: one editable cell (`Column`), a `Row` of cells, and
//! the grid as a vector of rows, together with the well-formedness predicate
//! that every participant's local grid keeps for the whole session.
use vstd::prelude::*;

verus! {

/// One entry of a client list payload.
pub struct Client {
    pub name: String,
}

/// Payload of a join request: the chosen display name.
pub struct InitEvent {
    pub name: String,
}

/// One editable cell: its position inside the row, its text, a per-cell
/// logical edit counter, and the identity of the participant that wrote it.
pub struct Column {
    pub peer: String,
    pub timestamp: usize,
    pub idx: usize,
    pub value: String,
}

/// One row of the grid.
pub struct Row {
    pub idx: usize,
    pub columns: Vec<Column>,
}

/// Payload of a grid snapshot broadcast: the full grid and the sender's identity.
pub struct GridEvent {
    pub data: Vec<Row>,
    pub sender: String,
}

/// Payload of a relay-originated client list update.
pub struct ClientListEvent {
    pub clients: Vec<Client>,
}

/// A local edit request: which cell changed and its new text.
pub struct ChangeEvent {
    pub row: usize,
    pub column: usize,
    pub value: String,
}

/// Number of rows, and of cells per row, fixed for the lifetime of a session.
pub const GRID_DIM: usize = 3;

/// A cell sits at its own position inside its row.
pub open spec fn wf_column(c: Column, j: int) -> bool {
    c.idx == j
}

/// A row sits at its own position, and holds exactly `GRID_DIM` cells, each
/// at its own position.
pub open spec fn wf_row(r: Row, i: int) -> bool {
    &&& r.idx == i
    &&& r.columns@.len() == GRID_DIM
    &&& forall|j: int| 0 <= j < r.columns@.len() ==> wf_column(#[trigger] r.columns@[j], j)
}

/// The grid shape every participant holds: `GRID_DIM` rows, each well formed.
pub open spec fn wf_grid(g: Seq<Row>) -> bool {
    &&& g.len() == GRID_DIM
    &&& forall|i: int| 0 <= i < g.len() ==> wf_row(#[trigger] g[i], i)
}

/// A fresh cell: empty text, counter zero, no writer.
pub fn init_column(idx: usize) -> (c: Column)
    ensures
        c.idx == idx,
        c.value@ == Seq::<char>::empty(),
        c.timestamp == 0,
        c.peer@ == Seq::<char>::empty(),
{
    Column { idx, value: String::new(), timestamp: 0, peer: String::new() }
}

/// A fresh cell at every position: empty text, counter zero, no writer.
pub open spec fn all_cells_fresh(g: Seq<Row>) -> bool {
    forall|i: int, j: int|
        0 <= i < g.len() && 0 <= j < g[i].columns@.len() ==> {
            let c = #[trigger] g[i].columns@[j];
            &&& c.timestamp == 0
            &&& c.value@ == Seq::<char>::empty()
            &&& c.peer@ == Seq::<char>::empty()
        }
}

/// A fresh row of `GRID_DIM` fresh cells at position `idx`.
fn init_row(idx: usize) -> (r: Row)
    ensures
        wf_row(r, idx as int),
        forall|j: int| 0 <= j < r.columns@.len() ==> {
            let c = #[trigger] r.columns@[j];
            &&& c.timestamp == 0
            &&& c.value@ == Seq::<char>::empty()
            &&& c.peer@ == Seq::<char>::empty()
        },
{
    let mut columns: Vec<Column> = Vec::new();
    columns.push(init_column(0));
    columns.push(init_column(1));
    columns.push(init_column(2));
    Row { idx, columns }
}

/// The initial grid every participant starts from: `GRID_DIM` x `GRID_DIM`
/// cells, each with empty text, counter zero and no writer.
pub fn init_data() -> (g: Vec<Row>)
    ensures
        wf_grid(g@),
        all_cells_fresh(g@),
{
    let mut g: Vec<Row> = Vec::new();
    g.push(init_row(0));
    g.push(init_row(1));
    g.push(init_row(2));
    g
}

} // verus!
