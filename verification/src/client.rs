//! The participant-side update loop, one step per item: a local edit bumps
//! the edited cell and yields the full-snapshot frame to ship to the relay;
//! a received frame updates the roster or runs the merge engine. Keeping
//! both kinds of step in one serialized loop is what rules out the race
//! between a local edit and a concurrent merge over the same grid.
use vstd::prelude::*;
use crate::codec::{grid_event_json, encode_grid_event};
use crate::decode::Decoded;
use crate::merge::{merge_grid_rel, det_merge_cell, merge_grids, apply_change};
use crate::model::{ChangeEvent, Row, wf_grid, GRID_DIM};

verus! {

/// Runs the local edit pipeline: the participant's own copy of the edited
/// cell gets the new text, a timestamp one higher, and the participant as
/// writer; the entire updated grid is then serialized as a grid snapshot
/// frame naming the participant as sender, ready for the transport.
pub fn local_edit_event(grid: &mut Vec<Row>, change: &ChangeEvent, who: &String) -> (frame: String)
    requires
        wf_grid(old(grid)@),
        change.row < GRID_DIM,
        change.column < GRID_DIM,
        old(grid)@[change.row as int].columns@[change.column as int].timestamp < usize::MAX,
    ensures
        wf_grid(final(grid)@),
        frame@ == grid_event_json(final(grid)@, who@),
        forall|i: int| 0 <= i < old(grid)@.len() && i != change.row as int
            ==> #[trigger] final(grid)@[i] == old(grid)@[i],
        forall|j: int|
            0 <= j < old(grid)@[change.row as int].columns@.len() && j != change.column as int
                ==> #[trigger] final(grid)@[change.row as int].columns@[j]
                    == old(grid)@[change.row as int].columns@[j],
        ({
            let c = final(grid)@[change.row as int].columns@[change.column as int];
            let before = old(grid)@[change.row as int].columns@[change.column as int];
            &&& c.value@ == change.value@
            &&& c.timestamp == before.timestamp + 1
            &&& c.peer@ == who@
            &&& c.idx == before.idx
        }),
{
    apply_change(grid, change, who);
    encode_grid_event(grid, who.as_str())
}

/// Applies one received frame at a participant: a grid snapshot is
/// reconciled into the local grid by the merge engine (under the chosen
/// tie-break policy), a client list replaces the roster, and anything else
/// changes nothing.
pub fn apply_remote(
    grid: &mut Vec<Row>,
    roster: &mut Vec<String>,
    frame: &Decoded,
    deterministic: bool,
)
    requires
        wf_grid(old(grid)@),
        frame matches Decoded::Grid(g) ==> wf_grid(g.data@),
    ensures
        wf_grid(final(grid)@),
        match frame {
            Decoded::Grid(g) => merge_grid_rel(old(grid)@, g.data@, final(grid)@) && final(roster)@
                == old(roster)@ && (deterministic ==> forall|i: int, j: int|
                0 <= i < old(grid)@.len() && 0 <= j < old(grid)@[i].columns@.len()
                    ==> (#[trigger] final(grid)@[i].columns@[j]) == det_merge_cell(
                    old(grid)@[i].columns@[j],
                    g.data@[i].columns@[j],
                )),
            Decoded::ClientList(ev) => final(grid)@ == old(grid)@ && final(roster)@.len()
                == ev.clients@.len() && (forall|k: int|
                0 <= k < ev.clients@.len() ==> #[trigger] final(roster)@[k]
                    == ev.clients@[k].name),
            _ => final(grid)@ == old(grid)@ && final(roster)@ == old(roster)@,
        },
{
    match frame {
        Decoded::Grid(g) => {
            merge_grids(grid, &g.data, deterministic);
        },
        Decoded::ClientList(ev) => {
            let mut names: Vec<String> = Vec::new();
            let n = ev.clients.len();
            let mut k: usize = 0;
            while k < n
                invariant
                    k <= n,
                    n == ev.clients@.len(),
                    names@.len() == k,
                    forall|i: int| 0 <= i < k ==> #[trigger] names@[i] == ev.clients@[i].name,
                decreases n - k,
            {
                names.push(ev.clients[k].name.clone());
                k = k + 1;
            }
            *roster = names;
        },
        _ => {},
    }
}

} // verus!
