//! The merge engine: reconciling a locally held grid against an incoming
//! remote snapshot, cell by cell, by the last-write-wins rule, and the local
//! edit pipeline that bumps a cell's logical timestamp.
//!
//! Two tie-break policies are offered for cells whose timestamps are equal:
//! an unbiased coin flip (non-deterministic, replicas may
//! diverge) and a deterministic total order over `(timestamp, writer)` pairs
//! under which the lexicographically larger writer identity wins.
use vstd::prelude::*;
use crate::model::{Column, Row, ChangeEvent, wf_grid, wf_row, wf_column, GRID_DIM};

verus! {

/// Strict lexicographic order on character sequences, by code point.
pub open spec fn lex_lt(a: Seq<char>, b: Seq<char>) -> bool
    decreases a.len(),
{
    if b.len() == 0 {
        false
    } else if a.len() == 0 {
        true
    } else if a[0] != b[0] {
        (a[0] as int) < (b[0] as int)
    } else {
        lex_lt(a.drop_first(), b.drop_first())
    }
}

/// Dropping an equal prefix of both sequences does not change their
/// lexicographic order.
proof fn lemma_lex_lt_skip(a: Seq<char>, b: Seq<char>, i: int)
    requires
        0 <= i <= a.len(),
        i <= b.len(),
        forall|k: int| 0 <= k < i ==> a[k] == b[k],
    ensures
        lex_lt(a, b) == lex_lt(a.skip(i), b.skip(i)),
    decreases i,
{
    if i > 0 {
        assert(a.skip(0) =~= a);
        assert(b.skip(0) =~= b);
        assert(a.len() > 0 && b.len() > 0 && a[0] == b[0]);
        assert(lex_lt(a, b) == lex_lt(a.drop_first(), b.drop_first()));
        assert(a.drop_first() =~= a.skip(1));
        assert(b.drop_first() =~= b.skip(1));
        lemma_lex_lt_skip(a.skip(1), b.skip(1), i - 1);
        assert(a.skip(1).skip(i - 1) =~= a.skip(i));
        assert(b.skip(1).skip(i - 1) =~= b.skip(i));
    } else {
        assert(a.skip(0) =~= a);
        assert(b.skip(0) =~= b);
    }
}

/// Decides `lex_lt(a@, b@)` executably, comparing characters left to right.
pub fn str_lex_lt(a: &str, b: &str) -> (r: bool)
    ensures
        r == lex_lt(a@, b@),
{
    let alen = a.unicode_len();
    let blen = b.unicode_len();
    let mut i: usize = 0;
    loop
        invariant
            alen == a@.len(),
            blen == b@.len(),
            i <= alen,
            i <= blen,
            forall|k: int| 0 <= k < i ==> a@[k] == b@[k],
        decreases alen - i,
    {
        proof {
            lemma_lex_lt_skip(a@, b@, i as int);
        }
        if i == blen {
            return false;
        }
        if i == alen {
            return true;
        }
        let ca = a.get_char(i);
        let cb = b.get_char(i);
        if ca != cb {
            return (ca as u32) < (cb as u32);
        }
        i = i + 1;
    }
}

proof fn lemma_lex_lt_asymmetric(a: Seq<char>, b: Seq<char>)
    ensures
        !(lex_lt(a, b) && lex_lt(b, a)),
    decreases a.len(),
{
    if a.len() > 0 && b.len() > 0 && a[0] == b[0] {
        lemma_lex_lt_asymmetric(a.drop_first(), b.drop_first());
    }
}

proof fn lemma_lex_lt_total(a: Seq<char>, b: Seq<char>)
    requires
        a != b,
    ensures
        lex_lt(a, b) || lex_lt(b, a),
    decreases a.len(),
{
    if b.len() == 0 {
        if a.len() == 0 {
            assert(a =~= b);
        }
    } else if a.len() == 0 {
    } else if a[0] != b[0] {
    } else {
        if a.drop_first() == b.drop_first() {
            assert(a.drop_first().len() == a.len() - 1);
            assert(b.drop_first().len() == b.len() - 1);
            assert(a.len() == b.len());
            assert forall|i: int| 0 <= i < a.len() implies a[i] == b[i] by {
                if i > 0 {
                    assert(a.drop_first()[i - 1] == a[i]);
                    assert(b.drop_first()[i - 1] == b[i]);
                }
            }
            assert(a =~= b);
        } else {
            lemma_lex_lt_total(a.drop_first(), b.drop_first());
        }
    }
}

/// A valid outcome of merging local cell `l` against remote cell `r`: the
/// causally newer cell wins; on a timestamp tie either may be kept.
pub open spec fn merge_cell_rel(l: Column, r: Column, out: Column) -> bool {
    if l.timestamp > r.timestamp {
        out == l
    } else if l.timestamp < r.timestamp {
        out == r
    } else {
        out == l || out == r
    }
}

/// The deterministic merge outcome: on a timestamp tie, the cell whose
/// writer identity is lexicographically larger wins (local on equal writers).
pub open spec fn det_merge_cell(l: Column, r: Column) -> Column {
    if l.timestamp > r.timestamp {
        l
    } else if l.timestamp < r.timestamp {
        r
    } else if lex_lt(l.peer@, r.peer@) {
        r
    } else {
        l
    }
}

/// An exact copy of a cell.
pub fn clone_column(c: &Column) -> (out: Column)
    ensures
        out == *c,
{
    Column {
        peer: c.peer.clone(),
        timestamp: c.timestamp,
        idx: c.idx,
        value: c.value.clone(),
    }
}

/// Relies on `rand::random::<bool>`: an unbiased coin flip drawn from the
/// thread-local generator. Nothing is promised of the outcome. One residual
/// panic path lies outside the verified guarantees: the generator's first
/// use can abort if the operating system's randomness source fails; that is
/// environmental and independent of every input.
#[verifier::external_body]
fn coin_flip() -> bool {
    rand::random::<bool>()
}

/// Merges one cell. With `deterministic` false, a timestamp tie is resolved
/// by a coin flip; with it true, by the writer-identity order.
pub fn merge_cell(local: &Column, remote: &Column, deterministic: bool) -> (out: Column)
    ensures
        merge_cell_rel(*local, *remote, out),
        deterministic ==> out == det_merge_cell(*local, *remote),
{
    if local.timestamp > remote.timestamp {
        clone_column(local)
    } else if local.timestamp < remote.timestamp {
        clone_column(remote)
    } else {
        let keep_local = if deterministic {
            !str_lex_lt(local.peer.as_str(), remote.peer.as_str())
        } else {
            coin_flip()
        };
        if keep_local {
            clone_column(local)
        } else {
            clone_column(remote)
        }
    }
}

/// A valid outcome of one whole-grid merge: shapes agree and every cell is a
/// valid outcome of its own pairwise merge.
pub open spec fn merge_grid_rel(l: Seq<Row>, r: Seq<Row>, out: Seq<Row>) -> bool {
    &&& wf_grid(l)
    &&& wf_grid(r)
    &&& wf_grid(out)
    &&& forall|i: int, j: int|
        0 <= i < l.len() && 0 <= j < l[i].columns@.len()
            ==> merge_cell_rel(l[i].columns@[j], r[i].columns@[j], (#[trigger] out[i].columns@[j]))
}

/// Merges one row of the two grids.
fn merge_row(local: &Row, remote: &Row, idx: usize, deterministic: bool) -> (out: Row)
    requires
        wf_row(*local, idx as int),
        wf_row(*remote, idx as int),
    ensures
        wf_row(out, idx as int),
        forall|j: int|
            0 <= j < local.columns@.len()
                ==> merge_cell_rel(local.columns@[j], remote.columns@[j], (#[trigger] out.columns@[j])),
        deterministic ==> forall|j: int|
            0 <= j < local.columns@.len()
                ==> (#[trigger] out.columns@[j]) == det_merge_cell(local.columns@[j], remote.columns@[j]),
{
    let mut columns: Vec<Column> = Vec::new();
    let mut j: usize = 0;
    while j < GRID_DIM
        invariant
            wf_row(*local, idx as int),
            wf_row(*remote, idx as int),
            j <= GRID_DIM,
            columns@.len() == j,
            forall|k: int| 0 <= k < j ==> wf_column(#[trigger] columns@[k], k),
            forall|k: int|
                0 <= k < j
                    ==> merge_cell_rel(local.columns@[k], remote.columns@[k], (#[trigger] columns@[k])),
            deterministic ==> forall|k: int|
                0 <= k < j
                    ==> (#[trigger] columns@[k]) == det_merge_cell(local.columns@[k], remote.columns@[k]),
        decreases GRID_DIM - j,
    {
        let merged = merge_cell(&local.columns[j], &remote.columns[j], deterministic);
        columns.push(merged);
        j = j + 1;
    }
    Row { idx, columns }
}

/// Runs the merge engine once: reconciles the local grid against a remote
/// snapshot of the same shape, cell by cell, in a single pass.
pub fn merge_grids(local: &mut Vec<Row>, remote: &Vec<Row>, deterministic: bool)
    requires
        wf_grid(old(local)@),
        wf_grid(remote@),
    ensures
        merge_grid_rel(old(local)@, remote@, final(local)@),
        deterministic ==> forall|i: int, j: int|
            0 <= i < old(local)@.len() && 0 <= j < old(local)@[i].columns@.len()
                ==> (#[trigger] final(local)@[i].columns@[j])
                    == det_merge_cell(old(local)@[i].columns@[j], remote@[i].columns@[j]),
{
    let mut out: Vec<Row> = Vec::new();
    let mut i: usize = 0;
    while i < GRID_DIM
        invariant
            wf_grid(local@),
            wf_grid(remote@),
            i <= GRID_DIM,
            out@.len() == i,
            forall|k: int| 0 <= k < i ==> wf_row(#[trigger] out@[k], k),
            forall|k: int, j: int|
                0 <= k < i && 0 <= j < local@[k].columns@.len()
                    ==> merge_cell_rel(local@[k].columns@[j], remote@[k].columns@[j], (#[trigger] out@[k].columns@[j])),
            deterministic ==> forall|k: int, j: int|
                0 <= k < i && 0 <= j < local@[k].columns@.len()
                    ==> (#[trigger] out@[k].columns@[j])
                        == det_merge_cell(local@[k].columns@[j], remote@[k].columns@[j]),
        decreases GRID_DIM - i,
    {
        let merged = merge_row(&local[i], &remote[i], i, deterministic);
        out.push(merged);
        i = i + 1;
    }
    *local = out;
}

/// Applies a local edit: the cell's text becomes the requested value, its
/// logical timestamp rises by exactly one, and the editing participant
/// becomes its writer; every other cell is untouched.
pub fn apply_change(grid: &mut Vec<Row>, change: &ChangeEvent, who: &String)
    requires
        wf_grid(old(grid)@),
        change.row < GRID_DIM,
        change.column < GRID_DIM,
        old(grid)@[change.row as int].columns@[change.column as int].timestamp < usize::MAX,
    ensures
        wf_grid(final(grid)@),
        final(grid)@.len() == old(grid)@.len(),
        forall|i: int| 0 <= i < old(grid)@.len() && i != change.row as int
            ==> #[trigger] final(grid)@[i] == old(grid)@[i],
        forall|j: int|
            0 <= j < old(grid)@[change.row as int].columns@.len() && j != change.column as int
                ==> #[trigger] final(grid)@[change.row as int].columns@[j]
                    == old(grid)@[change.row as int].columns@[j],
        ({
            let c = final(grid)@[change.row as int].columns@[change.column as int];
            let before = old(grid)@[change.row as int].columns@[change.column as int];
            &&& c.value@ == change.value@
            &&& c.timestamp == before.timestamp + 1
            &&& c.peer@ == who@
            &&& c.idx == before.idx
        }),
{
    let row = grid.remove(change.row);
    let mut columns = row.columns;
    let old_cell = columns.remove(change.column);
    let new_cell = Column {
        idx: old_cell.idx,
        peer: who.clone(),
        value: change.value.clone(),
        timestamp: old_cell.timestamp + 1,
    };
    columns.insert(change.column, new_cell);
    grid.insert(change.row, Row { idx: row.idx, columns });
    proof {
        assert(forall|i: int| 0 <= i < grid@.len() && i != change.row as int
            ==> #[trigger] grid@[i] == old(grid)@[i]);
        assert(forall|j: int|
            0 <= j < old(grid)@[change.row as int].columns@.len() && j != change.column as int
                ==> #[trigger] grid@[change.row as int].columns@[j]
                    == old(grid)@[change.row as int].columns@[j]);
    }
}

/// The deterministic tie-break is symmetric, which is what makes it
/// converge: two replicas holding cells `a` and `b` that each merge in the
/// other's copy end up with the same cell. The premise rules out the one
/// degenerate pair the edit discipline cannot produce, two distinct cells
/// carrying the same timestamp and the same writer.
pub proof fn lemma_det_merge_commutes(a: Column, b: Column)
    requires
        a.timestamp == b.timestamp && a.peer@ == b.peer@ ==> a == b,
    ensures
        det_merge_cell(a, b) == det_merge_cell(b, a),
{
    if a.timestamp == b.timestamp && a.peer@ != b.peer@ {
        lemma_lex_lt_total(a.peer@, b.peer@);
        lemma_lex_lt_asymmetric(a.peer@, b.peer@);
    }
}

/// One merge step never lowers a cell's stored timestamp, and never invents
/// one: the stored value is copied from one of the two cells.
pub proof fn lemma_merge_step_monotonic(l: Column, r: Column, out: Column)
    requires
        merge_cell_rel(l, r, out),
    ensures
        out.timestamp >= l.timestamp,
        out.timestamp == l.timestamp || out.timestamp == r.timestamp,
{
}

/// Grid-level convergence of the deterministic tie-break: two replicas that
/// merge in each other's snapshot end up with the same grid, provided no two
/// distinct cells carry the same timestamp and writer (which the edit
/// discipline guarantees).
pub proof fn lemma_det_merge_grid_commutes(a: Seq<Row>, b: Seq<Row>, ab: Seq<Row>, ba: Seq<Row>)
    requires
        wf_grid(a),
        wf_grid(b),
        forall|i: int, j: int|
            0 <= i < a.len() && 0 <= j < a[i].columns@.len()
                ==> ((#[trigger] a[i].columns@[j]).timestamp == b[i].columns@[j].timestamp
                    && a[i].columns@[j].peer@ == b[i].columns@[j].peer@ ==> a[i].columns@[j]
                    == b[i].columns@[j]),
        forall|i: int, j: int|
            0 <= i < a.len() && 0 <= j < a[i].columns@.len()
                ==> (#[trigger] ab[i].columns@[j]) == det_merge_cell(
                    a[i].columns@[j],
                    b[i].columns@[j],
                ),
        forall|i: int, j: int|
            0 <= i < a.len() && 0 <= j < a[i].columns@.len()
                ==> (#[trigger] ba[i].columns@[j]) == det_merge_cell(
                    b[i].columns@[j],
                    a[i].columns@[j],
                ),
    ensures
        forall|i: int, j: int|
            0 <= i < a.len() && 0 <= j < a[i].columns@.len()
                ==> (#[trigger] ab[i].columns@[j]) == ba[i].columns@[j],
{
    assert forall|i: int, j: int|
        0 <= i < a.len() && 0 <= j < a[i].columns@.len() implies (#[trigger] ab[i].columns@[j])
        == ba[i].columns@[j] by {
        lemma_det_merge_commutes(a[i].columns@[j], b[i].columns@[j]);
    }
}

/// Across any sequence of merges with no intervening local edit, a cell's
/// stored timestamp is non-decreasing: in a chain of grids where each is a
/// valid merge of the previous one against some remote snapshot, the last
/// grid's timestamp at every cell is at least the first grid's.
pub proof fn lemma_merge_chain_monotonic(gs: Seq<Seq<Row>>, rs: Seq<Seq<Row>>)
    requires
        gs.len() == rs.len() + 1,
        forall|k: int| 0 <= k < rs.len() ==> merge_grid_rel(gs[k], #[trigger] rs[k], gs[k + 1]),
    ensures
        forall|i: int, j: int|
            0 <= i < GRID_DIM && 0 <= j < GRID_DIM && gs.len() > 0
                ==> (#[trigger] gs[gs.len() - 1][i].columns@[j]).timestamp
                    >= gs[0][i].columns@[j].timestamp,
    decreases rs.len(),
{
    if rs.len() > 0 {
        lemma_merge_chain_monotonic(gs.drop_first(), rs.drop_first());
        assert forall|i: int, j: int|
            0 <= i < GRID_DIM && 0 <= j < GRID_DIM implies
            (#[trigger] gs[gs.len() - 1][i].columns@[j]).timestamp >= gs[0][i].columns@[j].timestamp by {
            assert(merge_grid_rel(gs[0], rs[0], gs[1]));
            assert(gs[1][i].columns@[j].timestamp >= gs[0][i].columns@[j].timestamp);
            assert(gs.drop_first()[gs.drop_first().len() - 1] == gs[gs.len() - 1]);
            assert(gs.drop_first()[0] == gs[1]);
        }
    }
}

/// Merge idempotence on strictly ordered timestamps: when the remote cell is
/// strictly newer, merging once adopts it entirely, and merging a second time
/// with the same remote cell changes nothing.
pub proof fn lemma_merge_idempotent_strict(l: Column, r: Column, m1: Column, m2: Column)
    requires
        r.timestamp > l.timestamp,
        merge_cell_rel(l, r, m1),
        merge_cell_rel(m1, r, m2),
    ensures
        m1 == r,
        m2 == m1,
{
}

/// Grid-level corollary: if the remote snapshot is strictly newer at every
/// cell, applying the merge twice with the same snapshot yields the same
/// grid as applying it once.
pub proof fn lemma_merge_grid_idempotent_strict(
    l: Seq<Row>,
    r: Seq<Row>,
    m1: Seq<Row>,
    m2: Seq<Row>,
)
    requires
        forall|i: int, j: int|
            0 <= i < l.len() && 0 <= j < l[i].columns@.len()
                ==> (#[trigger] r[i].columns@[j]).timestamp > l[i].columns@[j].timestamp,
        merge_grid_rel(l, r, m1),
        merge_grid_rel(m1, r, m2),
    ensures
        forall|i: int, j: int|
            0 <= i < l.len() && 0 <= j < l[i].columns@.len()
                ==> (#[trigger] m2[i].columns@[j]) == m1[i].columns@[j]
                    && m1[i].columns@[j] == r[i].columns@[j],
{
    assert forall|i: int, j: int|
        0 <= i < l.len() && 0 <= j < l[i].columns@.len() implies
        (#[trigger] m2[i].columns@[j]) == m1[i].columns@[j] && m1[i].columns@[j] == r[i].columns@[j] by {
        lemma_merge_idempotent_strict(
            l[i].columns@[j],
            r[i].columns@[j],
            m1[i].columns@[j],
            m2[i].columns@[j],
        );
    }
}

} // verus!
