//! Aggregation by voxel index: collapses duplicate-index rows into one row
//! per distinct `(x, y, z)` triple, records the group size in the `count`
//! column, and collects every payload column's values into lists.

use vstd::prelude::*;

use crate::error::Error;
use crate::filter::clone_info;
use crate::voxel_data::{ColumnModel, ColumnValues, PayloadColumn, PayloadColumnModel, VoxelData,
    VoxelDataModel};
use crate::voxel_grid::{cell_index_at, CellIndex, VoxelGrid};

verus! {

/// The index triple held at position `j` of three aligned columns.
pub open spec fn triple_at(xs: Seq<i64>, ys: Seq<i64>, zs: Seq<i64>, j: int) -> CellIndex {
    CellIndex { x: xs[j], y: ys[j], z: zs[j] }
}

/// How many of the first `k` rows of the table hold the index triple `t`.
pub open spec fn matches_count(m: VoxelDataModel, t: CellIndex, k: int) -> nat
    decreases k,
{
    if k <= 0 {
        0
    } else {
        matches_count(m, t, k - 1) + (if cell_index_at(m, k - 1) == t {
            1nat
        } else {
            0nat
        })
    }
}

/// The values of `vals` at the first `k` rows whose index triple is `t`, in
/// row order.
pub open spec fn gathered(vals: Seq<i64>, m: VoxelDataModel, t: CellIndex, k: int) -> Seq<i64>
    decreases k,
{
    if k <= 0 {
        Seq::empty()
    } else {
        let rest = gathered(vals, m, t, k - 1);
        if cell_index_at(m, k - 1) == t {
            rest.push(vals[k - 1])
        } else {
            rest
        }
    }
}

/// The scalar values of a payload column.
pub open spec fn scalar_values(c: PayloadColumnModel) -> Seq<i64> {
    match c.values {
        ColumnModel::Scalar(v) => v,
        ColumnModel::List(_) => Seq::empty(),
    }
}

/// A triple that occurs among the first `k` rows is counted at least once.
pub proof fn lemma_matches_count_at(m: VoxelDataModel, t: CellIndex, i0: int, k: int)
    requires
        0 <= i0 < k,
        cell_index_at(m, i0) == t,
    ensures
        matches_count(m, t, k) >= 1,
    decreases k,
{
    if i0 < k - 1 {
        lemma_matches_count_at(m, t, i0, k - 1);
    }
}

/// The triple `t` occurs in the table before row `k`.
pub open spec fn occurs_before(m: VoxelDataModel, t: CellIndex, k: int) -> bool {
    exists|i: int| 0 <= i < k && #[trigger] cell_index_at(m, i) == t
}

/// Row `i` is the first row of the table holding the triple `t`.
pub open spec fn is_first_occurrence(m: VoxelDataModel, t: CellIndex, i: int) -> bool {
    &&& 0 <= i < m.row_count() as int
    &&& cell_index_at(m, i) == t
    &&& !occurs_before(m, t, i)
}

/// A triple has at most one first occurrence.
pub proof fn lemma_first_occurrence_unique(m: VoxelDataModel, t: CellIndex, i1: int, i2: int)
    requires
        is_first_occurrence(m, t, i1),
        is_first_occurrence(m, t, i2),
    ensures
        i1 == i2,
{
    if i1 < i2 {
        assert(0 <= i1 < i2 && cell_index_at(m, i1) == t);
        assert(occurs_before(m, t, i2));
    }
    if i2 < i1 {
        assert(0 <= i2 < i1 && cell_index_at(m, i2) == t);
        assert(occurs_before(m, t, i1));
    }
}

/// The output rows hold pairwise distinct index triples.
pub open spec fn agg_distinct(a: VoxelDataModel) -> bool {
    forall|j1: int, j2: int|
        0 <= j1 < j2 < a.xs.len() ==> cell_index_at(a, j1) != cell_index_at(a, j2)
}

/// Row `i` of the input has its triple among the output rows.
pub open spec fn covered_row(m: VoxelDataModel, a: VoxelDataModel, i: int) -> bool {
    exists|j: int| 0 <= j < a.xs.len() && (#[trigger] cell_index_at(a, j)) == cell_index_at(m, i)
}

/// Every input row's triple appears among the output rows.
pub open spec fn agg_covers(m: VoxelDataModel, a: VoxelDataModel) -> bool {
    forall|i: int| 0 <= i < m.row_count() as int ==> #[trigger] covered_row(m, a, i)
}

/// Row `j` of the output takes its triple from some input row.
pub open spec fn represented_row(m: VoxelDataModel, a: VoxelDataModel, j: int) -> bool {
    exists|i: int|
        0 <= i < m.row_count() as int && (#[trigger] cell_index_at(m, i)) == cell_index_at(a, j)
}

/// Every output row's triple comes from some input row.
pub open spec fn agg_represented(m: VoxelDataModel, a: VoxelDataModel) -> bool {
    forall|j: int| 0 <= j < a.xs.len() ==> #[trigger] represented_row(m, a, j)
}

/// The output count column records each output triple's multiplicity among
/// the input rows.
pub open spec fn agg_counts(m: VoxelDataModel, a: VoxelDataModel) -> bool {
    match a.count {
        Some(c) => c.len() == a.xs.len() && forall|j: int|
            0 <= j < c.len() ==> c[j] == matches_count(
                m,
                cell_index_at(a, j),
                m.row_count() as int,
            ),
        None => false,
    }
}

/// Every payload column keeps its name and becomes the list of its values
/// gathered per output triple, in input row order.
pub open spec fn agg_payload(m: VoxelDataModel, a: VoxelDataModel) -> bool {
    &&& a.payload.len() == m.payload.len()
    &&& forall|p: int|
        0 <= p < a.payload.len() ==> (#[trigger] a.payload[p]).name == m.payload[p].name
    &&& forall|p: int|
        0 <= p < a.payload.len() ==> match (#[trigger] a.payload[p]).values {
            ColumnModel::List(ls) => ls.len() == a.xs.len() && forall|j: int|
                0 <= j < ls.len() ==> ls[j] == gathered(
                    scalar_values(m.payload[p]),
                    m,
                    cell_index_at(a, j),
                    m.row_count() as int,
                ),
            ColumnModel::Scalar(_) => false,
        }
}

/// The output rows come in the order in which their triples first occur in
/// the input.
pub open spec fn agg_ordered(m: VoxelDataModel, a: VoxelDataModel) -> bool {
    forall|j1: int, j2: int, i1: int, i2: int|
        0 <= j1 < j2 < a.xs.len() && #[trigger] is_first_occurrence(m, cell_index_at(a, j1), i1)
            && #[trigger] is_first_occurrence(m, cell_index_at(a, j2), i2) ==> i1 < i2
}

/// `a` is the aggregation of `m` by index triple: one row per distinct
/// triple of `m`, in the order the triples first occur, a count column
/// holding each triple's multiplicity, and every payload column collected
/// into per-group lists in row order.
pub open spec fn aggregated_from(m: VoxelDataModel, a: VoxelDataModel) -> bool {
    &&& a.ys.len() == a.xs.len()
    &&& a.zs.len() == a.xs.len()
    &&& agg_distinct(a)
    &&& agg_covers(m, a)
    &&& agg_represented(m, a)
    &&& agg_ordered(m, a)
    &&& agg_counts(m, a)
    &&& agg_payload(m, a)
}

/// Position of `t` among the triples of three aligned columns, if present.
fn find_triple(xs: &Vec<i64>, ys: &Vec<i64>, zs: &Vec<i64>, t: CellIndex) -> (r: Option<usize>)
    requires
        ys@.len() == xs@.len(),
        zs@.len() == xs@.len(),
    ensures
        match r {
            Some(j) => j < xs@.len() && triple_at(xs@, ys@, zs@, j as int) == t,
            None => forall|j: int| 0 <= j < xs@.len() ==> triple_at(xs@, ys@, zs@, j) != t,
        },
{
    let mut j: usize = 0;
    while j < xs.len()
        invariant
            ys@.len() == xs@.len(),
            zs@.len() == xs@.len(),
            j <= xs@.len(),
            forall|k: int| 0 <= k < j as int ==> triple_at(xs@, ys@, zs@, k) != t,
        decreases xs@.len() - j,
    {
        if xs[j] == t.x && ys[j] == t.y && zs[j] == t.z {
            return Some(j);
        }
        j += 1;
    }
    None
}

/// Number of rows of the table holding the triple `t`.
fn count_occurrences(data: &VoxelData, t: CellIndex) -> (r: i64)
    requires
        data@.wf(),
        data@.row_count() <= i64::MAX,
    ensures
        r == matches_count(data@, t, data@.row_count() as int),
        r >= 0,
{
    let n = data.x.len();
    let mut cnt: i64 = 0;
    let mut i: usize = 0;
    while i < n
        invariant
            data@.wf(),
            n == data@.row_count(),
            n <= i64::MAX,
            i <= n,
            0 <= cnt <= i,
            cnt == matches_count(data@, t, i as int),
        decreases n - i,
    {
        if data.x[i] == t.x && data.y[i] == t.y && data.z[i] == t.z {
            cnt = cnt + 1;
        }
        i += 1;
    }
    cnt
}

/// The values of `vals` on the rows of the table holding the triple `t`.
fn gather_matching(data: &VoxelData, vals: &Vec<i64>, t: CellIndex) -> (r: Vec<i64>)
    requires
        data@.wf(),
        vals@.len() == data@.row_count(),
    ensures
        r@ == gathered(vals@, data@, t, data@.row_count() as int),
{
    let n = data.x.len();
    let mut out: Vec<i64> = Vec::new();
    let mut i: usize = 0;
    while i < n
        invariant
            data@.wf(),
            n == data@.row_count(),
            vals@.len() == n,
            i <= n,
            out@ == gathered(vals@, data@, t, i as int),
        decreases n - i,
    {
        if data.x[i] == t.x && data.y[i] == t.y && data.z[i] == t.z {
            out.push(vals[i]);
        }
        i += 1;
    }
    out
}

/// Groups the rows by their `(x, y, z)` index triple: the result holds one
/// row per distinct triple, a `count` column equal to the number of rows
/// merged into each group (any previous count column is replaced, not
/// summed), and every payload column's values collected as a per-group
/// list. Fails when a payload column is already list-valued, since
/// collecting lists would nest them.
#[verifier::rlimit(100)]
pub fn aggregate_by_index(voxel_grid: &VoxelGrid) -> (r: Result<VoxelGrid, Error>)
    requires
        voxel_grid.wf(),
        voxel_grid.voxel_data@.row_count() <= i64::MAX,
    ensures
        voxel_grid.voxel_data@.has_list_column() <==> r == Err::<VoxelGrid, Error>(
            Error::NestedListUnsupported,
        ),
        !voxel_grid.voxel_data@.has_list_column() ==> (r matches Ok(g) && {
            &&& aggregated_from(voxel_grid.voxel_data@, g.voxel_data@)
            &&& g.info == voxel_grid.info
            &&& g.reference_frames == voxel_grid.reference_frames
            &&& g.wf()
        }),
{
    let data = &voxel_grid.voxel_data;
    let ghost m = voxel_grid.voxel_data@;

    let mut p: usize = 0;
    while p < data.payload.len()
        invariant
            m == voxel_grid.voxel_data@,
            data@ == m,
            m.payload.len() == data.payload@.len(),
            p <= m.payload.len(),
            forall|k: int| 0 <= k < p as int ==> !((#[trigger] m.payload[k]).values is List),
        decreases data.payload@.len() - p,
    {
        proof {
            assert(m.payload[p as int] == data.payload@[p as int]@);
        }
        match &data.payload[p].values {
            ColumnValues::List(_) => {
                proof {
                    assert(m.has_list_column());
                }
                return Err(Error::NestedListUnsupported);
            },
            ColumnValues::Scalar(_) => {},
        }
        p += 1;
    }
    proof {
        assert(!m.has_list_column());
    }

    let n = data.x.len();
    let mut gx: Vec<i64> = Vec::new();
    let mut gy: Vec<i64> = Vec::new();
    let mut gz: Vec<i64> = Vec::new();
    // ghost witnesses: for each group its first row, for each row its group
    let ghost mut firsts: Seq<int> = Seq::empty();
    let ghost mut reps: Seq<int> = Seq::empty();
    let mut i: usize = 0;
    while i < n
        invariant
            voxel_grid.wf(),
            m == voxel_grid.voxel_data@,
            data@ == m,
            n == m.row_count(),
            i <= n,
            gy@.len() == gx@.len(),
            gz@.len() == gx@.len(),
            forall|j1: int, j2: int|
                0 <= j1 < j2 < gx@.len() ==> triple_at(gx@, gy@, gz@, j1) != triple_at(
                    gx@,
                    gy@,
                    gz@,
                    j2,
                ),
            firsts.len() == gx@.len(),
            forall|k: int|
                0 <= k < firsts.len() ==> 0 <= #[trigger] firsts[k] < i as int && cell_index_at(
                    m,
                    firsts[k],
                ) == triple_at(gx@, gy@, gz@, k) && !occurs_before(
                    m,
                    triple_at(gx@, gy@, gz@, k),
                    firsts[k],
                ),
            forall|k1: int, k2: int|
                0 <= k1 < k2 < firsts.len() ==> #[trigger] firsts[k1] < #[trigger] firsts[k2],
            reps.len() == i as int,
            forall|i0: int|
                0 <= i0 < i as int ==> 0 <= #[trigger] reps[i0] < gx@.len() && triple_at(
                    gx@,
                    gy@,
                    gz@,
                    reps[i0],
                ) == cell_index_at(m, i0),
        decreases n - i,
    {
        let t = CellIndex { x: data.x[i], y: data.y[i], z: data.z[i] };
        proof {
            assert(t == cell_index_at(m, i as int));
        }
        let ghost oldx = gx@;
        let ghost oldy = gy@;
        let ghost oldz = gz@;
        match find_triple(&gx, &gy, &gz, t) {
            Some(u) => {
                proof {
                    reps = reps.push(u as int);
                }
            },
            None => {
                gx.push(t.x);
                gy.push(t.y);
                gz.push(t.z);
                proof {
                    let glen = gx@.len() as int;
                    assert forall|j: int| 0 <= j < glen - 1 implies triple_at(gx@, gy@, gz@, j)
                        == triple_at(oldx, oldy, oldz, j) by {
                        assert(gx@[j] == oldx[j] && gy@[j] == oldy[j] && gz@[j] == oldz[j]);
                    }
                    assert(triple_at(gx@, gy@, gz@, glen - 1) == t);
                    assert forall|j1: int, j2: int| 0 <= j1 < j2 < glen implies triple_at(
                        gx@,
                        gy@,
                        gz@,
                        j1,
                    ) != triple_at(gx@, gy@, gz@, j2) by {
                        assert(triple_at(gx@, gy@, gz@, j1) == triple_at(oldx, oldy, oldz, j1));
                        if j2 == glen - 1 {
                            assert(triple_at(oldx, oldy, oldz, j1) != t);
                        } else {
                            assert(triple_at(gx@, gy@, gz@, j2) == triple_at(oldx, oldy, oldz, j2));
                            assert(triple_at(oldx, oldy, oldz, j1) != triple_at(
                                oldx,
                                oldy,
                                oldz,
                                j2,
                            ));
                        }
                    }
                    assert forall|i0: int| 0 <= i0 < i as int implies cell_index_at(m, i0)
                        != t by {
                        assert(triple_at(oldx, oldy, oldz, reps[i0]) == cell_index_at(m, i0));
                        assert(triple_at(oldx, oldy, oldz, reps[i0]) != t);
                    }
                    assert(!occurs_before(m, t, i as int)) by {
                        if occurs_before(m, t, i as int) {
                            let w = choose|i0: int|
                                0 <= i0 < i as int && #[trigger] cell_index_at(m, i0) == t;
                            assert(cell_index_at(m, w) != t);
                        }
                    }
                    firsts = firsts.push(i as int);
                    reps = reps.push(glen - 1);
                }
            },
        }
        i += 1;
    }

    let mut gc: Vec<i64> = Vec::new();
    let mut j: usize = 0;
    while j < gx.len()
        invariant
            voxel_grid.wf(),
            m == voxel_grid.voxel_data@,
            data@ == m,
            n == m.row_count(),
            n <= i64::MAX,
            gy@.len() == gx@.len(),
            gz@.len() == gx@.len(),
            firsts.len() == gx@.len(),
            forall|k: int|
                0 <= k < firsts.len() ==> 0 <= #[trigger] firsts[k] < n as int && cell_index_at(
                    m,
                    firsts[k],
                ) == triple_at(gx@, gy@, gz@, k),
            j <= gx@.len(),
            gc@.len() == j,
            forall|k: int|
                0 <= k < j as int ==> #[trigger] gc@[k] == matches_count(
                    m,
                    triple_at(gx@, gy@, gz@, k),
                    n as int,
                ) && gc@[k] >= 1,
        decreases gx@.len() - j,
    {
        let t = CellIndex { x: gx[j], y: gy[j], z: gz[j] };
        let c = count_occurrences(data, t);
        proof {
            lemma_matches_count_at(m, t, firsts[j as int], n as int);
        }
        gc.push(c);
        j += 1;
    }

    let mut pay2: Vec<PayloadColumn> = Vec::new();
    let mut p2: usize = 0;
    while p2 < data.payload.len()
        invariant
            voxel_grid.wf(),
            m == voxel_grid.voxel_data@,
            data@ == m,
            n == m.row_count(),
            m.payload.len() == data.payload@.len(),
            forall|k: int| 0 <= k < m.payload.len() ==> !((#[trigger] m.payload[k]).values is List),
            gy@.len() == gx@.len(),
            gz@.len() == gx@.len(),
            p2 <= m.payload.len(),
            pay2@.len() == p2,
            forall|k: int|
                0 <= k < p2 as int ==> (#[trigger] pay2@[k])@.name == m.payload[k].name,
            forall|k: int|
                0 <= k < p2 as int ==> match (#[trigger] pay2@[k])@.values {
                    ColumnModel::List(ls) => ls.len() == gx@.len() && forall|q: int|
                        0 <= q < ls.len() ==> ls[q] == gathered(
                            scalar_values(m.payload[k]),
                            m,
                            triple_at(gx@, gy@, gz@, q),
                            n as int,
                        ),
                    ColumnModel::Scalar(_) => false,
                },
        decreases data.payload@.len() - p2,
    {
        proof {
            assert(m.payload[p2 as int] == data.payload@[p2 as int]@);
            assert(m.payload[p2 as int].values.col_len() == m.row_count());
        }
        match &data.payload[p2].values {
            ColumnValues::Scalar(vals) => {
                let mut lists: Vec<Vec<i64>> = Vec::new();
                let mut q: usize = 0;
                while q < gx.len()
                    invariant
                        voxel_grid.wf(),
                        m == voxel_grid.voxel_data@,
                        data@ == m,
                        n == m.row_count(),
                        gy@.len() == gx@.len(),
                        gz@.len() == gx@.len(),
                        p2 < m.payload.len(),
                        vals@.len() == n,
                        m.payload[p2 as int].values == ColumnModel::Scalar(vals@),
                        q <= gx@.len(),
                        lists@.len() == q,
                        forall|k: int|
                            0 <= k < q as int ==> (#[trigger] lists@[k])@ == gathered(
                                vals@,
                                m,
                                triple_at(gx@, gy@, gz@, k),
                                n as int,
                            ),
                    decreases gx@.len() - q,
                {
                    let t = CellIndex { x: gx[q], y: gy[q], z: gz[q] };
                    let lst = gather_matching(data, vals, t);
                    lists.push(lst);
                    q += 1;
                }
                let col = PayloadColumn {
                    name: data.payload[p2].name.clone(),
                    values: ColumnValues::List(lists),
                };
                proof {
                    assert(col@.name == m.payload[p2 as int].name);
                    assert(scalar_values(m.payload[p2 as int]) == vals@);
                    assert(col@.values matches ColumnModel::List(ls) && ls.len() == gx@.len());
                }
                pay2.push(col);
            },
            ColumnValues::List(_) => {
                proof {
                    assert(false);
                }
            },
        }
        p2 += 1;
    }

    let ghost a = crate::voxel_data::VoxelDataModel {
        xs: gx@,
        ys: gy@,
        zs: gz@,
        count: Some(gc@),
        payload: pay2@.map_values(|c: PayloadColumn| c@),
    };
    proof {
        assert forall|jj: int| 0 <= jj < a.xs.len() implies cell_index_at(a, jj) == triple_at(
            gx@,
            gy@,
            gz@,
            jj,
        ) by {}
        assert forall|k: int| 0 <= k < a.payload.len() implies (#[trigger] a.payload[k]).values
            .col_len() == a.xs.len() by {
            assert(a.payload[k] == pay2@[k]@);
        }
        assert(a.wf());
        assert(agg_distinct(a)) by {
            assert forall|j1: int, j2: int| 0 <= j1 < j2 < a.xs.len() implies cell_index_at(a, j1)
                != cell_index_at(a, j2) by {
                assert(cell_index_at(a, j1) == triple_at(gx@, gy@, gz@, j1));
                assert(cell_index_at(a, j2) == triple_at(gx@, gy@, gz@, j2));
                assert(triple_at(gx@, gy@, gz@, j1) != triple_at(gx@, gy@, gz@, j2));
            }
        }
        assert(agg_covers(m, a)) by {
            assert forall|i0: int| 0 <= i0 < m.row_count() as int implies #[trigger] covered_row(
                m,
                a,
                i0,
            ) by {
                let w = reps[i0];
                assert(0 <= w < gx@.len() && triple_at(gx@, gy@, gz@, w) == cell_index_at(m, i0));
                assert(0 <= w < a.xs.len() && cell_index_at(a, w) == cell_index_at(m, i0));
            }
        }
        assert(agg_represented(m, a)) by {
            assert forall|j2: int| 0 <= j2 < a.xs.len() implies #[trigger] represented_row(
                m,
                a,
                j2,
            ) by {
                let w = firsts[j2];
                assert(0 <= w < n as int && cell_index_at(m, w) == triple_at(gx@, gy@, gz@, j2));
                assert(0 <= w < m.row_count() as int && cell_index_at(m, w) == cell_index_at(
                    a,
                    j2,
                ));
            }
        }
        assert(agg_ordered(m, a)) by {
            assert forall|j1: int, j2: int, i1: int, i2: int|
                0 <= j1 < j2 < a.xs.len() && #[trigger] is_first_occurrence(
                    m,
                    cell_index_at(a, j1),
                    i1,
                ) && #[trigger] is_first_occurrence(m, cell_index_at(a, j2), i2) implies i1
                < i2 by {
                assert(cell_index_at(a, j1) == triple_at(gx@, gy@, gz@, j1));
                assert(cell_index_at(a, j2) == triple_at(gx@, gy@, gz@, j2));
                assert(is_first_occurrence(m, cell_index_at(a, j1), firsts[j1]));
                assert(is_first_occurrence(m, cell_index_at(a, j2), firsts[j2]));
                lemma_first_occurrence_unique(m, cell_index_at(a, j1), i1, firsts[j1]);
                lemma_first_occurrence_unique(m, cell_index_at(a, j2), i2, firsts[j2]);
                assert(firsts[j1] < firsts[j2]);
            }
        }
        assert(agg_counts(m, a)) by {
            assert(gc@.len() == gx@.len());
            assert forall|j2: int| 0 <= j2 < gc@.len() implies gc@[j2] == matches_count(
                m,
                cell_index_at(a, j2),
                m.row_count() as int,
            ) by {
                assert(gc@[j2] == matches_count(m, triple_at(gx@, gy@, gz@, j2), n as int));
            }
        }
        assert(agg_payload(m, a)) by {
            assert forall|p3: int| 0 <= p3 < a.payload.len() implies (
            #[trigger] a.payload[p3]).name == m.payload[p3].name by {
                assert(a.payload[p3] == pay2@[p3]@);
            }
            assert forall|p3: int| 0 <= p3 < a.payload.len() implies match (
            #[trigger] a.payload[p3]).values {
                ColumnModel::List(ls) => ls.len() == a.xs.len() && forall|j2: int|
                    0 <= j2 < ls.len() ==> ls[j2] == gathered(
                        scalar_values(m.payload[p3]),
                        m,
                        cell_index_at(a, j2),
                        m.row_count() as int,
                    ),
                ColumnModel::Scalar(_) => false,
            } by {
                assert(a.payload[p3] == pay2@[p3]@);
                match pay2@[p3]@.values {
                    ColumnModel::List(ls) => {
                        assert forall|j2: int| 0 <= j2 < ls.len() implies ls[j2] == gathered(
                            scalar_values(m.payload[p3]),
                            m,
                            cell_index_at(a, j2),
                            m.row_count() as int,
                        ) by {
                            assert(ls[j2] == gathered(
                                scalar_values(m.payload[p3]),
                                m,
                                triple_at(gx@, gy@, gz@, j2),
                                n as int,
                            ));
                            assert(cell_index_at(a, j2) == triple_at(gx@, gy@, gz@, j2));
                        }
                    },
                    ColumnModel::Scalar(_) => {
                        assert(false);
                    },
                }
            }
        }
        assert(aggregated_from(m, a));
    }
    let data2 = VoxelData { x: gx, y: gy, z: gz, count: Some(gc), payload: pay2 };
    proof {
        assert(data2@ =~~= a);
    }
    let info = clone_info(&voxel_grid.info);
    let frames = voxel_grid.reference_frames.clone();
    match VoxelGrid::new(data2, info, frames) {
        Ok(g) => Ok(g),
        Err(e) => {
            proof {
                assert(false);
            }
            Err(e)
        },
    }
}

} // verus!
