//! Explosion: unpacks every list-valued payload column, one output row per
//! list element, replicating the scalar columns of the source row. The
//! inverse-shaped companion of aggregation.

use vstd::prelude::*;

use crate::column_ops::copy_data;
use crate::error::Error;
use crate::filter::clone_info;
use crate::voxel_data::{ColumnModel, ColumnValues, PayloadColumn, VoxelData, VoxelDataModel};
use crate::voxel_grid::VoxelGrid;

verus! {

/// The lists of a list-valued column (empty for a scalar column).
pub open spec fn col_lists(c: ColumnModel) -> Seq<Seq<i64>> {
    match c {
        ColumnModel::List(v) => v,
        ColumnModel::Scalar(_) => Seq::empty(),
    }
}

/// The per-row list lengths of a list column.
pub open spec fn list_lens(v: Seq<Seq<i64>>) -> Seq<int> {
    v.map_values(|u: Seq<i64>| u.len() as int)
}

/// All list-valued columns of the table hold lists of the same length on
/// every row.
pub open spec fn lens_agree(m: VoxelDataModel) -> bool {
    forall|p1: int, p2: int|
        0 <= p1 < m.payload.len() && 0 <= p2 < m.payload.len()
            && (#[trigger] m.payload[p1]).values is List && (#[trigger] m.payload[p2]).values
            is List ==> list_lens(col_lists(m.payload[p1].values)) == list_lens(
            col_lists(m.payload[p2].values),
        )
}

/// A scalar column expanded row by row: row `i`'s value repeated `lens[i]`
/// times, in row order.
pub open spec fn rep_expand(vals: Seq<i64>, lens: Seq<int>) -> Seq<i64>
    recommends
        lens.len() == vals.len(),
        forall|i: int| 0 <= i < lens.len() ==> lens[i] >= 0,
    decreases vals.len(),
{
    if vals.len() == 0 {
        Seq::empty()
    } else {
        rep_expand(vals.drop_last(), lens.drop_last()) + Seq::new(
            lens.last() as nat,
            |k: int| vals.last(),
        )
    }
}

/// A list column flattened: all its lists, one after the other in row order.
pub open spec fn flat(v: Seq<Seq<i64>>) -> Seq<i64>
    decreases v.len(),
{
    if v.len() == 0 {
        Seq::empty()
    } else {
        flat(v.drop_last()) + v.last()
    }
}

/// Two equally long scalar columns expand to equally many rows.
pub proof fn lemma_rep_expand_len(a: Seq<i64>, b: Seq<i64>, lens: Seq<int>)
    requires
        a.len() == b.len(),
    ensures
        rep_expand(a, lens).len() == rep_expand(b, lens).len(),
    decreases a.len(),
{
    if a.len() > 0 {
        lemma_rep_expand_len(a.drop_last(), b.drop_last(), lens.drop_last());
    }
}

/// A flattened list column is as long as any scalar column expanded by its
/// list lengths.
pub proof fn lemma_flat_len(w: Seq<i64>, v: Seq<Seq<i64>>)
    requires
        w.len() == v.len(),
    ensures
        flat(v).len() == rep_expand(w, list_lens(v)).len(),
    decreases v.len(),
{
    if v.len() > 0 {
        lemma_flat_len(w.drop_last(), v.drop_last());
        assert(list_lens(v).drop_last() =~= list_lens(v.drop_last()));
        assert(list_lens(v).last() == v.last().len() as int);
    }
}

/// Expansion keeps every value it replicates, so a bound on the column's
/// values is a bound on the expanded column's values.
pub proof fn lemma_rep_expand_nonneg(vals: Seq<i64>, lens: Seq<int>)
    requires
        forall|i: int| 0 <= i < vals.len() ==> vals[i] >= 0,
    ensures
        forall|k: int| 0 <= k < rep_expand(vals, lens).len() ==> rep_expand(vals, lens)[k] >= 0,
    decreases vals.len(),
{
    if vals.len() > 0 {
        lemma_rep_expand_nonneg(vals.drop_last(), lens.drop_last());
        assert forall|k: int| 0 <= k < rep_expand(vals, lens).len() implies rep_expand(
            vals,
            lens,
        )[k] >= 0 by {
            let sub = rep_expand(vals.drop_last(), lens.drop_last());
            if k < sub.len() {
                assert(rep_expand(vals, lens)[k] == sub[k]);
            } else {
                assert(rep_expand(vals, lens)[k] == vals.last());
            }
        }
    }
}

/// `a` is `m` with its list columns unpacked by the common row lengths
/// `lens`: every scalar column (indices and count alike) is expanded by
/// `lens`, and every list column is flattened in row order.
pub open spec fn exploded_with(m: VoxelDataModel, a: VoxelDataModel, lens: Seq<int>) -> bool {
    &&& a.xs == rep_expand(m.xs, lens)
    &&& a.ys == rep_expand(m.ys, lens)
    &&& a.zs == rep_expand(m.zs, lens)
    &&& match (m.count, a.count) {
        (Some(c), Some(c2)) => c2 == rep_expand(c, lens),
        (None, None) => true,
        _ => false,
    }
    &&& a.payload.len() == m.payload.len()
    &&& forall|p: int|
        0 <= p < m.payload.len() ==> (#[trigger] a.payload[p]).name == m.payload[p].name
    &&& forall|p: int|
        0 <= p < m.payload.len() ==> match (#[trigger] m.payload[p]).values {
            ColumnModel::Scalar(v) => a.payload[p].values == ColumnModel::Scalar(
                rep_expand(v, lens),
            ),
            ColumnModel::List(v) => a.payload[p].values == ColumnModel::Scalar(flat(v)),
        }
}

/// A scalar column expanded by the per-row repeat counts `lens`.
fn expand_scalar(vals: &Vec<i64>, lens: &Vec<usize>) -> (r: Vec<i64>)
    requires
        lens@.len() == vals@.len(),
    ensures
        r@ == rep_expand(vals@, lens@.map_values(|u: usize| u as int)),
{
    let ghost lensi = lens@.map_values(|u: usize| u as int);
    let mut out: Vec<i64> = Vec::new();
    let mut i: usize = 0;
    while i < vals.len()
        invariant
            lens@.len() == vals@.len(),
            lensi == lens@.map_values(|u: usize| u as int),
            i <= vals@.len(),
            out@ == rep_expand(vals@.take(i as int), lensi.take(i as int)),
        decreases vals@.len() - i,
    {
        let ghost out0 = out@;
        let mut k: usize = 0;
        while k < lens[i]
            invariant
                lens@.len() == vals@.len(),
                i < vals@.len(),
                k <= lens@[i as int],
                out@ == out0 + Seq::new(k as nat, |q: int| vals@[i as int]),
            decreases lens@[i as int] - k,
        {
            out.push(vals[i]);
            proof {
                assert(out@ =~= out0 + Seq::new(k as nat + 1, |q: int| vals@[i as int]));
            }
            k += 1;
        }
        proof {
            assert(vals@.take(i as int + 1).drop_last() =~= vals@.take(i as int));
            assert(lensi.take(i as int + 1).drop_last() =~= lensi.take(i as int));
            assert(vals@.take(i as int + 1).last() == vals@[i as int]);
            assert(lensi.take(i as int + 1).last() == lens@[i as int] as int);
            assert(out@ =~= rep_expand(vals@.take(i as int + 1), lensi.take(i as int + 1)));
        }
        i += 1;
    }
    proof {
        assert(vals@.take(vals@.len() as int) =~= vals@);
        assert(lensi.take(vals@.len() as int) =~= lensi);
    }
    out
}

/// A list column flattened into one scalar column.
fn flatten_lists(v: &Vec<Vec<i64>>) -> (r: Vec<i64>)
    ensures
        r@ == flat(v@.map_values(|u: Vec<i64>| u@)),
{
    let ghost vv = v@.map_values(|u: Vec<i64>| u@);
    let mut out: Vec<i64> = Vec::new();
    let mut i: usize = 0;
    while i < v.len()
        invariant
            vv == v@.map_values(|u: Vec<i64>| u@),
            i <= v@.len(),
            out@ == flat(vv.take(i as int)),
        decreases v@.len() - i,
    {
        let ghost out0 = out@;
        let row = &v[i];
        let mut k: usize = 0;
        while k < row.len()
            invariant
                i < v@.len(),
                row@ == v@[i as int]@,
                k <= row@.len(),
                out@ == out0 + row@.take(k as int),
            decreases row@.len() - k,
        {
            out.push(row[k]);
            proof {
                assert(out@ =~= out0 + row@.take(k as int + 1));
            }
            k += 1;
        }
        proof {
            assert(vv.take(i as int + 1).drop_last() =~= vv.take(i as int));
            assert(vv.take(i as int + 1).last() == vv[i as int]);
            assert(row@.take(row@.len() as int) =~= row@);
            assert(row@ == vv[i as int]);
            assert(out@ =~= flat(vv.take(i as int + 1)));
        }
        i += 1;
    }
    proof {
        assert(vv.take(v@.len() as int) =~= vv);
    }
    out
}

/// Unpacks every list-valued payload column: each list element becomes its
/// own row, with all scalar columns of the source row replicated alongside,
/// in row order. A grid without list columns is returned unchanged. Fails
/// when two list columns disagree on a row's list length.
pub fn explode(voxel_grid: &VoxelGrid) -> (r: Result<VoxelGrid, Error>)
    requires
        voxel_grid.wf(),
    ensures
        !voxel_grid.voxel_data@.has_list_column() ==> (r matches Ok(g) && {
            &&& g.voxel_data@ == voxel_grid.voxel_data@
            &&& g.info == voxel_grid.info
            &&& g.reference_frames == voxel_grid.reference_frames
            &&& g.wf()
        }),
        voxel_grid.voxel_data@.has_list_column() && !lens_agree(voxel_grid.voxel_data@) ==> r
            == Err::<VoxelGrid, Error>(Error::ListLengthMismatch),
        voxel_grid.voxel_data@.has_list_column() && lens_agree(voxel_grid.voxel_data@) ==> (
        r matches Ok(g) && {
            &&& forall|p: int|
                0 <= p < voxel_grid.voxel_data@.payload.len() && (
                #[trigger] voxel_grid.voxel_data@.payload[p]).values is List ==> exploded_with(
                    voxel_grid.voxel_data@,
                    g.voxel_data@,
                    list_lens(col_lists(voxel_grid.voxel_data@.payload[p].values)),
                )
            &&& g.info == voxel_grid.info
            &&& g.reference_frames == voxel_grid.reference_frames
            &&& g.wf()
        }),
{
    let data = &voxel_grid.voxel_data;
    let ghost m = voxel_grid.voxel_data@;
    let n = data.x.len();

    // find the first list-valued column and take the row lengths from it
    let mut first_list: Option<usize> = None;
    let mut p: usize = 0;
    while p < data.payload.len()
        invariant
            m == voxel_grid.voxel_data@,
            data@ == m,
            m.payload.len() == data.payload@.len(),
            p <= m.payload.len(),
            match first_list {
                Some(q) => q < p && m.payload[q as int].values is List,
                None => forall|k: int|
                    0 <= k < p as int ==> !((#[trigger] m.payload[k]).values is List),
            },
        decreases data.payload@.len() - p,
    {
        proof {
            assert(m.payload[p as int] == data.payload@[p as int]@);
        }
        if first_list.is_none() {
            match &data.payload[p].values {
                ColumnValues::List(_) => {
                    first_list = Some(p);
                },
                ColumnValues::Scalar(_) => {},
            }
        }
        p += 1;
    }

    let pl = match first_list {
        None => {
            proof {
                assert(!m.has_list_column());
            }
            let copied = copy_data(data);
            let info = clone_info(&voxel_grid.info);
            let frames = voxel_grid.reference_frames.clone();
            return match VoxelGrid::new(copied, info, frames) {
                Ok(g) => Ok(g),
                Err(e) => {
                    proof {
                        assert(false);
                    }
                    Err(e)
                },
            };
        },
        Some(pl) => pl,
    };
    proof {
        assert(m.has_list_column());
    }

    // the common row lengths, taken from the first list column
    let ghost lens = list_lens(col_lists(m.payload[pl as int].values));
    let mut row_lens: Vec<usize> = Vec::new();
    match &data.payload[pl].values {
        ColumnValues::List(v) => {
            proof {
                assert(m.payload[pl as int] == data.payload@[pl as int]@);
                assert(col_lists(m.payload[pl as int].values) == v@.map_values(
                    |u: Vec<i64>| u@,
                ));
            }
            let mut i: usize = 0;
            while i < v.len()
                invariant
                    lens == list_lens(v@.map_values(|u: Vec<i64>| u@)),
                    i <= v@.len(),
                    row_lens@.len() == i,
                    forall|k: int| 0 <= k < i as int ==> row_lens@[k] as int == lens[k],
                decreases v@.len() - i,
            {
                row_lens.push(v[i].len());
                i += 1;
            }
        },
        ColumnValues::Scalar(_) => {
            proof {
                assert(false);
            }
        },
    }
    proof {
        assert(lens.len() == m.payload[pl as int].values.col_len());
        assert(m.payload[pl as int].values.col_len() == n as nat);
        assert(row_lens@.map_values(|u: usize| u as int) =~= lens);
    }

    // every other list column must agree with those lengths, row by row
    let mut p2: usize = 0;
    while p2 < data.payload.len()
        invariant
            voxel_grid.wf(),
            m == voxel_grid.voxel_data@,
            data@ == m,
            pl < m.payload.len(),
            m.payload[pl as int].values is List,
            m.payload.len() == data.payload@.len(),
            n == m.row_count(),
            row_lens@.len() == n,
            row_lens@.map_values(|u: usize| u as int) == lens,
            lens == list_lens(col_lists(m.payload[pl as int].values)),
            p2 <= m.payload.len(),
            forall|k: int|
                0 <= k < p2 as int && (#[trigger] m.payload[k]).values is List ==> list_lens(
                    col_lists(m.payload[k].values),
                ) == lens,
        decreases data.payload@.len() - p2,
    {
        proof {
            assert(m.payload[p2 as int] == data.payload@[p2 as int]@);
            assert(m.payload[p2 as int].values.col_len() == n as nat);
        }
        match &data.payload[p2].values {
            ColumnValues::List(v) => {
                let ghost vv = v@.map_values(|u: Vec<i64>| u@);
                let mut i: usize = 0;
                while i < v.len()
                    invariant
                        m == voxel_grid.voxel_data@,
                        vv == v@.map_values(|u: Vec<i64>| u@),
                        vv.len() == v@.len(),
                        v@.len() == n,
                        row_lens@.len() == n,
                        row_lens@.map_values(|u: usize| u as int) == lens,
                        p2 < m.payload.len(),
                        m.payload[p2 as int].values == ColumnModel::List(vv),
                        lens == list_lens(col_lists(m.payload[pl as int].values)),
                        pl < m.payload.len(),
                        m.payload[pl as int].values is List,
                        i <= n,
                        forall|k: int| 0 <= k < i as int ==> (#[trigger] vv[k]).len() as int
                            == lens[k],
                    decreases v@.len() - i,
                {
                    if v[i].len() != row_lens[i] {
                        proof {
                            assert(vv[i as int].len() as int != lens[i as int]);
                            assert(list_lens(col_lists(m.payload[p2 as int].values))[i as int]
                                == vv[i as int].len() as int);
                            assert(list_lens(col_lists(m.payload[p2 as int].values)) != lens);
                            assert(!lens_agree(m));
                        }
                        return Err(Error::ListLengthMismatch);
                    }
                    i += 1;
                }
                proof {
                    assert(list_lens(col_lists(m.payload[p2 as int].values)) =~= lens);
                }
            },
            ColumnValues::Scalar(_) => {},
        }
        p2 += 1;
    }
    proof {
        assert forall|p1: int, p3: int|
            0 <= p1 < m.payload.len() && 0 <= p3 < m.payload.len() && (
            #[trigger] m.payload[p1]).values is List && (#[trigger] m.payload[p3]).values
            is List implies list_lens(col_lists(m.payload[p1].values)) == list_lens(
            col_lists(m.payload[p3].values),
        ) by {
            assert(list_lens(col_lists(m.payload[p1].values)) == lens);
            assert(list_lens(col_lists(m.payload[p3].values)) == lens);
        }
        assert(lens_agree(m));
    }

    // build the exploded table
    let x2 = expand_scalar(&data.x, &row_lens);
    let y2 = expand_scalar(&data.y, &row_lens);
    let z2 = expand_scalar(&data.z, &row_lens);
    let count2 = match &data.count {
        Some(c) => Some(expand_scalar(c, &row_lens)),
        None => None,
    };
    let mut pay2: Vec<PayloadColumn> = Vec::new();
    let mut p3: usize = 0;
    while p3 < data.payload.len()
        invariant
            voxel_grid.wf(),
            m == voxel_grid.voxel_data@,
            data@ == m,
            m.payload.len() == data.payload@.len(),
            n == m.row_count(),
            row_lens@.len() == n,
            row_lens@.map_values(|u: usize| u as int) == lens,
            p3 <= m.payload.len(),
            pay2@.len() == p3,
            forall|k: int|
                0 <= k < p3 as int ==> (#[trigger] pay2@[k])@.name == m.payload[k].name,
            forall|k: int|
                0 <= k < p3 as int ==> match m.payload[k].values {
                    ColumnModel::Scalar(v) => (#[trigger] pay2@[k])@.values == ColumnModel::Scalar(
                        rep_expand(v, lens),
                    ),
                    ColumnModel::List(v) => pay2@[k]@.values == ColumnModel::Scalar(flat(v)),
                },
        decreases data.payload@.len() - p3,
    {
        proof {
            assert(m.payload[p3 as int] == data.payload@[p3 as int]@);
            assert(m.payload[p3 as int].values.col_len() == n as nat);
        }
        let values = match &data.payload[p3].values {
            ColumnValues::Scalar(v) => ColumnValues::Scalar(expand_scalar(v, &row_lens)),
            ColumnValues::List(v) => ColumnValues::Scalar(flatten_lists(v)),
        };
        let col = PayloadColumn { name: data.payload[p3].name.clone(), values };
        pay2.push(col);
        p3 += 1;
    }

    let data2 = VoxelData { x: x2, y: y2, z: z2, count: count2, payload: pay2 };
    proof {
        let a = data2@;
        lemma_rep_expand_len(m.xs, m.ys, lens);
        lemma_rep_expand_len(m.xs, m.zs, lens);
        match m.count {
            Some(c) => {
                lemma_rep_expand_len(m.xs, c, lens);
                lemma_rep_expand_nonneg(c, lens);
            },
            None => {},
        }
        assert forall|k: int| 0 <= k < a.payload.len() implies (#[trigger] a.payload[k]).values
            .col_len() == a.xs.len() by {
            assert(a.payload[k] == pay2@[k]@);
            match m.payload[k].values {
                ColumnModel::Scalar(v) => {
                    lemma_rep_expand_len(m.xs, v, lens);
                },
                ColumnModel::List(v) => {
                    assert(list_lens(col_lists(m.payload[k].values)) == lens);
                    lemma_flat_len(m.xs, v);
                },
            }
        }
        assert(a.wf());
        assert forall|k: int| 0 <= k < a.payload.len() implies (#[trigger] a.payload[k]).name
            == m.payload[k].name by {
            assert(a.payload[k] == pay2@[k]@);
        }
        assert forall|k: int| 0 <= k < m.payload.len() implies match (
        #[trigger] m.payload[k]).values {
            ColumnModel::Scalar(v) => a.payload[k].values == ColumnModel::Scalar(
                rep_expand(v, lens),
            ),
            ColumnModel::List(v) => a.payload[k].values == ColumnModel::Scalar(flat(v)),
        } by {
            assert(a.payload[k] == pay2@[k]@);
        }
        assert forall|p4: int|
            0 <= p4 < m.payload.len() && (#[trigger] m.payload[p4]).values is List implies
        exploded_with(m, a, list_lens(col_lists(m.payload[p4].values))) by {
            assert(list_lens(col_lists(m.payload[p4].values)) == lens);
        }
    }
    let info = clone_info(&voxel_grid.info);
    let frames = voxel_grid.reference_frames.clone();
    match VoxelGrid::new(data2, info, frames) {
        Ok(g) => Ok(g),
        Err(e) => {
            proof {
                assert(false);
            }
            Err(e)
        },
    }
}

} // verus!
