//! Row-retaining transform operators: filtering by density (count) and by an
//! inclusive axis-aligned bounding box. Each returns a brand-new grid and
//! leaves the input untouched.

use vstd::prelude::*;

use crate::column_ops::{
    lemma_selected_all_true, lemma_selected_element, lemma_selected_len, select_by_mask_i64,
    select_by_mask_list, selected,
};
use crate::error::Error;
use crate::voxel_data::{ColumnModel, ColumnValues, PayloadColumn, PayloadColumnModel, VoxelData,
    VoxelDataModel};
use crate::voxel_grid::{CellIndex, VoxelGrid, VoxelGridInfo};

verus! {

/// One payload column after rows have been dropped by a mask.
pub open spec fn filtered_column(c: PayloadColumnModel, keep: Seq<bool>) -> PayloadColumnModel {
    PayloadColumnModel {
        name: c.name,
        values: match c.values {
            ColumnModel::Scalar(v) => ColumnModel::Scalar(selected(v, keep)),
            ColumnModel::List(v) => ColumnModel::List(selected(v, keep)),
        },
    }
}

/// The whole table after rows have been dropped by a mask: every column is
/// thinned by the same mask, so rows stay aligned.
pub open spec fn filtered_data(m: VoxelDataModel, keep: Seq<bool>) -> VoxelDataModel {
    VoxelDataModel {
        xs: selected(m.xs, keep),
        ys: selected(m.ys, keep),
        zs: selected(m.zs, keep),
        count: match m.count {
            Some(c) => Some(selected(c, keep)),
            None => None,
        },
        payload: m.payload.map_values(|c: PayloadColumnModel| filtered_column(c, keep)),
    }
}

/// Dropping rows by one shared mask preserves the table integrity.
pub proof fn lemma_filtered_wf(m: VoxelDataModel, keep: Seq<bool>)
    requires
        m.wf(),
        keep.len() == m.row_count(),
    ensures
        filtered_data(m, keep).wf(),
{
    let fm = filtered_data(m, keep);
    lemma_selected_len(m.xs, m.ys, keep);
    lemma_selected_len(m.xs, m.zs, keep);
    match m.count {
        Some(c) => {
            lemma_selected_len(m.xs, c, keep);
            lemma_selected_element(c, keep);
            assert forall|i: int| 0 <= i < selected(c, keep).len() implies selected(c, keep)[i]
                >= 0 by {
                let w = choose|w: int| 0 <= w < c.len() && keep[w] && c[w] == selected(c, keep)[i];
            }
        },
        None => {},
    }
    assert forall|j: int| 0 <= j < fm.payload.len() implies (#[trigger] fm.payload[j]).values
        .col_len() == fm.xs.len() by {
        assert(fm.payload[j] == filtered_column(m.payload[j], keep));
        assert(m.payload[j].values.col_len() == m.xs.len());
        match m.payload[j].values {
            ColumnModel::Scalar(v) => lemma_selected_len(m.xs, v, keep),
            ColumnModel::List(v) => lemma_selected_len(m.xs, v, keep),
        }
    }
}

/// Thins every column of the table by the same mask.
fn filter_data_by_mask(data: &VoxelData, mask: &Vec<bool>) -> (r: VoxelData)
    requires
        data@.wf(),
        mask@.len() == data@.row_count(),
    ensures
        r@ == filtered_data(data@, mask@),
        r@.wf(),
{
    let x2 = select_by_mask_i64(&data.x, mask);
    proof {
        assert(data@.ys.len() == mask@.len() && data@.zs.len() == mask@.len());
    }
    let y2 = select_by_mask_i64(&data.y, mask);
    let z2 = select_by_mask_i64(&data.z, mask);
    let count2 = match &data.count {
        Some(c) => Some(select_by_mask_i64(c, mask)),
        None => None,
    };
    let mut payload2: Vec<PayloadColumn> = Vec::new();
    let mut j: usize = 0;
    while j < data.payload.len()
        invariant
            data@.wf(),
            mask@.len() == data@.row_count(),
            j <= data@.payload.len(),
            data@.payload.len() == data.payload@.len(),
            payload2@.len() == j,
            forall|k: int|
                0 <= k < j as int ==> (#[trigger] payload2@[k])@ == filtered_column(
                    data@.payload[k],
                    mask@,
                ),
        decreases data.payload@.len() - j,
    {
        proof {
            assert(data@.payload[j as int] == data.payload@[j as int]@);
            assert(data@.payload[j as int].values.col_len() == data@.xs.len());
        }
        let values = match &data.payload[j].values {
            ColumnValues::Scalar(v) => ColumnValues::Scalar(select_by_mask_i64(v, mask)),
            ColumnValues::List(v) => ColumnValues::List(select_by_mask_list(v, mask)),
        };
        let col = PayloadColumn { name: data.payload[j].name.clone(), values };
        proof {
            assert(col@ =~~= filtered_column(data@.payload[j as int], mask@));
        }
        payload2.push(col);
        j += 1;
    }
    let r = VoxelData { x: x2, y: y2, z: z2, count: count2, payload: payload2 };
    proof {
        let fm = filtered_data(data@, mask@);
        assert forall|k: int| 0 <= k < r@.payload.len() implies r@.payload[k] == fm.payload[k] by {
            assert(r@.payload[k] == payload2@[k]@);
            assert(fm.payload[k] == filtered_column(data@.payload[k], mask@));
        }
        assert(r@.payload =~= fm.payload);
        assert(r@ =~~= fm);
        lemma_filtered_wf(data@, mask@);
    }
    r
}

/// The mask of rows whose count is at least `minimum`.
pub open spec fn count_keep_mask(c: Seq<i64>, minimum: int) -> Seq<bool> {
    Seq::new(c.len(), |i: int| c[i] >= minimum)
}

fn count_mask(c: &Vec<i64>, minimum: usize) -> (r: Vec<bool>)
    requires
        forall|i: int| 0 <= i < c@.len() ==> c@[i] >= 0,
    ensures
        r@ == count_keep_mask(c@, minimum as int),
{
    let mut out: Vec<bool> = Vec::new();
    let mut i: usize = 0;
    while i < c.len()
        invariant
            forall|k: int| 0 <= k < c@.len() ==> c@[k] >= 0,
            i <= c@.len(),
            out@.len() == i,
            forall|k: int| 0 <= k < i as int ==> out@[k] == (c@[k] >= minimum as int),
        decreases c@.len() - i,
    {
        let keep = (c[i] as u128) >= (minimum as u128);
        out.push(keep);
        i += 1;
    }
    proof {
        assert(out@ =~= count_keep_mask(c@, minimum as int));
    }
    out
}

/// Retains the rows whose `count` is at least `minimum`; every other column
/// is thinned by the same row mask. Fails when the grid has no count
/// column. A `minimum` of zero keeps every row.
pub fn filter_by_count(voxel_grid: &VoxelGrid, minimum: usize) -> (r: Result<VoxelGrid, Error>)
    requires
        voxel_grid.wf(),
    ensures
        voxel_grid.voxel_data@.count is None <==> r == Err::<VoxelGrid, Error>(
            Error::MissingCountColumn,
        ),
        voxel_grid.voxel_data@.count matches Some(c) ==> (r matches Ok(g) && {
            &&& g.voxel_data@ == filtered_data(
                voxel_grid.voxel_data@,
                count_keep_mask(c, minimum as int),
            )
            &&& g.info == voxel_grid.info
            &&& g.reference_frames == voxel_grid.reference_frames
            &&& g.wf()
        }),
{
    match &voxel_grid.voxel_data.count {
        None => Err(Error::MissingCountColumn),
        Some(c) => {
            let mask = count_mask(c, minimum);
            let data = filter_data_by_mask(&voxel_grid.voxel_data, &mask);
            let info = clone_info(&voxel_grid.info);
            let frames = voxel_grid.reference_frames.clone();
            match VoxelGrid::new(data, info, frames) {
                Ok(g) => Ok(g),
                Err(e) => {
                    proof {
                        assert(false);
                    }
                    Err(e)
                },
            }
        },
    }
}

/// Law: filtering by a minimum count of zero is the identity on the table,
/// because every count value of a well-formed grid is non-negative.
pub proof fn lemma_filter_by_count_zero_identity(m: VoxelDataModel, c: Seq<i64>)
    requires
        m.wf(),
        m.count == Some(c),
    ensures
        filtered_data(m, count_keep_mask(c, 0)) == m,
{
    let keep = count_keep_mask(c, 0);
    let fm = filtered_data(m, keep);
    lemma_selected_all_true(m.xs, keep);
    lemma_selected_all_true(m.ys, keep);
    lemma_selected_all_true(m.zs, keep);
    lemma_selected_all_true(c, keep);
    assert forall|j: int| 0 <= j < fm.payload.len() implies fm.payload[j] == m.payload[j] by {
        assert(fm.payload[j] == filtered_column(m.payload[j], keep));
        assert(m.payload[j].values.col_len() == m.xs.len());
        match m.payload[j].values {
            ColumnModel::Scalar(v) => lemma_selected_all_true(v, keep),
            ColumnModel::List(v) => lemma_selected_all_true(v, keep),
        }
        assert(filtered_column(m.payload[j], keep) =~~= m.payload[j]);
    }
    assert(fm.payload =~= m.payload);
    assert(fm =~~= m);
}

/// The lower corner is strictly below the upper corner on every axis.
pub open spec fn strictly_below(lo: CellIndex, hi: CellIndex) -> bool {
    lo.x < hi.x && lo.y < hi.y && lo.z < hi.z
}

/// The mask of rows whose index triple lies in the inclusive box.
pub open spec fn box_keep_mask(m: VoxelDataModel, lo: CellIndex, hi: CellIndex) -> Seq<bool> {
    Seq::new(
        m.xs.len(),
        |i: int|
            lo.x <= m.xs[i] <= hi.x && lo.y <= m.ys[i] <= hi.y && lo.z <= m.zs[i] <= hi.z,
    )
}

fn box_mask(data: &VoxelData, lo: CellIndex, hi: CellIndex) -> (r: Vec<bool>)
    requires
        data@.wf(),
    ensures
        r@ == box_keep_mask(data@, lo, hi),
{
    let n = data.x.len();
    let mut out: Vec<bool> = Vec::new();
    let mut i: usize = 0;
    while i < n
        invariant
            data@.wf(),
            n == data@.row_count(),
            i <= n,
            out@.len() == i,
            forall|k: int| 0 <= k < i as int ==> out@[k] == box_keep_mask(data@, lo, hi)[k],
        decreases n - i,
    {
        let keep = lo.x <= data.x[i] && data.x[i] <= hi.x && lo.y <= data.y[i] && data.y[i] <= hi.y
            && lo.z <= data.z[i] && data.z[i] <= hi.z;
        out.push(keep);
        i += 1;
    }
    proof {
        assert(out@ =~= box_keep_mask(data@, lo, hi));
    }
    out
}

/// Retains the rows whose index triple lies in the inclusive axis-aligned
/// box `[lower_corner, upper_corner]`. Fails, before any filtering work,
/// unless the lower corner is strictly below the upper corner on every one
/// of the three axes.
pub fn filter_by_index_bounds(
    voxel_grid: &VoxelGrid,
    lower_corner: CellIndex,
    upper_corner: CellIndex,
) -> (r: Result<VoxelGrid, Error>)
    requires
        voxel_grid.wf(),
    ensures
        !strictly_below(lower_corner, upper_corner) <==> r == Err::<VoxelGrid, Error>(
            Error::LowerCornerNotBelowUpperCorner,
        ),
        strictly_below(lower_corner, upper_corner) ==> (r matches Ok(g) && {
            &&& g.voxel_data@ == filtered_data(
                voxel_grid.voxel_data@,
                box_keep_mask(voxel_grid.voxel_data@, lower_corner, upper_corner),
            )
            &&& g.info == voxel_grid.info
            &&& g.reference_frames == voxel_grid.reference_frames
            &&& g.wf()
            &&& forall|j: int|
                0 <= j < g.voxel_data@.row_count() ==> lower_corner.x
                    <= #[trigger] g.voxel_data@.xs[j] <= upper_corner.x && lower_corner.y
                    <= g.voxel_data@.ys[j] <= upper_corner.y && lower_corner.z
                    <= g.voxel_data@.zs[j] <= upper_corner.z
        }),
{
    if !(lower_corner.x < upper_corner.x && lower_corner.y < upper_corner.y && lower_corner.z
        < upper_corner.z) {
        return Err(Error::LowerCornerNotBelowUpperCorner);
    }
    let mask = box_mask(&voxel_grid.voxel_data, lower_corner, upper_corner);
    let data = filter_data_by_mask(&voxel_grid.voxel_data, &mask);
    proof {
        let m = voxel_grid.voxel_data@;
        let keep = box_keep_mask(m, lower_corner, upper_corner);
        lemma_selected_element(m.xs, keep);
        lemma_selected_element(m.ys, keep);
        lemma_selected_element(m.zs, keep);
        lemma_selected_len(m.xs, m.ys, keep);
        lemma_selected_len(m.xs, m.zs, keep);
        assert forall|j: int| 0 <= j < data@.row_count() implies lower_corner.x
            <= #[trigger] data@.xs[j] <= upper_corner.x && lower_corner.y <= data@.ys[j]
            <= upper_corner.y && lower_corner.z <= data@.zs[j] <= upper_corner.z by {
            let wx = choose|w: int| 0 <= w < m.xs.len() && keep[w] && m.xs[w] == selected(
                m.xs,
                keep,
            )[j];
            let wy = choose|w: int| 0 <= w < m.ys.len() && keep[w] && m.ys[w] == selected(
                m.ys,
                keep,
            )[j];
            let wz = choose|w: int| 0 <= w < m.zs.len() && keep[w] && m.zs[w] == selected(
                m.zs,
                keep,
            )[j];
        }
    }
    let info = clone_info(&voxel_grid.info);
    let frames = voxel_grid.reference_frames.clone();
    match VoxelGrid::new(data, info, frames) {
        Ok(g) => Ok(g),
        Err(e) => {
            proof {
                assert(false);
            }
            Err(e)
        },
    }
}

/// Field-for-field copy of the grid metadata.
pub fn clone_info(info: &VoxelGridInfo) -> (r: VoxelGridInfo)
    ensures
        r == *info,
{
    VoxelGridInfo { resolution_bits: info.resolution_bits, frame_id: info.frame_id.clone() }
}

} // verus!
