//! Index translation: shifts every row's index triple componentwise. Only
//! the discrete index moves; resolution, frame registration, counts and
//! payload are carried over unchanged.

use vstd::prelude::*;

use crate::column_ops::{copy_count, copy_payload};
use crate::filter::clone_info;
use crate::voxel_data::{VoxelData, VoxelDataModel};
use crate::voxel_grid::{CellIndex, VoxelGrid};

verus! {

/// Every shifted index still fits a signed 64-bit coordinate.
pub open spec fn translation_in_range(m: VoxelDataModel, t: CellIndex) -> bool {
    &&& forall|i: int| 0 <= i < m.xs.len() ==> i64::MIN <= #[trigger] m.xs[i] + t.x <= i64::MAX
    &&& forall|i: int| 0 <= i < m.ys.len() ==> i64::MIN <= #[trigger] m.ys[i] + t.y <= i64::MAX
    &&& forall|i: int| 0 <= i < m.zs.len() ==> i64::MIN <= #[trigger] m.zs[i] + t.z <= i64::MAX
}

/// The table with every index triple shifted by `t`; all other columns kept.
pub open spec fn translated_data(m: VoxelDataModel, t: CellIndex) -> VoxelDataModel {
    VoxelDataModel {
        xs: m.xs.map_values(|v: i64| (v + t.x) as i64),
        ys: m.ys.map_values(|v: i64| (v + t.y) as i64),
        zs: m.zs.map_values(|v: i64| (v + t.z) as i64),
        count: m.count,
        payload: m.payload,
    }
}

/// One index column shifted by a fixed offset.
fn shift_column(v: &Vec<i64>, d: i64) -> (r: Vec<i64>)
    requires
        forall|i: int| 0 <= i < v@.len() ==> i64::MIN <= #[trigger] v@[i] + d <= i64::MAX,
    ensures
        r@ == v@.map_values(|x: i64| (x + d) as i64),
{
    let mut out: Vec<i64> = Vec::new();
    let mut i: usize = 0;
    while i < v.len()
        invariant
            forall|k: int| 0 <= k < v@.len() ==> i64::MIN <= #[trigger] v@[k] + d <= i64::MAX,
            i <= v@.len(),
            out@.len() == i,
            forall|k: int| 0 <= k < i as int ==> out@[k] == ((v@[k] + d) as i64),
        decreases v@.len() - i,
    {
        out.push(v[i] + d);
        i += 1;
    }
    proof {
        assert(out@ =~= v@.map_values(|x: i64| (x + d) as i64));
    }
    out
}

/// Adds `translation` componentwise to every row's index triple. Metadata
/// and the reference-frame handle are carried over unchanged.
pub fn translate(voxel_grid: &VoxelGrid, translation: CellIndex) -> (r: VoxelGrid)
    requires
        voxel_grid.wf(),
        translation_in_range(voxel_grid.voxel_data@, translation),
    ensures
        r.voxel_data@ == translated_data(voxel_grid.voxel_data@, translation),
        r.info == voxel_grid.info,
        r.reference_frames == voxel_grid.reference_frames,
        r.wf(),
{
    let x2 = shift_column(&voxel_grid.voxel_data.x, translation.x);
    let y2 = shift_column(&voxel_grid.voxel_data.y, translation.y);
    let z2 = shift_column(&voxel_grid.voxel_data.z, translation.z);
    let count2 = copy_count(&voxel_grid.voxel_data.count);
    let payload2 = copy_payload(&voxel_grid.voxel_data.payload);
    let data = VoxelData { x: x2, y: y2, z: z2, count: count2, payload: payload2 };
    proof {
        assert(data@ =~~= translated_data(voxel_grid.voxel_data@, translation));
    }
    let info = clone_info(&voxel_grid.info);
    let frames = voxel_grid.reference_frames.clone();
    match VoxelGrid::new(data, info, frames) {
        Ok(g) => g,
        Err(_) => {
            proof {
                assert(false);
            }
            vstd::pervasive::unreached()
        },
    }
}

/// Law: translating by `t` and back by its exact negation restores the
/// table, so in particular the multiset of values of every index column is
/// unchanged by the round trip.
pub proof fn lemma_translate_round_trip(m: VoxelDataModel, t: CellIndex, back: CellIndex)
    requires
        m.wf(),
        translation_in_range(m, t),
        back.x as int == -(t.x as int),
        back.y as int == -(t.y as int),
        back.z as int == -(t.z as int),
    ensures
        translation_in_range(translated_data(m, t), back),
        translated_data(translated_data(m, t), back) == m,
        translated_data(translated_data(m, t), back).xs.to_multiset() == m.xs.to_multiset(),
        translated_data(translated_data(m, t), back).ys.to_multiset() == m.ys.to_multiset(),
        translated_data(translated_data(m, t), back).zs.to_multiset() == m.zs.to_multiset(),
{
    let m1 = translated_data(m, t);
    assert forall|i: int| 0 <= i < m1.xs.len() implies i64::MIN <= #[trigger] m1.xs[i] + back.x
        <= i64::MAX by {
        assert(m1.xs[i] == (m.xs[i] + t.x) as i64);
    }
    assert forall|i: int| 0 <= i < m1.ys.len() implies i64::MIN <= #[trigger] m1.ys[i] + back.y
        <= i64::MAX by {
        assert(m1.ys[i] == (m.ys[i] + t.y) as i64);
    }
    assert forall|i: int| 0 <= i < m1.zs.len() implies i64::MIN <= #[trigger] m1.zs[i] + back.z
        <= i64::MAX by {
        assert(m1.zs[i] == (m.zs[i] + t.z) as i64);
    }
    let m2 = translated_data(m1, back);
    assert forall|i: int| 0 <= i < m2.xs.len() implies m2.xs[i] == m.xs[i] by {
        assert(m1.xs[i] == (m.xs[i] + t.x) as i64);
        assert(m2.xs[i] == (m1.xs[i] + back.x) as i64);
    }
    assert forall|i: int| 0 <= i < m2.ys.len() implies m2.ys[i] == m.ys[i] by {
        assert(m1.ys[i] == (m.ys[i] + t.y) as i64);
        assert(m2.ys[i] == (m1.ys[i] + back.y) as i64);
    }
    assert forall|i: int| 0 <= i < m2.zs.len() implies m2.zs[i] == m.zs[i] by {
        assert(m1.zs[i] == (m.zs[i] + t.z) as i64);
        assert(m2.zs[i] == (m1.zs[i] + back.z) as i64);
    }
    assert(m2.xs =~= m.xs);
    assert(m2.ys =~= m.ys);
    assert(m2.zs =~= m.zs);
    assert(m2 =~~= m);
}

} // verus!
