//! The voxel grid: a validated, immutable aggregate of a voxel table, grid
//! metadata and a reference-frame-graph handle, with spatial index queries.

use vstd::prelude::*;

use crate::error::Error;
use crate::voxel_data::{VoxelData, VoxelDataModel};

verus! {

/// A discrete voxel cell index: one signed integer coordinate per axis.
/// Also used as a componentwise offset by the translation operator.
#[derive(Clone, Copy, Debug, PartialEq, Eq, Structural)]
pub struct CellIndex {
    pub x: i64,
    pub y: i64,
    pub z: i64,
}

impl CellIndex {
    pub fn new(x: i64, y: i64, z: i64) -> (r: CellIndex)
        ensures
            r == (CellIndex { x, y, z }),
    {
        CellIndex { x, y, z }
    }
}

/// Grid metadata: the voxel edge length and the identifier of the local
/// coordinate frame.
///
/// The verified core performs no floating-point arithmetic, so the edge
/// length is carried as the bit pattern of its binary64 value. Callers
/// convert with `f64::to_bits` / `f64::from_bits`; positivity is exactly a
/// range check on the bits.
#[derive(Debug)]
pub struct VoxelGridInfo {
    /// Bit pattern of the binary64 voxel edge length.
    pub resolution_bits: u64,
    /// Identifier of the frame in which the voxel indices are expressed.
    pub frame_id: String,
}

/// A binary64 bit pattern stands for a value greater than zero exactly when
/// its sign bit is clear and it is neither a zero nor a not-a-number
/// pattern: all patterns from the smallest subnormal up to positive
/// infinity.
pub open spec fn resolution_is_positive(bits: u64) -> bool {
    0 < bits <= 0x7FF0_0000_0000_0000u64
}

impl VoxelGridInfo {
    pub open spec fn wf(&self) -> bool {
        &&& resolution_is_positive(self.resolution_bits)
        &&& self.frame_id@.len() > 0
    }
}

/// The names of the distinguished voxel table columns.
#[derive(Clone, Copy, Debug, PartialEq, Eq, Structural)]
pub enum VoxelDataColumnType {
    /// X index (mandatory)
    X,
    /// Y index (mandatory)
    Y,
    /// Z index (mandatory)
    Z,
    /// Count
    Count,
}

impl VoxelDataColumnType {
    pub fn as_str(&self) -> (r: &'static str)
        ensures
            *self is X ==> r@ == "x"@,
            *self is Y ==> r@ == "y"@,
            *self is Z ==> r@ == "z"@,
            *self is Count ==> r@ == "count"@,
    {
        match self {
            VoxelDataColumnType::X => "x",
            VoxelDataColumnType::Y => "y",
            VoxelDataColumnType::Z => "z",
            VoxelDataColumnType::Count => "count",
        }
    }
}

/// The voxel grid. Created only through the validated constructor; every
/// transform operator returns a fresh grid, and the only in-place mutation
/// is the reference-frame-handle swap.
pub struct VoxelGrid {
    pub voxel_data: VoxelData,
    pub info: VoxelGridInfo,
    pub reference_frames: ecoord::TransformTree,
}

/// `v` is a value of the column and no column value is below it.
pub open spec fn is_axis_min(v: i64, s: Seq<i64>) -> bool {
    &&& exists|i: int| 0 <= i < s.len() && s[i] == v
    &&& forall|i: int| 0 <= i < s.len() ==> v <= #[trigger] s[i]
}

/// `v` is a value of the column and no column value is above it.
pub open spec fn is_axis_max(v: i64, s: Seq<i64>) -> bool {
    &&& exists|i: int| 0 <= i < s.len() && s[i] == v
    &&& forall|i: int| 0 <= i < s.len() ==> v >= #[trigger] s[i]
}

/// The index triple of row `i`.
pub open spec fn cell_index_at(m: VoxelDataModel, i: int) -> CellIndex {
    CellIndex { x: m.xs[i], y: m.ys[i], z: m.zs[i] }
}

impl VoxelGrid {
    /// Grid integrity: the table is well-formed and the metadata is valid.
    /// Established by the constructor and preserved by every operator.
    pub open spec fn wf(&self) -> bool {
        &&& self.voxel_data@.wf()
        &&& self.info.wf()
    }

    /// Validated constructor: checks the data-integrity invariants and, on
    /// success, stores the three parts unchanged.
    pub fn new(
        voxel_data: VoxelData,
        info: VoxelGridInfo,
        reference_frames: ecoord::TransformTree,
    ) -> (r: Result<VoxelGrid, Error>)
        ensures
            r is Ok <==> (voxel_data@.wf() && info.wf()),
            r matches Ok(g) ==> {
                &&& g.voxel_data == voxel_data
                &&& g.info == info
                &&& g.reference_frames == reference_frames
                &&& g.wf()
                &&& g.voxel_data@.row_count() == voxel_data@.row_count()
            },
            !columns_aligned(voxel_data@) ==> r == Err::<VoxelGrid, Error>(
                Error::ColumnLengthMismatch,
            ),
            columns_aligned(voxel_data@) && !counts_non_negative(voxel_data@) ==> r
                == Err::<VoxelGrid, Error>(Error::NegativeCount),
            voxel_data@.wf() && !resolution_is_positive(info.resolution_bits) ==> r
                == Err::<VoxelGrid, Error>(Error::NonPositiveResolution),
            voxel_data@.wf() && resolution_is_positive(info.resolution_bits)
                && info.frame_id@.len() == 0 ==> r == Err::<VoxelGrid, Error>(
                Error::MalformedFrameId,
            ),
    {
        if let Some(e) = integrity_violation(&voxel_data, &info) {
            return Err(e);
        }
        Ok(VoxelGrid { voxel_data, info, reference_frames })
    }

    /// Same validated construction as `new`; kept as the name used when the
    /// table comes straight from a caller-assembled data frame.
    pub fn from_data_frame(
        voxel_data: VoxelData,
        info: VoxelGridInfo,
        reference_frames: ecoord::TransformTree,
    ) -> (r: Result<VoxelGrid, Error>)
        ensures
            r is Ok <==> (voxel_data@.wf() && info.wf()),
            r matches Ok(g) ==> {
                &&& g.voxel_data == voxel_data
                &&& g.info == info
                &&& g.reference_frames == reference_frames
                &&& g.wf()
            },
    {
        VoxelGrid::new(voxel_data, info, reference_frames)
    }

    /// Read-only view of the voxel table.
    pub fn voxel_data(&self) -> (r: &VoxelData)
        ensures
            *r == self.voxel_data,
    {
        &self.voxel_data
    }

    /// Read-only view of the grid metadata.
    pub fn info(&self) -> (r: &VoxelGridInfo)
        ensures
            *r == self.info,
    {
        &self.info
    }

    /// Read-only view of the reference-frame-graph handle.
    pub fn reference_frames(&self) -> (r: &ecoord::TransformTree)
        ensures
            *r == self.reference_frames,
    {
        &self.reference_frames
    }

    /// Swaps the reference-frame-graph handle; the only in-place mutation a
    /// grid permits. Table and metadata are untouched.
    pub fn set_reference_frames(&mut self, reference_frames: ecoord::TransformTree)
        ensures
            final(self).reference_frames == reference_frames,
            final(self).voxel_data == old(self).voxel_data,
            final(self).info == old(self).info,
    {
        self.reference_frames = reference_frames;
    }

    /// Number of rows of the voxel table.
    pub fn size(&self) -> (r: usize)
        ensures
            r == self.voxel_data@.row_count(),
    {
        self.voxel_data.x.len()
    }

    /// Componentwise minimum of the index columns across all rows; fails
    /// explicitly on a grid with zero rows.
    pub fn min_index(&self) -> (r: Result<CellIndex, Error>)
        requires
            self.wf(),
        ensures
            r is Err <==> self.voxel_data@.row_count() == 0,
            r is Err ==> r == Err::<CellIndex, Error>(Error::EmptyGrid),
            r matches Ok(c) ==> {
                &&& is_axis_min(c.x, self.voxel_data@.xs)
                &&& is_axis_min(c.y, self.voxel_data@.ys)
                &&& is_axis_min(c.z, self.voxel_data@.zs)
            },
    {
        if self.voxel_data.x.len() == 0 {
            return Err(Error::EmptyGrid);
        }
        Ok(CellIndex {
            x: column_min(&self.voxel_data.x),
            y: column_min(&self.voxel_data.y),
            z: column_min(&self.voxel_data.z),
        })
    }

    /// Componentwise maximum of the index columns across all rows; fails
    /// explicitly on a grid with zero rows.
    pub fn max_index(&self) -> (r: Result<CellIndex, Error>)
        requires
            self.wf(),
        ensures
            r is Err <==> self.voxel_data@.row_count() == 0,
            r is Err ==> r == Err::<CellIndex, Error>(Error::EmptyGrid),
            r matches Ok(c) ==> {
                &&& is_axis_max(c.x, self.voxel_data@.xs)
                &&& is_axis_max(c.y, self.voxel_data@.ys)
                &&& is_axis_max(c.z, self.voxel_data@.zs)
            },
    {
        if self.voxel_data.x.len() == 0 {
            return Err(Error::EmptyGrid);
        }
        Ok(CellIndex {
            x: column_max(&self.voxel_data.x),
            y: column_max(&self.voxel_data.y),
            z: column_max(&self.voxel_data.z),
        })
    }

    /// Random-access read of one row's index triple.
    pub fn get_cell_index(&self, row_index: usize) -> (r: CellIndex)
        requires
            self.wf(),
            row_index < self.voxel_data@.row_count(),
        ensures
            r == cell_index_at(self.voxel_data@, row_index as int),
    {
        CellIndex {
            x: self.voxel_data.x[row_index],
            y: self.voxel_data.y[row_index],
            z: self.voxel_data.z[row_index],
        }
    }

    /// The identifier of the frame in which the voxel indices are expressed.
    pub fn get_local_frame_id(&self) -> (r: String)
        ensures
            r@ == self.info.frame_id@,
    {
        self.info.frame_id.clone()
    }

    /// All row index triples, in row order. Each row's result is exactly
    /// what `get_cell_index` returns for that row.
    pub fn get_all_cell_indices_in_local_frame(&self) -> (r: Vec<CellIndex>)
        requires
            self.wf(),
        ensures
            r@.len() == self.voxel_data@.row_count(),
            forall|i: int|
                0 <= i < r@.len() ==> r@[i] == cell_index_at(self.voxel_data@, i),
    {
        let n = self.voxel_data.x.len();
        let mut out: Vec<CellIndex> = Vec::new();
        let mut i: usize = 0;
        while i < n
            invariant
                self.wf(),
                n == self.voxel_data@.row_count(),
                i <= n,
                out@.len() == i,
                forall|k: int|
                    0 <= k < i as int ==> out@[k] == cell_index_at(self.voxel_data@, k),
            decreases n - i,
        {
            out.push(CellIndex {
                x: self.voxel_data.x[i],
                y: self.voxel_data.y[i],
                z: self.voxel_data.z[i],
            });
            i += 1;
        }
        out
    }
}

/// Law: on a nonempty grid the componentwise minimum index is at most the
/// componentwise maximum index on every axis.
pub proof fn lemma_min_index_le_max_index(mn: CellIndex, mx: CellIndex, m: VoxelDataModel)
    requires
        m.wf(),
        m.row_count() > 0,
        is_axis_min(mn.x, m.xs),
        is_axis_min(mn.y, m.ys),
        is_axis_min(mn.z, m.zs),
        is_axis_max(mx.x, m.xs),
        is_axis_max(mx.y, m.ys),
        is_axis_max(mx.z, m.zs),
    ensures
        mn.x <= mx.x,
        mn.y <= mx.y,
        mn.z <= mx.z,
{
    let ix = choose|i: int| 0 <= i < m.xs.len() && m.xs[i] == mx.x;
    assert(mn.x <= m.xs[ix]);
    let iy = choose|i: int| 0 <= i < m.ys.len() && m.ys[i] == mx.y;
    assert(mn.y <= m.ys[iy]);
    let iz = choose|i: int| 0 <= i < m.zs.len() && m.zs[i] == mx.z;
    assert(mn.z <= m.zs[iz]);
}

/// The index, count and payload columns all have the same number of rows.
pub open spec fn columns_aligned(m: VoxelDataModel) -> bool {
    &&& m.ys.len() == m.xs.len()
    &&& m.zs.len() == m.xs.len()
    &&& match m.count {
        Some(c) => c.len() == m.xs.len(),
        None => true,
    }
    &&& forall|j: int|
        0 <= j < m.payload.len() ==> (#[trigger] m.payload[j]).values.col_len() == m.xs.len()
}

/// Every value of the count column, if there is one, is non-negative.
pub open spec fn counts_non_negative(m: VoxelDataModel) -> bool {
    match m.count {
        Some(c) => forall|i: int| 0 <= i < c.len() ==> c[i] >= 0,
        None => true,
    }
}

/// The first integrity violation of the table or the metadata, checked in a
/// fixed order, or `None` when the grid invariants all hold.
fn integrity_violation(voxel_data: &VoxelData, info: &VoxelGridInfo) -> (r: Option<Error>)
    ensures
        r is None <==> (voxel_data@.wf() && info.wf()),
        !columns_aligned(voxel_data@) ==> r == Some(Error::ColumnLengthMismatch),
        columns_aligned(voxel_data@) && !counts_non_negative(voxel_data@) ==> r == Some(
            Error::NegativeCount,
        ),
        voxel_data@.wf() && !resolution_is_positive(info.resolution_bits) ==> r == Some(
            Error::NonPositiveResolution,
        ),
        voxel_data@.wf() && resolution_is_positive(info.resolution_bits) && info.frame_id@.len()
            == 0 ==> r == Some(Error::MalformedFrameId),
{
    proof {
        assert(voxel_data@.wf() <==> (columns_aligned(voxel_data@) && counts_non_negative(
            voxel_data@,
        )));
    }
    let n = voxel_data.x.len();
    if voxel_data.y.len() != n || voxel_data.z.len() != n {
        return Some(Error::ColumnLengthMismatch);
    }
    match &voxel_data.count {
        Some(c) => {
            if c.len() != n {
                return Some(Error::ColumnLengthMismatch);
            }
        },
        None => {},
    }
    let mut j: usize = 0;
    while j < voxel_data.payload.len()
        invariant
            j <= voxel_data@.payload.len(),
            forall|k: int|
                0 <= k < j as int ==> (#[trigger] voxel_data@.payload[k]).values.col_len()
                    == n as nat,
            n == voxel_data@.xs.len(),
        decreases voxel_data@.payload.len() - j,
    {
        proof {
            assert(voxel_data@.payload[j as int] == voxel_data.payload@[j as int]@);
        }
        let aligned = match &voxel_data.payload[j].values {
            crate::voxel_data::ColumnValues::Scalar(v) => v.len() == n,
            crate::voxel_data::ColumnValues::List(v) => v.len() == n,
        };
        if !aligned {
            proof {
                assert(voxel_data@.payload[j as int].values.col_len() != voxel_data@.xs.len());
                assert(!columns_aligned(voxel_data@));
                assert(!voxel_data@.wf());
            }
            return Some(Error::ColumnLengthMismatch);
        }
        j += 1;
    }
    proof {
        assert(voxel_data@.payload.len() == voxel_data.payload@.len());
        assert(columns_aligned(voxel_data@));
    }
    match &voxel_data.count {
        Some(c) => {
            let mut i: usize = 0;
            while i < c.len()
                invariant
                    columns_aligned(voxel_data@),
                    voxel_data@.count == Some(c@),
                    i <= c@.len(),
                    forall|k: int| 0 <= k < i as int ==> c@[k] >= 0,
                decreases c@.len() - i,
            {
                if c[i] < 0 {
                    proof {
                        assert(voxel_data@.count matches Some(cc) && cc[i as int] < 0);
                        assert(!counts_non_negative(voxel_data@));
                    }
                    return Some(Error::NegativeCount);
                }
                i += 1;
            }
        },
        None => {},
    }
    if !(0 < info.resolution_bits && info.resolution_bits <= 0x7FF0_0000_0000_0000u64) {
        return Some(Error::NonPositiveResolution);
    }
    let empty = String::new();
    if info.frame_id.eq(&empty) {
        proof {
            assert(info.frame_id@ =~= Seq::<char>::empty());
        }
        return Some(Error::MalformedFrameId);
    }
    proof {
        assert(info.frame_id@.len() == 0 ==> info.frame_id@ =~= Seq::<char>::empty());
    }
    None
}

/// Smallest value of a nonempty column.
fn column_min(v: &Vec<i64>) -> (r: i64)
    requires
        v@.len() > 0,
    ensures
        is_axis_min(r, v@),
{
    let mut m: i64 = v[0];
    let mut i: usize = 1;
    while i < v.len()
        invariant
            1 <= i <= v@.len(),
            exists|k: int| 0 <= k < i as int && v@[k] == m,
            forall|k: int| 0 <= k < i as int ==> m <= #[trigger] v@[k],
        decreases v@.len() - i,
    {
        if v[i] < m {
            m = v[i];
        }
        i += 1;
    }
    m
}

/// Largest value of a nonempty column.
fn column_max(v: &Vec<i64>) -> (r: i64)
    requires
        v@.len() > 0,
    ensures
        is_axis_max(r, v@),
{
    let mut m: i64 = v[0];
    let mut i: usize = 1;
    while i < v.len()
        invariant
            1 <= i <= v@.len(),
            exists|k: int| 0 <= k < i as int && v@[k] == m,
            forall|k: int| 0 <= k < i as int ==> m >= #[trigger] v@[k],
        decreases v@.len() - i,
    {
        if v[i] > m {
            m = v[i];
        }
        i += 1;
    }
    m
}

} // verus!
