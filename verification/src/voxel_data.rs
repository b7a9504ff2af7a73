//! The columnar voxel table: mandatory integer index columns `x`, `y`, `z`,
//! an optional non-negative `count` column, and any number of additional
//! payload columns, each either scalar or list-valued.

use vstd::prelude::*;

verus! {

/// The values of one payload column: scalar, or list-valued (list-valued
/// columns arise from aggregation and are consumed by explosion).
#[derive(Debug)]
pub enum ColumnValues {
    Scalar(Vec<i64>),
    List(Vec<Vec<i64>>),
}

/// A named payload column.
#[derive(Debug)]
pub struct PayloadColumn {
    pub name: String,
    pub values: ColumnValues,
}

/// The row-indexed voxel table.
#[derive(Debug)]
pub struct VoxelData {
    pub x: Vec<i64>,
    pub y: Vec<i64>,
    pub z: Vec<i64>,
    pub count: Option<Vec<i64>>,
    pub payload: Vec<PayloadColumn>,
}

/// Mathematical model of one payload column's values.
#[verifier::ext_equal]
pub enum ColumnModel {
    Scalar(Seq<i64>),
    List(Seq<Seq<i64>>),
}

/// Mathematical model of a named payload column.
#[verifier::ext_equal]
pub struct PayloadColumnModel {
    pub name: Seq<char>,
    pub values: ColumnModel,
}

/// Mathematical model of the whole voxel table.
#[verifier::ext_equal]
pub struct VoxelDataModel {
    pub xs: Seq<i64>,
    pub ys: Seq<i64>,
    pub zs: Seq<i64>,
    pub count: Option<Seq<i64>>,
    pub payload: Seq<PayloadColumnModel>,
}

impl View for ColumnValues {
    type V = ColumnModel;

    open spec fn view(&self) -> ColumnModel {
        match self {
            ColumnValues::Scalar(v) => ColumnModel::Scalar(v@),
            ColumnValues::List(v) => ColumnModel::List(v@.map_values(|u: Vec<i64>| u@)),
        }
    }
}

impl View for PayloadColumn {
    type V = PayloadColumnModel;

    open spec fn view(&self) -> PayloadColumnModel {
        PayloadColumnModel { name: self.name@, values: self.values@ }
    }
}

impl View for VoxelData {
    type V = VoxelDataModel;

    open spec fn view(&self) -> VoxelDataModel {
        VoxelDataModel {
            xs: self.x@,
            ys: self.y@,
            zs: self.z@,
            count: match self.count {
                Some(c) => Some(c@),
                None => None,
            },
            payload: self.payload@.map_values(|c: PayloadColumn| c@),
        }
    }
}

impl ColumnModel {
    /// Number of rows the column holds.
    pub open spec fn col_len(&self) -> nat {
        match self {
            ColumnModel::Scalar(v) => v.len(),
            ColumnModel::List(v) => v.len(),
        }
    }

    pub open spec fn is_list(&self) -> bool {
        self is List
    }
}

impl VoxelDataModel {
    /// Number of rows of the table.
    pub open spec fn row_count(&self) -> nat {
        self.xs.len()
    }

    /// Data integrity: all columns have the same number of rows, and every
    /// count value is non-negative.
    pub open spec fn wf(&self) -> bool {
        &&& self.ys.len() == self.xs.len()
        &&& self.zs.len() == self.xs.len()
        &&& match self.count {
            Some(c) => c.len() == self.xs.len() && forall|i: int|
                0 <= i < c.len() ==> c[i] >= 0,
            None => true,
        }
        &&& forall|j: int|
            0 <= j < self.payload.len() ==> (#[trigger] self.payload[j]).values.col_len()
                == self.xs.len()
    }

    /// Whether some payload column is list-valued.
    pub open spec fn has_list_column(&self) -> bool {
        exists|j: int| 0 <= j < self.payload.len() && (#[trigger] self.payload[j]).values is List
    }
}

impl VoxelData {
    pub open spec fn wf(&self) -> bool {
        self@.wf()
    }
}

} // verus!
