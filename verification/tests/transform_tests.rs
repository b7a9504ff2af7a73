use evoxel::aggregate::aggregate_by_index;
use evoxel::explode::explode;
use evoxel::filter::{filter_by_count, filter_by_index_bounds};
use evoxel::translate::translate;
use evoxel::{CellIndex, ColumnValues, Error, PayloadColumn, VoxelData, VoxelGrid, VoxelGridInfo};

fn info(resolution: f64, frame_id: &str) -> VoxelGridInfo {
    VoxelGridInfo { resolution_bits: resolution.to_bits(), frame_id: String::from(frame_id) }
}

fn grid_from(data: VoxelData) -> VoxelGrid {
    VoxelGrid::new(data, info(1.0, "local"), ecoord::TransformTree::default()).unwrap()
}

fn plain_data(xs: Vec<i64>, ys: Vec<i64>, zs: Vec<i64>) -> VoxelData {
    VoxelData { x: xs, y: ys, z: zs, count: None, payload: Vec::new() }
}

#[test]
fn translate_shifts_every_index() {
    let grid = grid_from(plain_data(vec![0, 5], vec![0, 5], vec![0, 5]));
    let moved = translate(&grid, CellIndex::new(1, -2, 3));
    assert_eq!(moved.voxel_data.x, vec![1, 6]);
    assert_eq!(moved.voxel_data.y, vec![-2, 3]);
    assert_eq!(moved.voxel_data.z, vec![3, 8]);
    assert_eq!(moved.get_local_frame_id(), String::from("local"));
    assert_eq!(
        f64::from_bits(moved.info().resolution_bits),
        f64::from_bits(grid.info().resolution_bits)
    );
}

#[test]
fn translate_round_trip_restores_indices() {
    let grid = grid_from(plain_data(vec![0, 5, -3], vec![0, 5, 4], vec![0, 5, -9]));
    let delta = CellIndex::new(10, -20, 30);
    let back = CellIndex::new(-10, 20, -30);
    let round = translate(&translate(&grid, delta), back);
    assert_eq!(round.voxel_data.x, grid.voxel_data.x);
    assert_eq!(round.voxel_data.y, grid.voxel_data.y);
    assert_eq!(round.voxel_data.z, grid.voxel_data.z);
}

#[test]
fn filter_by_count_zero_is_identity() {
    let data = VoxelData {
        x: vec![0, 5],
        y: vec![0, 5],
        z: vec![0, 5],
        count: Some(vec![1, 3]),
        payload: Vec::new(),
    };
    let grid = grid_from(data);
    let filtered = filter_by_count(&grid, 0).unwrap();
    assert_eq!(filtered.voxel_data.x, grid.voxel_data.x);
    assert_eq!(filtered.voxel_data.y, grid.voxel_data.y);
    assert_eq!(filtered.voxel_data.z, grid.voxel_data.z);
    assert_eq!(filtered.voxel_data.count, grid.voxel_data.count);
}

#[test]
fn filter_by_count_keeps_dense_rows() {
    let data = VoxelData {
        x: vec![0, 1, 2],
        y: vec![0, 1, 2],
        z: vec![0, 1, 2],
        count: Some(vec![1, 5, 2]),
        payload: Vec::new(),
    };
    let grid = grid_from(data);
    let filtered = filter_by_count(&grid, 2).unwrap();
    assert_eq!(filtered.voxel_data.x, vec![1, 2]);
    assert_eq!(filtered.voxel_data.count, Some(vec![5, 2]));
}

#[test]
fn filter_by_count_needs_count_column() {
    let grid = grid_from(plain_data(vec![0], vec![0], vec![0]));
    let r = filter_by_count(&grid, 1);
    assert_eq!(r.err(), Some(Error::MissingCountColumn));
}

#[test]
fn filter_by_index_bounds_keeps_inclusive_box() {
    let grid = grid_from(plain_data(
        vec![0, 1, 2, 3],
        vec![0, 1, 2, 3],
        vec![0, 1, 2, 3],
    ));
    let filtered =
        filter_by_index_bounds(&grid, CellIndex::new(1, 1, 1), CellIndex::new(2, 2, 2)).unwrap();
    assert_eq!(filtered.voxel_data.x, vec![1, 2]);
    assert_eq!(filtered.voxel_data.y, vec![1, 2]);
    assert_eq!(filtered.voxel_data.z, vec![1, 2]);
}

#[test]
fn filter_by_index_bounds_rejects_equal_corners() {
    let grid = grid_from(plain_data(vec![2], vec![2], vec![2]));
    let r = filter_by_index_bounds(&grid, CellIndex::new(2, 2, 2), CellIndex::new(2, 2, 2));
    assert_eq!(r.err(), Some(Error::LowerCornerNotBelowUpperCorner));
}

#[test]
fn filter_by_index_bounds_rejects_one_tied_axis() {
    let grid = grid_from(plain_data(vec![0], vec![0], vec![0]));
    let r = filter_by_index_bounds(&grid, CellIndex::new(0, 0, 5), CellIndex::new(3, 3, 5));
    assert_eq!(r.err(), Some(Error::LowerCornerNotBelowUpperCorner));
}

#[test]
fn aggregate_merges_duplicate_indices() {
    let grid = grid_from(plain_data(vec![0, 0], vec![0, 0], vec![0, 0]));
    let agg = aggregate_by_index(&grid).unwrap();
    assert_eq!(agg.size(), 1);
    assert_eq!(agg.voxel_data.x, vec![0]);
    assert_eq!(agg.voxel_data.y, vec![0]);
    assert_eq!(agg.voxel_data.z, vec![0]);
    assert_eq!(agg.voxel_data.count, Some(vec![2]));
}

#[test]
fn aggregate_collects_payload_as_lists() {
    let data = VoxelData {
        x: vec![0, 0, 5],
        y: vec![0, 0, 5],
        z: vec![0, 0, 5],
        count: None,
        payload: vec![PayloadColumn {
            name: String::from("intensity"),
            values: ColumnValues::Scalar(vec![7, 8, 9]),
        }],
    };
    let grid = grid_from(data);
    let agg = aggregate_by_index(&grid).unwrap();
    assert_eq!(agg.size(), 2);
    // groups come in first-occurrence order
    assert_eq!(agg.voxel_data.x, vec![0, 5]);
    assert_eq!(agg.voxel_data.count, Some(vec![2, 1]));
    assert_eq!(agg.voxel_data.payload.len(), 1);
    assert_eq!(agg.voxel_data.payload[0].name, String::from("intensity"));
    match &agg.voxel_data.payload[0].values {
        ColumnValues::List(lists) => {
            assert_eq!(*lists, vec![vec![7, 8], vec![9]]);
        }
        ColumnValues::Scalar(_) => panic!("expected a list column after aggregation"),
    }
}

#[test]
fn aggregate_rejects_list_payload() {
    let data = VoxelData {
        x: vec![0],
        y: vec![0],
        z: vec![0],
        count: None,
        payload: vec![PayloadColumn {
            name: String::from("samples"),
            values: ColumnValues::List(vec![vec![1, 2]]),
        }],
    };
    let grid = grid_from(data);
    let r = aggregate_by_index(&grid);
    assert_eq!(r.err(), Some(Error::NestedListUnsupported));
}

#[test]
fn explode_unpacks_list_columns() {
    let data = VoxelData {
        x: vec![0, 5],
        y: vec![0, 5],
        z: vec![0, 5],
        count: Some(vec![2, 1]),
        payload: vec![PayloadColumn {
            name: String::from("intensity"),
            values: ColumnValues::List(vec![vec![7, 8], vec![9]]),
        }],
    };
    let grid = grid_from(data);
    let exploded = explode(&grid).unwrap();
    assert_eq!(exploded.voxel_data.x, vec![0, 0, 5]);
    assert_eq!(exploded.voxel_data.y, vec![0, 0, 5]);
    assert_eq!(exploded.voxel_data.z, vec![0, 0, 5]);
    assert_eq!(exploded.voxel_data.count, Some(vec![2, 2, 1]));
    match &exploded.voxel_data.payload[0].values {
        ColumnValues::Scalar(v) => assert_eq!(*v, vec![7, 8, 9]),
        ColumnValues::List(_) => panic!("expected the list column to become scalar"),
    }
}

#[test]
fn explode_without_list_columns_is_identity() {
    let grid = grid_from(plain_data(vec![1, 2], vec![3, 4], vec![5, 6]));
    let exploded = explode(&grid).unwrap();
    assert_eq!(exploded.voxel_data.x, grid.voxel_data.x);
    assert_eq!(exploded.voxel_data.y, grid.voxel_data.y);
    assert_eq!(exploded.voxel_data.z, grid.voxel_data.z);
}

#[test]
fn explode_rejects_disagreeing_list_lengths() {
    let data = VoxelData {
        x: vec![0],
        y: vec![0],
        z: vec![0],
        count: None,
        payload: vec![
            PayloadColumn {
                name: String::from("a"),
                values: ColumnValues::List(vec![vec![7, 8]]),
            },
            PayloadColumn { name: String::from("b"), values: ColumnValues::List(vec![vec![9]]) },
        ],
    };
    let grid = grid_from(data);
    let r = explode(&grid);
    assert_eq!(r.err(), Some(Error::ListLengthMismatch));
}

#[test]
fn aggregate_then_explode_restores_rows() {
    let data = VoxelData {
        x: vec![0, 0],
        y: vec![0, 0],
        z: vec![0, 0],
        count: None,
        payload: vec![PayloadColumn {
            name: String::from("intensity"),
            values: ColumnValues::Scalar(vec![7, 8]),
        }],
    };
    let grid = grid_from(data);
    let agg = aggregate_by_index(&grid).unwrap();
    let exploded = explode(&agg).unwrap();
    assert_eq!(exploded.voxel_data.x, vec![0, 0]);
    assert_eq!(exploded.voxel_data.count, Some(vec![2, 2]));
    match &exploded.voxel_data.payload[0].values {
        ColumnValues::Scalar(v) => assert_eq!(*v, vec![7, 8]),
        ColumnValues::List(_) => panic!("expected the list column to become scalar"),
    }
}
