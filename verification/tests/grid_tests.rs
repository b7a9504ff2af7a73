use evoxel::{CellIndex, Error, VoxelData, VoxelDataColumnType, VoxelGrid, VoxelGridInfo};

fn info(resolution: f64, frame_id: &str) -> VoxelGridInfo {
    VoxelGridInfo { resolution_bits: resolution.to_bits(), frame_id: String::from(frame_id) }
}

fn plain_data(xs: Vec<i64>, ys: Vec<i64>, zs: Vec<i64>) -> VoxelData {
    VoxelData { x: xs, y: ys, z: zs, count: None, payload: Vec::new() }
}

#[test]
fn row_count_equals_rows_supplied() {
    let data = plain_data(vec![0, 5], vec![0, 5], vec![0, 5]);
    let grid = VoxelGrid::new(data, info(1.0, "local"), ecoord::TransformTree::default()).unwrap();
    assert_eq!(grid.size(), 2);
}

#[test]
fn new_rejects_column_length_mismatch() {
    let data = plain_data(vec![0, 5], vec![0], vec![0, 5]);
    let r = VoxelGrid::new(data, info(1.0, "local"), ecoord::TransformTree::default());
    assert_eq!(r.err(), Some(Error::ColumnLengthMismatch));
}

#[test]
fn new_rejects_negative_count() {
    let data = VoxelData {
        x: vec![0],
        y: vec![0],
        z: vec![0],
        count: Some(vec![-1]),
        payload: Vec::new(),
    };
    let r = VoxelGrid::new(data, info(1.0, "local"), ecoord::TransformTree::default());
    assert_eq!(r.err(), Some(Error::NegativeCount));
}

#[test]
fn new_rejects_non_positive_resolution() {
    let data = plain_data(vec![0], vec![0], vec![0]);
    let r = VoxelGrid::new(data, info(0.0, "local"), ecoord::TransformTree::default());
    assert_eq!(r.err(), Some(Error::NonPositiveResolution));
    let data = plain_data(vec![0], vec![0], vec![0]);
    let r = VoxelGrid::new(data, info(-2.5, "local"), ecoord::TransformTree::default());
    assert_eq!(r.err(), Some(Error::NonPositiveResolution));
    let data = plain_data(vec![0], vec![0], vec![0]);
    let r = VoxelGrid::new(data, info(f64::NAN, "local"), ecoord::TransformTree::default());
    assert_eq!(r.err(), Some(Error::NonPositiveResolution));
}

#[test]
fn new_rejects_empty_frame_id() {
    let data = plain_data(vec![0], vec![0], vec![0]);
    let r = VoxelGrid::new(data, info(1.0, ""), ecoord::TransformTree::default());
    assert_eq!(r.err(), Some(Error::MalformedFrameId));
}

#[test]
fn min_and_max_index_of_two_rows() {
    let data = plain_data(vec![0, 5], vec![0, 5], vec![0, 5]);
    let grid = VoxelGrid::new(data, info(1.0, "local"), ecoord::TransformTree::default()).unwrap();
    assert_eq!(grid.min_index().unwrap(), CellIndex::new(0, 0, 0));
    assert_eq!(grid.max_index().unwrap(), CellIndex::new(5, 5, 5));
    let res = f64::from_bits(grid.info().resolution_bits);
    assert_eq!(res, 1.0);
}

#[test]
fn min_index_componentwise() {
    let data = plain_data(vec![3, -1, 2], vec![0, 7, -4], vec![9, 9, 8]);
    let grid = VoxelGrid::new(data, info(1.0, "local"), ecoord::TransformTree::default()).unwrap();
    assert_eq!(grid.min_index().unwrap(), CellIndex::new(-1, -4, 8));
    assert_eq!(grid.max_index().unwrap(), CellIndex::new(3, 7, 9));
}

#[test]
fn extreme_queries_fail_on_empty_grid() {
    let data = plain_data(vec![], vec![], vec![]);
    let grid = VoxelGrid::new(data, info(1.0, "local"), ecoord::TransformTree::default()).unwrap();
    assert_eq!(grid.min_index().err(), Some(Error::EmptyGrid));
    assert_eq!(grid.max_index().err(), Some(Error::EmptyGrid));
}

#[test]
fn bulk_indices_match_per_row_queries() {
    let data = plain_data(vec![1, 2, 3], vec![4, 5, 6], vec![7, 8, 9]);
    let grid = VoxelGrid::new(data, info(0.5, "local"), ecoord::TransformTree::default()).unwrap();
    let all = grid.get_all_cell_indices_in_local_frame();
    assert_eq!(all.len(), 3);
    for (i, idx) in all.iter().enumerate() {
        assert_eq!(*idx, grid.get_cell_index(i));
    }
    assert_eq!(all[1], CellIndex::new(2, 5, 8));
}

#[test]
fn local_frame_id_is_returned() {
    let data = plain_data(vec![0], vec![0], vec![0]);
    let grid = VoxelGrid::new(data, info(1.0, "base"), ecoord::TransformTree::default()).unwrap();
    assert_eq!(grid.get_local_frame_id(), String::from("base"));
}

#[test]
fn reference_frames_can_be_swapped() {
    let data = plain_data(vec![0], vec![0], vec![0]);
    let mut grid =
        VoxelGrid::new(data, info(1.0, "local"), ecoord::TransformTree::default()).unwrap();
    assert!(grid.reference_frames().is_empty());
    let replacement = ecoord::TransformTree::default();
    grid.set_reference_frames(replacement);
    assert!(grid.reference_frames().is_empty());
    assert_eq!(grid.size(), 1);
}

#[test]
fn column_names_are_stable() {
    assert_eq!(VoxelDataColumnType::X.as_str(), "x");
    assert_eq!(VoxelDataColumnType::Y.as_str(), "y");
    assert_eq!(VoxelDataColumnType::Z.as_str(), "z");
    assert_eq!(VoxelDataColumnType::Count.as_str(), "count");
}
