use heatrs::error::HeatError;
use heatrs::grid::Grid;

#[test]
fn from_vec_takes_a_matching_cell_count() {
    let g = Grid::from_vec(2, 3, vec![1u32, 2, 3, 4, 5, 6]).unwrap();
    assert_eq!(g.rows(), 2);
    assert_eq!(g.cols(), 3);
    assert_eq!(g.cells(), &vec![1u32, 2, 3, 4, 5, 6]);
    assert_eq!(*g.get(0, 0), 1);
    assert_eq!(*g.get(0, 2), 3);
    assert_eq!(*g.get(1, 0), 4);
    assert_eq!(*g.get(1, 2), 6);
    assert_eq!(g.into_cells(), vec![1u32, 2, 3, 4, 5, 6]);
}

#[test]
fn from_vec_rejects_a_wrong_cell_count() {
    assert_eq!(Grid::from_vec(2, 3, vec![1u32; 5]), Err(HeatError::ShapeReconstruction));
    assert_eq!(Grid::from_vec(2, 3, vec![1u32; 7]), Err(HeatError::ShapeReconstruction));
    assert_eq!(Grid::from_vec(0, 3, vec![1u32; 1]), Err(HeatError::ShapeReconstruction));
    assert_eq!(Grid::from_vec(usize::MAX, 2, vec![1u32; 2]), Err(HeatError::ShapeReconstruction));
    assert!(Grid::from_vec(0, 3, Vec::<u32>::new()).is_ok());
    assert!(Grid::from_vec(3, 0, Vec::<u32>::new()).is_ok());
}

#[test]
fn set_changes_one_cell() {
    let mut g = Grid::from_vec(3, 4, vec![0i64; 12]).unwrap();
    g.set(1, 2, 9);
    g.set(2, 3, -4);
    assert_eq!(g.cells(), &vec![0i64, 0, 0, 0, 0, 0, 9, 0, 0, 0, 0, -4]);
    assert_eq!(*g.get(1, 2), 9);
    assert_eq!(*g.get(2, 3), -4);
}

#[test]
fn boundary_and_interior_partition_the_cells() {
    let g = Grid::from_vec(4, 5, vec![0u8; 20]).unwrap();
    let mut interior = 0;
    for i in 0..4 {
        for j in 0..5 {
            let inside = i >= 1 && i <= 2 && j >= 1 && j <= 3;
            assert_eq!(g.is_interior(i, j), inside);
            assert_eq!(g.is_boundary(i, j), !inside);
            if inside {
                interior += 1;
            }
        }
    }
    assert_eq!(interior, 6);
    assert!(!g.is_interior(4, 1));
    assert!(!g.is_boundary(4, 1));
    assert!(!g.is_boundary(1, 5));
    let thin = Grid::from_vec(2, 5, vec![0u8; 10]).unwrap();
    assert!(!thin.is_interior(1, 1));
    assert!(thin.is_boundary(1, 1));
}

#[test]
fn duplicate_is_an_equal_grid_of_its_own() {
    let g = Grid::from_vec(2, 2, vec![1u32, 2, 3, 4]).unwrap();
    let mut copy = g.duplicate();
    assert_eq!(copy, g);
    copy.set(0, 1, 7);
    assert_eq!(*g.get(0, 1), 2);
    assert_eq!(*copy.get(0, 1), 7);
}

#[test]
fn every_error_has_a_message_of_its_own() {
    let all = [
        HeatError::InputShape,
        HeatError::AdapterUnavailable,
        HeatError::DeviceRequest,
        HeatError::KernelCompile,
        HeatError::MappedRead,
        HeatError::ShapeReconstruction,
    ];
    for (i, a) in all.iter().enumerate() {
        assert!(!a.message().is_empty());
        for b in all.iter().skip(i + 1) {
            assert_ne!(a.message(), b.message());
        }
    }
    assert_eq!(HeatError::MappedRead.message(), "the result could not be read from the device");
}
