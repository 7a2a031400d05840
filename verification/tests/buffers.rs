use heatrs::buffers::{DoubleBuffer, Slot};
use heatrs::grid::Grid;
use heatrs::stencil::{pass, updated_cell};

fn sum(m: i64, l: i64, r: i64, u: i64, d: i64) -> i64 {
    m + 10 * l + 100 * r + 1000 * u + 10000 * d
}

fn sample() -> Grid<i64> {
    Grid::from_vec(3, 4, vec![1, 2, 3, 4, 5, 6, 7, 8, 9, 1, 2, 3]).unwrap()
}

#[test]
fn updated_cell_reads_the_five_cells() {
    let g = sample();
    assert_eq!(updated_cell(&g, 1, 1, &sum), 6 + 50 + 700 + 2000 + 10000);
    assert_eq!(updated_cell(&g, 1, 2, &sum), 7 + 60 + 800 + 3000 + 20000);
}

#[test]
fn pass_writes_the_interior_only() {
    let source = sample();
    let mut target = sample();
    pass(&source, &mut target, &sum);
    assert_eq!(target.cells(), &vec![1, 2, 3, 4, 5, 12756, 23867, 8, 9, 1, 2, 3]);
    assert_eq!(source, sample());
}

#[test]
fn pass_over_a_field_without_interior_writes_nothing() {
    let source = Grid::from_vec(2, 3, vec![1i64, 2, 3, 4, 5, 6]).unwrap();
    let mut target = source.duplicate();
    pass(&source, &mut target, &sum);
    assert_eq!(target, source);
}

#[test]
fn the_marker_moves_with_every_swap() {
    let mut pair = DoubleBuffer::new(&sample());
    assert_eq!(pair.last_written(), Slot::First);
    assert_eq!(pair.latest(), &sample());
    pair.write_pass(&sum);
    assert_eq!(pair.last_written(), Slot::First);
    assert_eq!(pair.latest(), &sample());
    pair.swap();
    assert_eq!(pair.last_written(), Slot::Second);
    assert_eq!(pair.latest().cells(), &vec![1, 2, 3, 4, 5, 12756, 23867, 8, 9, 1, 2, 3]);
    pair.swap();
    assert_eq!(pair.last_written(), Slot::First);
    assert_eq!(pair.latest(), &sample());
}

#[test]
fn step_returns_what_was_written_last() {
    let keep_right = |_m: i64, _l: i64, r: i64, _u: i64, _d: i64| r;
    let mut pair = DoubleBuffer::new(&sample());
    pair.step(&keep_right);
    assert_eq!(pair.last_written(), Slot::Second);
    assert_eq!(pair.latest().cells(), &vec![1, 2, 3, 4, 5, 7, 8, 8, 9, 1, 2, 3]);
    pair.step(&keep_right);
    assert_eq!(pair.last_written(), Slot::First);
    assert_eq!(pair.latest().cells(), &vec![1, 2, 3, 4, 5, 8, 8, 8, 9, 1, 2, 3]);
    assert_eq!(pair.into_latest().cells(), &vec![1, 2, 3, 4, 5, 8, 8, 8, 9, 1, 2, 3]);
}

#[test]
fn slots_flip() {
    assert_eq!(Slot::First.flipped(), Slot::Second);
    assert_eq!(Slot::Second.flipped(), Slot::First);
}
