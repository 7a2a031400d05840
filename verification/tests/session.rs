use heatrs::error::HeatError;
use heatrs::grid::Grid;
use heatrs::session::{is_genuine, DeviceClass, Event, Request, Session, Stage};
use heatrs::words::field_bytes;

fn field(rows: usize, cols: usize) -> Grid<u32> {
    let mut cells = Vec::new();
    for k in 0..rows * cols {
        cells.push((k as f32 * 0.5).to_bits());
    }
    Grid::from_vec(rows, cols, cells).unwrap()
}

fn open(rows: usize, cols: usize, iterations: u64) -> Session {
    Session::new(&field(rows, cols), 1, 2, 3, 4, iterations).unwrap()
}

fn prepared(rows: usize, cols: usize, iterations: u64) -> Session {
    let mut s = open(rows, cols, iterations);
    s.answer(Event::Adapter(Some(DeviceClass::DiscreteGpu)));
    s.answer(Event::Device(true));
    s.answer(Event::Prepared(true));
    s
}

#[test]
fn only_hardware_adapters_are_genuine() {
    assert!(is_genuine(DeviceClass::DiscreteGpu));
    assert!(is_genuine(DeviceClass::IntegratedGpu));
    assert!(!is_genuine(DeviceClass::VirtualGpu));
    assert!(!is_genuine(DeviceClass::Cpu));
    assert!(!is_genuine(DeviceClass::Other));
}

#[test]
fn a_session_runs_from_adapter_to_result() {
    let start = field(4, 5);
    let mut s = Session::new(&start, 10, 20, 30, 40, 3).unwrap();
    assert_eq!(s.rows(), 4);
    assert_eq!(s.cols(), 5);
    assert_eq!(s.iterations(), 3);
    assert_eq!(s.contents(), &field_bytes(&start));
    assert_eq!(s.params().len(), 24);
    assert_eq!(s.stage(), Stage::AwaitAdapter);
    assert_eq!(s.pending(), Request::Adapter);
    s.answer(Event::Adapter(Some(DeviceClass::IntegratedGpu)));
    assert_eq!(s.stage(), Stage::AwaitDevice);
    assert_eq!(s.pending(), Request::Device);
    s.answer(Event::Device(true));
    assert_eq!(s.stage(), Stage::AwaitKernel);
    assert_eq!(s.pending(), Request::Prepare { bytes: 80 });
    s.answer(Event::Prepared(true));
    for done in 0..3u64 {
        assert_eq!(s.stage(), Stage::Recording(done));
        assert_eq!(s.pending(), Request::Record { x: 3, y: 2, bytes: 80 });
        s.answer(Event::Recorded);
    }
    assert_eq!(s.stage(), Stage::AwaitReadback);
    assert_eq!(s.pending(), Request::Readback { bytes: 80 });
    let evolved = field(5, 4);
    s.answer(Event::Mapped(Some(field_bytes(&evolved))));
    assert_eq!(s.stage(), Stage::Finished);
    assert_eq!(s.pending(), Request::Nothing);
    let out = s.outcome().unwrap().unwrap();
    assert_eq!(out.rows(), 4);
    assert_eq!(out.cols(), 5);
    assert_eq!(out.cells(), evolved.cells());
}

#[test]
fn the_parameters_name_the_row_length() {
    let s = open(3, 7, 1);
    let mut want = Vec::new();
    for w in [1u32, 2, 3, 4, 7, 0] {
        for b in w.to_ne_bytes() {
            want.push(b);
        }
    }
    assert_eq!(s.params(), want);
}

#[test]
fn zero_iterations_go_straight_to_the_readback() {
    let start = field(3, 3);
    let mut s = prepared(3, 3, 0);
    assert_eq!(s.stage(), Stage::AwaitReadback);
    assert_eq!(s.pending(), Request::Readback { bytes: 36 });
    let uploaded = s.contents().clone();
    s.answer(Event::Mapped(Some(uploaded)));
    assert_eq!(s.outcome(), Some(Ok(start)));
}

#[test]
fn the_dispatch_covers_the_interior() {
    let s = prepared(3, 3, 1);
    assert_eq!(s.pending(), Request::Record { x: 1, y: 1, bytes: 36 });
    let s = prepared(3, 10, 1);
    assert_eq!(s.pending(), Request::Record { x: 8, y: 1, bytes: 120 });
    let s = prepared(6, 4, 2);
    assert_eq!(s.pending(), Request::Record { x: 2, y: 4, bytes: 96 });
}

#[test]
fn a_session_needs_an_interior() {
    for (rows, cols) in [(0usize, 0usize), (2, 2), (2, 8), (8, 2), (1, 3), (3, 1)] {
        let r = Session::new(&field(rows, cols), 1, 2, 3, 4, 5);
        assert_eq!(r.err(), Some(HeatError::InputShape));
    }
    assert!(Session::new(&field(3, 3), 1, 2, 3, 4, 5).is_ok());
}

#[test]
fn a_missing_adapter_fails_the_session() {
    let mut s = open(3, 3, 1);
    s.answer(Event::Adapter(None));
    assert_eq!(s.stage(), Stage::Failed(HeatError::AdapterUnavailable));
    assert_eq!(s.pending(), Request::Nothing);
    assert_eq!(s.outcome(), Some(Err(HeatError::AdapterUnavailable)));
}

#[test]
fn a_software_adapter_fails_the_session() {
    for class in [DeviceClass::Cpu, DeviceClass::VirtualGpu, DeviceClass::Other] {
        let mut s = open(3, 3, 1);
        s.answer(Event::Adapter(Some(class)));
        assert_eq!(s.outcome(), Some(Err(HeatError::AdapterUnavailable)));
    }
}

#[test]
fn a_refused_device_fails_the_session() {
    let mut s = open(3, 3, 1);
    s.answer(Event::Adapter(Some(DeviceClass::DiscreteGpu)));
    s.answer(Event::Device(false));
    assert_eq!(s.stage(), Stage::Failed(HeatError::DeviceRequest));
    assert_eq!(s.outcome(), Some(Err(HeatError::DeviceRequest)));
}

#[test]
fn a_rejected_kernel_fails_the_session() {
    let mut s = open(3, 3, 1);
    s.answer(Event::Adapter(Some(DeviceClass::DiscreteGpu)));
    s.answer(Event::Device(true));
    s.answer(Event::Prepared(false));
    assert_eq!(s.stage(), Stage::Failed(HeatError::KernelCompile));
    assert_eq!(s.outcome(), Some(Err(HeatError::KernelCompile)));
}

#[test]
fn a_failed_mapping_fails_the_session() {
    let mut s = prepared(3, 3, 1);
    s.answer(Event::Recorded);
    s.answer(Event::Mapped(None));
    assert_eq!(s.stage(), Stage::Failed(HeatError::MappedRead));
    assert_eq!(s.outcome(), Some(Err(HeatError::MappedRead)));
}

#[test]
fn bytes_of_another_shape_fail_the_session() {
    for count in [0usize, 4, 35, 37, 40, 72] {
        let mut s = prepared(3, 3, 1);
        s.answer(Event::Recorded);
        s.answer(Event::Mapped(Some(vec![0u8; count])));
        assert_eq!(s.stage(), Stage::Failed(HeatError::ShapeReconstruction));
        assert_eq!(s.outcome(), Some(Err(HeatError::ShapeReconstruction)));
    }
}

#[test]
fn an_event_out_of_turn_fails_the_stage_under_way() {
    let mut s = open(3, 3, 1);
    s.answer(Event::Device(true));
    assert_eq!(s.stage(), Stage::Failed(HeatError::AdapterUnavailable));
    let mut s = open(3, 3, 1);
    s.answer(Event::Adapter(Some(DeviceClass::DiscreteGpu)));
    s.answer(Event::Recorded);
    assert_eq!(s.stage(), Stage::Failed(HeatError::DeviceRequest));
    let mut s = prepared(3, 3, 2);
    s.answer(Event::Mapped(Some(vec![0u8; 36])));
    assert_eq!(s.stage(), Stage::Failed(HeatError::MappedRead));
    let mut s = prepared(3, 3, 1);
    s.answer(Event::Recorded);
    s.answer(Event::Recorded);
    assert_eq!(s.stage(), Stage::Failed(HeatError::MappedRead));
}

#[test]
fn an_ended_session_takes_no_further_event() {
    let mut s = open(3, 3, 1);
    s.answer(Event::Adapter(None));
    s.answer(Event::Adapter(Some(DeviceClass::DiscreteGpu)));
    s.answer(Event::Device(true));
    assert_eq!(s.stage(), Stage::Failed(HeatError::AdapterUnavailable));
    let mut s = prepared(3, 3, 0);
    let bytes = s.contents().clone();
    s.answer(Event::Mapped(Some(bytes)));
    s.answer(Event::Mapped(None));
    s.answer(Event::Mapped(Some(vec![1u8; 36])));
    assert_eq!(s.stage(), Stage::Finished);
    assert_eq!(s.outcome(), Some(Ok(field(3, 3))));
}

#[test]
fn a_running_session_has_no_outcome() {
    assert_eq!(open(3, 3, 1).outcome(), None);
    assert_eq!(prepared(3, 3, 1).outcome(), None);
}
