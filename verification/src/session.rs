use vstd::prelude::*;
use vstd::endian::endianness;
use crate::error::HeatError;
use crate::grid::{Field, Grid};
use crate::params::ParameterPack;
use crate::words::{
    bytes_of_words, field_bytes, fits_shape, lemma_field_round_trip, reconstruct, words_of_bytes,
};

verus! {

/// The class of device that an adapter reports.
#[derive(Clone, Copy, Debug, PartialEq, Eq, Structural)]
pub enum DeviceClass {
    Other,
    IntegratedGpu,
    DiscreteGpu,
    VirtualGpu,
    Cpu,
}

/// The adapter is hardware of its own, not an emulation or a virtual device.
pub open spec fn genuine(class: DeviceClass) -> bool {
    class == DeviceClass::IntegratedGpu || class == DeviceClass::DiscreteGpu
}

/// Whether the adapter is hardware of its own. A session runs on no other.
pub fn is_genuine(class: DeviceClass) -> (r: bool)
    ensures
        r == genuine(class),
{
    match class {
        DeviceClass::IntegratedGpu => true,
        DeviceClass::DiscreteGpu => true,
        DeviceClass::Other => false,
        DeviceClass::VirtualGpu => false,
        DeviceClass::Cpu => false,
    }
}

/// Where a session stands: what it waits for, or how it ended.
#[derive(Clone, Copy, Debug, PartialEq, Eq, Structural)]
pub enum Stage {
    /// An adapter has to be found.
    AwaitAdapter,
    /// The adapter has to grant a device and a queue.
    AwaitDevice,
    /// The buffers have to be allocated and the kernel built.
    AwaitKernel,
    /// Passes are being recorded; the number tells how many already are.
    Recording(u64),
    /// The work has to be submitted and the staging buffer mapped.
    AwaitReadback,
    /// The evolved grid is there.
    Finished,
    /// The session failed with the given error.
    Failed(HeatError),
}

/// What the driver of a session has to do next.
#[derive(Clone, Copy, Debug, PartialEq, Eq, Structural)]
pub enum Request {
    /// Request an adapter and report the class of its device.
    Adapter,
    /// Request a device and its queue from the adapter.
    Device,
    /// Allocate the current and the next buffer, both with the session's
    /// contents, the parameter buffer with the session's parameters, and a
    /// host-visible staging buffer of `bytes` bytes; build the kernel and
    /// bind the first three buffers to it.
    Prepare { bytes: u64 },
    /// Record one dispatch of `x` by `y` work items, then a copy of `bytes`
    /// bytes from the next buffer to the current one.
    Record { x: u32, y: u32, bytes: u64 },
    /// Record a copy of `bytes` bytes from the next buffer to the staging
    /// buffer, submit all recorded work, map the staging buffer for reading
    /// and wait for the mapping.
    Readback { bytes: u64 },
    /// The session has ended: there is nothing left to do.
    Nothing,
}

/// What the driver reports back after it has served a request.
#[derive(Debug, PartialEq, Eq)]
pub enum Event {
    /// The class of the adapter that was found, or none if there is none.
    Adapter(Option<DeviceClass>),
    /// Whether the device and its queue were granted.
    Device(bool),
    /// Whether the kernel was built.
    Prepared(bool),
    /// One pass was recorded.
    Recorded,
    /// The bytes of the mapped staging buffer, or none if the mapping failed.
    Mapped(Option<Vec<u8>>),
}

/// The mathematical model of a session.
pub ghost struct SessionState {
    pub stage: Stage,
    pub rows: nat,
    pub cols: nat,
    /// The initial contents of the current and the next buffer.
    pub contents: Seq<u8>,
    /// The words of the parameter pack.
    pub params: Seq<u32>,
    pub iterations: u64,
    /// The evolved field, once the session has finished.
    pub result: Option<Field<u32>>,
}

impl SessionState {
    /// The state of a session that has just been opened on `field`.
    pub open spec fn fresh(
        field: Field<u32>,
        dx2: u32,
        dy2: u32,
        diffusion: u32,
        dt: u32,
        iterations: u64,
    ) -> SessionState {
        SessionState {
            stage: Stage::AwaitAdapter,
            rows: field.rows,
            cols: field.cols,
            contents: bytes_of_words(field.cells, endianness()),
            params: ParameterPack::layout_of(dx2, dy2, diffusion, dt, field.cols as u32),
            iterations,
            result: None,
        }
    }

    /// The shape has an interior and fits a dispatch, the contents are those
    /// of the shape, the parameters name the row length, fewer passes are
    /// recorded than are asked for, and there is a result if and only if the
    /// session has finished.
    pub open spec fn wf(self) -> bool {
        &&& 3 <= self.rows <= u32::MAX
        &&& 3 <= self.cols <= u32::MAX
        &&& fits_shape(self.rows, self.cols, self.contents)
        &&& self.contents.len() <= u64::MAX
        &&& self.params.len() == 6
        &&& self.params[4] == self.cols
        &&& self.params[5] == 0
        &&& (self.stage matches Stage::Recording(recorded) ==> recorded < self.iterations)
        &&& (self.stage == Stage::Finished <==> self.result is Some)
        &&& (self.result matches Some(field) ==> field.wf() && field.rows == self.rows && field.cols
            == self.cols)
    }

    /// The session has finished or failed.
    pub open spec fn ended(self) -> bool {
        self.stage == Stage::Finished || self.stage is Failed
    }

    /// The error of a failure at the stage that is under way.
    pub open spec fn stage_error(self) -> HeatError {
        match self.stage {
            Stage::AwaitAdapter => HeatError::AdapterUnavailable,
            Stage::AwaitDevice => HeatError::DeviceRequest,
            Stage::AwaitKernel => HeatError::KernelCompile,
            Stage::Failed(error) => error,
            _ => HeatError::MappedRead,
        }
    }

    /// The event reports the success of the stage that is under way.
    pub open spec fn succeeds(self, event: Event) -> bool {
        match self.stage {
            Stage::AwaitAdapter => (event matches Event::Adapter(Some(class)) && genuine(class)),
            Stage::AwaitDevice => (event matches Event::Device(granted) && granted),
            Stage::AwaitKernel => (event matches Event::Prepared(built) && built),
            Stage::Recording(_) => event is Recorded,
            Stage::AwaitReadback => event matches Event::Mapped(Some(_)),
            _ => false,
        }
    }

    /// The session with the given stage and no result.
    pub open spec fn at_stage(self, stage: Stage) -> SessionState {
        SessionState { stage, result: None, ..self }
    }

    /// The state after the driver has reported `event`.
    ///
    /// A session that has ended stays as it is. An event that does not
    /// report the success of the stage under way fails the session with
    /// the error of that stage. Bytes read back that are not those of a
    /// grid of the session's shape fail it too.
    pub open spec fn after(self, event: Event) -> SessionState {
        if self.ended() {
            self
        } else if !self.succeeds(event) {
            self.at_stage(Stage::Failed(self.stage_error()))
        } else {
            match self.stage {
                Stage::AwaitAdapter => self.at_stage(Stage::AwaitDevice),
                Stage::AwaitDevice => self.at_stage(Stage::AwaitKernel),
                Stage::AwaitKernel => if self.iterations == 0 {
                    self.at_stage(Stage::AwaitReadback)
                } else {
                    self.at_stage(Stage::Recording(0))
                },
                Stage::Recording(recorded) => if recorded + 1 < self.iterations {
                    self.at_stage(Stage::Recording((recorded + 1) as u64))
                } else {
                    self.at_stage(Stage::AwaitReadback)
                },
                _ => {
                    let bytes = event->Mapped_0->Some_0@;
                    if fits_shape(self.rows, self.cols, bytes) {
                        SessionState {
                            stage: Stage::Finished,
                            result: Some(
                                Field {
                                    rows: self.rows,
                                    cols: self.cols,
                                    cells: words_of_bytes(bytes, endianness()),
                                },
                            ),
                            ..self
                        }
                    } else {
                        self.at_stage(Stage::Failed(HeatError::ShapeReconstruction))
                    }
                },
            }
        }
    }

    /// What the driver has to do in this state. The dispatch covers the
    /// interior: two fewer work items than cells along each axis.
    pub open spec fn request(self) -> Request {
        match self.stage {
            Stage::AwaitAdapter => Request::Adapter,
            Stage::AwaitDevice => Request::Device,
            Stage::AwaitKernel => Request::Prepare { bytes: self.contents.len() as u64 },
            Stage::Recording(_) => Request::Record {
                x: (self.cols - 2) as u32,
                y: (self.rows - 2) as u32,
                bytes: self.contents.len() as u64,
            },
            Stage::AwaitReadback => Request::Readback { bytes: self.contents.len() as u64 },
            _ => Request::Nothing,
        }
    }
}

impl SessionState {
    /// The state after `times` reports of a recorded pass.
    pub open spec fn recorded(self, times: nat) -> SessionState
        decreases times,
    {
        if times == 0 {
            self
        } else {
            self.recorded((times - 1) as nat).after(Event::Recorded)
        }
    }

    /// The state after all the given events, first to last.
    pub open spec fn after_all(self, events: Seq<Event>) -> SessionState
        decreases events.len(),
    {
        if events.len() == 0 {
            self
        } else {
            self.after_all(events.drop_last()).after(events.last())
        }
    }

    /// Every event leaves a well-formed state well-formed. So a state
    /// holds a result only when the session has finished.
    pub proof fn lemma_after_wf(self, event: Event)
        requires
            self.wf(),
        ensures
            self.after(event).wf(),
            self.after(event).result is Some <==> self.after(event).stage == Stage::Finished,
    {
    }

    /// A session that has ended takes no further event: neither a result
    /// nor an error is ever replaced.
    pub proof fn lemma_ended_stays(self, events: Seq<Event>)
        requires
            self.ended(),
        ensures
            self.after_all(events) == self,
        decreases events.len(),
    {
        if events.len() > 0 {
            self.lemma_ended_stays(events.drop_last());
        }
    }

    /// An event that does not report success fails the session at once, with
    /// the error of the stage that was under way and without a result.
    pub proof fn lemma_failure_surfaces(self, event: Event)
        requires
            !self.ended(),
            !self.succeeds(event),
        ensures
            self.after(event).stage == Stage::Failed(self.stage_error()),
            self.after(event).result is None,
            self.after(event).request() == Request::Nothing,
    {
    }

    /// A session asks for exactly as many passes as were asked of it: after
    /// fewer reports of a recorded pass it asks for another one, and after
    /// the last it asks for the readback.
    pub proof fn lemma_passes_counted(self, times: nat)
        requires
            self.wf(),
            self.stage == Stage::Recording(0),
            times <= self.iterations,
        ensures
            self.recorded(times).wf(),
            self.recorded(times) == self.at_stage(self.recorded(times).stage),
            times < self.iterations ==> self.recorded(times).stage == Stage::Recording(times as u64)
                && self.recorded(times).request() is Record,
            times == self.iterations ==> self.recorded(times).stage == Stage::AwaitReadback
                && self.recorded(times).request() is Readback,
        decreases times,
    {
        if times > 0 {
            self.lemma_passes_counted((times - 1) as nat);
        }
    }

    /// A session opened on a well-formed field that it can take is
    /// well-formed.
    pub proof fn lemma_fresh_wf(
        field: Field<u32>,
        dx2: u32,
        dy2: u32,
        diffusion: u32,
        dt: u32,
        iterations: u64,
    )
        requires
            field.wf(),
            !unfit(field),
            4 * field.cells.len() <= u64::MAX,
        ensures
            Self::fresh(field, dx2, dy2, diffusion, dt, iterations).wf(),
    {
    }

    /// Reading back what was uploaded gives back the field: if the staging
    /// buffer holds the session's initial contents, the session finishes
    /// with the field it was opened on.
    pub proof fn lemma_readback_of_contents(
        field: Field<u32>,
        dx2: u32,
        dy2: u32,
        diffusion: u32,
        dt: u32,
        iterations: u64,
        bytes: Vec<u8>,
    )
        requires
            field.wf(),
            bytes@ == Self::fresh(field, dx2, dy2, diffusion, dt, iterations).contents,
        ensures
            Self::fresh(field, dx2, dy2, diffusion, dt, iterations).at_stage(
                Stage::AwaitReadback,
            ).after(Event::Mapped(Some(bytes))).stage == Stage::Finished,
            Self::fresh(field, dx2, dy2, diffusion, dt, iterations).at_stage(
                Stage::AwaitReadback,
            ).after(Event::Mapped(Some(bytes))).result == Some(field),
    {
        lemma_field_round_trip(field, endianness());
    }
}

/// The plan of one accelerated evolution. The session decides; its driver
/// serves each request on the device and reports what came of it.
#[derive(Debug)]
pub struct Session {
    stage: Stage,
    rows: usize,
    cols: usize,
    contents: Vec<u8>,
    pack: ParameterPack,
    iterations: u64,
    result: Option<Grid<u32>>,
}

impl View for Session {
    type V = SessionState;

    closed spec fn view(&self) -> SessionState {
        SessionState {
            stage: self.stage,
            rows: self.rows as nat,
            cols: self.cols as nat,
            contents: self.contents@,
            params: self.pack.layout(),
            iterations: self.iterations,
            result: match self.result {
                Some(grid) => Some(grid@),
                None => None,
            },
        }
    }
}

/// The fields that a session cannot take: one without an interior cell, or
/// with more rows or columns than a dispatch can count.
pub open spec fn unfit(field: Field<u32>) -> bool {
    field.rows < 3 || field.cols < 3 || field.rows > u32::MAX || field.cols > u32::MAX
}

impl Session {
    /// Opens a session that evolves `field` by `iterations` passes. The
    /// squared spacings, the diffusion coefficient and the time step are
    /// binary32 bit patterns, as the cells of the field are.
    pub fn new(
        field: &Grid<u32>,
        dx2: u32,
        dy2: u32,
        diffusion: u32,
        dt: u32,
        iterations: u64,
    ) -> (r: Result<Session, HeatError>)
        requires
            field@.wf(),
        ensures
            r is Err <==> unfit(field@),
            r is Err ==> r matches Err(HeatError::InputShape),
            r is Ok ==> r.unwrap()@ == SessionState::fresh(
                field@,
                dx2,
                dy2,
                diffusion,
                dt,
                iterations,
            ) && r.unwrap()@.wf(),
    {
        let rows: usize = field.rows();
        let cols: usize = field.cols();
        if rows < 3 || cols < 3 || rows > u32::MAX as usize || cols > u32::MAX as usize {
            return Err(HeatError::InputShape);
        }
        let contents = field_bytes(field);
        let pack = ParameterPack::new(dx2, dy2, diffusion, dt, cols as u32);
        assert(contents.len() == contents@.len());
        Ok(Session { stage: Stage::AwaitAdapter, rows, cols, contents, pack, iterations, result: None })
    }

    /// Where the session stands.
    pub fn stage(&self) -> (r: Stage)
        ensures
            r == self@.stage,
    {
        self.stage
    }

    /// The number of rows of the field.
    pub fn rows(&self) -> (r: usize)
        ensures
            r == self@.rows,
    {
        self.rows
    }

    /// The number of columns of the field.
    pub fn cols(&self) -> (r: usize)
        ensures
            r == self@.cols,
    {
        self.cols
    }

    /// The number of passes asked for.
    pub fn iterations(&self) -> (r: u64)
        ensures
            r == self@.iterations,
    {
        self.iterations
    }

    /// The initial contents of the current and the next buffer.
    pub fn contents(&self) -> (r: &Vec<u8>)
        ensures
            r@ == self@.contents,
    {
        &self.contents
    }

    /// The contents of the parameter buffer.
    pub fn params(&self) -> (r: Vec<u8>)
        ensures
            r@ == bytes_of_words(self@.params, endianness()),
            r@.len() == 4 * self@.params.len(),
    {
        self.pack.to_bytes()
    }

    /// What the driver has to do next.
    pub fn pending(&self) -> (r: Request)
        requires
            self@.wf(),
        ensures
            r == self@.request(),
    {
        let bytes: u64 = self.contents.len() as u64;
        match self.stage {
            Stage::AwaitAdapter => Request::Adapter,
            Stage::AwaitDevice => Request::Device,
            Stage::AwaitKernel => Request::Prepare { bytes },
            Stage::Recording(_) => Request::Record {
                x: (self.cols - 2) as u32,
                y: (self.rows - 2) as u32,
                bytes,
            },
            Stage::AwaitReadback => Request::Readback { bytes },
            Stage::Finished => Request::Nothing,
            Stage::Failed(_) => Request::Nothing,
        }
    }

    /// Takes the driver's report on the request that was pending.
    pub fn answer(&mut self, event: Event)
        requires
            old(self)@.wf(),
        ensures
            final(self)@ == old(self)@.after(event),
            final(self)@.wf(),
    {
        match self.stage {
            Stage::AwaitAdapter => {
                self.stage = match event {
                    Event::Adapter(Some(class)) => if is_genuine(class) {
                        Stage::AwaitDevice
                    } else {
                        Stage::Failed(HeatError::AdapterUnavailable)
                    },
                    _ => Stage::Failed(HeatError::AdapterUnavailable),
                };
            },
            Stage::AwaitDevice => {
                self.stage = match event {
                    Event::Device(true) => Stage::AwaitKernel,
                    _ => Stage::Failed(HeatError::DeviceRequest),
                };
            },
            Stage::AwaitKernel => {
                self.stage = match event {
                    Event::Prepared(true) => if self.iterations == 0 {
                        Stage::AwaitReadback
                    } else {
                        Stage::Recording(0)
                    },
                    _ => Stage::Failed(HeatError::KernelCompile),
                };
            },
            Stage::Recording(recorded) => {
                self.stage = match event {
                    Event::Recorded => if recorded + 1 < self.iterations {
                        Stage::Recording(recorded + 1)
                    } else {
                        Stage::AwaitReadback
                    },
                    _ => Stage::Failed(HeatError::MappedRead),
                };
            },
            Stage::AwaitReadback => {
                match event {
                    Event::Mapped(Some(bytes)) => {
                        match reconstruct(self.rows, self.cols, &bytes) {
                            Ok(grid) => {
                                self.result = Some(grid);
                                self.stage = Stage::Finished;
                            },
                            Err(_) => {
                                self.stage = Stage::Failed(HeatError::ShapeReconstruction);
                            },
                        }
                    },
                    _ => {
                        self.stage = Stage::Failed(HeatError::MappedRead);
                    },
                }
            },
            Stage::Finished => {},
            Stage::Failed(_) => {},
        }
    }

    /// How the session ended: the evolved grid or the error, and nothing
    /// while it has not ended.
    pub fn outcome(self) -> (r: Option<Result<Grid<u32>, HeatError>>)
        requires
            self@.wf(),
        ensures
            r is Some <==> self@.ended(),
            self@.stage matches Stage::Failed(error) ==> r == Some(
                Err::<Grid<u32>, HeatError>(error),
            ),
            self@.stage == Stage::Finished ==> (r matches Some(Ok(grid)) && Some(grid@)
                == self@.result),
    {
        match self.stage {
            Stage::Finished => match self.result {
                Some(grid) => Some(Ok(grid)),
                None => None,
            },
            Stage::Failed(error) => Some(Err(error)),
            _ => None,
        }
    }
}

} // verus!
