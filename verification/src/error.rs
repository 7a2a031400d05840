use vstd::prelude::*;

verus! {

/// The distinct ways an evolution can fail. No failure yields a partial grid.
#[derive(Clone, Copy, Debug, PartialEq, Eq, Structural)]
pub enum HeatError {
    /// The field has no interior cell, or a grid spacing is zero.
    InputShape,
    /// No accelerator was found, or only a software or virtual one.
    AdapterUnavailable,
    /// The logical device and its queue could not be acquired.
    DeviceRequest,
    /// The fixed compute kernel failed to build.
    KernelCompile,
    /// The host-visible mapping of the result buffer failed.
    MappedRead,
    /// The bytes read back do not make up a grid of the expected shape.
    ShapeReconstruction,
}

impl HeatError {
    /// The text that describes the failure.
    pub open spec fn text(self) -> Seq<char> {
        match self {
            HeatError::InputShape => "the field needs three rows and three columns, and the spacings must not be zero"@,
            HeatError::AdapterUnavailable => "no hardware adapter is available"@,
            HeatError::DeviceRequest => "the request for a device failed"@,
            HeatError::KernelCompile => "the compute kernel could not be built"@,
            HeatError::MappedRead => "the result could not be read from the device"@,
            HeatError::ShapeReconstruction => "the data read back does not have the shape of the field"@,
        }
    }

    /// The text that describes the failure.
    pub fn message(&self) -> (r: &'static str)
        ensures
            r@ == self.text(),
    {
        match self {
            HeatError::InputShape => "the field needs three rows and three columns, and the spacings must not be zero",
            HeatError::AdapterUnavailable => "no hardware adapter is available",
            HeatError::DeviceRequest => "the request for a device failed",
            HeatError::KernelCompile => "the compute kernel could not be built",
            HeatError::MappedRead => "the result could not be read from the device",
            HeatError::ShapeReconstruction => "the data read back does not have the shape of the field",
        }
    }
}

} // verus!
