use vstd::prelude::*;

verus! {

/// Common combinations of buffer usages of the compute backend.
#[derive(Debug, Clone, Copy, PartialEq, Eq, Structural)]
pub enum GpuBufferUsage {
    StageWrite,
    StageRead,
    Storage,
    Uniform,
}

} // verus!
