use vstd::prelude::*;

verus! {

/// How a resize is carried out.
#[derive(Clone, Copy, Debug, PartialEq, Eq, Structural)]
pub enum ResizeMode {
    /// Plain scaling with a sampling filter.
    Normal,
    /// Seam-based, content-aware resizing; the sampling filter is ignored.
    ContentAware,
}

/// The sampling filter used by a `ResizeMode::Normal` resize.
#[derive(Clone, Copy, Debug, PartialEq, Eq, Structural)]
pub enum SampleFilter {
    /// Not chosen by the client; the engine falls back to nearest-neighbour.
    Undefined,
    Nearest,
    Triangle,
    CatmullRom,
    Gaussian,
    Lanczos3,
}

/// One transform step.  A sequence of these, in client order, is what a spec
/// token encodes.
#[derive(Clone, Copy, Debug, PartialEq, Eq, Structural)]
pub enum Operation {
    /// Keep the rectangle `[x1, x2) x [y1, y2)` of the buffer.
    Crop { x1: u32, y1: u32, x2: u32, y2: u32 },
    /// Adjust per-pixel contrast by `level` (negative lowers it).
    Contrast { level: i16 },
    /// Mirror along the vertical axis.
    FlipH,
    /// Mirror along the horizontal axis.
    FlipV,
    /// Apply a named preset filter; kind 0 and unrecognized kinds are no-ops.
    Filter { kind: u32 },
    /// Produce a buffer of exactly `width` x `height`.
    Resize { width: u32, height: u32, mode: ResizeMode, sample: SampleFilter },
    /// Composite the fixed overlay image at offset `(x, y)`.
    Watermark { x: u32, y: u32 },
    /// An operation kind this version does not know; applying it is a no-op.
    Unknown { tag: u8 },
}

/// The wire tag of each known operation kind.
pub open spec fn spec_tag_of(op: Operation) -> u8 {
    match op {
        Operation::Crop { .. } => 1,
        Operation::Contrast { .. } => 2,
        Operation::FlipH => 3,
        Operation::FlipV => 4,
        Operation::Filter { .. } => 5,
        Operation::Resize { .. } => 6,
        Operation::Watermark { .. } => 7,
        Operation::Unknown { tag, .. } => tag,
    }
}

/// A constructible operation that survives the codec unchanged.  Only an
/// `Unknown` whose kind collides with a known wire tag is ruled out: its
/// encoding would be read back as that known kind.
pub open spec fn op_wf(op: Operation) -> bool {
    match op {
        Operation::Unknown { tag } => !(1 <= tag <= 7),
        _ => true,
    }
}

/// All operations of a sequence are well-formed.
pub open spec fn ops_wf(ops: Seq<Operation>) -> bool {
    forall|i: int| 0 <= i < ops.len() ==> #[trigger] op_wf(ops[i])
}

} // verus!
