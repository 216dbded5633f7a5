//! The initial values and the sizes that come from `wgpu_types`.
use vstd::prelude::*;
use wgpu_types as wgt;

use crate::floats::FloatBits;
use crate::types::{ColorWrites, DepthBiasState, Extent3d, IndexFormat, InputStepMode};

verus! {

/// The bits of every color channel.
pub const ALL_CHANNELS: u32 = 0xF;

/// The size of the arguments of an indirect draw, in bytes.
pub const DRAW_INDIRECT_ARGS_SIZE: u64 = 16;

/// The size of the arguments of an indexed indirect draw, in bytes.
pub const DRAW_INDEXED_INDIRECT_ARGS_SIZE: u64 = 20;

/// The extent that nothing has set yet: a single texel.
pub open spec fn initial_extent() -> Extent3d {
    Extent3d { width: 1, height: 1, depth_or_array_layers: 1 }
}

/// The bias that nothing has set yet: none.
pub open spec fn initial_depth_bias() -> DepthBiasState {
    DepthBiasState {
        constant: 0,
        slope_scale: FloatBits { bits: 0 },
        clamp: FloatBits { bits: 0 },
    }
}

/// Calls `wgpu_types::Extent3d::default`, which is 1 in each dimension.
#[verifier::external_body]
pub(crate) fn default_extent() -> (extent: Extent3d)
    ensures
        extent == initial_extent(),
{
    let extent = wgt::Extent3d::default();
    Extent3d {
        width: extent.width,
        height: extent.height,
        depth_or_array_layers: extent.depth_or_array_layers,
    }
}

/// Calls `wgpu_types::IndexFormat::default`, which is `Uint32`.
#[verifier::external_body]
pub(crate) fn default_index_format() -> (format: IndexFormat)
    ensures
        format == IndexFormat::Uint32,
{
    match wgt::IndexFormat::default() {
        wgt::IndexFormat::Uint16 => IndexFormat::Uint16,
        wgt::IndexFormat::Uint32 => IndexFormat::Uint32,
    }
}

/// Calls `wgpu_types::VertexStepMode::default`, which is `Vertex`.
#[verifier::external_body]
pub(crate) fn default_step_mode() -> (step: InputStepMode)
    ensures
        step == InputStepMode::Vertex,
{
    match wgt::VertexStepMode::default() {
        wgt::VertexStepMode::Vertex => InputStepMode::Vertex,
        wgt::VertexStepMode::Instance => InputStepMode::Instance,
    }
}

/// Calls `wgpu_types::ColorWrites::default`, which holds the four channels, the
/// lowest four bits.
#[verifier::external_body]
pub(crate) fn default_color_writes() -> (writes: ColorWrites)
    ensures
        writes.bits == ALL_CHANNELS,
{
    ColorWrites { bits: wgt::ColorWrites::default().bits() }
}

/// Calls `wgpu_types::DepthBiasState::default`, which is derived: each number
/// of it is zero, and positive zero has no bit set.
#[verifier::external_body]
pub(crate) fn default_depth_bias() -> (bias: DepthBiasState)
    ensures
        bias == initial_depth_bias(),
{
    let bias = wgt::DepthBiasState::default();
    DepthBiasState {
        constant: bias.constant,
        slope_scale: FloatBits { bits: bias.slope_scale.to_bits() },
        clamp: FloatBits { bits: bias.clamp.to_bits() },
    }
}

/// The size of `wgpu_types::DrawIndirectArgs`, which is laid out as in C and
/// made of four 32-bit integers.
#[verifier::external_body]
pub(crate) fn draw_indirect_args_size() -> (size: u64)
    ensures
        size == DRAW_INDIRECT_ARGS_SIZE,
{
    std::mem::size_of::<wgt::DrawIndirectArgs>() as u64
}

/// The size of `wgpu_types::DrawIndexedIndirectArgs`, which is laid out as in C
/// and made of five 32-bit integers.
#[verifier::external_body]
pub(crate) fn draw_indexed_indirect_args_size() -> (size: u64)
    ensures
        size == DRAW_INDEXED_INDIRECT_ARGS_SIZE,
{
    std::mem::size_of::<wgt::DrawIndexedIndirectArgs>() as u64
}

} // verus!
