//! The values that recorded commands are made of: descriptions of resources,
//! of pipelines and of passes, in the terms of OpenGL.
use std::ops::Range;

use vstd::pervasive::unreached;
use vstd::prelude::*;
use wgpu_types as wgt;

use crate::flags::{AttachmentOps, BufferUses, FormatAspects, TextureUses};
use crate::floats::FloatBits;
use crate::gl;
use crate::webgpu::{default_color_writes, ALL_CHANNELS};

verus! {

/// The most vertex buffers that can be bound at a time.
pub const MAX_VERTEX_BUFFERS: usize = 16;

/// The most vertex attributes of a pipeline.
pub const MAX_VERTEX_ATTRIBUTES: usize = 16;

/// The most color targets of a pass.
pub const MAX_COLOR_TARGETS: usize = 4;

/// The most attachments that a pass can discard: the color targets, depth and
/// stencil.
pub const MAX_INVALIDATED: usize = 6;

/// The number of sampler slots.
pub const MAX_SAMPLERS: usize = 16;

/// The number of texture slots.
pub const MAX_TEXTURE_SLOTS: usize = 16;

/// The target that a resource is bound to.
pub type BindTarget = u32;

/// A place or a size in a buffer, in bytes.
pub type BufferAddress = u64;

/// An offset that is given when a bind group is set.
pub type DynamicOffset = u32;

/// `wgpu_types::TextureFormat`, the format of a texture's texels. Formats are
/// handed on to the commands that copy texels and never looked into.
#[verifier::external_type_specification]
#[verifier::external_body]
pub struct ExTextureFormat(wgt::TextureFormat);

/// Why recording can fail.
#[derive(Clone, Copy, Debug, PartialEq, Eq, Structural)]
pub enum DeviceError {
    OutOfMemory,
    Lost,
}

/// A size in texels.
#[derive(Clone, Copy, Debug, PartialEq, Eq, Structural)]
pub struct Extent3d {
    pub width: u32,
    pub height: u32,
    pub depth_or_array_layers: u32,
}

/// A place in a texture, in texels.
#[derive(Clone, Copy, Debug, PartialEq, Eq, Structural)]
pub struct Origin3d {
    pub x: u32,
    pub y: u32,
    pub z: u32,
}

/// The size of a copied region, in texels.
#[derive(Clone, Copy, Debug, PartialEq, Eq, Structural)]
pub struct CopyExtent {
    pub width: u32,
    pub height: u32,
    pub depth: u32,
}

/// A rectangle of a framebuffer.
#[derive(Debug, PartialEq, Eq)]
pub struct Rect<T> {
    pub x: T,
    pub y: T,
    pub w: T,
    pub h: T,
}

/// The format of indices.
#[derive(Clone, Copy, Debug, PartialEq, Eq, Structural)]
pub enum IndexFormat {
    Uint16,
    Uint32,
}

/// When a vertex buffer advances to its next element.
#[derive(Clone, Copy, Debug, PartialEq, Eq, Structural)]
pub enum InputStepMode {
    Vertex,
    Instance,
}

/// What sampling a texture yields.
#[derive(Clone, Copy, Debug, PartialEq, Eq, Structural)]
pub enum TextureSampleType {
    Float { filterable: bool },
    Depth,
    Sint,
    Uint,
}

// Resources
/// A buffer object, and the target that it is made for.
#[derive(Clone, Copy, Debug, PartialEq, Eq, Structural)]
pub struct Buffer {
    pub raw: u32,
    pub target: BindTarget,
}

/// The object behind a texture.
#[derive(Clone, Copy, Debug, PartialEq, Eq, Structural)]
pub enum TextureInner {
    Renderbuffer { raw: u32 },
    Texture { raw: u32, target: BindTarget },
}

impl TextureInner {
    /// The texture object, where there is one.
    pub open spec fn native(self) -> (u32, BindTarget) {
        (self->Texture_raw, self->Texture_target)
    }

    /// The texture object and its target.
    pub fn as_native(&self) -> (native: (u32, BindTarget))
        requires
            self is Texture,
        ensures
            native == self.native(),
    {
        match *self {
            TextureInner::Texture { raw, target } => (raw, target),
            TextureInner::Renderbuffer { .. } => unreached(),
        }
    }
}

/// A texture.
#[derive(Clone, Copy, Debug, PartialEq, Eq)]
pub struct Texture {
    pub inner: TextureInner,
    pub format: wgt::TextureFormat,
}

/// A part of a texture that can be attached to a framebuffer.
#[derive(Debug, PartialEq, Eq)]
pub struct TextureView {
    pub inner: TextureInner,
    pub sample_type: TextureSampleType,
    pub aspects: FormatAspects,
    pub mip_levels: Range<u32>,
    pub array_layers: Range<u32>,
}

impl Clone for TextureView {
    fn clone(&self) -> (copy: TextureView)
        ensures
            copy == *self,
    {
        TextureView {
            inner: self.inner,
            sample_type: self.sample_type,
            aspects: self.aspects,
            mip_levels: self.mip_levels.start..self.mip_levels.end,
            array_layers: self.array_layers.start..self.array_layers.end,
        }
    }
}

/// Query objects of one kind.
#[derive(Debug, PartialEq, Eq)]
pub struct QuerySet {
    pub queries: Vec<u32>,
    pub target: BindTarget,
}

// Barriers and copies
/// A change in how a buffer is used.
#[derive(Clone, Copy, Debug, PartialEq, Eq, Structural)]
pub struct BufferBarrier {
    pub buffer: Buffer,
    /// The use before the barrier.
    pub start: BufferUses,
    /// The use after it.
    pub end: BufferUses,
}

/// A change in how a texture is used.
#[derive(Clone, Copy, Debug, PartialEq, Eq, Structural)]
pub struct TextureBarrier {
    /// The use before the barrier.
    pub start: TextureUses,
    /// The use after it.
    pub end: TextureUses,
}

/// A region that is copied between buffers.
#[derive(Clone, Copy, Debug, PartialEq, Eq, Structural)]
pub struct BufferCopy {
    pub src_offset: BufferAddress,
    pub dst_offset: BufferAddress,
    pub size: BufferAddress,
}

/// The corner of a region of a texture.
#[derive(Clone, Copy, Debug, PartialEq, Eq, Structural)]
pub struct TextureCopyBase {
    pub mip_level: u32,
    pub array_layer: u32,
    pub origin: Origin3d,
    pub aspect: FormatAspects,
}

/// A region that is copied between textures.
#[derive(Clone, Copy, Debug, PartialEq, Eq, Structural)]
pub struct TextureCopy {
    pub src_base: TextureCopyBase,
    pub dst_base: TextureCopyBase,
    pub size: CopyExtent,
}

/// How texels lie in a buffer.
#[derive(Clone, Copy, Debug, PartialEq, Eq, Structural)]
pub struct ImageDataLayout {
    pub offset: BufferAddress,
    pub bytes_per_row: Option<u32>,
    pub rows_per_image: Option<u32>,
}

/// A region that is copied between a buffer and a texture.
#[derive(Clone, Copy, Debug, PartialEq, Eq, Structural)]
pub struct BufferTextureCopy {
    pub buffer_layout: ImageDataLayout,
    pub texture_base: TextureCopyBase,
    pub size: CopyExtent,
}

// Vertex input
/// How the elements of a vertex buffer are stepped through.
#[derive(Clone, Copy, Debug, PartialEq, Eq, Structural)]
pub struct VertexBufferDesc {
    pub step: InputStepMode,
    pub stride: u32,
}

/// A buffer object and the place in it where its data starts.
#[derive(Clone, Copy, Debug, PartialEq, Eq, Structural)]
pub struct BufferBinding {
    pub raw: u32,
    pub offset: BufferAddress,
}

/// A buffer to bind, from an offset on.
#[derive(Clone, Copy, Debug)]
pub struct BufferRegion<'a> {
    pub buffer: &'a Buffer,
    pub offset: BufferAddress,
}

/// How a shader sees a vertex attribute.
#[derive(Clone, Copy, Debug, PartialEq, Eq, Structural)]
pub enum VertexAttribKind {
    Float,
    Integer,
}

/// The format of a vertex attribute.
#[derive(Clone, Copy, Debug, PartialEq, Eq, Structural)]
pub struct VertexFormatDesc {
    pub element_count: i32,
    pub element_format: u32,
    pub attrib_kind: VertexAttribKind,
}

/// A vertex attribute, and the buffer that it is read from.
#[derive(Clone, Copy, Debug, PartialEq, Eq, Structural)]
pub struct AttributeDesc {
    pub location: u32,
    pub offset: u32,
    pub buffer_index: u32,
    pub format_desc: VertexFormatDesc,
}

// Fixed-function state
/// What becomes of stencil values.
#[derive(Clone, Copy, Debug, PartialEq, Eq, Structural)]
pub struct StencilOps {
    pub pass: u32,
    pub fail: u32,
    pub depth_fail: u32,
}

/// The stencil test of one polygon face.
#[derive(Clone, Copy, Debug, PartialEq, Eq, Structural)]
pub struct StencilSide {
    pub function: u32,
    pub mask_read: u32,
    pub mask_write: u32,
    pub reference: u32,
    pub ops: StencilOps,
}

/// The stencil test.
#[derive(Clone, Copy, Debug, PartialEq, Eq, Structural)]
pub struct StencilState {
    pub front: StencilSide,
    pub back: StencilSide,
}

/// The depth test.
#[derive(Clone, Copy, Debug, PartialEq, Eq, Structural)]
pub struct DepthState {
    pub function: u32,
    pub mask: bool,
}

/// What is added to depth values.
#[derive(Clone, Copy, Debug, PartialEq, Eq, Structural)]
pub struct DepthBiasState {
    pub constant: i32,
    pub slope_scale: FloatBits,
    pub clamp: FloatBits,
}

impl DepthBiasState {
    /// Whether the two biases consist of equal numbers.
    pub open spec fn same_bias(self, other: DepthBiasState) -> bool {
        &&& self.constant == other.constant
        &&& self.slope_scale.same_number(other.slope_scale)
        &&& self.clamp.same_number(other.clamp)
    }

    /// Whether the two biases consist of equal numbers.
    pub fn equals(self, other: DepthBiasState) -> (yes: bool)
        ensures
            yes == self.same_bias(other),
    {
        self.constant == other.constant && self.slope_scale.equals(other.slope_scale)
            && self.clamp.equals(other.clamp)
    }
}

/// Culling and clipping.
#[derive(Clone, Copy, Debug, PartialEq, Eq, Structural)]
pub struct PrimitiveState {
    pub front_face: u32,
    pub cull_face: u32,
    pub clamp_depth: bool,
}

/// The color channels that are written.
#[derive(Clone, Copy, Debug, PartialEq, Eq, Structural)]
pub struct ColorWrites {
    pub bits: u32,
}

/// How one channel group of a color target is blended.
#[derive(Clone, Copy, Debug, PartialEq, Eq, Structural)]
pub struct BlendComponent {
    pub src: u32,
    pub dst: u32,
    pub equation: u32,
}

/// How a color target is blended.
#[derive(Clone, Copy, Debug, PartialEq, Eq, Structural)]
pub struct BlendDesc {
    pub alpha: BlendComponent,
    pub color: BlendComponent,
}

/// How a color target is written.
#[derive(Clone, Copy, Debug, PartialEq, Eq, Structural)]
pub struct ColorTargetDesc {
    pub mask: ColorWrites,
    pub blend: Option<BlendDesc>,
}

// Bindings
/// The kind of a buffer binding.
#[derive(Clone, Copy, Debug, PartialEq, Eq, Structural)]
pub enum BufferBindingType {
    Uniform,
    Storage { read_only: bool },
}

/// The kind of a binding.
#[derive(Clone, Copy, Debug, PartialEq, Eq, Structural)]
pub enum BindingType {
    Buffer { ty: BufferBindingType, has_dynamic_offset: bool },
    Sampler,
    Texture,
    StorageTexture,
}

/// A binding of a bind group layout.
#[derive(Clone, Copy, Debug, PartialEq, Eq, Structural)]
pub struct BindGroupLayoutEntry {
    pub binding: u32,
    pub ty: BindingType,
}

/// One bind group of a pipeline layout.
#[derive(Debug, PartialEq, Eq)]
pub struct BindGroupLayoutInfo {
    pub entries: Vec<BindGroupLayoutEntry>,
    /// The slot of each binding in the whole pipeline layout, indexed by the
    /// binding's number.
    pub binding_to_slot: Vec<u8>,
}

/// The bind groups that a pipeline uses.
#[derive(Debug, PartialEq, Eq)]
pub struct PipelineLayout {
    pub group_infos: Vec<BindGroupLayoutInfo>,
}

/// A texture that is bound as a storage image.
#[derive(Clone, Copy, Debug, PartialEq, Eq, Structural)]
pub struct ImageBinding {
    pub raw: u32,
    pub mip_level: u32,
    pub array_layer: Option<u32>,
    pub access: u32,
    pub format: u32,
}

/// A resource of a bind group.
#[derive(Clone, Copy, Debug, PartialEq, Eq, Structural)]
pub enum RawBinding {
    Buffer { raw: u32, offset: i32, size: i32 },
    Texture { raw: u32, target: BindTarget },
    Image(ImageBinding),
    Sampler(u32),
}

/// Resources to bind together, in the order of the layout's entries.
#[derive(Debug, PartialEq, Eq)]
pub struct BindGroup {
    pub contents: Vec<RawBinding>,
}

/// What a texture slot holds, and the sampler it is sampled with.
#[derive(Clone, Copy, Debug, PartialEq, Eq, Structural)]
pub struct TextureSlotDesc {
    pub tex_target: BindTarget,
    pub sampler_index: Option<u8>,
}

// Pipelines
/// The program of a pipeline.
#[derive(Clone, Copy, Debug, PartialEq, Eq)]
pub struct PipelineInner {
    pub program: u32,
    /// For each texture slot, the only sampler that the program uses with it.
    pub sampler_map: [Option<u8>; MAX_TEXTURE_SLOTS],
}

/// A render pipeline.
#[derive(Debug, PartialEq, Eq)]
pub struct RenderPipeline {
    pub inner: PipelineInner,
    /// The kind of primitives that are drawn, as an OpenGL enumerant.
    pub topology: u32,
    pub primitive: PrimitiveState,
    pub vertex_buffers: Vec<VertexBufferDesc>,
    pub vertex_attributes: Vec<AttributeDesc>,
    pub color_targets: Vec<ColorTargetDesc>,
    pub depth: Option<DepthState>,
    pub depth_bias: DepthBiasState,
    pub stencil: Option<StencilState>,
}

/// A compute pipeline.
#[derive(Debug, PartialEq, Eq)]
pub struct ComputePipeline {
    pub inner: PipelineInner,
}

// Passes
/// A color, converted for each kind of color target.
#[derive(Clone, Copy, Debug, PartialEq, Eq)]
pub struct ClearColor {
    pub float: [FloatBits; 4],
    pub uint: [u32; 4],
    pub sint: [i32; 4],
}

/// What is attached to a framebuffer.
#[derive(Debug, PartialEq, Eq)]
pub struct Attachment {
    pub view: TextureView,
}

/// A color attachment of a render pass.
#[derive(Debug, PartialEq, Eq)]
pub struct ColorAttachment {
    pub target: Attachment,
    pub resolve_target: Option<Attachment>,
    pub ops: AttachmentOps,
    pub clear_value: ClearColor,
}

/// The depth and stencil attachment of a render pass.
#[derive(Debug, PartialEq, Eq)]
pub struct DepthStencilAttachment {
    pub target: Attachment,
    pub depth_ops: AttachmentOps,
    pub stencil_ops: AttachmentOps,
    pub clear_value: (FloatBits, u32),
}

/// A render pass.
#[derive(Clone, Copy, Debug)]
pub struct RenderPassDescriptor<'a> {
    pub label: Option<&'a str>,
    pub extent: Extent3d,
    pub color_attachments: &'a [ColorAttachment],
    pub depth_stencil_attachment: Option<&'a DepthStencilAttachment>,
}

/// A compute pass.
#[derive(Clone, Copy, Debug)]
pub struct ComputePassDescriptor<'a> {
    pub label: Option<&'a str>,
}

// Initial values
impl Default for StencilOps {
    fn default() -> (ops: StencilOps)
        ensures
            ops == (StencilOps { pass: gl::KEEP, fail: gl::KEEP, depth_fail: gl::KEEP }),
    {
        StencilOps { pass: gl::keep(), fail: gl::keep(), depth_fail: gl::keep() }
    }
}

/// The stencil test of a face before any is set: it always passes.
pub open spec fn initial_stencil_side() -> StencilSide {
    StencilSide {
        function: gl::ALWAYS,
        mask_read: 0xFF,
        mask_write: 0xFF,
        reference: 0,
        ops: StencilOps { pass: gl::KEEP, fail: gl::KEEP, depth_fail: gl::KEEP },
    }
}

impl Default for StencilSide {
    fn default() -> (side: StencilSide)
        ensures
            side == initial_stencil_side(),
    {
        StencilSide {
            function: gl::always(),
            mask_read: 0xFF,
            mask_write: 0xFF,
            reference: 0,
            ops: StencilOps::default(),
        }
    }
}

/// Culling and clipping before any is set.
pub open spec fn initial_primitive() -> PrimitiveState {
    PrimitiveState { front_face: 0, cull_face: 0, clamp_depth: false }
}

impl Default for PrimitiveState {
    fn default() -> (primitive: PrimitiveState)
        ensures
            primitive == initial_primitive(),
    {
        PrimitiveState { front_face: 0, cull_face: 0, clamp_depth: false }
    }
}

/// How a color target is written where nothing is said of it: every channel is,
/// without blending.
pub open spec fn initial_color_target() -> ColorTargetDesc {
    ColorTargetDesc { mask: ColorWrites { bits: ALL_CHANNELS }, blend: None }
}

impl Default for ColorTargetDesc {
    fn default() -> (target: ColorTargetDesc)
        ensures
            target == initial_color_target(),
    {
        ColorTargetDesc { mask: default_color_writes(), blend: None }
    }
}

} // verus!
