//! Recorded commands, and the buffers that they are recorded into.
use std::ops::Range;

use vstd::prelude::*;
use vstd::utf8::encode_utf8;
use wgpu_types as wgt;

use crate::flags::{BufferUses, FormatAspects, TextureUses};
use crate::floats::FloatBits;
use crate::lists::{invalidated_of, Invalidated};
use crate::types::{
    AttributeDesc, BindTarget, BufferAddress, BufferBinding, BufferCopy, BufferTextureCopy,
    ColorTargetDesc, DepthBiasState, DepthState, Extent3d, ImageBinding, PrimitiveState, Rect,
    StencilOps, TextureCopy, TextureView, VertexBufferDesc,
};

verus! {

/// A call, or a few, that a queue makes into OpenGL when it executes the
/// buffer. `A` is what lists of attachments are held in.
#[allow(inconsistent_fields)]
#[derive(Debug, PartialEq)]
pub enum Command<A> {
    /// Draws vertices.
    Draw { topology: u32, start_vertex: u32, vertex_count: u32, instance_count: u32 },
    /// Draws vertices through the bound index buffer.
    DrawIndexed {
        topology: u32,
        index_type: u32,
        index_offset: BufferAddress,
        index_count: u32,
        base_vertex: i32,
        instance_count: u32,
    },
    /// Draws with arguments from a buffer.
    DrawIndirect { topology: u32, indirect_buf: u32, indirect_offset: BufferAddress },
    /// Draws indexed, with arguments from a buffer.
    DrawIndexedIndirect {
        topology: u32,
        index_type: u32,
        indirect_buf: u32,
        indirect_offset: BufferAddress,
    },
    /// Runs a compute program on a grid of work groups.
    Dispatch([u32; 3]),
    /// Runs a compute program on a grid whose size is in a buffer.
    DispatchIndirect { indirect_buf: u32, indirect_offset: BufferAddress },
    /// Sets the bytes of a range of a buffer.
    FillBuffer { dst: u32, dst_target: BindTarget, range: Range<BufferAddress>, value: u8 },
    CopyBufferToBuffer {
        src: u32,
        src_target: BindTarget,
        dst: u32,
        dst_target: BindTarget,
        copy: BufferCopy,
    },
    CopyTextureToTexture {
        src: u32,
        src_target: BindTarget,
        dst: u32,
        dst_target: BindTarget,
        copy: TextureCopy,
    },
    CopyBufferToTexture {
        src: u32,
        src_target: BindTarget,
        dst: u32,
        dst_target: BindTarget,
        dst_format: wgt::TextureFormat,
        copy: BufferTextureCopy,
    },
    CopyTextureToBuffer {
        src: u32,
        src_target: BindTarget,
        src_format: wgt::TextureFormat,
        dst: u32,
        dst_target: BindTarget,
        copy: BufferTextureCopy,
    },
    SetIndexBuffer(u32),
    BeginQuery(u32, BindTarget),
    EndQuery(BindTarget),
    /// Writes the results of the queries in a range of the data words to a buffer.
    CopyQueryResults {
        query_range: Range<u32>,
        dst: u32,
        dst_target: BindTarget,
        dst_offset: BufferAddress,
    },
    ResetFramebuffer,
    BindAttachment { attachment: u32, view: TextureView },
    /// Resolves an attachment into a texture.
    ResolveAttachment { attachment: u32, dst: TextureView, size: Extent3d },
    /// Discards the contents of attachments.
    InvalidateAttachments(A),
    /// Sets how many color attachments are drawn to.
    SetDrawColorBuffers(u8),
    /// Clears a color target of a floating-point format.
    ClearColorF(u32, [FloatBits; 4]),
    /// Clears a color target of an unsigned format.
    ClearColorU(u32, [u32; 4]),
    /// Clears a color target of a signed format.
    ClearColorI(u32, [i32; 4]),
    ClearDepth(FloatBits),
    ClearStencil(u32),
    /// Waits for writes to a buffer to be visible to the given uses.
    BufferBarrier(u32, BufferUses),
    /// Waits for writes to textures to be visible to the given uses.
    TextureBarrier(TextureUses),
    SetViewport { rect: Rect<i32>, depth: Range<FloatBits> },
    SetScissor(Rect<i32>),
    /// Sets the stencil test of a face.
    SetStencilFunc { face: u32, function: u32, reference: u32, read_mask: u32 },
    /// Sets what a face's stencil test does to stencil values.
    SetStencilOps { face: u32, write_mask: u32, ops: StencilOps },
    /// Sets a vertex attribute, with its buffer unless buffers are set apart.
    SetVertexAttribute {
        buffer: Option<u32>,
        buffer_desc: VertexBufferDesc,
        attribute_desc: AttributeDesc,
    },
    UnsetVertexAttribute(u32),
    SetVertexBuffer { index: u32, buffer: BufferBinding, buffer_desc: VertexBufferDesc },
    SetProgram(u32),
    SetPrimitive(PrimitiveState),
    SetBlendConstant([FloatBits; 4]),
    /// Sets how a color target is written, or all of them where none is named.
    SetColorTarget { draw_buffer_index: Option<u32>, desc: ColorTargetDesc },
    BindBuffer { target: BindTarget, slot: u32, buffer: u32, offset: i32, size: i32 },
    BindSampler(u32, u32),
    BindTexture { slot: u32, texture: u32, target: BindTarget },
    BindImage { slot: u32, binding: ImageBinding },
    /// Marks a place, with a label in a range of the data bytes.
    InsertDebugMarker(Range<u32>),
    /// Opens a group, with a label in a range of the data bytes.
    PushDebugGroup(Range<u32>),
    /// Closes the group that was opened last.
    PopDebugGroup,
    SetDepth(DepthState),
    SetDepthBias(DepthBiasState),
    /// Enables the tests of the given aspects and disables the others.
    ConfigureDepthStencil(FormatAspects),
}

/// A command, its lists of attachments taken as sequences.
pub type CommandView = Command<Seq<u32>>;

impl View for Command<Invalidated> {
    type V = CommandView;

    open spec fn view(&self) -> CommandView {
        match *self {
            Command::Draw {
                topology,
                start_vertex,
                vertex_count,
                instance_count,
            } => Command::Draw {
                topology,
                start_vertex,
                vertex_count,
                instance_count,
            },
            Command::DrawIndexed {
                topology,
                index_type,
                index_offset,
                index_count,
                base_vertex,
                instance_count,
            } => Command::DrawIndexed {
                topology,
                index_type,
                index_offset,
                index_count,
                base_vertex,
                instance_count,
            },
            Command::DrawIndirect {
                topology,
                indirect_buf,
                indirect_offset,
            } => Command::DrawIndirect {
                topology,
                indirect_buf,
                indirect_offset,
            },
            Command::DrawIndexedIndirect {
                topology,
                index_type,
                indirect_buf,
                indirect_offset,
            } => Command::DrawIndexedIndirect {
                topology,
                index_type,
                indirect_buf,
                indirect_offset,
            },
            Command::Dispatch(value) => Command::Dispatch(value),
            Command::DispatchIndirect {
                indirect_buf,
                indirect_offset,
            } => Command::DispatchIndirect {
                indirect_buf,
                indirect_offset,
            },
            Command::FillBuffer { dst, dst_target, range, value } => Command::FillBuffer {
                dst,
                dst_target,
                range,
                value,
            },
            Command::CopyBufferToBuffer {
                src,
                src_target,
                dst,
                dst_target,
                copy,
            } => Command::CopyBufferToBuffer {
                src,
                src_target,
                dst,
                dst_target,
                copy,
            },
            Command::CopyTextureToTexture {
                src,
                src_target,
                dst,
                dst_target,
                copy,
            } => Command::CopyTextureToTexture {
                src,
                src_target,
                dst,
                dst_target,
                copy,
            },
            Command::CopyBufferToTexture {
                src,
                src_target,
                dst,
                dst_target,
                dst_format,
                copy,
            } => Command::CopyBufferToTexture {
                src,
                src_target,
                dst,
                dst_target,
                dst_format,
                copy,
            },
            Command::CopyTextureToBuffer {
                src,
                src_target,
                src_format,
                dst,
                dst_target,
                copy,
            } => Command::CopyTextureToBuffer {
                src,
                src_target,
                src_format,
                dst,
                dst_target,
                copy,
            },
            Command::SetIndexBuffer(value) => Command::SetIndexBuffer(value),
            Command::BeginQuery(first, second) => Command::BeginQuery(first, second),
            Command::EndQuery(value) => Command::EndQuery(value),
            Command::CopyQueryResults {
                query_range,
                dst,
                dst_target,
                dst_offset,
            } => Command::CopyQueryResults {
                query_range,
                dst,
                dst_target,
                dst_offset,
            },
            Command::ResetFramebuffer => Command::ResetFramebuffer,
            Command::BindAttachment { attachment, view } => Command::BindAttachment {
                attachment,
                view,
            },
            Command::ResolveAttachment { attachment, dst, size } => Command::ResolveAttachment {
                attachment,
                dst,
                size,
            },
            Command::InvalidateAttachments(list) => Command::InvalidateAttachments(
                invalidated_of(list),
            ),
            Command::SetDrawColorBuffers(value) => Command::SetDrawColorBuffers(value),
            Command::ClearColorF(first, second) => Command::ClearColorF(first, second),
            Command::ClearColorU(first, second) => Command::ClearColorU(first, second),
            Command::ClearColorI(first, second) => Command::ClearColorI(first, second),
            Command::ClearDepth(value) => Command::ClearDepth(value),
            Command::ClearStencil(value) => Command::ClearStencil(value),
            Command::BufferBarrier(first, second) => Command::BufferBarrier(first, second),
            Command::TextureBarrier(value) => Command::TextureBarrier(value),
            Command::SetViewport { rect, depth } => Command::SetViewport { rect, depth },
            Command::SetScissor(value) => Command::SetScissor(value),
            Command::SetStencilFunc {
                face,
                function,
                reference,
                read_mask,
            } => Command::SetStencilFunc {
                face,
                function,
                reference,
                read_mask,
            },
            Command::SetStencilOps { face, write_mask, ops } => Command::SetStencilOps {
                face,
                write_mask,
                ops,
            },
            Command::SetVertexAttribute {
                buffer,
                buffer_desc,
                attribute_desc,
            } => Command::SetVertexAttribute {
                buffer,
                buffer_desc,
                attribute_desc,
            },
            Command::UnsetVertexAttribute(value) => Command::UnsetVertexAttribute(value),
            Command::SetVertexBuffer { index, buffer, buffer_desc } => Command::SetVertexBuffer {
                index,
                buffer,
                buffer_desc,
            },
            Command::SetProgram(value) => Command::SetProgram(value),
            Command::SetPrimitive(value) => Command::SetPrimitive(value),
            Command::SetBlendConstant(value) => Command::SetBlendConstant(value),
            Command::SetColorTarget { draw_buffer_index, desc } => Command::SetColorTarget {
                draw_buffer_index,
                desc,
            },
            Command::BindBuffer { target, slot, buffer, offset, size } => Command::BindBuffer {
                target,
                slot,
                buffer,
                offset,
                size,
            },
            Command::BindSampler(first, second) => Command::BindSampler(first, second),
            Command::BindTexture { slot, texture, target } => Command::BindTexture {
                slot,
                texture,
                target,
            },
            Command::BindImage { slot, binding } => Command::BindImage { slot, binding },
            Command::InsertDebugMarker(value) => Command::InsertDebugMarker(value),
            Command::PushDebugGroup(value) => Command::PushDebugGroup(value),
            Command::PopDebugGroup => Command::PopDebugGroup,
            Command::SetDepth(value) => Command::SetDepth(value),
            Command::SetDepthBias(value) => Command::SetDepthBias(value),
            Command::ConfigureDepthStencil(value) => Command::ConfigureDepthStencil(value),
        }
    }
}

/// What a command buffer holds.
#[verifier::ext_equal]
pub struct CommandBufferView {
    pub label: Option<Seq<char>>,
    pub commands: Seq<CommandView>,
    pub data_bytes: Seq<u8>,
    pub data_words: Seq<u32>,
}

/// The range that is written down for the items from `start` up to `end`: ranges
/// are held in 32 bits.
pub open spec fn word_range(start: nat, end: nat) -> Range<u32> {
    Range { start: start as u32, end: end as u32 }
}

impl CommandBufferView {
    /// The buffer that holds nothing.
    pub open spec fn empty() -> CommandBufferView {
        CommandBufferView {
            label: None,
            commands: Seq::empty(),
            data_bytes: Seq::empty(),
            data_words: Seq::empty(),
        }
    }

    /// The buffer with further commands.
    pub open spec fn extend(self, commands: Seq<CommandView>) -> CommandBufferView {
        CommandBufferView { commands: self.commands + commands, ..self }
    }

    /// The buffer with the text of a label.
    pub open spec fn with_marker(self, marker: Seq<char>) -> CommandBufferView {
        CommandBufferView { data_bytes: self.data_bytes + encode_utf8(marker), ..self }
    }

    /// The range that the text of a label takes up once it is added.
    pub open spec fn marker_range(self, marker: Seq<char>) -> Range<u32> {
        word_range(
            self.data_bytes.len(),
            self.data_bytes.len() + encode_utf8(marker).len(),
        )
    }
}

/// Commands, and the data that they refer to by range.
#[derive(Debug, PartialEq)]
pub struct CommandBuffer {
    pub label: Option<String>,
    pub commands: Vec<Command<Invalidated>>,
    pub data_bytes: Vec<u8>,
    pub data_words: Vec<u32>,
}

impl View for CommandBuffer {
    type V = CommandBufferView;

    open spec fn view(&self) -> CommandBufferView {
        CommandBufferView {
            label: match self.label {
                Some(label) => Some(label@),
                None => None,
            },
            commands: Seq::new(self.commands@.len(), |i: int| self.commands@[i]@),
            data_bytes: self.data_bytes@,
            data_words: self.data_words@,
        }
    }
}

impl Default for CommandBuffer {
    fn default() -> (buffer: CommandBuffer)
        ensures
            buffer@ == CommandBufferView::empty(),
    {
        let buffer = CommandBuffer {
            label: None,
            commands: Vec::new(),
            data_bytes: Vec::new(),
            data_words: Vec::new(),
        };
        assert(buffer@ =~= CommandBufferView::empty());
        buffer
    }
}

impl CommandBuffer {
    /// Drops everything that was recorded.
    pub fn clear(&mut self)
        ensures
            final(self)@ == CommandBufferView::empty(),
    {
        self.label = None;
        self.commands.clear();
        self.data_bytes.clear();
        self.data_words.clear();
        assert(self@ =~= CommandBufferView::empty());
    }

    /// Adds the text of a label to the data bytes, and returns its range.
    pub fn add_marker(&mut self, marker: &str) -> (range: Range<u32>)
        ensures
            final(self)@ == old(self)@.with_marker(marker@),
            range == old(self)@.marker_range(marker@),
    {
        let start: u32 = self.data_bytes.len() as u32;
        self.data_bytes.extend_from_slice(marker.as_bytes());
        assert(self@ =~= old(self)@.with_marker(marker@));
        start..self.data_bytes.len() as u32
    }

    /// Records a command.
    pub fn push(&mut self, command: Command<Invalidated>)
        ensures
            final(self)@ == old(self)@.extend(seq![command@]),
    {
        self.commands.push(command);
        assert(self@ =~= old(self)@.extend(seq![command@]));
    }
}

} // verus!
