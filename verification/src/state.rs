//! The state that a recorder tracks, so as to leave out commands that would
//! change nothing and to issue late those that depend on a draw.
use vstd::prelude::*;

use crate::bits::{lemma_word_bits_zero, word_bits};
use crate::lists::{
    attributes_new, attributes_of, color_targets_new, color_targets_of, invalidated_new,
    invalidated_of, resolves_new, resolves_of, Attributes, ColorTargets, Invalidated, Resolves,
};
use crate::types::{
    initial_primitive, initial_stencil_side, AttributeDesc, BufferAddress, BufferBinding,
    ColorTargetDesc, DepthBiasState, Extent3d, IndexFormat, InputStepMode, PrimitiveState,
    StencilSide, StencilState, TextureSlotDesc, TextureView, VertexBufferDesc, MAX_SAMPLERS,
    MAX_TEXTURE_SLOTS, MAX_VERTEX_BUFFERS,
};
use crate::webgpu::{
    default_depth_bias, default_extent, default_index_format, default_step_mode,
    initial_depth_bias, initial_extent,
};

verus! {

/// The state of a recorder.
pub struct State {
    pub topology: u32,
    pub primitive: PrimitiveState,
    pub index_format: IndexFormat,
    pub index_offset: BufferAddress,
    pub vertex_buffers: [(VertexBufferDesc, BufferBinding); MAX_VERTEX_BUFFERS],
    pub vertex_attributes: Attributes,
    pub color_targets: ColorTargets,
    pub stencil: StencilState,
    pub depth_bias: DepthBiasState,
    pub samplers: [Option<u32>; MAX_SAMPLERS],
    pub texture_slots: [TextureSlotDesc; MAX_TEXTURE_SLOTS],
    pub render_size: Extent3d,
    pub resolve_attachments: Resolves,
    pub invalidate_attachments: Invalidated,
    pub has_pass_label: bool,
    /// The vertex buffers that are stepped through by instance.
    pub instance_vbuf_mask: usize,
    /// The vertex buffers that have to be set again before a draw.
    pub dirty_vbuf_mask: usize,
}

/// The state of a recorder, its lists taken as sequences and its masks as sets.
#[verifier::ext_equal]
pub struct StateView {
    pub topology: u32,
    pub primitive: PrimitiveState,
    pub index_format: IndexFormat,
    pub index_offset: BufferAddress,
    pub vertex_buffers: Seq<(VertexBufferDesc, BufferBinding)>,
    pub vertex_attributes: Seq<AttributeDesc>,
    pub color_targets: Seq<ColorTargetDesc>,
    pub stencil: StencilState,
    pub depth_bias: DepthBiasState,
    pub samplers: Seq<Option<u32>>,
    pub texture_slots: Seq<TextureSlotDesc>,
    pub render_size: Extent3d,
    pub resolve_attachments: Seq<(u32, TextureView)>,
    pub invalidate_attachments: Seq<u32>,
    pub has_pass_label: bool,
    pub instance_vbufs: Set<int>,
    pub dirty_vbufs: Set<int>,
}

impl View for State {
    type V = StateView;

    open spec fn view(&self) -> StateView {
        StateView {
            topology: self.topology,
            primitive: self.primitive,
            index_format: self.index_format,
            index_offset: self.index_offset,
            vertex_buffers: self.vertex_buffers@,
            vertex_attributes: attributes_of(self.vertex_attributes),
            color_targets: color_targets_of(self.color_targets),
            stencil: self.stencil,
            depth_bias: self.depth_bias,
            samplers: self.samplers@,
            texture_slots: self.texture_slots@,
            render_size: self.render_size,
            resolve_attachments: resolves_of(self.resolve_attachments),
            invalidate_attachments: invalidated_of(self.invalidate_attachments),
            has_pass_label: self.has_pass_label,
            instance_vbufs: word_bits(self.instance_vbuf_mask),
            dirty_vbufs: word_bits(self.dirty_vbuf_mask),
        }
    }
}

/// A vertex buffer that is not set.
pub open spec fn unset_vertex_buffer() -> (VertexBufferDesc, BufferBinding) {
    (
        VertexBufferDesc { step: InputStepMode::Vertex, stride: 0 },
        BufferBinding { raw: 0, offset: 0 },
    )
}

/// A texture slot that holds nothing.
pub open spec fn empty_texture_slot() -> TextureSlotDesc {
    TextureSlotDesc { tex_target: 0, sampler_index: None }
}

impl StateView {
    /// The state that nothing has changed yet.
    pub open spec fn initial() -> StateView {
        StateView {
            topology: 0,
            primitive: initial_primitive(),
            index_format: IndexFormat::Uint32,
            index_offset: 0,
            vertex_buffers: Seq::new(MAX_VERTEX_BUFFERS as nat, |i: int| unset_vertex_buffer()),
            vertex_attributes: Seq::empty(),
            color_targets: Seq::empty(),
            stencil: StencilState { front: initial_stencil_side(), back: initial_stencil_side() },
            depth_bias: initial_depth_bias(),
            samplers: Seq::new(MAX_SAMPLERS as nat, |i: int| None),
            texture_slots: Seq::new(MAX_TEXTURE_SLOTS as nat, |i: int| empty_texture_slot()),
            render_size: initial_extent(),
            resolve_attachments: Seq::empty(),
            invalidate_attachments: Seq::empty(),
            has_pass_label: false,
            instance_vbufs: Set::empty(),
            dirty_vbufs: Set::empty(),
        }
    }

    /// What holds of every state that a recorder can be in: the slots are all
    /// there, and textures are sampled with samplers that there are.
    pub open spec fn wf(self) -> bool {
        &&& self.vertex_buffers.len() == MAX_VERTEX_BUFFERS
        &&& self.samplers.len() == MAX_SAMPLERS
        &&& self.texture_slots.len() == MAX_TEXTURE_SLOTS
        &&& forall|i: int|
            0 <= i < MAX_TEXTURE_SLOTS && (#[trigger] self.texture_slots[i]).sampler_index is Some
                ==> self.texture_slots[i].sampler_index->0 < MAX_SAMPLERS
    }
}

/// The array whose elements are all the same.
fn filled<T: Copy, const N: usize>(element: T) -> (elements: [T; N])
    ensures
        elements@ == Seq::new(N as nat, |i: int| element),
{
    [element;N]
}

impl Default for State {
    fn default() -> (state: State)
        ensures
            state@ == StateView::initial(),
    {
        proof {
            lemma_word_bits_zero();
        }
        let vertex_buffer = (
            VertexBufferDesc { step: default_step_mode(), stride: 0 },
            BufferBinding { raw: 0, offset: 0 },
        );
        let slot = TextureSlotDesc { tex_target: 0, sampler_index: None };
        let state = State {
            topology: 0,
            primitive: PrimitiveState::default(),
            index_format: default_index_format(),
            index_offset: 0,
            vertex_buffers: filled(vertex_buffer),
            vertex_attributes: attributes_new(),
            color_targets: color_targets_new(),
            stencil: StencilState { front: StencilSide::default(), back: StencilSide::default() },
            depth_bias: default_depth_bias(),
            samplers: filled(None),
            texture_slots: filled(slot),
            render_size: default_extent(),
            resolve_attachments: resolves_new(),
            invalidate_attachments: invalidated_new(),
            has_pass_label: false,
            instance_vbuf_mask: 0,
            dirty_vbuf_mask: 0,
        };
        let ghost initial = StateView::initial();
        assert(state@.vertex_buffers =~= initial.vertex_buffers);
        assert(state@.samplers =~= initial.samplers);
        assert(state@.texture_slots =~= initial.texture_slots);
        assert(state@ =~= initial);
        state
    }
}

} // verus!
