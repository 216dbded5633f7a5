//! Render pipelines: vertex input, programs and fixed-function state.
use vstd::prelude::*;

use crate::bind::samplers_in_range;
use crate::bits::{lemma_word_bits_zero, word_with};
use crate::command::{Command, CommandView};
use crate::encoder::{CommandEncoder, EncoderView};
use crate::flags::{FormatAspects, PrivateCapabilities};
use crate::gl;
use crate::lists::{
    attributes_as_slice, attributes_push, color_targets_as_slice, color_targets_clear,
    color_targets_push,
};
use crate::state::StateView;
use crate::types::{
    initial_color_target, AttributeDesc, BufferBinding, ColorTargetDesc, InputStepMode,
    RenderPipeline, StencilSide, StencilState, VertexBufferDesc, MAX_COLOR_TARGETS,
    MAX_VERTEX_ATTRIBUTES, MAX_VERTEX_BUFFERS,
};

verus! {

// Vertex input
/// The buffers that the first `n` attributes are read from.
pub open spec fn attribute_buffers(attributes: Seq<AttributeDesc>, n: int) -> Set<int> {
    Set::new(
        |buffer: int| exists|k: int| 0 <= k < n && (#[trigger] attributes[k]).buffer_index == buffer,
    )
}

/// The vertex buffers among the first `n` that are stepped through by instance.
pub open spec fn instance_buffers(buffers: Seq<VertexBufferDesc>, n: int) -> Set<int> {
    Set::new(|i: int| 0 <= i < n && buffers[i].step == InputStepMode::Instance)
}

/// How many vertex buffers a pipeline has a say in.
pub open spec fn vertex_buffer_count(pipeline: RenderPipeline) -> int {
    if pipeline.vertex_buffers@.len() < MAX_VERTEX_BUFFERS {
        pipeline.vertex_buffers@.len() as int
    } else {
        MAX_VERTEX_BUFFERS as int
    }
}

/// What unsets the attributes `start` to `end - 1`.
pub open spec fn unset_commands(start: int, end: int) -> Seq<CommandView> {
    Seq::new(
        if start < end {
            (end - start) as nat
        } else {
            0
        },
        |k: int| Command::UnsetVertexAttribute((start + k) as u32),
    )
}

/// What sets the layout of the first `n` attributes, apart from their buffers.
pub open spec fn layout_commands(pipeline: RenderPipeline, n: nat) -> Seq<CommandView> {
    Seq::new(
        n,
        |k: int|
            {
                let attribute = pipeline.vertex_attributes@[k];
                Command::SetVertexAttribute {
                    buffer: None,
                    buffer_desc: pipeline.vertex_buffers@[attribute.buffer_index as int],
                    attribute_desc: attribute,
                }
            },
    )
}

impl StateView {
    /// The vertex buffers among the first `n` that a pipeline steps through
    /// otherwise.
    pub open spec fn restepped_buffers(self, buffers: Seq<VertexBufferDesc>, n: int) -> Set<int> {
        Set::new(|i: int| 0 <= i < n && self.vertex_buffers[i].0 != buffers[i])
    }

    /// The vertex buffers, the first `n` stepped through as a pipeline does.
    pub open spec fn buffers_for(self, buffers: Seq<VertexBufferDesc>, n: int) -> Seq<
        (VertexBufferDesc, BufferBinding),
    > {
        Seq::new(
            self.vertex_buffers.len(),
            |i: int|
                if i < n {
                    (buffers[i], self.vertex_buffers[i].1)
                } else {
                    self.vertex_buffers[i]
                },
        )
    }
}

impl EncoderView {
    /// The first `n` vertex buffers stepped through as a pipeline does. Those
    /// that change become dirty.
    pub open spec fn restep_buffers(self, buffers: Seq<VertexBufferDesc>, n: int) -> EncoderView {
        self.in_state(
            StateView {
                vertex_buffers: self.state.buffers_for(buffers, n),
                instance_vbufs: instance_buffers(buffers, n),
                dirty_vbufs: self.state.dirty_vbufs.union(self.state.restepped_buffers(buffers, n)),
                ..self.state
            },
        )
    }

    /// Whether the driver sets vertex buffer layouts apart from the buffers.
    pub open spec fn separate_layouts(self) -> bool {
        self.private_caps.has(PrivateCapabilities::VERTEX_BUFFER_LAYOUT)
    }

    /// The vertex input of a pipeline. Where layouts are set apart they are set
    /// at once; otherwise the attributes are kept for the next draw.
    pub open spec fn set_vertex_input(self, pipeline: RenderPipeline) -> EncoderView {
        let attributes = pipeline.vertex_attributes@;
        let buffers = pipeline.vertex_buffers@;
        let n = vertex_buffer_count(pipeline);
        let unset = unset_commands(
            self.state.vertex_attributes.len() as int,
            attributes.len() as int,
        );
        let restepped = self.state.restepped_buffers(buffers, n);
        let state = StateView {
            topology: pipeline.topology,
            vertex_attributes: if self.separate_layouts() {
                self.state.vertex_attributes
            } else {
                self.state.vertex_attributes + attributes
            },
            vertex_buffers: self.state.buffers_for(buffers, n),
            instance_vbufs: instance_buffers(buffers, n),
            dirty_vbufs: if self.separate_layouts() {
                self.state.dirty_vbufs.union(restepped)
            } else {
                attribute_buffers(attributes, attributes.len() as int).union(restepped)
            },
            ..self.state
        };
        self.in_state(state).record(
            if self.separate_layouts() {
                unset + layout_commands(pipeline, attributes.len())
            } else {
                unset
            },
        )
    }

    /// Whether the vertex input of a pipeline can be set: the attributes name
    /// buffers, of the pipeline where the layout is set at once; and there is
    /// room for them where they are kept.
    pub open spec fn can_set_vertex_input(self, pipeline: RenderPipeline) -> bool {
        let attributes = pipeline.vertex_attributes@;
        if self.separate_layouts() {
            forall|k: int|
                0 <= k < attributes.len() ==> (#[trigger] attributes[k]).buffer_index
                    < pipeline.vertex_buffers@.len()
        } else {
            &&& self.state.vertex_attributes.len() + attributes.len() <= MAX_VERTEX_ATTRIBUTES
            &&& forall|k: int|
                0 <= k < attributes.len() ==> (#[trigger] attributes[k]).buffer_index < usize::BITS
        }
    }
}

impl CommandEncoder {
    /// Unsets the vertex attributes `start` to `end - 1`.
    fn unset_attributes(&mut self, start: usize, end: usize)
        ensures
            final(self)@ == old(self)@.record(unset_commands(start as int, end as int)),
            final(self).state == old(self).state,
    {
        let mut index: usize = start;
        assert(self@ =~= old(self)@.record(unset_commands(start as int, start as int)));
        while index < end
            invariant
                start <= index,
                index <= end || index == start,
                self.state == old(self).state,
                self@ == old(self)@.record(unset_commands(start as int, index as int)),
            decreases end - index,
        {
            self.cmd_buffer.push(Command::UnsetVertexAttribute(index as u32));
            index += 1;
            assert(self@ =~= old(self)@.record(unset_commands(start as int, index as int)));
        }
        assert(unset_commands(start as int, index as int) =~= unset_commands(
            start as int,
            end as int,
        ));
    }

    /// Sets the layout of a pipeline's vertex attributes.
    fn set_attribute_layouts(&mut self, pipeline: &RenderPipeline)
        requires
            forall|k: int|
                0 <= k < pipeline.vertex_attributes@.len() ==> (
                #[trigger] pipeline.vertex_attributes@[k]).buffer_index
                    < pipeline.vertex_buffers@.len(),
        ensures
            final(self)@ == old(self)@.record(
                layout_commands(*pipeline, pipeline.vertex_attributes@.len()),
            ),
            final(self).state == old(self).state,
    {
        let mut k: usize = 0;
        assert(self@ =~= old(self)@.record(layout_commands(*pipeline, 0)));
        while k < pipeline.vertex_attributes.len()
            invariant
                k <= pipeline.vertex_attributes@.len(),
                forall|k: int|
                    0 <= k < pipeline.vertex_attributes@.len() ==> (
                    #[trigger] pipeline.vertex_attributes@[k]).buffer_index
                        < pipeline.vertex_buffers@.len(),
                self.state == old(self).state,
                self@ == old(self)@.record(layout_commands(*pipeline, k as nat)),
            decreases pipeline.vertex_attributes@.len() - k,
        {
            let attribute_desc = pipeline.vertex_attributes[k];
            let buffer_desc = pipeline.vertex_buffers[attribute_desc.buffer_index as usize];
            self.cmd_buffer.push(
                Command::SetVertexAttribute { buffer: None, buffer_desc, attribute_desc },
            );
            k += 1;
            assert(self@ =~= old(self)@.record(layout_commands(*pipeline, k as nat)));
        }
    }

    /// Keeps a pipeline's vertex attributes for the next draw.
    fn keep_attributes(&mut self, pipeline: &RenderPipeline)
        requires
            !old(self)@.separate_layouts(),
            old(self)@.can_set_vertex_input(*pipeline),
        ensures
            final(self)@ == old(self)@.in_state(
                StateView {
                    vertex_attributes: old(self)@.state.vertex_attributes
                        + pipeline.vertex_attributes@,
                    dirty_vbufs: attribute_buffers(
                        pipeline.vertex_attributes@,
                        pipeline.vertex_attributes@.len() as int,
                    ),
                    ..old(self)@.state
                },
            ),
    {
        let ghost kept = old(self)@.state.vertex_attributes;
        let ghost attributes = pipeline.vertex_attributes@;
        self.state.dirty_vbuf_mask = 0;
        let mut k: usize = 0;
        proof {
            lemma_word_bits_zero();
            assert(attribute_buffers(attributes, 0) =~= Set::<int>::empty());
        }
        assert(self@ =~= old(self)@.in_state(
            StateView {
                vertex_attributes: kept + attributes.take(0),
                dirty_vbufs: attribute_buffers(attributes, 0),
                ..old(self)@.state
            },
        ));
        while k < pipeline.vertex_attributes.len()
            invariant
                k <= attributes.len(),
                attributes == pipeline.vertex_attributes@,
                kept == old(self)@.state.vertex_attributes,
                !old(self)@.separate_layouts(),
                old(self)@.can_set_vertex_input(*pipeline),
                self@ == old(self)@.in_state(
                    StateView {
                        vertex_attributes: kept + attributes.take(k as int),
                        dirty_vbufs: attribute_buffers(attributes, k as int),
                        ..old(self)@.state
                    },
                ),
            decreases attributes.len() - k,
        {
            let attribute = pipeline.vertex_attributes[k];
            self.state.dirty_vbuf_mask =
            word_with(self.state.dirty_vbuf_mask, attribute.buffer_index as usize);
            attributes_push(&mut self.state.vertex_attributes, attribute);
            proof {
                let before = attribute_buffers(attributes, k as int);
                let after = attribute_buffers(attributes, k + 1);
                assert forall|buffer: int|
                    after.contains(buffer) == before.insert(
                        attribute.buffer_index as int,
                    ).contains(buffer) by {
                    assert(attributes[k as int] == attribute);
                }
                assert(after =~= before.insert(attribute.buffer_index as int));
            }
            k += 1;
            assert(self@ =~= old(self)@.in_state(
                StateView {
                    vertex_attributes: kept + attributes.take(k as int),
                    dirty_vbufs: attribute_buffers(attributes, k as int),
                    ..old(self)@.state
                },
            ));
        }
        assert(attributes.take(k as int) =~= attributes);
    }

    /// Steps through the vertex buffers as a pipeline does.
    fn restep_buffers(&mut self, pipeline: &RenderPipeline)
        ensures
            final(self)@ == old(self)@.restep_buffers(
                pipeline.vertex_buffers@,
                vertex_buffer_count(*pipeline),
            ),
    {
        let ghost buffers = pipeline.vertex_buffers@;
        self.state.instance_vbuf_mask = 0;
        let mut index: usize = 0;
        proof {
            lemma_word_bits_zero();
        }
        assert(self@ =~= old(self)@.restep_buffers(buffers, 0));
        while index < MAX_VERTEX_BUFFERS && index < pipeline.vertex_buffers.len()
            invariant
                index <= vertex_buffer_count(*pipeline),
                buffers == pipeline.vertex_buffers@,
                self@ == old(self)@.restep_buffers(buffers, index as int),
            decreases MAX_VERTEX_BUFFERS - index,
        {
            let desc = pipeline.vertex_buffers[index];
            if desc.step == InputStepMode::Instance {
                self.state.instance_vbuf_mask = word_with(self.state.instance_vbuf_mask, index);
            }
            if self.state.vertex_buffers[index].0 != desc {
                self.state.dirty_vbuf_mask = word_with(self.state.dirty_vbuf_mask, index);
                self.state.vertex_buffers[index].0 = desc;
            }
            index += 1;
            assert(self@ =~= old(self)@.restep_buffers(buffers, index as int));
        }
    }

    /// Sets the vertex input of a pipeline.
    fn set_vertex_input(&mut self, pipeline: &RenderPipeline)
        requires
            old(self)@.can_set_vertex_input(*pipeline),
        ensures
            final(self)@ == old(self)@.set_vertex_input(*pipeline),
            old(self)@.wf() ==> final(self)@.wf(),
    {
        self.state.topology = pipeline.topology;
        let first: usize = attributes_as_slice(&self.state.vertex_attributes).len();
        self.unset_attributes(first, pipeline.vertex_attributes.len());
        if self.private_caps.contains(PrivateCapabilities::VERTEX_BUFFER_LAYOUT) {
            self.set_attribute_layouts(pipeline);
        } else {
            self.keep_attributes(pipeline);
        }
        self.restep_buffers(pipeline);
        assert(self@ =~= old(self)@.set_vertex_input(*pipeline));
    }
}

// Fixed-function state
/// What sets the stencil test of a face.
pub open spec fn stencil_func(side: StencilSide, face: u32) -> CommandView {
    Command::SetStencilFunc {
        face,
        function: side.function,
        reference: side.reference,
        read_mask: side.mask_read,
    }
}

/// What sets the stencil tests: one command where the faces agree, two where
/// they do not.
pub open spec fn stencil_funcs(stencil: StencilState) -> Seq<CommandView> {
    if stencil_func(stencil.front, gl::FRONT) == stencil_func(stencil.back, gl::FRONT) {
        seq![stencil_func(stencil.front, gl::FRONT_AND_BACK)]
    } else {
        seq![stencil_func(stencil.front, gl::FRONT), stencil_func(stencil.back, gl::BACK)]
    }
}

/// What sets the stencil operations of a face.
pub open spec fn stencil_op(side: StencilSide, face: u32) -> CommandView {
    Command::SetStencilOps { face, write_mask: side.mask_write, ops: side.ops }
}

/// What sets the stencil operations: one command where the faces agree, two
/// where they do not.
pub open spec fn stencil_ops(stencil: StencilState) -> Seq<CommandView> {
    if stencil_op(stencil.front, gl::FRONT) == stencil_op(stencil.back, gl::FRONT) {
        seq![stencil_op(stencil.front, gl::FRONT_AND_BACK)]
    } else {
        seq![stencil_op(stencil.front, gl::FRONT), stencil_op(stencil.back, gl::BACK)]
    }
}

/// Whether color targets are all written alike.
pub open spec fn alike(targets: Seq<ColorTargetDesc>) -> bool {
    forall|k: int| 1 <= k < targets.len() ==> #[trigger] targets[k] == targets[0]
}

/// What sets the first `n` color targets one by one.
pub open spec fn each_target(targets: Seq<ColorTargetDesc>, n: nat) -> Seq<CommandView> {
    Seq::new(
        n,
        |k: int| Command::SetColorTarget { draw_buffer_index: Some(k as u32), desc: targets[k] },
    )
}

/// What sets color targets: one command for all of them where they are written
/// alike, and one for each where they are not.
pub open spec fn color_target_commands(targets: Seq<ColorTargetDesc>) -> Seq<CommandView> {
    if alike(targets) {
        seq![
            Command::SetColorTarget {
                draw_buffer_index: None,
                desc: if targets.len() > 0 {
                    targets[0]
                } else {
                    initial_color_target()
                },
            },
        ]
    } else {
        each_target(targets, targets.len())
    }
}

/// The aspects that a pipeline tests.
pub open spec fn tested_aspects(pipeline: RenderPipeline) -> FormatAspects {
    let depth = if pipeline.depth is Some {
        FormatAspects::DEPTH
    } else {
        0u8
    };
    let stencil = if pipeline.stencil is Some {
        FormatAspects::STENCIL
    } else {
        0u8
    };
    FormatAspects { bits: depth | stencil }
}

impl EncoderView {
    /// The culling and clipping of a pipeline, which is set where it is not the
    /// one that is set already.
    pub open spec fn set_primitive(self, pipeline: RenderPipeline) -> EncoderView {
        self.in_state(StateView { primitive: pipeline.primitive, ..self.state }).record(
            if pipeline.primitive != self.state.primitive {
                seq![Command::SetPrimitive(pipeline.primitive)]
            } else {
                seq![]
            },
        )
    }

    /// The depth bias of a pipeline, which is set where it differs from the one
    /// that is set already.
    pub open spec fn set_depth_bias(self, pipeline: RenderPipeline) -> EncoderView {
        if pipeline.depth_bias.same_bias(self.state.depth_bias) {
            self
        } else {
            self.in_state(StateView { depth_bias: pipeline.depth_bias, ..self.state }).record(
                seq![Command::SetDepthBias(pipeline.depth_bias)],
            )
        }
    }

    /// The depth and stencil tests of a pipeline.
    pub open spec fn set_depth_stencil(self, pipeline: RenderPipeline) -> EncoderView {
        let depth: Seq<CommandView> = match pipeline.depth {
            Some(depth) => seq![Command::SetDepth(depth)],
            None => seq![],
        };
        let stencil: Seq<CommandView> = match pipeline.stencil {
            Some(stencil) => stencil_funcs(stencil) + stencil_ops(stencil),
            None => seq![],
        };
        let state = StateView {
            stencil: match pipeline.stencil {
                Some(stencil) => stencil,
                None => self.state.stencil,
            },
            ..self.state
        };
        self.in_state(state).record(
            depth + stencil + seq![Command::ConfigureDepthStencil(tested_aspects(pipeline))],
        )
    }

    /// The color targets of a pipeline, which are set where they are not those
    /// that are set already.
    pub open spec fn set_color_targets(self, pipeline: RenderPipeline) -> EncoderView {
        let targets = pipeline.color_targets@;
        self.in_state(StateView { color_targets: targets, ..self.state }).record(
            if targets != self.state.color_targets {
                color_target_commands(targets)
            } else {
                seq![]
            },
        )
    }

    /// Another render pipeline.
    pub open spec fn set_render_pipeline(self, pipeline: RenderPipeline) -> EncoderView {
        self.set_vertex_input(pipeline).set_pipeline_inner(pipeline.inner).set_primitive(
            pipeline,
        ).set_depth_bias(pipeline).set_depth_stencil(pipeline).set_color_targets(pipeline)
    }

    /// Another reference value for the stencil tests.
    pub open spec fn set_stencil_reference(self, value: u32) -> EncoderView {
        let stencil = StencilState {
            front: StencilSide { reference: value, ..self.state.stencil.front },
            back: StencilSide { reference: value, ..self.state.stencil.back },
        };
        self.in_state(StateView { stencil, ..self.state }).record(stencil_funcs(stencil))
    }

    /// Whether a render pipeline can be set.
    pub open spec fn can_set_render_pipeline(self, pipeline: RenderPipeline) -> bool {
        &&& self.can_set_vertex_input(pipeline)
        &&& samplers_in_range(pipeline.inner)
        &&& pipeline.color_targets@.len() <= MAX_COLOR_TARGETS
    }
}

/// Whether two lists of color targets are the same.
fn same_targets(left: &[ColorTargetDesc], right: &[ColorTargetDesc]) -> (same: bool)
    ensures
        same == (left@ == right@),
{
    if left.len() != right.len() {
        return false;
    }
    let mut i: usize = 0;
    while i < left.len()
        invariant
            i <= left@.len(),
            left@.len() == right@.len(),
            forall|k: int| 0 <= k < i ==> left@[k] == right@[k],
        decreases left@.len() - i,
    {
        if left[i] != right[i] {
            return false;
        }
        i += 1;
    }
    assert(left@ =~= right@);
    true
}

/// Whether color targets are all written alike.
fn all_alike(targets: &[ColorTargetDesc]) -> (yes: bool)
    ensures
        yes == alike(targets@),
{
    let mut i: usize = 1;
    while i < targets.len()
        invariant
            1 <= i,
            forall|k: int|
                1 <= k < i && k < targets@.len() ==> #[trigger] targets@[k] == targets@[0],
        decreases targets@.len() - i,
    {
        if targets[i] != targets[0] {
            return false;
        }
        i += 1;
    }
    true
}

impl CommandEncoder {
    /// Sets the stencil tests of both faces.
    pub fn rebind_stencil_func(&mut self)
        ensures
            final(self)@ == old(self)@.record(stencil_funcs(old(self)@.state.stencil)),
            final(self).state == old(self).state,
    {
        let front = self.state.stencil.front;
        let back = self.state.stencil.back;
        if front.function == back.function && front.mask_read == back.mask_read && front.reference
            == back.reference {
            self.cmd_buffer.push(
                Command::SetStencilFunc {
                    face: gl::front_and_back(),
                    function: front.function,
                    reference: front.reference,
                    read_mask: front.mask_read,
                },
            );
        } else {
            self.cmd_buffer.push(
                Command::SetStencilFunc {
                    face: gl::front(),
                    function: front.function,
                    reference: front.reference,
                    read_mask: front.mask_read,
                },
            );
            self.cmd_buffer.push(
                Command::SetStencilFunc {
                    face: gl::back(),
                    function: back.function,
                    reference: back.reference,
                    read_mask: back.mask_read,
                },
            );
        }
        assert(self@ =~= old(self)@.record(stencil_funcs(old(self)@.state.stencil)));
    }

    /// Sets the stencil operations of both faces.
    fn set_stencil_ops(&mut self, stencil: &StencilState)
        ensures
            final(self)@ == old(self)@.record(stencil_ops(*stencil)),
    {
        let front = stencil.front;
        let back = stencil.back;
        if front.ops == back.ops && front.mask_write == back.mask_write {
            self.cmd_buffer.push(
                Command::SetStencilOps {
                    face: gl::front_and_back(),
                    write_mask: front.mask_write,
                    ops: front.ops,
                },
            );
        } else {
            self.cmd_buffer.push(
                Command::SetStencilOps {
                    face: gl::front(),
                    write_mask: front.mask_write,
                    ops: front.ops,
                },
            );
            self.cmd_buffer.push(
                Command::SetStencilOps {
                    face: gl::back(),
                    write_mask: back.mask_write,
                    ops: back.ops,
                },
            );
        }
        assert(self@ =~= old(self)@.record(stencil_ops(*stencil)));
    }

    /// Sets the reference value of the stencil tests.
    pub fn set_stencil_reference(&mut self, value: u32)
        ensures
            final(self)@ == old(self)@.set_stencil_reference(value),
            old(self)@.wf() ==> final(self)@.wf(),
    {
        self.state.stencil.front.reference = value;
        self.state.stencil.back.reference = value;
        self.rebind_stencil_func();
    }

    /// Sets the depth and stencil tests of a pipeline.
    fn set_depth_stencil(&mut self, pipeline: &RenderPipeline)
        ensures
            final(self)@ == old(self)@.set_depth_stencil(*pipeline),
            old(self)@.wf() ==> final(self)@.wf(),
    {
        let mut aspects: u8 = 0;
        assert(0u8 | 2u8 == 2u8 && 0u8 | 4u8 == 4u8 && 0u8 | 0u8 == 0u8) by (bit_vector);
        if let Some(depth) = pipeline.depth {
            aspects = aspects | FormatAspects::DEPTH;
            self.cmd_buffer.push(Command::SetDepth(depth));
        }
        assert(aspects | 0u8 == aspects) by (bit_vector);
        if let Some(stencil) = pipeline.stencil {
            aspects = aspects | FormatAspects::STENCIL;
            self.state.stencil = stencil;
            self.rebind_stencil_func();
            self.set_stencil_ops(&stencil);
        }
        self.cmd_buffer.push(Command::ConfigureDepthStencil(FormatAspects { bits: aspects }));
        assert(self@ =~= old(self)@.set_depth_stencil(*pipeline));
    }

    /// Sets color targets one by one.
    fn set_each_target(&mut self, targets: &[ColorTargetDesc])
        ensures
            final(self)@ == old(self)@.record(each_target(targets@, targets@.len())),
            final(self).state == old(self).state,
    {
        let mut index: usize = 0;
        assert(self@ =~= old(self)@.record(each_target(targets@, 0)));
        while index < targets.len()
            invariant
                index <= targets@.len(),
                self.state == old(self).state,
                self@ == old(self)@.record(each_target(targets@, index as nat)),
            decreases targets@.len() - index,
        {
            self.cmd_buffer.push(
                Command::SetColorTarget {
                    draw_buffer_index: Some(index as u32),
                    desc: targets[index],
                },
            );
            index += 1;
            assert(self@ =~= old(self)@.record(each_target(targets@, index as nat)));
        }
    }

    /// Sets the color targets of a pipeline.
    fn set_color_targets(&mut self, pipeline: &RenderPipeline)
        requires
            pipeline.color_targets@.len() <= MAX_COLOR_TARGETS,
        ensures
            final(self)@ == old(self)@.set_color_targets(*pipeline),
            old(self)@.wf() ==> final(self)@.wf(),
    {
        let targets = pipeline.color_targets.as_slice();
        if !same_targets(color_targets_as_slice(&self.state.color_targets), targets) {
            if all_alike(targets) {
                let desc = if targets.len() > 0 {
                    targets[0]
                } else {
                    ColorTargetDesc::default()
                };
                self.cmd_buffer.push(Command::SetColorTarget { draw_buffer_index: None, desc });
            } else {
                self.set_each_target(targets);
            }
        }
        let ghost recorded = self@;
        color_targets_clear(&mut self.state.color_targets);
        let mut k: usize = 0;
        assert(self@ =~= recorded.in_state(
            StateView { color_targets: targets@.take(0), ..recorded.state },
        ));
        while k < targets.len()
            invariant
                k <= targets@.len() <= MAX_COLOR_TARGETS,
                self@ == recorded.in_state(
                    StateView { color_targets: targets@.take(k as int), ..recorded.state },
                ),
            decreases targets@.len() - k,
        {
            color_targets_push(&mut self.state.color_targets, targets[k]);
            k += 1;
            assert(self@ =~= recorded.in_state(
                StateView { color_targets: targets@.take(k as int), ..recorded.state },
            ));
        }
        assert(targets@.take(k as int) =~= targets@);
        assert(self@ =~= old(self)@.set_color_targets(*pipeline));
    }

    /// Uses a render pipeline.
    pub fn set_render_pipeline(&mut self, pipeline: &RenderPipeline)
        requires
            old(self)@.wf(),
            old(self)@.can_set_render_pipeline(*pipeline),
        ensures
            final(self)@ == old(self)@.set_render_pipeline(*pipeline),
            final(self)@.wf(),
    {
        self.set_vertex_input(pipeline);
        self.set_pipeline_inner(&pipeline.inner);

        let ghost programmed = self@;
        if pipeline.primitive != self.state.primitive {
            self.cmd_buffer.push(Command::SetPrimitive(pipeline.primitive));
            self.state.primitive = pipeline.primitive;
        }
        assert(self@ =~= programmed.set_primitive(*pipeline));
        if !pipeline.depth_bias.equals(self.state.depth_bias) {
            self.state.depth_bias = pipeline.depth_bias;
            self.cmd_buffer.push(Command::SetDepthBias(pipeline.depth_bias));
        }
        assert(self@ =~= programmed.set_primitive(*pipeline).set_depth_bias(*pipeline));
        self.set_depth_stencil(pipeline);
        self.set_color_targets(pipeline);
    }
}

} // verus!
