//! What a render pipeline sets, and what it leaves behind.
use vstd::prelude::*;

use crate::bind_laws::law_program_is_used;
use crate::collect::{latest, lemma_latest_concat, lemma_latest_none};
use crate::command::{Command, CommandView};
use crate::effect::lemma_added;
use crate::encoder::EncoderView;
use crate::flags::{FormatAspects, PrivateCapabilities};
use crate::floats::FloatBits;
use crate::gl;
use crate::laws::{
    law_each_face_has_its_ops, law_each_face_has_its_test, law_each_target_is_as_described,
    ops_pick, side_test, target_pick, test_pick,
};
use crate::pipeline::{
    alike, color_target_commands, layout_commands, stencil_funcs, stencil_ops, tested_aspects,
    unset_commands,
};
use crate::state::StateView;
use crate::sync::{bias_pick, law_render_pipeline_keeps_sync, primitive_pick, sampler_pick};
use crate::types::{
    initial_primitive, ColorTargetDesc, DepthBiasState, DepthState, InputStepMode,
    PipelineInner, RenderPipeline, StencilSide, StencilState, MAX_TEXTURE_SLOTS, MAX_VERTEX_BUFFERS,
};

verus! {

// Parts
/// Whether a stencil test is set for each face, in as few commands as it takes:
/// one where the faces are tested alike, two where they are not.
pub open spec fn sets_tests(commands: Seq<CommandView>, stencil: StencilState) -> bool {
    &&& forall|k: int| 0 <= k < commands.len() ==> (#[trigger] commands[k]) is SetStencilFunc
    &&& commands.len() == if side_test(stencil.front) == side_test(stencil.back) {
        1int
    } else {
        2int
    }
    &&& latest(commands, test_pick(gl::FRONT)) == Some(side_test(stencil.front))
    &&& latest(commands, test_pick(gl::BACK)) == Some(side_test(stencil.back))
}

/// Whether stencil operations are set for each face, in as few commands as it
/// takes.
pub open spec fn sets_ops(commands: Seq<CommandView>, stencil: StencilState) -> bool {
    let front = (stencil.front.mask_write, stencil.front.ops);
    let back = (stencil.back.mask_write, stencil.back.ops);
    &&& forall|k: int| 0 <= k < commands.len() ==> (#[trigger] commands[k]) is SetStencilOps
    &&& commands.len() == if front == back {
        1int
    } else {
        2int
    }
    &&& latest(commands, ops_pick(gl::FRONT)) == Some(front)
    &&& latest(commands, ops_pick(gl::BACK)) == Some(back)
}

/// Whether color targets are set, each as it is described: one command for all
/// where they are alike, one for each where they are not. Where there are none,
/// all channels of all buffers are written, without blending.
pub open spec fn sets_targets(commands: Seq<CommandView>, targets: Seq<ColorTargetDesc>) -> bool {
    &&& forall|k: int| 0 <= k < commands.len() ==> (#[trigger] commands[k]) is SetColorTarget
    &&& forall|k: int|
        #![trigger targets[k]]
        0 <= k < targets.len() ==> latest(commands, target_pick(k)) == Some(targets[k])
    &&& if forall|k: int, l: int|
        0 <= k < l < targets.len() ==> #[trigger] targets[k] == #[trigger] targets[l] {
        &&& commands.len() == 1
        &&& commands[0] matches Command::SetColorTarget { draw_buffer_index, desc }
        &&& draw_buffer_index is None
        &&& targets.len() == 0 ==> desc.mask.bits == 0xF && desc.blend is None
    } else {
        commands.len() == targets.len()
    }
}

/// What setting a render pipeline records, in order.
pub struct PipelineParts {
    pub unset: Seq<CommandView>,
    pub layouts: Seq<CommandView>,
    pub program: Seq<CommandView>,
    pub primitive: Seq<CommandView>,
    pub bias: Seq<CommandView>,
    pub depth: Seq<CommandView>,
    pub tests: Seq<CommandView>,
    pub ops: Seq<CommandView>,
    pub aspects: Seq<CommandView>,
    pub targets: Seq<CommandView>,
}

impl PipelineParts {
    /// All of it.
    pub open spec fn all(self) -> Seq<CommandView> {
        self.unset + self.layouts + self.program + self.primitive + self.bias + self.depth
            + self.tests + self.ops + self.aspects + self.targets
    }
}

/// A render pipeline records, one after another: that the attributes are unset
/// that it has more than are kept; the layouts of its attributes, where those are
/// set apart; what its program alone would record; its culling and its depth
/// bias, where they are not the ones that are set; its depth test; its stencil
/// tests and operations; which aspects it tests; and its color targets, where
/// they are not those that are set. The result is those parts.
pub proof fn law_pipeline_is_recorded(encoder: EncoderView, pipeline: RenderPipeline) -> (parts:
    PipelineParts)
    requires
        pipeline.color_targets@.len() <= u32::MAX,
    ensures
        ({
            let set = encoder.set_render_pipeline(pipeline);
            let before = encoder.state;
            let attributes = pipeline.vertex_attributes@;
            let kept = before.vertex_attributes.len() as int;
            let targets = pipeline.color_targets@;
            &&& encoder.only_adds(set)
            &&& encoder.added(set) == parts.all()
            &&& parts.unset.len() == if attributes.len() > kept {
                attributes.len() - kept
            } else {
                0
            }
            &&& forall|k: int|
                #![trigger parts.unset[k]]
                0 <= k < parts.unset.len() ==> {
                    &&& parts.unset[k] matches Command::UnsetVertexAttribute(index)
                    &&& kept + k <= u32::MAX ==> index == kept + k
                }
            &&& parts.layouts.len() == if encoder.private_caps.has(
                PrivateCapabilities::VERTEX_BUFFER_LAYOUT,
            ) {
                attributes.len() as int
            } else {
                0
            }
            &&& forall|k: int|
                #![trigger parts.layouts[k]]
                0 <= k < parts.layouts.len() ==> {
                    &&& parts.layouts[k] matches Command::SetVertexAttribute {
                        buffer,
                        buffer_desc,
                        attribute_desc,
                    }
                    &&& buffer is None
                    &&& attribute_desc == attributes[k]
                    &&& buffer_desc == pipeline.vertex_buffers@[attributes[k].buffer_index as int]
                }
            &&& parts.program == encoder.added(encoder.set_pipeline_inner(pipeline.inner))
            &&& parts.primitive == if pipeline.primitive == before.primitive {
                Seq::<CommandView>::empty()
            } else {
                seq![Command::SetPrimitive(pipeline.primitive)]
            }
            &&& parts.bias == if pipeline.depth_bias.same_bias(before.depth_bias) {
                Seq::<CommandView>::empty()
            } else {
                seq![Command::SetDepthBias(pipeline.depth_bias)]
            }
            &&& pipeline.depth is None ==> parts.depth.len() == 0
            &&& pipeline.depth matches Some(depth) ==> parts.depth == seq![
                Command::<Seq<u32>>::SetDepth(depth),
            ]
            &&& pipeline.stencil is None ==> parts.tests.len() == 0 && parts.ops.len() == 0
            &&& pipeline.stencil matches Some(stencil) ==> sets_tests(parts.tests, stencil)
                && sets_ops(parts.ops, stencil)
            &&& parts.aspects.len() == 1
            &&& parts.aspects[0] matches Command::ConfigureDepthStencil(aspects)
            &&& aspects.has(FormatAspects::DEPTH) <==> pipeline.depth is Some
            &&& aspects.has(FormatAspects::STENCIL) <==> pipeline.stencil is Some
            &&& aspects.bits <= 6
            &&& !aspects.has(FormatAspects::COLOR)
            &&& targets == before.color_targets ==> parts.targets.len() == 0
            &&& targets != before.color_targets ==> sets_targets(parts.targets, targets)
        }),
{
    let parts = parts_of(encoder, pipeline);
    let targets = pipeline.color_targets@;
    lemma_parts_are_added(encoder, pipeline);
    if let Some(stencil) = pipeline.stencil {
        lemma_sets_stencil(stencil);
    }
    if targets != encoder.state.color_targets {
        lemma_sets_targets(targets);
    }
    assert((0u8 | 0u8) == 0 && (2u8 | 0u8) == 2 && (0u8 | 4u8) == 4 && (2u8 | 4u8) == 6)
        by (bit_vector);
    assert(0u8 & 2u8 == 0 && 0u8 & 4u8 == 0 && 0u8 & 1u8 == 0 && 2u8 & 2u8 == 2 && 2u8 & 4u8 == 0
        && 2u8 & 1u8 == 0 && 4u8 & 2u8 == 0 && 4u8 & 4u8 == 4 && 4u8 & 1u8 == 0 && 6u8 & 2u8 == 2
        && 6u8 & 4u8 == 4 && 6u8 & 1u8 == 0) by (bit_vector);
    parts
}

/// What setting a render pipeline records, part by part.
spec fn parts_of(encoder: EncoderView, pipeline: RenderPipeline) -> PipelineParts {
    let attributes = pipeline.vertex_attributes@;
    let none = Seq::<CommandView>::empty();
    PipelineParts {
        unset: unset_commands(
            encoder.state.vertex_attributes.len() as int,
            attributes.len() as int,
        ),
        layouts: if encoder.separate_layouts() {
            layout_commands(pipeline, attributes.len())
        } else {
            none
        },
        program: encoder.added(encoder.set_pipeline_inner(pipeline.inner)),
        primitive: if pipeline.primitive != encoder.state.primitive {
            seq![Command::SetPrimitive(pipeline.primitive)]
        } else {
            none
        },
        bias: if pipeline.depth_bias.same_bias(encoder.state.depth_bias) {
            none
        } else {
            seq![Command::SetDepthBias(pipeline.depth_bias)]
        },
        depth: match pipeline.depth {
            Some(depth) => seq![Command::SetDepth(depth)],
            None => none,
        },
        tests: match pipeline.stencil {
            Some(stencil) => stencil_funcs(stencil),
            None => none,
        },
        ops: match pipeline.stencil {
            Some(stencil) => stencil_ops(stencil),
            None => none,
        },
        aspects: seq![Command::ConfigureDepthStencil(tested_aspects(pipeline))],
        targets: if pipeline.color_targets@ != encoder.state.color_targets {
            color_target_commands(pipeline.color_targets@)
        } else {
            none
        },
    }
}

proof fn lemma_assoc(a: Seq<CommandView>, b: Seq<CommandView>, c: Seq<CommandView>)
    ensures
        (a + b) + c == a + (b + c),
{
    assert((a + b) + c =~= a + (b + c));
}

proof fn lemma_parts_are_added(encoder: EncoderView, pipeline: RenderPipeline)
    ensures
        encoder.only_adds(encoder.set_render_pipeline(pipeline)),
        encoder.added(encoder.set_render_pipeline(pipeline)) == parts_of(encoder, pipeline).all(),
{
    let parts = parts_of(encoder, pipeline);
    let set = encoder.set_render_pipeline(pipeline);
    let earlier = encoder.cmd_buffer.commands;
    let none = Seq::<CommandView>::empty();
    let e1 = encoder.set_vertex_input(pipeline);
    let e2 = e1.set_pipeline_inner(pipeline.inner);
    let e3 = e2.set_primitive(pipeline);
    let e4 = e3.set_depth_bias(pipeline);
    let e5 = e4.set_depth_stencil(pipeline);
    assert(parts.unset + none =~= parts.unset);
    assert(e1.cmd_buffer.commands == earlier + (parts.unset + parts.layouts));
    lemma_same_samplers(encoder, e1, pipeline);
    assert(e2.cmd_buffer.commands == e1.cmd_buffer.commands + parts.program);
    assert(e3.cmd_buffer.commands =~= e2.cmd_buffer.commands + parts.primitive);
    assert(e4.cmd_buffer.commands =~= e3.cmd_buffer.commands + parts.bias);
    assert(e5.cmd_buffer.commands == e4.cmd_buffer.commands + (parts.depth + parts.tests
        + parts.ops + parts.aspects)) by {
        lemma_assoc(parts.depth, parts.tests, parts.ops);
        assert(parts.depth + (none + none) + parts.aspects =~= parts.depth + none
            + parts.aspects);
    }
    lemma_assoc(e4.cmd_buffer.commands, parts.depth + parts.tests + parts.ops, parts.aspects);
    lemma_assoc(e4.cmd_buffer.commands, parts.depth + parts.tests, parts.ops);
    lemma_assoc(e4.cmd_buffer.commands, parts.depth, parts.tests);
    assert(set.cmd_buffer.commands =~= e5.cmd_buffer.commands + parts.targets);
    let p1 = parts.unset + parts.layouts;
    let p2 = p1 + parts.program;
    let p3 = p2 + parts.primitive;
    let p4 = p3 + parts.bias;
    let p5 = p4 + parts.depth;
    let p6 = p5 + parts.tests;
    let p7 = p6 + parts.ops;
    let p8 = p7 + parts.aspects;
    lemma_assoc(earlier, p1, parts.program);
    lemma_assoc(earlier, p2, parts.primitive);
    lemma_assoc(earlier, p3, parts.bias);
    lemma_assoc(earlier, p4, parts.depth);
    lemma_assoc(earlier, p5, parts.tests);
    lemma_assoc(earlier, p6, parts.ops);
    lemma_assoc(earlier, p7, parts.aspects);
    lemma_assoc(earlier, p8, parts.targets);
    assert(set.cmd_buffer.commands == earlier + parts.all());
    lemma_added(encoder, set.state, parts.all());
    assert(set == encoder.in_state(set.state).record(parts.all()));
}

proof fn lemma_same_samplers(encoder: EncoderView, input: EncoderView, pipeline: RenderPipeline)
    requires
        input == encoder.set_vertex_input(pipeline),
    ensures
        input.set_pipeline_inner(pipeline.inner).cmd_buffer.commands == input.cmd_buffer.commands
            + encoder.added(encoder.set_pipeline_inner(pipeline.inner)),
{
    let inner = pipeline.inner;
    let (a, b) = (encoder.set_pipeline_inner(inner), input.set_pipeline_inner(inner));
    let changed = encoder.state.resampled_slots(inner);
    assert(input.state.resampled_slots(inner) =~= changed);
    assert(a.state.texture_slots =~= b.state.texture_slots);
    let left = |i: int| a.state.sampler_command(changed, Set::empty(), i);
    let right = |i: int| b.state.sampler_command(changed, Set::empty(), i);
    assert(left =~= right);
    lemma_added(
        encoder,
        a.state,
        seq![Command::SetProgram(inner.program)] + a.state.sampler_commands(
            changed,
            Set::empty(),
            MAX_TEXTURE_SLOTS as nat,
        ),
    );
}

proof fn lemma_sets_stencil(stencil: StencilState)
    ensures
        sets_tests(stencil_funcs(stencil), stencil),
        sets_ops(stencil_ops(stencil), stencil),
{
    law_each_face_has_its_test(stencil);
    law_each_face_has_its_ops(stencil);
}

proof fn lemma_sets_targets(targets: Seq<ColorTargetDesc>)
    requires
        targets.len() <= u32::MAX,
    ensures
        sets_targets(color_target_commands(targets), targets),
{
    let commands = color_target_commands(targets);
    assert forall|k: int| #![trigger targets[k]] 0 <= k < targets.len() implies latest(
        commands,
        target_pick(k),
    ) == Some(targets[k]) by {
        law_each_target_is_as_described(targets, k);
    }
    if forall|k: int, l: int|
        0 <= k < l < targets.len() ==> #[trigger] targets[k] == #[trigger] targets[l] {
        assert forall|k: int| 1 <= k < targets.len() implies #[trigger] targets[k]
            == targets[0] by {}
        assert(alike(targets));
    } else if alike(targets) {
        assert forall|k: int, l: int| 0 <= k < l < targets.len() implies #[trigger] targets[k]
            == #[trigger] targets[l] by {
            assert(targets[k] == targets[0]);
        }
    }
}

/// A render pipeline's topology, culling, color targets and, where it has any,
/// stencil tests are those that are tracked once it is set; its depth bias too,
/// up to the sign of zeros. Its attributes are kept behind those that are, where
/// layouts are not set apart. What belongs to no pipeline is left alone.
pub proof fn law_pipeline_is_tracked(encoder: EncoderView, pipeline: RenderPipeline)
    requires
        encoder.wf(),
    ensures
        ({
            let (before, after) = (encoder.state, encoder.set_render_pipeline(pipeline).state);
            &&& after.topology == pipeline.topology
            &&& after.primitive == pipeline.primitive
            &&& after.color_targets == pipeline.color_targets@
            &&& pipeline.stencil is None ==> after.stencil == before.stencil
            &&& pipeline.stencil matches Some(stencil) ==> after.stencil == stencil
            &&& after.depth_bias == pipeline.depth_bias || (after.depth_bias == before.depth_bias
                && pipeline.depth_bias.same_bias(before.depth_bias))
            &&& !pipeline.depth_bias.same_bias(before.depth_bias) ==> after.depth_bias
                == pipeline.depth_bias
            &&& after.vertex_attributes == if encoder.private_caps.has(
                PrivateCapabilities::VERTEX_BUFFER_LAYOUT,
            ) {
                before.vertex_attributes
            } else {
                before.vertex_attributes + pipeline.vertex_attributes@
            }
            &&& after.texture_slots == encoder.set_pipeline_inner(
                pipeline.inner,
            ).state.texture_slots
            &&& after == (StateView {
                topology: after.topology,
                primitive: after.primitive,
                color_targets: after.color_targets,
                stencil: after.stencil,
                depth_bias: after.depth_bias,
                vertex_attributes: after.vertex_attributes,
                vertex_buffers: after.vertex_buffers,
                instance_vbufs: after.instance_vbufs,
                dirty_vbufs: after.dirty_vbufs,
                texture_slots: after.texture_slots,
                ..before
            })
        }),
{
    let slots = encoder.set_vertex_input(pipeline).state.slots_for(
        pipeline.inner,
        MAX_TEXTURE_SLOTS as int,
    );
    assert(slots =~= encoder.state.slots_for(pipeline.inner, MAX_TEXTURE_SLOTS as int));
}

/// A vertex buffer that a render pipeline describes is stepped through as it
/// says, and keeps its contents; any other is left alone. The buffers that are
/// stepped through by instance are those that it describes so. A buffer that is
/// stepped through otherwise than before becomes dirty. Where layouts are set
/// apart, so does no other; where they are not, the dirty ones are otherwise
/// those that attributes of the pipeline are read from.
pub proof fn law_pipeline_steps_through_buffers(
    encoder: EncoderView,
    pipeline: RenderPipeline,
    i: int,
)
    requires
        encoder.wf(),
        0 <= i < MAX_VERTEX_BUFFERS,
    ensures
        ({
            let (before, after) = (encoder.state, encoder.set_render_pipeline(pipeline).state);
            let buffers = pipeline.vertex_buffers@;
            let described = i < buffers.len();
            let restepped = described && before.vertex_buffers[i].0 != buffers[i];
            &&& after.vertex_buffers.len() == before.vertex_buffers.len()
            &&& after.vertex_buffers[i].1 == before.vertex_buffers[i].1
            &&& described ==> after.vertex_buffers[i].0 == buffers[i]
            &&& !described ==> after.vertex_buffers[i].0 == before.vertex_buffers[i].0
            &&& after.instance_vbufs.contains(i) <==> described && buffers[i].step
                == InputStepMode::Instance
            &&& encoder.private_caps.has(PrivateCapabilities::VERTEX_BUFFER_LAYOUT) ==> (
            after.dirty_vbufs.contains(i) <==> before.dirty_vbufs.contains(i) || restepped)
            &&& !encoder.private_caps.has(PrivateCapabilities::VERTEX_BUFFER_LAYOUT) ==> (
            after.dirty_vbufs.contains(i) <==> restepped || exists|k: int|
                0 <= k < pipeline.vertex_attributes@.len() && (
                #[trigger] pipeline.vertex_attributes@[k]).buffer_index == i)
        }),
{
}

// Effects
/// The program that a command uses.
pub open spec fn program_pick() -> spec_fn(CommandView) -> Option<u32> {
    |command: CommandView|
        match command {
            Command::SetProgram(program) => Some(program),
            _ => None,
        }
}

/// The depth test that a command sets.
pub open spec fn depth_pick() -> spec_fn(CommandView) -> Option<DepthState> {
    |command: CommandView|
        match command {
            Command::SetDepth(depth) => Some(depth),
            _ => None,
        }
}

/// The aspects that a command says are tested.
pub open spec fn aspects_pick() -> spec_fn(CommandView) -> Option<FormatAspects> {
    |command: CommandView|
        match command {
            Command::ConfigureDepthStencil(aspects) => Some(aspects),
            _ => None,
        }
}

/// The depth bias that commands leave set: none of any kind, where none sets one.
pub open spec fn bias_left(commands: Seq<CommandView>) -> DepthBiasState {
    match latest(commands, bias_pick()) {
        Some(bias) => bias,
        None => DepthBiasState {
            constant: 0,
            slope_scale: FloatBits { bits: 0 },
            clamp: FloatBits { bits: 0 },
        },
    }
}

/// Whatever was set before, once a render pipeline is set the recorded commands
/// leave its depth bias behind: the same numbers, or the same bits.
pub proof fn law_pipeline_leaves_its_bias(encoder: EncoderView, pipeline: RenderPipeline)
    requires
        encoder.wf(),
        encoder.in_sync(),
        encoder.can_set_render_pipeline(pipeline),
    ensures
        ({
            let left = bias_left(encoder.set_render_pipeline(pipeline).cmd_buffer.commands);
            left == pipeline.depth_bias || pipeline.depth_bias.same_bias(left)
        }),
{
    law_render_pipeline_keeps_sync(encoder, pipeline);
    law_pipeline_is_tracked(encoder, pipeline);
}

/// Whatever was set before, once a render pipeline is set the recorded commands
/// leave behind its culling, its color targets, its stencil tests and operations
/// where it has any, and for each texture slot that its program samples the
/// sampler that is bound for it. A pipeline with the initial culling may leave
/// that to the start of a pass.
pub proof fn law_pipeline_leaves_its_state(
    encoder: EncoderView,
    pipeline: RenderPipeline,
    target: int,
    slot: int,
)
    requires
        encoder.wf(),
        encoder.in_sync(),
        encoder.can_set_render_pipeline(pipeline),
        0 <= slot < MAX_TEXTURE_SLOTS,
    ensures
        ({
            let commands = encoder.set_render_pipeline(pipeline).cmd_buffer.commands;
            let targets = pipeline.color_targets@;
            &&& pipeline.primitive != encoder.state.primitive || pipeline.primitive
                != initial_primitive() ==> latest(commands, primitive_pick()) == Some(
                pipeline.primitive,
            )
            &&& 0 <= target < targets.len() ==> latest(commands, target_pick(target)) == Some(
                targets[target],
            )
            &&& pipeline.stencil matches Some(stencil) ==> {
                &&& latest(commands, test_pick(gl::FRONT)) == Some(side_test(stencil.front))
                &&& latest(commands, test_pick(gl::BACK)) == Some(side_test(stencil.back))
                &&& latest(commands, ops_pick(gl::FRONT)) == Some(
                    (stencil.front.mask_write, stencil.front.ops),
                )
                &&& latest(commands, ops_pick(gl::BACK)) == Some(
                    (stencil.back.mask_write, stencil.back.ops),
                )
            }
            &&& pipeline.inner.sampler_map@[slot] matches Some(s) ==> (
            encoder.state.samplers[s as int] is Some ==> latest(commands, sampler_pick(slot))
                == encoder.state.samplers[s as int])
        }),
{
    let set = encoder.set_render_pipeline(pipeline);
    law_render_pipeline_keeps_sync(encoder, pipeline);
    law_pipeline_is_tracked(encoder, pipeline);
    assert(set.state.texture_slots[slot].sampler_index == pipeline.inner.sampler_map@[slot]);
    assert(set.state.sampler_for(slot) == match pipeline.inner.sampler_map@[slot] {
        Some(s) => encoder.state.samplers[s as int],
        None => None,
    });
    if 0 <= target < pipeline.color_targets@.len() {
        assert(set.state.color_targets[target] == pipeline.color_targets@[target]);
    }
    if pipeline.primitive != encoder.state.primitive {
        lemma_primitive_is_left(encoder, pipeline);
    }
    lemma_stencil_is_left(encoder, pipeline);
}

proof fn lemma_primitive_is_left(encoder: EncoderView, pipeline: RenderPipeline)
    requires
        encoder.wf(),
        pipeline.color_targets@.len() <= u32::MAX,
        pipeline.primitive != encoder.state.primitive,
    ensures
        latest(
            encoder.set_render_pipeline(pipeline).cmd_buffer.commands,
            primitive_pick(),
        ) == Some(pipeline.primitive),
{
    let parts = law_pipeline_is_recorded(encoder, pipeline);
    lemma_added_is_suffix(encoder, encoder.set_render_pipeline(pipeline));
    lemma_latest_parts(encoder.cmd_buffer.commands, parts, primitive_pick());
    lemma_latest_none(parts.bias, primitive_pick());
    lemma_latest_none(parts.depth, primitive_pick());
    lemma_latest_none(parts.tests, primitive_pick());
    lemma_latest_none(parts.ops, primitive_pick());
    lemma_latest_none(parts.aspects, primitive_pick());
    lemma_latest_none(parts.targets, primitive_pick());
    assert(parts.primitive.last() == Command::<Seq<u32>>::SetPrimitive(pipeline.primitive));
}

proof fn lemma_stencil_is_left(encoder: EncoderView, pipeline: RenderPipeline)
    requires
        encoder.wf(),
        pipeline.color_targets@.len() <= u32::MAX,
    ensures
        pipeline.stencil matches Some(stencil) ==> {
            let commands = encoder.set_render_pipeline(pipeline).cmd_buffer.commands;
            &&& latest(commands, test_pick(gl::FRONT)) == Some(side_test(stencil.front))
            &&& latest(commands, test_pick(gl::BACK)) == Some(side_test(stencil.back))
            &&& latest(commands, ops_pick(gl::FRONT)) == Some(
                (stencil.front.mask_write, stencil.front.ops),
            )
            &&& latest(commands, ops_pick(gl::BACK)) == Some(
                (stencil.back.mask_write, stencil.back.ops),
            )
        },
{
    let parts = law_pipeline_is_recorded(encoder, pipeline);
    let earlier = encoder.cmd_buffer.commands;
    lemma_added_is_suffix(encoder, encoder.set_render_pipeline(pipeline));
    if pipeline.stencil is Some {
        lemma_latest_parts(earlier, parts, test_pick(gl::FRONT));
        lemma_latest_parts(earlier, parts, test_pick(gl::BACK));
        lemma_latest_parts(earlier, parts, ops_pick(gl::FRONT));
        lemma_latest_parts(earlier, parts, ops_pick(gl::BACK));
        lemma_latest_none(parts.ops, test_pick(gl::FRONT));
        lemma_latest_none(parts.ops, test_pick(gl::BACK));
        lemma_latest_none(parts.aspects, test_pick(gl::FRONT));
        lemma_latest_none(parts.aspects, test_pick(gl::BACK));
        lemma_latest_none(parts.targets, test_pick(gl::FRONT));
        lemma_latest_none(parts.targets, test_pick(gl::BACK));
        lemma_latest_none(parts.aspects, ops_pick(gl::FRONT));
        lemma_latest_none(parts.aspects, ops_pick(gl::BACK));
        lemma_latest_none(parts.targets, ops_pick(gl::FRONT));
        lemma_latest_none(parts.targets, ops_pick(gl::BACK));
    }
}

/// The first of two that is there.
spec fn or_else<U>(first: Option<U>, second: Option<U>) -> Option<U> {
    match first {
        Some(value) => Some(value),
        None => second,
    }
}

/// What the parts leave behind, the later ones first.
proof fn lemma_latest_parts<U>(
    earlier: Seq<CommandView>,
    parts: PipelineParts,
    pick: spec_fn(CommandView) -> Option<U>,
)
    ensures
        ({
            let p1 = or_else(
                latest(parts.layouts, pick),
                or_else(latest(parts.unset, pick), latest(earlier, pick)),
            );
            let p2 = or_else(latest(parts.program, pick), p1);
            let p3 = or_else(latest(parts.primitive, pick), p2);
            let p4 = or_else(latest(parts.bias, pick), p3);
            let p5 = or_else(latest(parts.depth, pick), p4);
            let p6 = or_else(latest(parts.tests, pick), p5);
            let p7 = or_else(latest(parts.ops, pick), p6);
            let p8 = or_else(latest(parts.aspects, pick), p7);
            latest(earlier + parts.all(), pick) == or_else(latest(parts.targets, pick), p8)
        }),
{
    let p1 = parts.unset + parts.layouts;
    let p2 = p1 + parts.program;
    let p3 = p2 + parts.primitive;
    let p4 = p3 + parts.bias;
    let p5 = p4 + parts.depth;
    let p6 = p5 + parts.tests;
    let p7 = p6 + parts.ops;
    let p8 = p7 + parts.aspects;
    lemma_latest_concat(parts.unset, parts.layouts, pick);
    lemma_latest_concat(p1, parts.program, pick);
    lemma_latest_concat(p2, parts.primitive, pick);
    lemma_latest_concat(p3, parts.bias, pick);
    lemma_latest_concat(p4, parts.depth, pick);
    lemma_latest_concat(p5, parts.tests, pick);
    lemma_latest_concat(p6, parts.ops, pick);
    lemma_latest_concat(p7, parts.aspects, pick);
    lemma_latest_concat(p8, parts.targets, pick);
    lemma_latest_concat(earlier, parts.all(), pick);
}

proof fn lemma_added_is_suffix(encoder: EncoderView, later: EncoderView)
    requires
        encoder.only_adds(later),
    ensures
        later.cmd_buffer.commands == encoder.cmd_buffer.commands + encoder.added(later),
{
    let (a, b) = (encoder.cmd_buffer.commands, later.cmd_buffer.commands);
    assert(a =~= b.subrange(0, a.len() as int));
    assert(b =~= a + b.skip(a.len() as int));
}

/// Once a render pipeline is set, its program is the one that is used, its depth
/// test is set where it has one, and exactly the aspects that it has a test for
/// are tested.
pub proof fn law_pipeline_leaves_its_tests(encoder: EncoderView, pipeline: RenderPipeline)
    requires
        encoder.wf(),
        pipeline.color_targets@.len() <= u32::MAX,
    ensures
        ({
            let commands = encoder.set_render_pipeline(pipeline).cmd_buffer.commands;
            &&& latest(commands, program_pick()) == Some(pipeline.inner.program)
            &&& pipeline.depth is Some ==> latest(commands, depth_pick()) == pipeline.depth
            &&& latest(commands, aspects_pick()) matches Some(aspects)
            &&& aspects.has(FormatAspects::DEPTH) <==> pipeline.depth is Some
            &&& aspects.has(FormatAspects::STENCIL) <==> pipeline.stencil is Some
        }),
{
    let parts = law_pipeline_is_recorded(encoder, pipeline);
    let earlier = encoder.cmd_buffer.commands;
    lemma_added_is_suffix(encoder, encoder.set_render_pipeline(pipeline));
    lemma_latest_parts(earlier, parts, program_pick());
    lemma_latest_parts(earlier, parts, depth_pick());
    lemma_latest_parts(earlier, parts, aspects_pick());
    lemma_program_is_left(encoder, pipeline.inner);
    lemma_latest_none(parts.primitive, program_pick());
    lemma_latest_none(parts.bias, program_pick());
    lemma_latest_none(parts.depth, program_pick());
    lemma_latest_none(parts.tests, program_pick());
    lemma_latest_none(parts.ops, program_pick());
    lemma_latest_none(parts.aspects, program_pick());
    lemma_latest_none(parts.targets, program_pick());
    lemma_latest_none(parts.tests, depth_pick());
    lemma_latest_none(parts.ops, depth_pick());
    lemma_latest_none(parts.aspects, depth_pick());
    lemma_latest_none(parts.targets, depth_pick());
    lemma_latest_none(parts.targets, aspects_pick());
    if let Some(depth) = pipeline.depth {
        assert(parts.depth.last() == Command::<Seq<u32>>::SetDepth(depth));
    }
    assert(parts.aspects.last() == parts.aspects[0]);
}

proof fn lemma_program_is_left(encoder: EncoderView, inner: PipelineInner)
    requires
        encoder.wf(),
    ensures
        latest(encoder.added(encoder.set_pipeline_inner(inner)), program_pick()) == Some(
            inner.program,
        ),
{
    let added = encoder.added(encoder.set_pipeline_inner(inner));
    let at = law_program_is_used(encoder, inner);
    let (first, rest) = (added.take(1), added.skip(1));
    assert(added =~= first + rest);
    assert forall|k: int| 0 <= k < rest.len() implies program_pick()(
        #[trigger] rest[k],
    ) is None by {
        assert(rest[k] == added[1 + k]);
        assert(0 <= at[k]);
    }
    lemma_latest_none(rest, program_pick());
    lemma_latest_concat(first, rest, program_pick());
    assert(first.last() == added[0]);
}

/// A stencil reference is put into the tests of both faces, which are set; the
/// rest of the tests, and of the state, is left alone.
pub proof fn law_reference_is_set(encoder: EncoderView, value: u32)
    ensures
        ({
            let set = encoder.set_stencil_reference(value);
            let (before, after) = (encoder.state.stencil, set.state.stencil);
            &&& encoder.only_adds(set)
            &&& sets_tests(encoder.added(set), after)
            &&& after.front.reference == value
            &&& after.back.reference == value
            &&& after.front == (StencilSide { reference: value, ..before.front })
            &&& after.back == (StencilSide { reference: value, ..before.back })
            &&& set.state == (StateView { stencil: after, ..encoder.state })
        }),
{
    let set = encoder.set_stencil_reference(value);
    lemma_added(encoder, set.state, stencil_funcs(set.state.stencil));
    lemma_sets_stencil(set.state.stencil);
}

/// The stencil tests that are tracked are set for their faces.
pub proof fn law_tests_are_set(stencil: StencilState)
    ensures
        sets_tests(stencil_funcs(stencil), stencil),
{
    lemma_sets_stencil(stencil);
}

} // verus!
