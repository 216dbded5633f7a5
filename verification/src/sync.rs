//! The tracked state is the state that the recorded commands set.
//!
//! A recorder leaves out what it takes to be set already. That is sound as long
//! as what it tracks agrees with what the commands recorded so far leave behind
//! when they are executed, which the laws of this module show.
use vstd::prelude::*;

use crate::bind::{
    binding_commands, binding_count, bound_samplers, bound_textures, can_bind, can_bind_group,
    lemma_binding_commands_bind, lemma_sampler_commands_bind, samplers_in_range,
};
use crate::collect::{latest, lemma_collect_none, lemma_latest_concat, lemma_latest_none};
use crate::command::{Command, CommandView};
use crate::draw::lemma_vertex_data_commands_set;
use crate::encoder::EncoderView;
use crate::gl;
use crate::laws::{
    law_each_face_has_its_test, law_each_target_is_as_described, side_test, target_pick, test_pick,
};
use crate::pass::{lemma_color_clears_clear, pass_setup, pass_teardown};
use crate::pipeline::{
    color_target_commands, stencil_funcs, stencil_ops, tested_aspects, vertex_buffer_count,
};
use crate::state::StateView;
use crate::types::{
    initial_primitive, initial_stencil_side, BindGroup, BindGroupLayoutInfo, Buffer, BufferAddress,
    DepthBiasState, DynamicOffset, IndexFormat, PipelineInner, PrimitiveState,
    RenderPassDescriptor, RenderPipeline, StencilState, MAX_COLOR_TARGETS, MAX_SAMPLERS,
    MAX_TEXTURE_SLOTS,
};
use crate::webgpu::initial_depth_bias;

verus! {

/// The sampler that a command binds to a texture slot.
pub open spec fn sampler_pick(slot: int) -> spec_fn(CommandView) -> Option<u32> {
    |command: CommandView|
        match command {
            Command::BindSampler(target, sampler) => if target == slot {
                Some(sampler)
            } else {
                None
            },
            _ => None,
        }
}

/// The culling and clipping that a command sets.
pub open spec fn primitive_pick() -> spec_fn(CommandView) -> Option<PrimitiveState> {
    |command: CommandView|
        match command {
            Command::SetPrimitive(primitive) => Some(primitive),
            _ => None,
        }
}

/// The depth bias that a command sets.
pub open spec fn bias_pick() -> spec_fn(CommandView) -> Option<DepthBiasState> {
    |command: CommandView|
        match command {
            Command::SetDepthBias(bias) => Some(bias),
            _ => None,
        }
}

/// Whether a command sets something that the recorder tracks.
pub open spec fn is_tracked(command: CommandView) -> bool {
    ||| command is BindSampler
    ||| command is SetPrimitive
    ||| command is SetDepthBias
    ||| command is SetColorTarget
    ||| command is SetStencilFunc
}

/// Whether no command sets anything that the recorder tracks.
pub open spec fn untracked(commands: Seq<CommandView>) -> bool {
    forall|i: int| 0 <= i < commands.len() ==> !is_tracked(#[trigger] commands[i])
}

impl StateView {
    /// The sampler that a program samples texture slot `i` with.
    pub open spec fn sampler_for(self, i: int) -> Option<u32> {
        match self.texture_slots[i].sampler_index {
            Some(sampler_index) => self.samplers[sampler_index as int],
            None => None,
        }
    }

    /// Whether commands leave bound to each texture slot the sampler that the
    /// program samples it with.
    pub open spec fn samplers_agree(self, commands: Seq<CommandView>) -> bool {
        forall|i: int|
            #![trigger self.sampler_for(i)]
            0 <= i < MAX_TEXTURE_SLOTS && self.sampler_for(i) is Some ==> latest(
                commands,
                sampler_pick(i),
            ) == self.sampler_for(i)
    }

    /// Whether commands leave the culling and clipping set that is tracked,
    /// unless none is.
    pub open spec fn primitive_agrees(self, commands: Seq<CommandView>) -> bool {
        self.primitive != initial_primitive() ==> latest(commands, primitive_pick()) == Some(
            self.primitive,
        )
    }

    /// Whether commands leave the depth bias set that is tracked, or none where
    /// none is.
    pub open spec fn bias_agrees(self, commands: Seq<CommandView>) -> bool {
        match latest(commands, bias_pick()) {
            Some(bias) => self.depth_bias == bias,
            None => self.depth_bias == initial_depth_bias(),
        }
    }

    /// Whether commands leave the color targets set that are tracked.
    pub open spec fn targets_agree(self, commands: Seq<CommandView>) -> bool {
        forall|k: int|
            #![trigger self.color_targets[k]]
            0 <= k < self.color_targets.len() ==> latest(commands, target_pick(k)) == Some(
                self.color_targets[k],
            )
    }

    /// Whether commands leave the stencil tests set that are tracked, or none
    /// where none is.
    pub open spec fn tests_agree(self, commands: Seq<CommandView>) -> bool {
        &&& match latest(commands, test_pick(gl::FRONT)) {
            Some(test) => side_test(self.stencil.front) == test,
            None => side_test(self.stencil.front) == side_test(initial_stencil_side()),
        }
        &&& match latest(commands, test_pick(gl::BACK)) {
            Some(test) => side_test(self.stencil.back) == test,
            None => side_test(self.stencil.back) == side_test(initial_stencil_side()),
        }
    }

    /// Whether the tracked state is what commands leave behind.
    pub open spec fn agrees(self, commands: Seq<CommandView>) -> bool {
        &&& self.samplers_agree(commands)
        &&& self.primitive_agrees(commands)
        &&& self.bias_agrees(commands)
        &&& self.targets_agree(commands)
        &&& self.tests_agree(commands)
    }
}

impl EncoderView {
    /// Whether the tracked state is what the recorded commands leave behind.
    pub open spec fn in_sync(self) -> bool {
        self.state.agrees(self.cmd_buffer.commands)
    }
}

/// Before anything is recorded, the tracked state agrees with the commands.
pub proof fn law_starts_in_sync(encoder: EncoderView, label: Option<Seq<char>>)
    ensures
        EncoderView::created(encoder.private_caps).in_sync(),
        encoder.without_commands().begin_encoding(label).in_sync(),
{
    let state = StateView::initial();
    assert forall|i: int| 0 <= i < MAX_TEXTURE_SLOTS implies #[trigger] state.sampler_for(
        i,
    ) is None by {}
}

/// Commands that set nothing tracked leave behind what was there before.
proof fn lemma_untracked(earlier: Seq<CommandView>, later: Seq<CommandView>)
    requires
        untracked(later),
    ensures
        forall|i: int|
            latest(earlier + later, #[trigger] sampler_pick(i)) == latest(earlier, sampler_pick(i)),
        forall|k: int|
            latest(earlier + later, #[trigger] target_pick(k)) == latest(earlier, target_pick(k)),
        latest(earlier + later, primitive_pick()) == latest(earlier, primitive_pick()),
        latest(earlier + later, bias_pick()) == latest(earlier, bias_pick()),
        latest(earlier + later, test_pick(gl::FRONT)) == latest(earlier, test_pick(gl::FRONT)),
        latest(earlier + later, test_pick(gl::BACK)) == latest(earlier, test_pick(gl::BACK)),
{
    assert forall|i: int|
        latest(earlier + later, #[trigger] sampler_pick(i)) == latest(earlier, sampler_pick(i)) by {
        lemma_latest_none(later, sampler_pick(i));
        lemma_latest_concat(earlier, later, sampler_pick(i));
    }
    assert forall|k: int|
        latest(earlier + later, #[trigger] target_pick(k)) == latest(earlier, target_pick(k)) by {
        lemma_latest_none(later, target_pick(k));
        lemma_latest_concat(earlier, later, target_pick(k));
    }
    lemma_latest_none(later, primitive_pick());
    lemma_latest_concat(earlier, later, primitive_pick());
    lemma_latest_none(later, bias_pick());
    lemma_latest_concat(earlier, later, bias_pick());
    lemma_latest_none(later, test_pick(gl::FRONT));
    lemma_latest_concat(earlier, later, test_pick(gl::FRONT));
    lemma_latest_none(later, test_pick(gl::BACK));
    lemma_latest_concat(earlier, later, test_pick(gl::BACK));
}

/// To record commands that set nothing tracked, without a change of what is
/// tracked, keeps the two in agreement. Barriers, copies, queries, dispatches,
/// markers, viewports, scissors and indirect draws are of that kind.
pub proof fn law_untracked_keeps_sync(
    encoder: EncoderView,
    commands: Seq<CommandView>,
    state: StateView,
)
    requires
        encoder.in_sync(),
        untracked(commands),
        state.samplers == encoder.state.samplers,
        state.texture_slots == encoder.state.texture_slots,
        state.primitive == encoder.state.primitive,
        state.depth_bias == encoder.state.depth_bias,
        state.color_targets == encoder.state.color_targets,
        state.stencil == encoder.state.stencil,
    ensures
        encoder.record(commands).in_state(state).in_sync(),
{
    let earlier = encoder.cmd_buffer.commands;
    lemma_untracked(earlier, commands);
    assert forall|i: int|
        #![trigger state.sampler_for(i)]
        0 <= i < MAX_TEXTURE_SLOTS && state.sampler_for(i) is Some implies latest(
        earlier + commands,
        sampler_pick(i),
    ) == state.sampler_for(i) by {
        assert(state.sampler_for(i) == encoder.state.sampler_for(i));
    }
    assert forall|k: int|
        #![trigger state.color_targets[k]]
        0 <= k < state.color_targets.len() implies latest(earlier + commands, target_pick(k))
        == Some(state.color_targets[k]) by {
        assert(state.color_targets[k] == encoder.state.color_targets[k]);
    }
}

// Samplers
/// What binding samplers leaves bound to a slot: its sampler, where it is among
/// those that are bound.
proof fn lemma_sampler_commands(
    state: StateView,
    textures: Set<int>,
    samplers: Set<int>,
    n: nat,
    i: int,
)
    requires
        0 <= i < MAX_TEXTURE_SLOTS,
        n <= MAX_TEXTURE_SLOTS,
    ensures
        latest(state.sampler_commands(textures, samplers, n), sampler_pick(i)) == if i < n
            && state.sampler_command(textures, samplers, i) is Some {
            state.sampler_for(i)
        } else {
            None
        },
    decreases n,
{
    let commands = state.sampler_commands(textures, samplers, n);
    if n > 0 {
        let earlier = state.sampler_commands(textures, samplers, (n - 1) as nat);
        lemma_sampler_commands(state, textures, samplers, (n - 1) as nat, i);
        match state.sampler_command(textures, samplers, n - 1) {
            Some(command) => {
                assert(commands.drop_last() =~= earlier);
            },
            None => {
                assert(commands == earlier);
            },
        }
    }
}

/// Commands that bind samplers leave the rest of what is tracked as it was.
proof fn lemma_binds_only(earlier: Seq<CommandView>, later: Seq<CommandView>)
    requires
        forall|k: int|
            0 <= k < later.len() ==> (#[trigger] later[k]) is BindSampler || !is_tracked(later[k]),
    ensures
        forall|k: int|
            latest(earlier + later, #[trigger] target_pick(k)) == latest(earlier, target_pick(k)),
        latest(earlier + later, primitive_pick()) == latest(earlier, primitive_pick()),
        latest(earlier + later, bias_pick()) == latest(earlier, bias_pick()),
        latest(earlier + later, test_pick(gl::FRONT)) == latest(earlier, test_pick(gl::FRONT)),
        latest(earlier + later, test_pick(gl::BACK)) == latest(earlier, test_pick(gl::BACK)),
{
    assert forall|k: int|
        latest(earlier + later, #[trigger] target_pick(k)) == latest(earlier, target_pick(k)) by {
        lemma_latest_none(later, target_pick(k));
        lemma_latest_concat(earlier, later, target_pick(k));
    }
    lemma_latest_none(later, primitive_pick());
    lemma_latest_concat(earlier, later, primitive_pick());
    lemma_latest_none(later, bias_pick());
    lemma_latest_concat(earlier, later, bias_pick());
    lemma_latest_none(later, test_pick(gl::FRONT));
    lemma_latest_concat(earlier, later, test_pick(gl::FRONT));
    lemma_latest_none(later, test_pick(gl::BACK));
    lemma_latest_concat(earlier, later, test_pick(gl::BACK));
}

/// Recording untracked commands and then binding the samplers of the slots that
/// are sampled otherwise than before keeps the agreement.
proof fn lemma_rebinding_keeps_sync(
    encoder: EncoderView,
    state: StateView,
    first: Seq<CommandView>,
    textures: Set<int>,
    samplers: Set<int>,
)
    requires
        encoder.in_sync(),
        untracked(first),
        state.primitive == encoder.state.primitive,
        state.depth_bias == encoder.state.depth_bias,
        state.color_targets == encoder.state.color_targets,
        state.stencil == encoder.state.stencil,
        forall|i: int|
            #![trigger state.sampler_for(i)]
            0 <= i < MAX_TEXTURE_SLOTS && state.sampler_for(i) is Some && state.sampler_command(
                textures,
                samplers,
                i,
            ) is None ==> state.sampler_for(i) == encoder.state.sampler_for(i),
    ensures
        encoder.in_state(state).record(
            first + state.sampler_commands(textures, samplers, MAX_TEXTURE_SLOTS as nat),
        ).in_sync(),
{
    let earlier = encoder.cmd_buffer.commands;
    let binds = state.sampler_commands(textures, samplers, MAX_TEXTURE_SLOTS as nat);
    let later = first + binds;
    lemma_sampler_commands_bind(state, textures, samplers);
    lemma_binds_only(earlier, later);
    assert forall|i: int|
        #![trigger state.sampler_for(i)]
        0 <= i < MAX_TEXTURE_SLOTS && state.sampler_for(i) is Some implies latest(
        earlier + later,
        sampler_pick(i),
    ) == state.sampler_for(i) by {
        lemma_sampler_commands(state, textures, samplers, MAX_TEXTURE_SLOTS as nat, i);
        lemma_latest_none(first, sampler_pick(i));
        lemma_latest_concat(first, binds, sampler_pick(i));
        lemma_latest_concat(earlier, later, sampler_pick(i));
        if state.sampler_command(textures, samplers, i) is None {
            assert(state.sampler_for(i) == encoder.state.sampler_for(i));
        }
    }
    assert forall|k: int|
        #![trigger state.color_targets[k]]
        0 <= k < state.color_targets.len() implies latest(earlier + later, target_pick(k)) == Some(
        state.color_targets[k],
    ) by {
        assert(state.color_targets[k] == encoder.state.color_targets[k]);
    }
}

/// Another program keeps the tracked state in agreement with the commands.
pub proof fn law_program_keeps_sync(encoder: EncoderView, inner: PipelineInner)
    requires
        encoder.wf(),
        encoder.in_sync(),
        samplers_in_range(inner),
    ensures
        encoder.set_pipeline_inner(inner).in_sync(),
{
    let state = encoder.set_pipeline_inner(inner).state;
    let changed = encoder.state.resampled_slots(inner);
    assert forall|i: int|
        #![trigger state.sampler_for(i)]
        0 <= i < MAX_TEXTURE_SLOTS && state.sampler_for(i) is Some && state.sampler_command(
            changed,
            Set::empty(),
            i,
        ) is None implies state.sampler_for(i) == encoder.state.sampler_for(i) by {
        assert(inner.sampler_map@[i] == state.texture_slots[i].sampler_index);
    }
    lemma_rebinding_keeps_sync(
        encoder,
        state,
        seq![Command::SetProgram(inner.program)],
        changed,
        Set::empty(),
    );
}

/// A bind group changes no sampler slot but those of its samplers, and nothing
/// of what textures are sampled with.
proof fn lemma_with_bindings(
    state: StateView,
    info: BindGroupLayoutInfo,
    group: BindGroup,
    offsets: Seq<DynamicOffset>,
    n: nat,
)
    requires
        state.wf(),
        can_bind_group(info, group, offsets),
        n <= binding_count(info, group),
    ensures
        state.with_bindings(info, group, n).wf(),
        ({
            let after = state.with_bindings(info, group, n);
            &&& after == (StateView {
                samplers: after.samplers,
                texture_slots: after.texture_slots,
                ..state
            })
            &&& forall|i: int|
                0 <= i < MAX_TEXTURE_SLOTS ==> (#[trigger] after.texture_slots[i]).sampler_index
                    == state.texture_slots[i].sampler_index
            &&& forall|k: int|
                0 <= k < MAX_SAMPLERS && !bound_samplers(info, group, n).contains(k)
                    ==> #[trigger] after.samplers[k] == state.samplers[k]
        }),
    decreases n,
{
    if n > 0 {
        lemma_with_bindings(state, info, group, offsets, (n - 1) as nat);
        assert(can_bind(info, group, offsets, n - 1));
    }
}

/// A bind group keeps the tracked state in agreement with the commands.
pub proof fn law_bind_group_keeps_sync(
    encoder: EncoderView,
    info: BindGroupLayoutInfo,
    group: BindGroup,
    offsets: Seq<DynamicOffset>,
)
    requires
        encoder.wf(),
        encoder.in_sync(),
        can_bind_group(info, group, offsets),
    ensures
        encoder.set_bind_group(info, group, offsets).in_sync(),
{
    let n = binding_count(info, group);
    let state = encoder.state.with_bindings(info, group, n);
    let textures = bound_textures(info, group, n);
    let samplers = bound_samplers(info, group, n);
    lemma_with_bindings(encoder.state, info, group, offsets, n);
    lemma_binding_commands_bind(info, group, offsets, n);
    assert forall|i: int|
        #![trigger state.sampler_for(i)]
        0 <= i < MAX_TEXTURE_SLOTS && state.sampler_for(i) is Some && state.sampler_command(
            textures,
            samplers,
            i,
        ) is None implies state.sampler_for(i) == encoder.state.sampler_for(i) by {
        assert(state.texture_slots[i].sampler_index
            == encoder.state.texture_slots[i].sampler_index);
        let k = state.texture_slots[i].sampler_index->0 as int;
        assert(!samplers.contains(k));
        assert(state.samplers[k] == encoder.state.samplers[k]);
    }
    lemma_rebinding_keeps_sync(
        encoder,
        state,
        binding_commands(info, group, offsets, n),
        textures,
        samplers,
    );
}

// Pipelines
/// A render pipeline keeps the tracked state in agreement with the commands.
pub proof fn law_render_pipeline_keeps_sync(encoder: EncoderView, pipeline: RenderPipeline)
    requires
        encoder.wf(),
        encoder.in_sync(),
        encoder.can_set_render_pipeline(pipeline),
    ensures
        encoder.set_render_pipeline(pipeline).in_sync(),
{
    let e1 = encoder.set_vertex_input(pipeline);
    let e2 = e1.set_pipeline_inner(pipeline.inner);
    let e3 = e2.set_primitive(pipeline);
    let e4 = e3.set_depth_bias(pipeline);
    let e5 = e4.set_depth_stencil(pipeline);
    let input = e1.cmd_buffer.commands.skip(encoder.cmd_buffer.commands.len() as int);
    assert(e1 =~= encoder.record(input).in_state(e1.state));
    law_untracked_keeps_sync(encoder, input, e1.state);
    law_program_keeps_sync(e1, pipeline.inner);
    lemma_primitive_keeps_sync(e2, pipeline);
    lemma_bias_keeps_sync(e3, pipeline);
    lemma_depth_stencil_keeps_sync(e4, pipeline);
    lemma_targets_keep_sync(e5, pipeline);
}

proof fn lemma_primitive_keeps_sync(encoder: EncoderView, pipeline: RenderPipeline)
    requires
        encoder.in_sync(),
    ensures
        encoder.set_primitive(pipeline).in_sync(),
{
    let earlier = encoder.cmd_buffer.commands;
    let set = encoder.set_primitive(pipeline);
    if pipeline.primitive != encoder.state.primitive {
        let later: Seq<CommandView> = seq![Command::SetPrimitive(pipeline.primitive)];
        lemma_one_command(earlier, later);
        lemma_latest_concat(earlier, later, primitive_pick());
        reveal_with_fuel(latest, 2);
        lemma_samplers_kept(encoder.state, set.state, earlier, earlier + later);
        lemma_targets_kept(encoder.state, set.state, earlier, earlier + later);
    } else {
        assert(set =~= encoder);
    }
}

/// What a single command that is not of a kind leaves of that kind.
proof fn lemma_one_command(earlier: Seq<CommandView>, later: Seq<CommandView>)
    requires
        later.len() == 1,
    ensures
        !(later[0] is BindSampler) ==> forall|i: int|
            latest(earlier + later, #[trigger] sampler_pick(i)) == latest(earlier, sampler_pick(i)),
        !(later[0] is SetColorTarget) ==> forall|k: int|
            latest(earlier + later, #[trigger] target_pick(k)) == latest(earlier, target_pick(k)),
        !(later[0] is SetPrimitive) ==> latest(earlier + later, primitive_pick()) == latest(
            earlier,
            primitive_pick(),
        ),
        !(later[0] is SetDepthBias) ==> latest(earlier + later, bias_pick()) == latest(
            earlier,
            bias_pick(),
        ),
        !(later[0] is SetStencilFunc) ==> latest(earlier + later, test_pick(gl::FRONT)) == latest(
            earlier,
            test_pick(gl::FRONT),
        ),
        !(later[0] is SetStencilFunc) ==> latest(earlier + later, test_pick(gl::BACK)) == latest(
            earlier,
            test_pick(gl::BACK),
        ),
{
    assert((earlier + later).drop_last() =~= earlier);
    assert((earlier + later).last() == later[0]);
}

proof fn lemma_samplers_kept(
    before: StateView,
    after: StateView,
    earlier: Seq<CommandView>,
    later: Seq<CommandView>,
)
    requires
        before.samplers_agree(earlier),
        after.samplers == before.samplers,
        after.texture_slots == before.texture_slots,
        forall|i: int|
            latest(later, #[trigger] sampler_pick(i)) == latest(earlier, sampler_pick(i)),
    ensures
        after.samplers_agree(later),
{
    assert forall|i: int|
        #![trigger after.sampler_for(i)]
        0 <= i < MAX_TEXTURE_SLOTS && after.sampler_for(i) is Some implies latest(
        later,
        sampler_pick(i),
    ) == after.sampler_for(i) by {
        assert(after.sampler_for(i) == before.sampler_for(i));
    }
}

proof fn lemma_targets_kept(
    before: StateView,
    after: StateView,
    earlier: Seq<CommandView>,
    later: Seq<CommandView>,
)
    requires
        before.targets_agree(earlier),
        after.color_targets == before.color_targets,
        forall|k: int| latest(later, #[trigger] target_pick(k)) == latest(earlier, target_pick(k)),
    ensures
        after.targets_agree(later),
{
    assert forall|k: int|
        #![trigger after.color_targets[k]]
        0 <= k < after.color_targets.len() implies latest(later, target_pick(k)) == Some(
        after.color_targets[k],
    ) by {
        assert(after.color_targets[k] == before.color_targets[k]);
    }
}

proof fn lemma_bias_keeps_sync(encoder: EncoderView, pipeline: RenderPipeline)
    requires
        encoder.in_sync(),
    ensures
        encoder.set_depth_bias(pipeline).in_sync(),
{
    let earlier = encoder.cmd_buffer.commands;
    let set = encoder.set_depth_bias(pipeline);
    if !pipeline.depth_bias.same_bias(encoder.state.depth_bias) {
        let later: Seq<CommandView> = seq![Command::SetDepthBias(pipeline.depth_bias)];
        lemma_one_command(earlier, later);
        lemma_latest_concat(earlier, later, bias_pick());
        reveal_with_fuel(latest, 2);
        lemma_samplers_kept(encoder.state, set.state, earlier, earlier + later);
        lemma_targets_kept(encoder.state, set.state, earlier, earlier + later);
    }
}

proof fn lemma_depth_stencil_keeps_sync(encoder: EncoderView, pipeline: RenderPipeline)
    requires
        encoder.in_sync(),
    ensures
        encoder.set_depth_stencil(pipeline).in_sync(),
{
    let depth: Seq<CommandView> = match pipeline.depth {
        Some(depth) => seq![Command::SetDepth(depth)],
        None => seq![],
    };
    let configure: Seq<CommandView> = seq![
        Command::ConfigureDepthStencil(tested_aspects(pipeline)),
    ];
    law_untracked_keeps_sync(encoder, depth, encoder.state);
    let tested = encoder.record(depth);
    let set = encoder.set_depth_stencil(pipeline);
    match pipeline.stencil {
        Some(stencil) => {
            lemma_stencil_keeps_sync(tested, stencil);
            let with_test = tested.in_state(
                StateView { stencil, ..tested.state },
            ).record(stencil_funcs(stencil));
            let rest = stencil_ops(stencil) + configure;
            law_untracked_keeps_sync(with_test, rest, with_test.state);
            assert(set.cmd_buffer.commands =~= with_test.record(rest).cmd_buffer.commands);
        },
        None => {
            law_untracked_keeps_sync(tested, configure, tested.state);
            assert(set.cmd_buffer.commands =~= tested.record(configure).cmd_buffer.commands);
        },
    }
}

proof fn lemma_stencil_keeps_sync(encoder: EncoderView, stencil: StencilState)
    requires
        encoder.in_sync(),
    ensures
        encoder.in_state(StateView { stencil, ..encoder.state }).record(
            stencil_funcs(stencil),
        ).in_sync(),
{
    let earlier = encoder.cmd_buffer.commands;
    let later = stencil_funcs(stencil);
    let state = StateView { stencil, ..encoder.state };
    law_each_face_has_its_test(stencil);
    lemma_latest_concat(earlier, later, test_pick(gl::FRONT));
    lemma_latest_concat(earlier, later, test_pick(gl::BACK));
    lemma_latest_none(later, primitive_pick());
    lemma_latest_concat(earlier, later, primitive_pick());
    lemma_latest_none(later, bias_pick());
    lemma_latest_concat(earlier, later, bias_pick());
    assert forall|i: int|
        latest(earlier + later, #[trigger] sampler_pick(i)) == latest(earlier, sampler_pick(i)) by {
        lemma_latest_none(later, sampler_pick(i));
        lemma_latest_concat(earlier, later, sampler_pick(i));
    }
    assert forall|k: int|
        latest(earlier + later, #[trigger] target_pick(k)) == latest(earlier, target_pick(k)) by {
        lemma_latest_none(later, target_pick(k));
        lemma_latest_concat(earlier, later, target_pick(k));
    }
    lemma_samplers_kept(encoder.state, state, earlier, earlier + later);
    lemma_targets_kept(encoder.state, state, earlier, earlier + later);
}

proof fn lemma_targets_keep_sync(encoder: EncoderView, pipeline: RenderPipeline)
    requires
        encoder.in_sync(),
        pipeline.color_targets@.len() <= MAX_COLOR_TARGETS,
    ensures
        encoder.set_color_targets(pipeline).in_sync(),
{
    let earlier = encoder.cmd_buffer.commands;
    let set = encoder.set_color_targets(pipeline);
    let targets = pipeline.color_targets@;
    if targets != encoder.state.color_targets {
        let later = color_target_commands(targets);
        lemma_latest_none(later, primitive_pick());
        lemma_latest_concat(earlier, later, primitive_pick());
        lemma_latest_none(later, bias_pick());
        lemma_latest_concat(earlier, later, bias_pick());
        lemma_latest_none(later, test_pick(gl::FRONT));
        lemma_latest_concat(earlier, later, test_pick(gl::FRONT));
        lemma_latest_none(later, test_pick(gl::BACK));
        lemma_latest_concat(earlier, later, test_pick(gl::BACK));
        assert forall|i: int|
            latest(earlier + later, #[trigger] sampler_pick(i)) == latest(
                earlier,
                sampler_pick(i),
            ) by {
            lemma_latest_none(later, sampler_pick(i));
            lemma_latest_concat(earlier, later, sampler_pick(i));
        }
        lemma_samplers_kept(encoder.state, set.state, earlier, earlier + later);
        assert forall|k: int|
            #![trigger set.state.color_targets[k]]
            0 <= k < set.state.color_targets.len() implies latest(earlier + later, target_pick(k))
            == Some(set.state.color_targets[k]) by {
            law_each_target_is_as_described(targets, k);
            lemma_latest_concat(earlier, later, target_pick(k));
        }
    } else {
        assert(set =~= encoder);
    }
}

/// A stencil reference keeps the tracked state in agreement with the commands.
pub proof fn law_stencil_reference_keeps_sync(encoder: EncoderView, value: u32)
    requires
        encoder.in_sync(),
    ensures
        encoder.set_stencil_reference(value).in_sync(),
{
    lemma_stencil_keeps_sync(encoder, encoder.set_stencil_reference(value).state.stencil);
}

// Draws
/// Draws, and the buffers that they read, keep the tracked state in agreement
/// with the commands.
pub proof fn law_draws_keep_sync(
    encoder: EncoderView,
    first_instance: u32,
    draws: Seq<CommandView>,
    index: u32,
    buffer: Buffer,
    offset: BufferAddress,
    format: IndexFormat,
)
    requires
        encoder.in_sync(),
        untracked(draws),
    ensures
        encoder.prepare_draw(first_instance).record(draws).in_sync(),
        encoder.set_vertex_buffer(index, buffer, offset).in_sync(),
        encoder.set_index_buffer(buffer, offset, format).in_sync(),
{
    let dirtied = encoder.dirtied_for(first_instance);
    let prepared = encoder.prepare_draw(first_instance);
    let data = dirtied.vertex_data_commands(first_instance);
    lemma_vertex_data_commands_set(dirtied, first_instance);
    law_untracked_keeps_sync(encoder, data + draws, prepared.state);
    assert(prepared.record(draws) =~= encoder.record(data + draws).in_state(prepared.state));
    let with_vertices = encoder.set_vertex_buffer(index, buffer, offset);
    law_untracked_keeps_sync(encoder, Seq::empty(), with_vertices.state);
    assert(with_vertices =~= encoder.record(Seq::empty()).in_state(with_vertices.state));
    let with_indices = encoder.set_index_buffer(buffer, offset, format);
    law_untracked_keeps_sync(
        encoder,
        seq![Command::SetIndexBuffer(buffer.raw)],
        with_indices.state,
    );
}

// Passes
/// Labels, and the starts and the ends of passes, keep the tracked state in
/// agreement with the commands.
pub proof fn law_passes_keep_sync(
    encoder: EncoderView,
    label: Seq<char>,
    pass_label: Option<&str>,
    desc: RenderPassDescriptor,
)
    requires
        encoder.in_sync(),
    ensures
        encoder.push_debug_group(label).in_sync(),
        encoder.insert_debug_marker(label).in_sync(),
        encoder.label_pass(pass_label).in_sync(),
        encoder.unlabel_pass().in_sync(),
        encoder.begin_render_pass(desc).in_sync(),
        encoder.end_render_pass().in_sync(),
{
    lemma_group_keeps_sync(encoder, label);
    law_untracked_keeps_sync(
        encoder,
        seq![Command::InsertDebugMarker(encoder.cmd_buffer.marker_range(label))],
        encoder.state,
    );
    lemma_pass_label_keeps_sync(encoder, pass_label);
    lemma_pass_label_keeps_sync(encoder, desc.label);
    lemma_color_clears_clear(desc.color_attachments@);
    let begun = encoder.begin_render_pass(desc);
    law_untracked_keeps_sync(encoder.label_pass(desc.label), pass_setup(desc), begun.state);
    let torn = encoder.record(pass_teardown(encoder.state));
    law_untracked_keeps_sync(encoder, pass_teardown(encoder.state), encoder.state);
    assert(torn.in_sync());
    lemma_pass_end_keeps_sync(encoder);
    lemma_pass_end_keeps_sync(torn);
    let ended = torn.unlabel_pass();
    let after = encoder.end_render_pass();
    lemma_samplers_kept(
        ended.state,
        after.state,
        ended.cmd_buffer.commands,
        after.cmd_buffer.commands,
    );
}

proof fn lemma_group_keeps_sync(encoder: EncoderView, label: Seq<char>)
    requires
        encoder.in_sync(),
    ensures
        encoder.push_debug_group(label).in_sync(),
{
    law_untracked_keeps_sync(
        encoder,
        seq![Command::PushDebugGroup(encoder.cmd_buffer.marker_range(label))],
        encoder.state,
    );
}

proof fn lemma_pass_label_keeps_sync(encoder: EncoderView, label: Option<&str>)
    requires
        encoder.in_sync(),
    ensures
        encoder.label_pass(label).in_sync(),
{
    if let Some(label) = label {
        lemma_group_keeps_sync(encoder, label@);
        let group = encoder.push_debug_group(label@);
        law_untracked_keeps_sync(
            group,
            Seq::empty(),
            StateView { has_pass_label: true, ..encoder.state },
        );
        assert(group.cmd_buffer.commands + Seq::<CommandView>::empty()
            =~= group.cmd_buffer.commands);
    }
}

proof fn lemma_pass_end_keeps_sync(encoder: EncoderView)
    requires
        encoder.in_sync(),
    ensures
        encoder.unlabel_pass().in_sync(),
{
    law_untracked_keeps_sync(
        encoder,
        seq![Command::PopDebugGroup],
        StateView { has_pass_label: false, ..encoder.state },
    );
}

// What is set already
/// A program that is set already binds no sampler again.
pub proof fn law_same_program_again(encoder: EncoderView, inner: PipelineInner)
    requires
        encoder.wf(),
    ensures
        ({
            let once = encoder.set_pipeline_inner(inner);
            once.set_pipeline_inner(inner) == once.record(seq![Command::SetProgram(inner.program)])
        }),
{
    let once = encoder.set_pipeline_inner(inner);
    lemma_program_is_set(once, inner);
}

proof fn lemma_program_is_set(encoder: EncoderView, inner: PipelineInner)
    requires
        encoder.state.texture_slots.len() == MAX_TEXTURE_SLOTS,
        forall|i: int|
            0 <= i < MAX_TEXTURE_SLOTS ==> (
            #[trigger] encoder.state.texture_slots[i]).sampler_index == inner.sampler_map@[i],
    ensures
        encoder.set_pipeline_inner(inner) == encoder.record(
            seq![Command::SetProgram(inner.program)],
        ),
{
    let slots = encoder.state.slots_for(inner, MAX_TEXTURE_SLOTS as int);
    let state = StateView { texture_slots: slots, ..encoder.state };
    let changed = encoder.state.resampled_slots(inner);
    assert(slots =~= encoder.state.texture_slots);
    lemma_collect_none(
        MAX_TEXTURE_SLOTS as nat,
        |i: int| state.sampler_command(changed, Set::empty(), i),
    );
    assert(encoder.set_pipeline_inner(inner) =~= encoder.record(
        seq![Command::SetProgram(inner.program)],
    ));
}

/// Of a render pipeline that is set already, only the vertex input, the program
/// and the depth and stencil tests are set again. A depth bias with a NaN in it
/// differs from itself, and is set again too.
pub proof fn law_same_pipeline_again(encoder: EncoderView, pipeline: RenderPipeline)
    requires
        encoder.wf(),
        !pipeline.depth_bias.slope_scale.is_nan(),
        !pipeline.depth_bias.clamp.is_nan(),
    ensures
        ({
            let once = encoder.set_render_pipeline(pipeline);
            once.set_render_pipeline(pipeline) == once.set_vertex_input(pipeline).record(
                seq![Command::SetProgram(pipeline.inner.program)],
            ).set_depth_stencil(pipeline)
        }),
{
    let once = encoder.set_render_pipeline(pipeline);
    let input = once.set_vertex_input(pipeline);
    assert(once.state.texture_slots == encoder.state.slots_for(
        pipeline.inner,
        MAX_TEXTURE_SLOTS as int,
    ));
    lemma_program_is_set(input, pipeline.inner);
    let program = input.record(seq![Command::SetProgram(pipeline.inner.program)]);
    assert(once.state.primitive == pipeline.primitive);
    assert(program.set_primitive(pipeline) =~= program);
    assert(program.set_depth_bias(pipeline) == program);
    let tested = program.set_depth_stencil(pipeline);
    assert(tested.set_color_targets(pipeline) =~= tested);
}

/// Where vertex buffer layouts are set apart from the buffers, a render pipeline
/// that is set already makes no vertex buffer dirty.
pub proof fn law_same_pipeline_dirties_nothing(encoder: EncoderView, pipeline: RenderPipeline)
    requires
        encoder.wf(),
        encoder.separate_layouts(),
    ensures
        ({
            let once = encoder.set_render_pipeline(pipeline);
            once.set_render_pipeline(pipeline).state.dirty_vbufs == once.state.dirty_vbufs
        }),
{
    let once = encoder.set_render_pipeline(pipeline);
    let n = vertex_buffer_count(pipeline);
    assert(once.state.vertex_buffers == encoder.state.buffers_for(pipeline.vertex_buffers@, n));
    assert(once.state.restepped_buffers(pipeline.vertex_buffers@, n) =~= Set::empty());
    assert(once.set_render_pipeline(pipeline).state.dirty_vbufs =~= once.state.dirty_vbufs);
}

} // verus!
