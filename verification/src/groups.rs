//! Debug groups: a pass closes the group that it opens.
use vstd::prelude::*;

use crate::bind::{
    binding_commands, binding_count, bound_samplers, bound_textures, lemma_binding_commands_bind,
    lemma_sampler_commands_bind,
};
use crate::command::{Command, CommandView};
use crate::draw::lemma_vertex_data_commands_set;
use crate::encoder::EncoderView;
use crate::pass::{lemma_color_clears_clear, pass_setup, pass_teardown};
use crate::types::{
    BindGroup, BindGroupLayoutInfo, ComputePassDescriptor, DynamicOffset, PipelineInner,
    RenderPassDescriptor, RenderPipeline, MAX_TEXTURE_SLOTS,
};

verus! {

/// By how many groups commands open more than they close.
pub open spec fn group_depth(commands: Seq<CommandView>) -> int
    decreases commands.len(),
{
    if commands.len() == 0 {
        0
    } else {
        let earlier = group_depth(commands.drop_last());
        match commands.last() {
            Command::PushDebugGroup(_) => earlier + 1,
            Command::PopDebugGroup => earlier - 1,
            _ => earlier,
        }
    }
}

/// Whether no command opens or closes a group.
pub open spec fn ungrouped(commands: Seq<CommandView>) -> bool {
    forall|i: int|
        0 <= i < commands.len() ==> !((#[trigger] commands[i]) is PushDebugGroup)
            && !(commands[i] is PopDebugGroup)
}

impl EncoderView {
    /// By how many groups the recorded commands open more than they close.
    pub open spec fn depth(self) -> int {
        group_depth(self.cmd_buffer.commands)
    }

    /// Whether the later recorder has as many groups open as this one, and is
    /// in a pass with a label just as this one is.
    pub open spec fn same_groups(self, later: EncoderView) -> bool {
        &&& later.depth() == self.depth()
        &&& later.state.has_pass_label == self.state.has_pass_label
    }
}

/// Commands one after the other open and close what each of them does.
proof fn lemma_depth_adds(earlier: Seq<CommandView>, later: Seq<CommandView>)
    ensures
        group_depth(earlier + later) == group_depth(earlier) + group_depth(later),
    decreases later.len(),
{
    if later.len() == 0 {
        assert(earlier + later =~= earlier);
    } else {
        assert((earlier + later).drop_last() =~= earlier + later.drop_last());
        lemma_depth_adds(earlier, later.drop_last());
    }
}

proof fn lemma_ungrouped(commands: Seq<CommandView>)
    requires
        ungrouped(commands),
    ensures
        group_depth(commands) == 0,
    decreases commands.len(),
{
    if commands.len() > 0 {
        assert(!(commands[commands.len() - 1] is PushDebugGroup));
        lemma_ungrouped(commands.drop_last());
    }
}

/// To record commands that open and close no group leaves the groups as they
/// are.
pub proof fn law_ungrouped_keeps_groups(encoder: EncoderView, commands: Seq<CommandView>)
    requires
        ungrouped(commands),
    ensures
        encoder.same_groups(encoder.record(commands)),
{
    lemma_depth_adds(encoder.cmd_buffer.commands, commands);
    lemma_ungrouped(commands);
}

/// Draws, programs, bind groups and pipelines leave the groups as they are.
pub proof fn law_draws_keep_groups(
    encoder: EncoderView,
    first_instance: u32,
    inner: PipelineInner,
    info: BindGroupLayoutInfo,
    group: BindGroup,
    offsets: Seq<DynamicOffset>,
    pipeline: RenderPipeline,
    reference: u32,
)
    ensures
        encoder.same_groups(encoder.prepare_draw(first_instance)),
        encoder.same_groups(encoder.set_pipeline_inner(inner)),
        encoder.same_groups(encoder.set_bind_group(info, group, offsets)),
        encoder.same_groups(encoder.set_render_pipeline(pipeline)),
        encoder.same_groups(encoder.set_stencil_reference(reference)),
{
    let dirtied = encoder.dirtied_for(first_instance);
    lemma_vertex_data_commands_set(dirtied, first_instance);
    law_ungrouped_keeps_groups(encoder, dirtied.vertex_data_commands(first_instance));

    lemma_program_keeps_groups(encoder, inner);

    let n = binding_count(info, group);
    let state = encoder.state.with_bindings(info, group, n);
    let textures = bound_textures(info, group, n);
    let samplers = bound_samplers(info, group, n);
    let binds = binding_commands(info, group, offsets, n);
    lemma_bindings_keep_label(encoder, info, group, n);
    lemma_binding_commands_bind(info, group, offsets, n);
    lemma_sampler_commands_bind(state, textures, samplers);
    law_ungrouped_keeps_groups(
        encoder,
        binds + state.sampler_commands(textures, samplers, MAX_TEXTURE_SLOTS as nat),
    );

    let e1 = encoder.set_vertex_input(pipeline);
    let e2 = e1.set_pipeline_inner(pipeline.inner);
    let e3 = e2.set_primitive(pipeline);
    let e4 = e3.set_depth_bias(pipeline);
    let e5 = e4.set_depth_stencil(pipeline);
    let e6 = e5.set_color_targets(pipeline);
    lemma_further_keep_groups(encoder, e1);
    lemma_program_keeps_groups(e1, pipeline.inner);
    lemma_further_keep_groups(e2, e3);
    lemma_further_keep_groups(e3, e4);
    lemma_further_keep_groups(e4, e5);
    lemma_further_keep_groups(e5, e6);
    lemma_further_keep_groups(encoder, encoder.set_stencil_reference(reference));
}

proof fn lemma_program_keeps_groups(encoder: EncoderView, inner: PipelineInner)
    ensures
        encoder.same_groups(encoder.set_pipeline_inner(inner)),
{
    let set = encoder.set_pipeline_inner(inner);
    lemma_sampler_commands_bind(set.state, encoder.state.resampled_slots(inner), Set::empty());
    lemma_further_keep_groups(encoder, set);
}

proof fn lemma_bindings_keep_label(
    encoder: EncoderView,
    info: BindGroupLayoutInfo,
    group: BindGroup,
    n: nat,
)
    ensures
        encoder.state.with_bindings(info, group, n).has_pass_label == encoder.state.has_pass_label,
    decreases n,
{
    if n > 0 {
        lemma_bindings_keep_label(encoder, info, group, (n - 1) as nat);
    }
}

/// Where what was recorded further opens and closes no group, the groups are as
/// they were.
proof fn lemma_further_keep_groups(earlier: EncoderView, later: EncoderView)
    requires
        later.state.has_pass_label == earlier.state.has_pass_label,
        earlier.cmd_buffer.commands.len() <= later.cmd_buffer.commands.len(),
        forall|i: int|
            0 <= i < earlier.cmd_buffer.commands.len()
                ==> #[trigger] later.cmd_buffer.commands[i] == earlier.cmd_buffer.commands[i],
        forall|i: int|
            earlier.cmd_buffer.commands.len() <= i < later.cmd_buffer.commands.len() ==> !((
            #[trigger] later.cmd_buffer.commands[i]) is PushDebugGroup) && !(
            later.cmd_buffer.commands[i] is PopDebugGroup),
    ensures
        earlier.same_groups(later),
{
    let (a, b) = (earlier.cmd_buffer.commands, later.cmd_buffer.commands);
    let further = b.skip(a.len() as int);
    assert(b =~= a + further);
    lemma_depth_adds(a, further);
    lemma_ungrouped(further);
}

/// A group that is opened and closed leaves the groups as they were, whatever
/// was recorded in it, as long as that closes what it opens.
pub proof fn law_group_is_closed(encoder: EncoderView, label: Seq<char>, inside: EncoderView)
    requires
        encoder.push_debug_group(label).same_groups(inside),
    ensures
        encoder.same_groups(inside.pop_debug_group()),
{
    lemma_group_opens(encoder, label);
    lemma_group_closes(inside);
}

proof fn lemma_group_opens(encoder: EncoderView, label: Seq<char>)
    ensures
        encoder.push_debug_group(label).depth() == encoder.depth() + 1,
{
    let opened = encoder.push_debug_group(label).cmd_buffer.commands;
    assert(opened.drop_last() =~= encoder.cmd_buffer.commands);
}

proof fn lemma_group_closes(encoder: EncoderView)
    ensures
        encoder.record(seq![Command::PopDebugGroup]).depth() == encoder.depth() - 1,
{
    let closed = encoder.record(seq![Command::PopDebugGroup]).cmd_buffer.commands;
    assert(closed.drop_last() =~= encoder.cmd_buffer.commands);
}

/// A compute pass leaves the groups as they were, whatever was recorded in it,
/// as long as that closes what it opens.
pub proof fn law_compute_pass_closes_its_group(
    encoder: EncoderView,
    desc: ComputePassDescriptor,
    inside: EncoderView,
)
    requires
        !encoder.state.has_pass_label,
        encoder.label_pass(desc.label).same_groups(inside),
    ensures
        encoder.same_groups(inside.unlabel_pass()),
{
    if let Some(label) = desc.label {
        lemma_group_opens(encoder, label@);
        lemma_group_closes(inside);
    }
}

/// A render pass leaves the groups as they were, whatever was recorded in it, as
/// long as that closes what it opens.
pub proof fn law_render_pass_closes_its_group(
    encoder: EncoderView,
    desc: RenderPassDescriptor,
    inside: EncoderView,
)
    requires
        !encoder.state.has_pass_label,
        encoder.begin_render_pass(desc).same_groups(inside),
    ensures
        encoder.same_groups(inside.end_render_pass()),
{
    let labelled = encoder.label_pass(desc.label);
    let torn = inside.record(pass_teardown(inside.state));
    lemma_color_clears_clear(desc.color_attachments@);
    law_ungrouped_keeps_groups(labelled, pass_setup(desc));
    law_ungrouped_keeps_groups(inside, pass_teardown(inside.state));
    if let Some(label) = desc.label {
        lemma_group_opens(encoder, label@);
        lemma_group_closes(torn);
    }
}

} // verus!
