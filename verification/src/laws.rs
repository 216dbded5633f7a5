//! What holds of recording as a whole.
use vstd::prelude::*;
use vstd::utf8::encode_utf8;

use crate::bind::{binding_commands, binding_count, bound_samplers, bound_textures};
use crate::collect::{latest, lemma_collect_has, lemma_collect_member, lemma_latest_concat};
use crate::command::{Command, CommandView};
use crate::draw::{instance_offset, lemma_nothing_dirty};
use crate::encoder::EncoderView;
use crate::flags::TextureUses;
use crate::gl;
use crate::pass::{pass_discards, pass_resolves};
use crate::pipeline::{alike, color_target_commands, each_target, stencil_funcs, stencil_ops};
use crate::state::StateView;
use crate::transfer::uses_after_writes;
use crate::types::{
    AttributeDesc, BindGroup, BindGroupLayoutInfo, Buffer, BufferAddress, BufferBinding,
    ColorTargetDesc, DynamicOffset, IndexFormat, PipelineInner, RenderPassDescriptor,
    RenderPipeline, StencilOps, StencilSide, StencilState, TextureBarrier, VertexBufferDesc,
    MAX_TEXTURE_SLOTS, MAX_VERTEX_BUFFERS,
};

verus! {

// Recording only appends
impl EncoderView {
    /// Whether `later` has recorded all that `self` has, and maybe more.
    pub open spec fn extends_to(self, later: EncoderView) -> bool {
        let old_buffer = self.cmd_buffer;
        let new_buffer = later.cmd_buffer;
        &&& new_buffer.label == old_buffer.label
        &&& old_buffer.commands.is_prefix_of(new_buffer.commands)
        &&& old_buffer.data_bytes.is_prefix_of(new_buffer.data_bytes)
        &&& old_buffer.data_words.is_prefix_of(new_buffer.data_words)
    }
}

/// Recording more and then more again is recording more.
pub proof fn law_extension_is_transitive(
    first: EncoderView,
    second: EncoderView,
    third: EncoderView,
)
    requires
        first.extends_to(second),
        second.extends_to(third),
    ensures
        first.extends_to(third),
{
    let (a, b, c) = (first.cmd_buffer, second.cmd_buffer, third.cmd_buffer);
    assert(a.commands =~= c.commands.subrange(0, a.commands.len() as int)) by {
        assert(a.commands =~= b.commands.subrange(0, a.commands.len() as int));
        assert(b.commands =~= c.commands.subrange(0, b.commands.len() as int));
    }
    assert(a.data_bytes =~= c.data_bytes.subrange(0, a.data_bytes.len() as int)) by {
        assert(a.data_bytes =~= b.data_bytes.subrange(0, a.data_bytes.len() as int));
        assert(b.data_bytes =~= c.data_bytes.subrange(0, b.data_bytes.len() as int));
    }
    assert(a.data_words =~= c.data_words.subrange(0, a.data_words.len() as int)) by {
        assert(a.data_words =~= b.data_words.subrange(0, a.data_words.len() as int));
        assert(b.data_words =~= c.data_words.subrange(0, b.data_words.len() as int));
    }
}

/// Recording a command, whatever it is, takes nothing back.
pub proof fn law_record_appends(encoder: EncoderView, commands: Seq<CommandView>)
    ensures
        encoder.extends_to(encoder.record(commands)),
{
    let old_buffer = encoder.cmd_buffer;
    let new_buffer = encoder.record(commands).cmd_buffer;
    assert(old_buffer.commands =~= new_buffer.commands.subrange(
        0,
        old_buffer.commands.len() as int,
    ));
    assert(old_buffer.data_bytes =~= new_buffer.data_bytes.subrange(
        0,
        old_buffer.data_bytes.len() as int,
    ));
    assert(old_buffer.data_words =~= new_buffer.data_words.subrange(
        0,
        old_buffer.data_words.len() as int,
    ));
}

/// Labels take nothing back.
pub proof fn law_labels_append(encoder: EncoderView, label: Seq<char>)
    ensures
        encoder.extends_to(encoder.push_debug_group(label)),
        encoder.extends_to(encoder.insert_debug_marker(label)),
{
    let old_buffer = encoder.cmd_buffer;
    let opened = encoder.push_debug_group(label).cmd_buffer;
    let marked = encoder.insert_debug_marker(label).cmd_buffer;
    assert(old_buffer.commands =~= opened.commands.subrange(0, old_buffer.commands.len() as int));
    assert(old_buffer.commands =~= marked.commands.subrange(0, old_buffer.commands.len() as int));
    assert(old_buffer.data_bytes =~= opened.data_bytes.subrange(
        0,
        old_buffer.data_bytes.len() as int,
    ));
    assert(old_buffer.data_words =~= opened.data_words.subrange(
        0,
        old_buffer.data_words.len() as int,
    ));
}

/// Draws take nothing back.
pub proof fn law_draws_append(
    encoder: EncoderView,
    start_vertex: u32,
    vertex_count: u32,
    start_index: u32,
    index_count: u32,
    base_vertex: i32,
    start_instance: u32,
    instance_count: u32,
)
    ensures
        encoder.extends_to(encoder.prepare_draw(start_instance)),
        encoder.extends_to(
            encoder.draw(start_vertex, vertex_count, start_instance, instance_count),
        ),
        encoder.extends_to(
            encoder.draw_indexed(
                start_index,
                index_count,
                base_vertex,
                start_instance,
                instance_count,
            ),
        ),
{
    let dirtied = encoder.dirtied_for(start_instance);
    law_record_appends(encoder, dirtied.vertex_data_commands(start_instance));
    let prepared = encoder.prepare_draw(start_instance);
    assert(encoder.extends_to(prepared));
    let draw = encoder.draw(start_vertex, vertex_count, start_instance, instance_count);
    law_record_appends(prepared, seq![draw.cmd_buffer.commands.last()]);
    assert(draw == prepared.record(seq![draw.cmd_buffer.commands.last()]));
    law_extension_is_transitive(encoder, prepared, draw);
    let indexed = encoder.draw_indexed(
        start_index,
        index_count,
        base_vertex,
        start_instance,
        instance_count,
    );
    law_record_appends(prepared, seq![indexed.cmd_buffer.commands.last()]);
    assert(indexed == prepared.record(seq![indexed.cmd_buffer.commands.last()]));
    law_extension_is_transitive(encoder, prepared, indexed);
}

/// Pipelines and bind groups take nothing back.
pub proof fn law_bindings_append(
    encoder: EncoderView,
    pipeline: RenderPipeline,
    inner: PipelineInner,
    info: BindGroupLayoutInfo,
    group: BindGroup,
    offsets: Seq<DynamicOffset>,
)
    ensures
        encoder.extends_to(encoder.set_pipeline_inner(inner)),
        encoder.extends_to(encoder.set_bind_group(info, group, offsets)),
        encoder.extends_to(encoder.set_render_pipeline(pipeline)),
{
    lemma_program_appends(encoder, inner);
    let bound = encoder.set_bind_group(info, group, offsets);
    let n = binding_count(info, group);
    let state = encoder.state.with_bindings(info, group, n);
    law_record_appends(
        encoder.in_state(state),
        binding_commands(info, group, offsets, n) + state.sampler_commands(
            bound_textures(info, group, n),
            bound_samplers(info, group, n),
            MAX_TEXTURE_SLOTS as nat,
        ),
    );
    assert(encoder.extends_to(bound));

    let e1 = encoder.set_vertex_input(pipeline);
    let e2 = e1.set_pipeline_inner(pipeline.inner);
    let e3 = e2.set_primitive(pipeline);
    let e4 = e3.set_depth_bias(pipeline);
    let e5 = e4.set_depth_stencil(pipeline);
    let e6 = e5.set_color_targets(pipeline);
    lemma_commands_grow(encoder, e1);
    lemma_program_appends(e1, pipeline.inner);
    lemma_commands_grow(e2, e3);
    lemma_commands_grow(e3, e4);
    lemma_commands_grow(e4, e5);
    lemma_commands_grow(e5, e6);
    law_extension_is_transitive(encoder, e1, e2);
    law_extension_is_transitive(encoder, e2, e3);
    law_extension_is_transitive(encoder, e3, e4);
    law_extension_is_transitive(encoder, e4, e5);
    law_extension_is_transitive(encoder, e5, e6);
}

proof fn lemma_program_appends(encoder: EncoderView, inner: PipelineInner)
    ensures
        encoder.extends_to(encoder.set_pipeline_inner(inner)),
{
    lemma_commands_grow(encoder, encoder.set_pipeline_inner(inner));
}

/// Where only the commands differ, and start alike, nothing was taken back.
proof fn lemma_commands_grow(earlier: EncoderView, later: EncoderView)
    requires
        later.cmd_buffer.label == earlier.cmd_buffer.label,
        later.cmd_buffer.data_bytes == earlier.cmd_buffer.data_bytes,
        later.cmd_buffer.data_words == earlier.cmd_buffer.data_words,
        earlier.cmd_buffer.commands.len() <= later.cmd_buffer.commands.len(),
        forall|i: int|
            0 <= i < earlier.cmd_buffer.commands.len()
                ==> #[trigger] later.cmd_buffer.commands[i] == earlier.cmd_buffer.commands[i],
    ensures
        earlier.extends_to(later),
{
    let (a, b) = (earlier.cmd_buffer, later.cmd_buffer);
    assert(a.commands =~= b.commands.subrange(0, a.commands.len() as int));
    assert(a.data_bytes =~= b.data_bytes.subrange(0, a.data_bytes.len() as int));
    assert(a.data_words =~= b.data_words.subrange(0, a.data_words.len() as int));
}

/// Passes take nothing back.
pub proof fn law_passes_append(encoder: EncoderView, desc: RenderPassDescriptor)
    ensures
        encoder.extends_to(encoder.label_pass(desc.label)),
        encoder.extends_to(encoder.begin_render_pass(desc)),
        encoder.extends_to(encoder.unlabel_pass()),
        encoder.extends_to(encoder.end_render_pass()),
{
    let labelled = encoder.label_pass(desc.label);
    match desc.label {
        Some(label) => {
            law_labels_append(encoder, label@);
        },
        None => {
            lemma_commands_grow(encoder, labelled);
        },
    }
    assert(encoder.extends_to(labelled));
    let begun = encoder.begin_render_pass(desc);
    lemma_commands_grow(labelled, begun);
    law_extension_is_transitive(encoder, labelled, begun);
    lemma_commands_grow(encoder, encoder.unlabel_pass());
    lemma_commands_grow(encoder, encoder.end_render_pass());
}

/// The results of queries take nothing back.
pub proof fn law_queries_append(
    encoder: EncoderView,
    queries: Seq<u32>,
    buffer: Buffer,
    offset: BufferAddress,
)
    ensures
        encoder.extends_to(encoder.copy_query_results(queries, buffer, offset)),
{
    let (a, b) = (
        encoder.cmd_buffer,
        encoder.copy_query_results(queries, buffer, offset).cmd_buffer,
    );
    assert(a.commands =~= b.commands.subrange(0, a.commands.len() as int));
    assert(a.data_bytes =~= b.data_bytes.subrange(0, a.data_bytes.len() as int));
    assert(a.data_words =~= b.data_words.subrange(0, a.data_words.len() as int));
}

/// The range of a label names its text, then and for as long as the buffer is
/// recorded into, provided that the text ends within the reach of 32 bits.
pub proof fn law_label_stays_readable(encoder: EncoderView, label: Seq<char>, later: EncoderView)
    requires
        encoder.cmd_buffer.data_bytes.len() + encode_utf8(label).len() <= u32::MAX,
        encoder.push_debug_group(label).extends_to(later)
            || encoder.insert_debug_marker(label).extends_to(later),
    ensures
        ({
            let range = encoder.cmd_buffer.marker_range(label);
            later.cmd_buffer.data_bytes.subrange(range.start as int, range.end as int)
                == encode_utf8(label)
        }),
{
    let range = encoder.cmd_buffer.marker_range(label);
    let with_text = encoder.cmd_buffer.data_bytes + encode_utf8(label);
    let bytes = later.cmd_buffer.data_bytes;
    assert(with_text =~= bytes.subrange(0, with_text.len() as int));
    assert(bytes.subrange(range.start as int, range.end as int) =~= encode_utf8(label)) by {
        assert forall|i: int| range.start <= i < range.end implies bytes[i] == encode_utf8(
            label,
        )[i - range.start] by {
            assert(bytes[i] == bytes.subrange(0, with_text.len() as int)[i]);
        }
    }
}

/// The range of a copy of query results names the queries, then and for as long
/// as the buffer is recorded into, provided that they end within the reach of 32
/// bits.
pub proof fn law_queries_stay_readable(
    encoder: EncoderView,
    queries: Seq<u32>,
    buffer: Buffer,
    offset: BufferAddress,
    later: EncoderView,
)
    requires
        encoder.cmd_buffer.data_words.len() + queries.len() <= u32::MAX,
        encoder.copy_query_results(queries, buffer, offset).extends_to(later),
    ensures
        later.cmd_buffer.commands[encoder.cmd_buffer.commands.len() as int]
            matches Command::CopyQueryResults { query_range, .. }
            && later.cmd_buffer.data_words.subrange(
            query_range.start as int,
            query_range.end as int,
        ) == queries,
{
    let copied = encoder.copy_query_results(queries, buffer, offset).cmd_buffer;
    let at = encoder.cmd_buffer.commands.len() as int;
    let words = later.cmd_buffer.data_words;
    assert(copied.commands =~= later.cmd_buffer.commands.subrange(
        0,
        copied.commands.len() as int,
    ));
    assert(later.cmd_buffer.commands[at] == later.cmd_buffer.commands.subrange(
        0,
        copied.commands.len() as int,
    )[at]);
    assert(copied.data_words =~= words.subrange(0, copied.data_words.len() as int));
    let start = encoder.cmd_buffer.data_words.len() as int;
    assert(words.subrange(start, start + queries.len()) =~= queries) by {
        assert forall|i: int| start <= i < start + queries.len() implies words[i] == queries[i
            - start] by {
            assert(words[i] == words.subrange(0, copied.data_words.len() as int)[i]);
        }
    }
}

// Command buffers
/// Once its commands were handed out or dropped, a recorder that is started
/// again is as a new one, but for the label.
pub proof fn law_started_again_is_new(encoder: EncoderView, label: Option<Seq<char>>)
    ensures
        encoder.without_commands().begin_encoding(label) == EncoderView::created(
            encoder.private_caps,
        ).begin_encoding(label),
        EncoderView::created(encoder.private_caps).begin_encoding(None)
            == EncoderView::created(encoder.private_caps),
{
}

// Draws
/// A draw from the first instance on leaves nothing dirty: to prepare another
/// one right after it changes nothing.
pub proof fn law_prepared_once(encoder: EncoderView)
    ensures
        encoder.prepare_draw(0).prepare_draw(0) == encoder.prepare_draw(0),
{
    let prepared = encoder.prepare_draw(0);
    lemma_nothing_dirty(prepared.dirtied_for(0), 0);
    assert(prepared.prepare_draw(0) =~= prepared);
}

/// Whether a command sets vertex buffer `i`.
pub open spec fn sets_vertex_buffer(command: CommandView, i: int) -> bool {
    command matches Command::SetVertexBuffer { index, .. } && index == i
}

/// Where layouts are set apart, the vertex buffers that a draw sets are the
/// dirty ones.
pub proof fn law_dirty_buffers_are_set(encoder: EncoderView, first_instance: u32, i: int)
    requires
        encoder.separate_layouts(),
        0 <= i < MAX_VERTEX_BUFFERS,
    ensures
        encoder.state.dirty_vbufs.contains(i) <==> exists|k: int|
            0 <= k < encoder.vertex_data_commands(first_instance).len() && sets_vertex_buffer(
                #[trigger] encoder.vertex_data_commands(first_instance)[k],
                i,
            ),
{
    let step = |i: int| encoder.state.vertex_buffer_command(first_instance, i);
    let n = MAX_VERTEX_BUFFERS as nat;
    let commands = encoder.vertex_data_commands(first_instance);
    if encoder.state.dirty_vbufs.contains(i) {
        let k = lemma_collect_has(n, step, i);
        assert(commands[k] == step(i)->0);
        assert(sets_vertex_buffer(commands[k], i));
    }
    if exists|k: int| 0 <= k < commands.len() && sets_vertex_buffer(#[trigger] commands[k], i) {
        let k = choose|k: int|
            0 <= k < commands.len() && sets_vertex_buffer(#[trigger] commands[k], i);
        let j = lemma_collect_member(n, step, k);
        assert(step(j) == Some(commands[k]));
    }
}

/// What a command sets a vertex buffer to.
pub open spec fn vertex_buffer_pick(i: int) -> spec_fn(CommandView) -> Option<
    (BufferBinding, VertexBufferDesc),
> {
    |command: CommandView|
        match command {
            Command::SetVertexBuffer { index, buffer, buffer_desc } => if index == i {
                Some((buffer, buffer_desc))
            } else {
                None
            },
            _ => None,
        }
}

impl StateView {
    /// What vertex buffer `i` is set to for draws from the given instance on.
    pub open spec fn vertex_buffer_from(self, first_instance: u32, i: int) -> (
        BufferBinding,
        VertexBufferDesc,
    ) {
        let (desc, buffer) = self.vertex_buffers[i];
        (
            BufferBinding {
                raw: buffer.raw,
                offset: (buffer.offset + instance_offset(desc, first_instance)) as u64,
            },
            desc,
        )
    }
}

/// A vertex buffer that was bound is what the next draw from the first instance
/// on leaves set, where layouts are set apart.
pub proof fn law_bound_buffer_is_set(
    encoder: EncoderView,
    index: u32,
    buffer: Buffer,
    offset: BufferAddress,
)
    requires
        encoder.wf(),
        encoder.separate_layouts(),
        index < MAX_VERTEX_BUFFERS,
    ensures
        latest(
            encoder.set_vertex_buffer(index, buffer, offset).prepare_draw(0).cmd_buffer.commands,
            vertex_buffer_pick(index as int),
        ) == Some(
            (
                BufferBinding { raw: buffer.raw, offset },
                encoder.state.vertex_buffers[index as int].0,
            ),
        ),
{
    let bound = encoder.set_vertex_buffer(index, buffer, offset);
    let dirtied = bound.dirtied_for(0);
    lemma_dirty_buffer_is_set(dirtied.state, 0, MAX_VERTEX_BUFFERS as nat, index as int);
    assert(0 * encoder.state.vertex_buffers[index as int].0.stride == 0);
    lemma_latest_concat(
        bound.cmd_buffer.commands,
        dirtied.vertex_data_commands(0),
        vertex_buffer_pick(index as int),
    );
}

/// Setting vertex buffers leaves each that is dirty set as it is tracked, from
/// the given instance on.
proof fn lemma_dirty_buffer_is_set(state: StateView, first_instance: u32, n: nat, i: int)
    requires
        0 <= i < MAX_VERTEX_BUFFERS,
        n <= MAX_VERTEX_BUFFERS,
    ensures
        latest(state.vertex_buffer_commands(first_instance, n), vertex_buffer_pick(i)) == if i < n
            && state.dirty_vbufs.contains(i) {
            Some(state.vertex_buffer_from(first_instance, i))
        } else {
            None
        },
    decreases n,
{
    if n > 0 {
        let commands = state.vertex_buffer_commands(first_instance, n);
        let earlier = state.vertex_buffer_commands(first_instance, (n - 1) as nat);
        lemma_dirty_buffer_is_set(state, first_instance, (n - 1) as nat, i);
        if state.dirty_vbufs.contains(n - 1) {
            assert(commands.drop_last() =~= earlier);
        } else {
            assert(commands == earlier);
        }
    }
}

/// A draw that starts at a later instance leaves the buffers that are stepped
/// through by instance set from that instance on, and the next draw from the
/// first instance on sets them back, where layouts are set apart.
pub proof fn law_instances_are_rewound(encoder: EncoderView, first_instance: u32, i: int)
    requires
        encoder.separate_layouts(),
        first_instance != 0,
        0 <= i < MAX_VERTEX_BUFFERS,
        encoder.state.instance_vbufs.contains(i),
    ensures
        ({
            let drawn = encoder.prepare_draw(first_instance);
            let again = drawn.prepare_draw(0);
            &&& latest(drawn.cmd_buffer.commands, vertex_buffer_pick(i)) == Some(
                encoder.state.vertex_buffer_from(first_instance, i),
            )
            &&& latest(again.cmd_buffer.commands, vertex_buffer_pick(i)) == Some(
                encoder.state.vertex_buffer_from(0, i),
            )
        }),
{
    let dirtied = encoder.dirtied_for(first_instance);
    let drawn = encoder.prepare_draw(first_instance);
    let n = MAX_VERTEX_BUFFERS as nat;
    lemma_dirty_buffer_is_set(dirtied.state, first_instance, n, i);
    lemma_latest_concat(
        encoder.cmd_buffer.commands,
        dirtied.vertex_data_commands(first_instance),
        vertex_buffer_pick(i),
    );
    let redirtied = drawn.dirtied_for(0);
    lemma_dirty_buffer_is_set(redirtied.state, 0, n, i);
    lemma_latest_concat(
        drawn.cmd_buffer.commands,
        redirtied.vertex_data_commands(0),
        vertex_buffer_pick(i),
    );
}

/// Each attribute that is read from a vertex buffer that was bound is set by the
/// next draw from the first instance on, where layouts are not set apart.
pub proof fn law_attributes_of_bound_buffer_are_set(
    encoder: EncoderView,
    index: u32,
    buffer: Buffer,
    offset: BufferAddress,
    attribute: int,
)
    requires
        encoder.wf(),
        !encoder.separate_layouts(),
        index < MAX_VERTEX_BUFFERS,
        0 <= attribute < encoder.state.vertex_attributes.len(),
        encoder.state.vertex_attributes[attribute].buffer_index == index,
    ensures
        ({
            let bound = encoder.set_vertex_buffer(index, buffer, offset);
            let drawn = bound.prepare_draw(0).cmd_buffer.commands;
            let attribute_desc = encoder.state.vertex_attributes[attribute];
            drawn.skip(encoder.cmd_buffer.commands.len() as int).contains(
                Command::SetVertexAttribute {
                    buffer: Some(buffer.raw),
                    buffer_desc: encoder.state.vertex_buffers[index as int].0,
                    attribute_desc: AttributeDesc {
                        offset: (attribute_desc.offset + (offset as u32)) as u32,
                        ..attribute_desc
                    },
                },
            )
        }),
{
    let bound = encoder.set_vertex_buffer(index, buffer, offset);
    let dirtied = bound.dirtied_for(0);
    let drawn = bound.prepare_draw(0).cmd_buffer.commands;
    let data = dirtied.vertex_data_commands(0);
    let step = |i: int| dirtied.state.vertex_attribute_command(0, i);
    let k = lemma_collect_has(dirtied.state.vertex_attributes.len(), step, attribute);
    assert(drawn.skip(encoder.cmd_buffer.commands.len() as int) =~= data);
    assert(data[k] == step(attribute)->0);
    assert(0 * encoder.state.vertex_buffers[index as int].0.stride == 0);
}

// Passes
/// To end a render pass twice is to end it once.
pub proof fn law_pass_ends_once(encoder: EncoderView)
    ensures
        encoder.end_render_pass().end_render_pass() == encoder.end_render_pass(),
{
    let ended = encoder.end_render_pass();
    assert(ended.end_render_pass() =~= ended);
}

/// The resolves of a render pass, in order, and then what it discards.
pub open spec fn described_end(desc: RenderPassDescriptor) -> Seq<CommandView> {
    let resolves = pass_resolves(desc);
    let discards = pass_discards(desc);
    Seq::new(
        resolves.len(),
        |i: int|
            Command::ResolveAttachment {
                attachment: resolves[i].0,
                dst: resolves[i].1,
                size: desc.extent,
            },
    ) + if discards.len() > 0 {
        seq![Command::InvalidateAttachments(discards)]
    } else {
        seq![]
    }
}

impl EncoderView {
    /// Whether the later recorder resolves and discards at the end of its pass
    /// what this one does.
    pub open spec fn same_pass(self, later: EncoderView) -> bool {
        &&& later.state.render_size == self.state.render_size
        &&& later.state.resolve_attachments == self.state.resolve_attachments
        &&& later.state.invalidate_attachments == self.state.invalidate_attachments
    }
}

/// What is recorded in a pass changes nothing about how the pass ends.
pub proof fn law_pass_is_left_alone(
    encoder: EncoderView,
    commands: Seq<CommandView>,
    label: Seq<char>,
    first_instance: u32,
    index: u32,
    buffer: Buffer,
    offset: BufferAddress,
    format: IndexFormat,
    inner: PipelineInner,
    info: BindGroupLayoutInfo,
    group: BindGroup,
    offsets: Seq<DynamicOffset>,
    pipeline: RenderPipeline,
    reference: u32,
)
    ensures
        encoder.same_pass(encoder.record(commands)),
        encoder.same_pass(encoder.push_debug_group(label)),
        encoder.same_pass(encoder.insert_debug_marker(label)),
        encoder.same_pass(encoder.prepare_draw(first_instance)),
        encoder.same_pass(encoder.set_vertex_buffer(index, buffer, offset)),
        encoder.same_pass(encoder.set_index_buffer(buffer, offset, format)),
        encoder.same_pass(encoder.set_pipeline_inner(inner)),
        encoder.same_pass(encoder.set_bind_group(info, group, offsets)),
        encoder.same_pass(encoder.set_render_pipeline(pipeline)),
        encoder.same_pass(encoder.set_stencil_reference(reference)),
{
    lemma_bindings_keep_pass(encoder, info, group, binding_count(info, group));
}

proof fn lemma_bindings_keep_pass(
    encoder: EncoderView,
    info: BindGroupLayoutInfo,
    group: BindGroup,
    n: nat,
)
    ensures
        encoder.same_pass(encoder.in_state(encoder.state.with_bindings(info, group, n))),
    decreases n,
{
    if n > 0 {
        lemma_bindings_keep_pass(encoder, info, group, (n - 1) as nat);
    }
}

/// What a render pass resolves and discards at its end is what its description
/// says, whatever was recorded in it.
pub proof fn law_pass_ends_as_described(
    encoder: EncoderView,
    desc: RenderPassDescriptor,
    inside: EncoderView,
)
    requires
        encoder.begin_render_pass(desc).same_pass(inside),
    ensures
        inside.end_render_pass().cmd_buffer.commands == inside.cmd_buffer.commands + described_end(
            desc,
        ) + if inside.state.has_pass_label {
            seq![Command::PopDebugGroup]
        } else {
            seq![]
        },
{
    assert(inside.end_render_pass().cmd_buffer.commands =~= inside.cmd_buffer.commands
        + described_end(desc) + if inside.state.has_pass_label {
        seq![Command::PopDebugGroup]
    } else {
        seq![]
    });
}

// Faces and targets
/// The stencil test of a face: the function, the reference value and the mask.
pub open spec fn side_test(side: StencilSide) -> (u32, u32, u32) {
    (side.function, side.reference, side.mask_read)
}

/// The stencil test that a command sets for a face.
pub open spec fn test_pick(face: u32) -> spec_fn(CommandView) -> Option<(u32, u32, u32)> {
    |command: CommandView|
        match command {
            Command::SetStencilFunc { face: target, function, reference, read_mask } => if target
                == face || target == gl::FRONT_AND_BACK {
                Some((function, reference, read_mask))
            } else {
                None
            },
            _ => None,
        }
}

/// The stencil operations that a command sets for a face.
pub open spec fn ops_pick(face: u32) -> spec_fn(CommandView) -> Option<(u32, StencilOps)> {
    |command: CommandView|
        match command {
            Command::SetStencilOps { face: target, write_mask, ops } => if target == face || target
                == gl::FRONT_AND_BACK {
                Some((write_mask, ops))
            } else {
                None
            },
            _ => None,
        }
}

/// How a command sets a color target to be written.
pub open spec fn target_pick(target: int) -> spec_fn(CommandView) -> Option<ColorTargetDesc> {
    |command: CommandView|
        match command {
            Command::SetColorTarget { draw_buffer_index, desc } => if draw_buffer_index is None
                || draw_buffer_index->0 == target {
                Some(desc)
            } else {
                None
            },
            _ => None,
        }
}

/// However the stencil tests are set, each face gets its own.
pub proof fn law_each_face_has_its_test(stencil: StencilState)
    ensures
        latest(stencil_funcs(stencil), test_pick(gl::FRONT)) == Some(side_test(stencil.front)),
        latest(stencil_funcs(stencil), test_pick(gl::BACK)) == Some(side_test(stencil.back)),
{
    reveal_with_fuel(latest, 3);
    let commands = stencil_funcs(stencil);
    if commands.len() == 2 {
        assert(commands.drop_last() =~= seq![commands[0]]);
    }
}

/// However the stencil operations are set, each face gets its own.
pub proof fn law_each_face_has_its_ops(stencil: StencilState)
    ensures
        latest(stencil_ops(stencil), ops_pick(gl::FRONT)) == Some(
            (stencil.front.mask_write, stencil.front.ops),
        ),
        latest(stencil_ops(stencil), ops_pick(gl::BACK)) == Some(
            (stencil.back.mask_write, stencil.back.ops),
        ),
{
    reveal_with_fuel(latest, 3);
    let commands = stencil_ops(stencil);
    if commands.len() == 2 {
        assert(commands.drop_last() =~= seq![commands[0]]);
    }
}

/// A reference value that is set holds for both faces.
pub proof fn law_reference_holds_for_both_faces(encoder: EncoderView, value: u32)
    ensures
        ({
            let set = encoder.set_stencil_reference(value);
            let commands = set.cmd_buffer.commands;
            &&& latest(commands, test_pick(gl::FRONT)) == Some(
                side_test(StencilSide { reference: value, ..encoder.state.stencil.front }),
            )
            &&& latest(commands, test_pick(gl::BACK)) == Some(
                side_test(StencilSide { reference: value, ..encoder.state.stencil.back }),
            )
            &&& set.state.stencil.front.reference == value
            &&& set.state.stencil.back.reference == value
        }),
{
    let set = encoder.set_stencil_reference(value);
    let issued = stencil_funcs(set.state.stencil);
    law_each_face_has_its_test(set.state.stencil);
    lemma_latest_concat(encoder.cmd_buffer.commands, issued, test_pick(gl::FRONT));
    lemma_latest_concat(encoder.cmd_buffer.commands, issued, test_pick(gl::BACK));
}

/// However color targets are set, each is written as it is described.
pub proof fn law_each_target_is_as_described(targets: Seq<ColorTargetDesc>, target: int)
    requires
        0 <= target < targets.len() <= u32::MAX,
    ensures
        latest(color_target_commands(targets), target_pick(target)) == Some(targets[target]),
{
    let commands = color_target_commands(targets);
    if alike(targets) {
        reveal_with_fuel(latest, 2);
        assert(targets[target] == targets[0]);
    } else {
        lemma_each_target(targets, targets.len(), target);
    }
}

proof fn lemma_each_target(targets: Seq<ColorTargetDesc>, n: nat, target: int)
    requires
        0 <= target < n <= targets.len() <= u32::MAX,
    ensures
        latest(each_target(targets, n), target_pick(target)) == Some(targets[target]),
    decreases n,
{
    let commands = each_target(targets, n);
    assert(commands.drop_last() =~= each_target(targets, (n - 1) as nat));
    if target < n - 1 {
        lemma_each_target(targets, (n - 1) as nat, target);
    }
}

// Barriers
/// A barrier on textures covers what follows each write to storage.
pub proof fn law_barrier_covers(barriers: Seq<TextureBarrier>, n: nat, i: int)
    requires
        0 <= i < n <= barriers.len(),
        barriers[i].start.has(TextureUses::STORAGE_WRITE),
    ensures
        uses_after_writes(barriers, n).has(barriers[i].end.bits),
    decreases n,
{
    let earlier = uses_after_writes(barriers, (n - 1) as nat);
    let (a, b) = (earlier.bits, barriers[n - 1].end.bits);
    let c = barriers[i].end.bits;
    if i == n - 1 {
        assert((a | b) & b == b) by (bit_vector);
    } else {
        law_barrier_covers(barriers, (n - 1) as nat, i);
        assert(a & c == c ==> (a | b) & c == c) by (bit_vector);
    }
}

/// A barrier on textures covers no use that does not follow a write to storage.
pub proof fn law_barrier_covers_no_more(barriers: Seq<TextureBarrier>, n: nat, bit: u32) -> (i: int)
    requires
        n <= barriers.len(),
        bit < 32,
        uses_after_writes(barriers, n).bits & (1u32 << bit) != 0,
    ensures
        0 <= i < n,
        barriers[i].start.has(TextureUses::STORAGE_WRITE),
        barriers[i].end.bits & (1u32 << bit) != 0,
    decreases n,
{
    if n == 0 {
        assert(0u32 & (1u32 << bit) == 0) by (bit_vector);
        0
    } else {
        let earlier = uses_after_writes(barriers, (n - 1) as nat);
        let (a, b) = (earlier.bits, barriers[n - 1].end.bits);
        assert((a | b) & (1u32 << bit) != 0 ==> a & (1u32 << bit) != 0 || b & (1u32 << bit) != 0)
            by (bit_vector);
        if a & (1u32 << bit) != 0 {
            law_barrier_covers_no_more(barriers, (n - 1) as nat, bit)
        } else {
            n - 1
        }
    }
}

} // verus!
