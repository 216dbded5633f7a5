//! What draws draw, and from where.
use vstd::prelude::*;

use crate::bind::binding_count;
use crate::collect::{increasing, lemma_collect_order};
use crate::command::{Command, CommandView};
use crate::effect::lemma_added;
use crate::encoder::EncoderView;
use crate::flags::PrivateCapabilities;
use crate::gl;
use crate::state::StateView;
use crate::types::{
    AttributeDesc, BindGroup, BindGroupLayoutInfo, Buffer, BufferAddress, DynamicOffset,
    IndexFormat, InputStepMode, PipelineInner, RenderPassDescriptor, RenderPipeline,
    MAX_VERTEX_BUFFERS,
};

verus! {

// Vertex data
/// What sets vertex data sets the dirty vertex buffers, each once and in order,
/// where layouts are set apart: as they are stepped through, and those that are
/// stepped through by instance as much further as the instances before the first
/// take up. The result is the buffers that are set.
pub proof fn law_dirty_buffers_in_order(encoder: EncoderView, first_instance: u32) -> (at: Seq<int>)
    requires
        encoder.private_caps.has(PrivateCapabilities::VERTEX_BUFFER_LAYOUT),
    ensures
        ({
            let commands = encoder.vertex_data_commands(first_instance);
            &&& increasing(at)
            &&& at.len() == commands.len()
            &&& forall|k: int|
                0 <= k < at.len() ==> {
                    let i = #[trigger] at[k];
                    let (desc, buffer) = encoder.state.vertex_buffers[i];
                    &&& 0 <= i < MAX_VERTEX_BUFFERS
                    &&& encoder.state.dirty_vbufs.contains(i)
                    &&& commands[k] matches Command::SetVertexBuffer {
                        index,
                        buffer: set,
                        buffer_desc,
                    }
                    &&& index == i
                    &&& buffer_desc == desc
                    &&& set.raw == buffer.raw
                    &&& desc.step == InputStepMode::Vertex ==> set.offset == buffer.offset
                    &&& desc.step == InputStepMode::Instance && buffer.offset + first_instance
                        * desc.stride <= u64::MAX ==> set.offset == buffer.offset + first_instance
                        * desc.stride
                }
            &&& forall|i: int|
                0 <= i < MAX_VERTEX_BUFFERS && encoder.state.dirty_vbufs.contains(i)
                    ==> #[trigger] at.contains(i)
        }),
{
    lemma_collect_order(
        MAX_VERTEX_BUFFERS as nat,
        |i: int| encoder.state.vertex_buffer_command(first_instance, i),
    )
}

/// What sets vertex data sets the attributes that are read from dirty vertex
/// buffers, each once and in order, with their buffers, where layouts are not set
/// apart. An attribute lies in its buffer where its own offset, that of the
/// buffer in 32 bits and, where the buffer is stepped through by instance, the
/// instances before the first place it. The result is the attributes that are
/// set.
pub proof fn law_dirty_attributes_in_order(encoder: EncoderView, first_instance: u32) -> (at: Seq<
    int,
>)
    requires
        !encoder.private_caps.has(PrivateCapabilities::VERTEX_BUFFER_LAYOUT),
    ensures
        ({
            let commands = encoder.vertex_data_commands(first_instance);
            let attributes = encoder.state.vertex_attributes;
            &&& increasing(at)
            &&& at.len() == commands.len()
            &&& forall|k: int|
                0 <= k < at.len() ==> {
                    let a = #[trigger] at[k];
                    let (desc, bound) =
                        encoder.state.vertex_buffers[attributes[a].buffer_index as int];
                    let place = attributes[a].offset + (bound.offset as u32);
                    &&& 0 <= a < attributes.len()
                    &&& encoder.state.dirty_vbufs.contains(attributes[a].buffer_index as int)
                    &&& commands[k] matches Command::SetVertexAttribute {
                        buffer,
                        buffer_desc,
                        attribute_desc,
                    }
                    &&& buffer == Some(bound.raw)
                    &&& buffer_desc == desc
                    &&& attribute_desc == (AttributeDesc {
                        offset: attribute_desc.offset,
                        ..attributes[a]
                    })
                    &&& desc.step == InputStepMode::Vertex && place <= u32::MAX
                        ==> attribute_desc.offset == place
                    &&& desc.step == InputStepMode::Instance && place + first_instance
                        * desc.stride <= u32::MAX ==> attribute_desc.offset == place
                        + first_instance * desc.stride
                }
            &&& forall|a: int|
                0 <= a < attributes.len() && encoder.state.dirty_vbufs.contains(
                    attributes[a].buffer_index as int,
                ) ==> #[trigger] at.contains(a)
        }),
{
    lemma_collect_order(
        encoder.state.vertex_attributes.len(),
        |i: int| encoder.state.vertex_attribute_command(first_instance, i),
    )
}

/// Before a draw the vertex data is set that is dirty: for a draw from the first
/// instance on what was dirty before, and nothing is after it; for one from a
/// later instance on the buffers that are stepped through by instance, and they
/// are after it too.
pub proof fn law_vertex_data_for_a_draw(encoder: EncoderView, first_instance: u32)
    ensures
        ({
            let drawn = encoder.prepare_draw(first_instance);
            let dirty = if first_instance == 0 {
                encoder.state.dirty_vbufs
            } else {
                encoder.state.instance_vbufs
            };
            let dirtied = EncoderView {
                state: StateView { dirty_vbufs: dirty, ..encoder.state },
                ..encoder
            };
            &&& encoder.only_adds(drawn)
            &&& encoder.added(drawn) == dirtied.vertex_data_commands(first_instance)
            &&& first_instance == 0 ==> forall|i: int| !#[trigger]
                drawn.state.dirty_vbufs.contains(i)
            &&& first_instance != 0 ==> drawn.state.dirty_vbufs == encoder.state.instance_vbufs
            &&& drawn.state == (StateView {
                dirty_vbufs: drawn.state.dirty_vbufs,
                ..encoder.state
            })
        }),
{
    let drawn = encoder.prepare_draw(first_instance);
    let dirtied = encoder.dirtied_for(first_instance);
    lemma_added(encoder, drawn.state, dirtied.vertex_data_commands(first_instance));
}

/// A vertex buffer that is bound takes the place of the one before it, is
/// stepped through as that one was, and is dirty.
pub proof fn law_vertex_buffer_is_bound(
    encoder: EncoderView,
    index: u32,
    buffer: Buffer,
    offset: BufferAddress,
    other: int,
)
    requires
        encoder.wf(),
        index < MAX_VERTEX_BUFFERS,
        0 <= other < MAX_VERTEX_BUFFERS,
        other != index,
    ensures
        ({
            let bound = encoder.set_vertex_buffer(index, buffer, offset);
            let (before, after) = (encoder.state.vertex_buffers, bound.state.vertex_buffers);
            &&& after.len() == before.len()
            &&& after[index as int].0 == before[index as int].0
            &&& after[index as int].1.raw == buffer.raw
            &&& after[index as int].1.offset == offset
            &&& after[other] == before[other]
            &&& bound.state.dirty_vbufs.contains(index as int)
            &&& forall|i: int|
                i != index ==> (#[trigger] bound.state.dirty_vbufs.contains(i)
                    <==> encoder.state.dirty_vbufs.contains(i))
            &&& bound.state == (StateView {
                vertex_buffers: after,
                dirty_vbufs: bound.state.dirty_vbufs,
                ..encoder.state
            })
            &&& bound.cmd_buffer == encoder.cmd_buffer
            &&& bound.private_caps == encoder.private_caps
        }),
{
}

// Draws
/// A draw sets its vertex data and then draws, with the topology that is set.
pub proof fn law_draw_draws(
    encoder: EncoderView,
    start_vertex: u32,
    vertex_count: u32,
    start_instance: u32,
    instance_count: u32,
)
    ensures
        ({
            let prepared = encoder.prepare_draw(start_instance);
            let drawn = encoder.draw(start_vertex, vertex_count, start_instance, instance_count);
            &&& prepared.only_adds(drawn)
            &&& drawn.state == prepared.state
            &&& prepared.added(drawn).len() == 1
            &&& prepared.added(drawn)[0] matches Command::Draw {
                topology,
                start_vertex: start,
                vertex_count: count,
                instance_count: instances,
            }
            &&& topology == encoder.state.topology
            &&& start == start_vertex
            &&& count == vertex_count
            &&& instances == instance_count
        }),
{
    let prepared = encoder.prepare_draw(start_instance);
    let drawn = encoder.draw(start_vertex, vertex_count, start_instance, instance_count);
    lemma_added(prepared, prepared.state, seq![drawn.cmd_buffer.commands.last()]);
    assert(drawn =~= prepared.record(seq![drawn.cmd_buffer.commands.last()]));
}

/// An indexed draw sets its vertex data and then draws, with the topology that
/// is set, through the indices of the index buffer that is bound: each takes up
/// two bytes or four, by their format.
pub proof fn law_indexed_draw_draws(
    encoder: EncoderView,
    start_index: u32,
    index_count: u32,
    base_vertex: i32,
    start_instance: u32,
    instance_count: u32,
)
    ensures
        ({
            let prepared = encoder.prepare_draw(start_instance);
            let drawn = encoder.draw_indexed(
                start_index,
                index_count,
                base_vertex,
                start_instance,
                instance_count,
            );
            &&& prepared.only_adds(drawn)
            &&& drawn.state == prepared.state
            &&& prepared.added(drawn).len() == 1
            &&& prepared.added(drawn)[0] matches Command::DrawIndexed {
                topology,
                index_type,
                index_offset,
                index_count: count,
                base_vertex: base,
                instance_count: instances,
            }
            &&& topology == encoder.state.topology
            &&& count == index_count
            &&& base == base_vertex
            &&& instances == instance_count
            &&& encoder.state.index_format == IndexFormat::Uint16 ==> index_type
                == gl::UNSIGNED_SHORT && (encoder.state.index_offset + 2 * start_index <= u64::MAX
                ==> index_offset == encoder.state.index_offset + 2 * start_index)
            &&& encoder.state.index_format == IndexFormat::Uint32 ==> index_type
                == gl::UNSIGNED_INT && (encoder.state.index_offset + 4 * start_index <= u64::MAX
                ==> index_offset == encoder.state.index_offset + 4 * start_index)
        }),
{
    let prepared = encoder.prepare_draw(start_instance);
    let drawn = encoder.draw_indexed(
        start_index,
        index_count,
        base_vertex,
        start_instance,
        instance_count,
    );
    lemma_added(prepared, prepared.state, seq![drawn.cmd_buffer.commands.last()]);
    assert(drawn =~= prepared.record(seq![drawn.cmd_buffer.commands.last()]));
}

/// Indirect draws set the vertex data from the first instance on, and then draw
/// as often as asked for, with the topology that is set. The arguments of the
/// first lie at the offset, and those of each further one right behind those
/// before it.
pub proof fn law_indirect_draws_draw(
    encoder: EncoderView,
    buffer: Buffer,
    offset: BufferAddress,
    count: u32,
)
    ensures
        ({
            let prepared = encoder.prepare_draw(0);
            let drawn = encoder.draw_indirect(buffer, offset, count);
            let added = prepared.added(drawn);
            &&& prepared.only_adds(drawn)
            &&& drawn.state == prepared.state
            &&& added.len() == count
            &&& forall|i: int|
                0 <= i < count ==> {
                    &&& (#[trigger] added[i]) matches Command::DrawIndirect {
                        topology,
                        indirect_buf,
                        indirect_offset,
                    }
                    &&& topology == encoder.state.topology
                    &&& indirect_buf == buffer.raw
                    &&& offset + 16 * i <= u64::MAX ==> indirect_offset == offset + 16 * i
                }
        }),
{
    let prepared = encoder.prepare_draw(0);
    lemma_added(
        prepared,
        prepared.state,
        encoder.indirect_draws(buffer, offset, count as nat),
    );
}

/// Indexed indirect draws set the vertex data from the first instance on, and
/// then draw as often as asked for, with the topology and the format of indices
/// that are set. The arguments of the first lie at the offset, and those of each
/// further one right behind those before it.
pub proof fn law_indexed_indirect_draws_draw(
    encoder: EncoderView,
    buffer: Buffer,
    offset: BufferAddress,
    count: u32,
)
    ensures
        ({
            let prepared = encoder.prepare_draw(0);
            let drawn = encoder.draw_indexed_indirect(buffer, offset, count);
            let added = prepared.added(drawn);
            &&& prepared.only_adds(drawn)
            &&& drawn.state == prepared.state
            &&& added.len() == count
            &&& forall|i: int|
                0 <= i < count ==> {
                    &&& (#[trigger] added[i]) matches Command::DrawIndexedIndirect {
                        topology,
                        index_type,
                        indirect_buf,
                        indirect_offset,
                    }
                    &&& topology == encoder.state.topology
                    &&& indirect_buf == buffer.raw
                    &&& offset + 20 * i <= u64::MAX ==> indirect_offset == offset + 20 * i
                    &&& encoder.state.index_format == IndexFormat::Uint16 ==> index_type
                        == gl::UNSIGNED_SHORT
                    &&& encoder.state.index_format == IndexFormat::Uint32 ==> index_type
                        == gl::UNSIGNED_INT
                }
        }),
{
    let prepared = encoder.prepare_draw(0);
    lemma_added(
        prepared,
        prepared.state,
        encoder.indexed_indirect_draws(buffer, offset, count as nat),
    );
}

/// An index buffer that is bound is the one that indexed draws read, in its
/// format and from its offset on.
pub proof fn law_index_buffer_is_bound(
    encoder: EncoderView,
    buffer: Buffer,
    offset: BufferAddress,
    format: IndexFormat,
)
    ensures
        ({
            let bound = encoder.set_index_buffer(buffer, offset, format);
            &&& encoder.only_adds(bound)
            &&& encoder.added(bound) == seq![Command::<Seq<u32>>::SetIndexBuffer(buffer.raw)]
            &&& bound.state.index_format == format
            &&& bound.state.index_offset == offset
            &&& bound.state == (StateView {
                index_format: format,
                index_offset: offset,
                ..encoder.state
            })
        }),
{
    let bound = encoder.set_index_buffer(buffer, offset, format);
    lemma_added(encoder, bound.state, seq![Command::SetIndexBuffer(buffer.raw)]);
}

/// A dispatch is one command, with the grid that it is given or the place where
/// its size lies.
pub proof fn law_dispatches_are_recorded(
    encoder: EncoderView,
    count: [u32; 3],
    buffer: Buffer,
    offset: BufferAddress,
)
    ensures
        ({
            let run = encoder.dispatch(count);
            &&& encoder.only_adds(run)
            &&& run.state == encoder.state
            &&& encoder.added(run).len() == 1
            &&& encoder.added(run)[0] matches Command::Dispatch(grid)
            &&& grid@ == count@
        }),
        ({
            let run = encoder.dispatch_indirect(buffer, offset);
            &&& encoder.only_adds(run)
            &&& run.state == encoder.state
            &&& encoder.added(run).len() == 1
            &&& encoder.added(run)[0] matches Command::DispatchIndirect {
                indirect_buf,
                indirect_offset,
            }
            &&& indirect_buf == buffer.raw
            &&& indirect_offset == offset
        }),
{
    lemma_added(encoder, encoder.state, seq![Command::Dispatch(count)]);
    let indirect = Command::DispatchIndirect { indirect_buf: buffer.raw, indirect_offset: offset };
    lemma_added(encoder, encoder.state, seq![indirect]);
}

// From a pipeline to its draws
impl EncoderView {
    /// Whether `later` draws with the topology that `self` does.
    pub open spec fn same_topology(self, later: EncoderView) -> bool {
        later.state.topology == self.state.topology
    }

    /// Whether `later` reads the indices that `self` does.
    pub open spec fn same_indices(self, later: EncoderView) -> bool {
        &&& later.state.index_format == self.state.index_format
        &&& later.state.index_offset == self.state.index_offset
    }
}

/// Nothing but another render pipeline changes the topology, and nothing but
/// another index buffer the indices.
pub proof fn law_topology_and_indices_stay(
    encoder: EncoderView,
    commands: Seq<CommandView>,
    label: Seq<char>,
    pass_label: Option<&str>,
    desc: RenderPassDescriptor,
    first_instance: u32,
    index: u32,
    buffer: Buffer,
    offset: BufferAddress,
    format: IndexFormat,
    inner: PipelineInner,
    info: BindGroupLayoutInfo,
    group: BindGroup,
    offsets: Seq<DynamicOffset>,
    pipeline: RenderPipeline,
    reference: u32,
    queries: Seq<u32>,
)
    ensures
        encoder.same_topology(encoder.set_index_buffer(buffer, offset, format)),
        encoder.same_indices(encoder.set_render_pipeline(pipeline)),
        forall|later: EncoderView|
            {
                ||| later == encoder.record(commands)
                ||| later == encoder.push_debug_group(label)
                ||| later == encoder.insert_debug_marker(label)
                ||| later == encoder.label_pass(pass_label)
                ||| later == encoder.unlabel_pass()
                ||| later == encoder.begin_render_pass(desc)
                ||| later == encoder.end_render_pass()
                ||| later == encoder.prepare_draw(first_instance)
                ||| later == encoder.set_vertex_buffer(index, buffer, offset)
                ||| later == encoder.set_pipeline_inner(inner)
                ||| later == encoder.set_bind_group(info, group, offsets)
                ||| later == encoder.set_stencil_reference(reference)
                ||| later == encoder.copy_query_results(queries, buffer, offset)
            } ==> #[trigger] encoder.same_topology(later) && encoder.same_indices(later),
{
    lemma_bindings_keep_draws(encoder, info, group, binding_count(info, group));
}

proof fn lemma_bindings_keep_draws(
    encoder: EncoderView,
    info: BindGroupLayoutInfo,
    group: BindGroup,
    n: nat,
)
    ensures
        ({
            let bound = encoder.in_state(encoder.state.with_bindings(info, group, n));
            encoder.same_topology(bound) && encoder.same_indices(bound)
        }),
    decreases n,
{
    if n > 0 {
        lemma_bindings_keep_draws(encoder, info, group, (n - 1) as nat);
    }
}

/// What is drawn after a render pipeline was set, and whatever else that sets no
/// other one, is drawn with the topology of that pipeline.
pub proof fn law_pipeline_gives_the_topology(
    encoder: EncoderView,
    pipeline: RenderPipeline,
    later: EncoderView,
    start: u32,
    count: u32,
    base_vertex: i32,
    start_instance: u32,
    instance_count: u32,
)
    requires
        encoder.set_render_pipeline(pipeline).same_topology(later),
    ensures
        later.draw(
            start,
            count,
            start_instance,
            instance_count,
        ).cmd_buffer.commands.last() matches Command::Draw { topology, .. } && topology
            == pipeline.topology,
        later.draw_indexed(
            start,
            count,
            base_vertex,
            start_instance,
            instance_count,
        ).cmd_buffer.commands.last() matches Command::DrawIndexed { topology, .. } && topology
            == pipeline.topology,
{
}

/// What is drawn indexed after an index buffer was bound, and whatever else that
/// binds no other one, is drawn through the indices of that buffer.
pub proof fn law_index_buffer_gives_the_indices(
    encoder: EncoderView,
    buffer: Buffer,
    offset: BufferAddress,
    format: IndexFormat,
    later: EncoderView,
    start_index: u32,
    index_count: u32,
    base_vertex: i32,
    start_instance: u32,
    instance_count: u32,
)
    requires
        encoder.set_index_buffer(buffer, offset, format).same_indices(later),
    ensures
        later.draw_indexed(
            start_index,
            index_count,
            base_vertex,
            start_instance,
            instance_count,
        ).cmd_buffer.commands.last() matches Command::DrawIndexed {
            index_type,
            index_offset,
            index_count: count,
            base_vertex: base,
            instance_count: instances,
            ..
        } && count == index_count && base == base_vertex && instances == instance_count
            && match format {
            IndexFormat::Uint16 => index_type == gl::UNSIGNED_SHORT && (offset + 2 * start_index
                <= u64::MAX ==> index_offset == offset + 2 * start_index),
            IndexFormat::Uint32 => index_type == gl::UNSIGNED_INT && (offset + 4 * start_index
                <= u64::MAX ==> index_offset == offset + 4 * start_index),
        },
{
}

} // verus!
