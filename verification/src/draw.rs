//! Draws and dispatches, and the vertex buffers that are set before a draw.
use vstd::prelude::*;

use crate::bits::{lemma_word_bits_nonzero, lemma_word_bits_zero, word_has, word_with};
use crate::collect::{collect, lemma_collect_member, lemma_collect_none};
use crate::command::{Command, CommandView};
use crate::encoder::{CommandEncoder, EncoderView};
use crate::flags::PrivateCapabilities;
use crate::gl;
use crate::lists::{attributes_as_slice, attributes_of};
use crate::state::StateView;
use crate::types::{
    AttributeDesc, Buffer, BufferAddress, BufferBinding, BufferRegion, IndexFormat, InputStepMode,
    VertexBufferDesc, MAX_VERTEX_BUFFERS,
};
use crate::webgpu::{
    draw_indexed_indirect_args_size, draw_indirect_args_size, DRAW_INDEXED_INDIRECT_ARGS_SIZE,
    DRAW_INDIRECT_ARGS_SIZE,
};

verus! {

/// How far into a vertex buffer the data of an instance lies.
pub open spec fn instance_offset(desc: VertexBufferDesc, first_instance: u32) -> int {
    match desc.step {
        InputStepMode::Vertex => 0,
        InputStepMode::Instance => first_instance * desc.stride,
    }
}

/// Where the data of an attribute lies, in the terms of OpenGL: the place in
/// the element, the buffer's own offset cut to 32 bits, and the instance.
pub open spec fn attribute_offset(
    attribute: AttributeDesc,
    desc: VertexBufferDesc,
    buffer: BufferBinding,
    first_instance: u32,
) -> int {
    attribute.offset + (buffer.offset as u32) + instance_offset(desc, first_instance)
}

impl StateView {
    /// What sets the vertex buffer `i` for a draw from `first_instance` on,
    /// where it is dirty and buffers are set apart from their layout.
    pub open spec fn vertex_buffer_command(self, first_instance: u32, i: int) -> Option<
        CommandView,
    > {
        let (desc, buffer) = self.vertex_buffers[i];
        if self.dirty_vbufs.contains(i) {
            Some(
                Command::SetVertexBuffer {
                    index: i as u32,
                    buffer: BufferBinding {
                        raw: buffer.raw,
                        offset: (buffer.offset + instance_offset(desc, first_instance)) as u64,
                    },
                    buffer_desc: desc,
                },
            )
        } else {
            None
        }
    }

    /// What sets the vertex attribute `i` for a draw from `first_instance` on,
    /// where its buffer is dirty and buffers are set with their layout.
    pub open spec fn vertex_attribute_command(self, first_instance: u32, i: int) -> Option<
        CommandView,
    > {
        let attribute = self.vertex_attributes[i];
        let (desc, buffer) = self.vertex_buffers[attribute.buffer_index as int];
        if self.dirty_vbufs.contains(attribute.buffer_index as int) {
            Some(
                Command::SetVertexAttribute {
                    buffer: Some(buffer.raw),
                    buffer_desc: desc,
                    attribute_desc: AttributeDesc {
                        offset: attribute_offset(attribute, desc, buffer, first_instance) as u32,
                        ..attribute
                    },
                },
            )
        } else {
            None
        }
    }

    /// What sets the first `n` vertex buffers.
    pub open spec fn vertex_buffer_commands(self, first_instance: u32, n: nat) -> Seq<CommandView> {
        collect(n, |i: int| self.vertex_buffer_command(first_instance, i))
    }

    /// What sets the first `n` vertex attributes.
    pub open spec fn vertex_attribute_commands(self, first_instance: u32, n: nat) -> Seq<
        CommandView,
    > {
        collect(n, |i: int| self.vertex_attribute_command(first_instance, i))
    }

    /// Whether the offsets of the dirty vertex buffers can be computed.
    pub open spec fn vertex_buffers_in_range(self, first_instance: u32) -> bool {
        forall|i: int|
            0 <= i < MAX_VERTEX_BUFFERS && #[trigger] self.dirty_vbufs.contains(i) ==> {
                let (desc, buffer) = self.vertex_buffers[i];
                &&& instance_offset(desc, first_instance) <= u32::MAX
                &&& buffer.offset + instance_offset(desc, first_instance) <= u64::MAX
            }
    }

    /// Whether the dirty vertex attributes are read from buffers that there are,
    /// and their offsets can be computed.
    pub open spec fn vertex_attributes_in_range(self, first_instance: u32) -> bool {
        forall|i: int|
            0 <= i < self.vertex_attributes.len() ==> {
                let attribute = #[trigger] self.vertex_attributes[i];
                &&& attribute.buffer_index < usize::BITS
                &&& self.dirty_vbufs.contains(attribute.buffer_index as int) ==> {
                    let (desc, buffer) = self.vertex_buffers[attribute.buffer_index as int];
                    &&& attribute.buffer_index < MAX_VERTEX_BUFFERS
                    &&& attribute_offset(attribute, desc, buffer, first_instance) <= u32::MAX
                }
            }
    }
}

impl EncoderView {
    /// What sets the dirty vertex buffers.
    pub open spec fn vertex_data_commands(self, first_instance: u32) -> Seq<CommandView> {
        if self.private_caps.has(PrivateCapabilities::VERTEX_BUFFER_LAYOUT) {
            self.state.vertex_buffer_commands(first_instance, MAX_VERTEX_BUFFERS as nat)
        } else {
            self.state.vertex_attribute_commands(
                first_instance,
                self.state.vertex_attributes.len(),
            )
        }
    }

    /// Whether the dirty vertex buffers can be set.
    pub open spec fn vertex_data_in_range(self, first_instance: u32) -> bool {
        if self.private_caps.has(PrivateCapabilities::VERTEX_BUFFER_LAYOUT) {
            self.state.vertex_buffers_in_range(first_instance)
        } else {
            self.state.vertex_attributes_in_range(first_instance)
        }
    }
}

/// The size of an index, in bytes.
pub open spec fn index_size(format: IndexFormat) -> u64 {
    match format {
        IndexFormat::Uint16 => 2,
        IndexFormat::Uint32 => 4,
    }
}

/// The type of an index, as an OpenGL enumerant.
pub open spec fn index_type(format: IndexFormat) -> u32 {
    match format {
        IndexFormat::Uint16 => gl::UNSIGNED_SHORT,
        IndexFormat::Uint32 => gl::UNSIGNED_INT,
    }
}

/// Whether `count` records of the given size can be addressed from `offset` on.
pub open spec fn records_in_range(offset: BufferAddress, count: u32, size: u64) -> bool {
    count > 0 ==> offset + (count - 1) * size <= u64::MAX
}

impl EncoderView {
    /// The recorder with the vertex buffers dirty that a draw from
    /// `first_instance` on has to set: where it does not start at the first
    /// instance, those that are stepped through by instance.
    pub open spec fn dirtied_for(self, first_instance: u32) -> EncoderView {
        let dirty_vbufs = if first_instance != 0 {
            self.state.instance_vbufs
        } else {
            self.state.dirty_vbufs
        };
        self.in_state(StateView { dirty_vbufs, ..self.state })
    }

    /// Whether a draw can start at `first_instance`.
    pub open spec fn can_draw_from(self, first_instance: u32) -> bool {
        self.dirtied_for(first_instance).state.dirty_vbufs != Set::<int>::empty()
            ==> self.dirtied_for(first_instance).vertex_data_in_range(first_instance)
    }

    /// The recorder once the vertex buffers are set. Buffers that were set for
    /// a later instance have to be set again for the next draw.
    pub open spec fn prepare_draw(self, first_instance: u32) -> EncoderView {
        let dirtied = self.dirtied_for(first_instance);
        let bound = dirtied.record(dirtied.vertex_data_commands(first_instance));
        if first_instance == 0 {
            bound.in_state(StateView { dirty_vbufs: Set::empty(), ..bound.state })
        } else {
            bound
        }
    }

    /// A draw of vertices.
    pub open spec fn draw(
        self,
        start_vertex: u32,
        vertex_count: u32,
        start_instance: u32,
        instance_count: u32,
    ) -> EncoderView {
        self.prepare_draw(start_instance).record(
            seq![
                Command::Draw {
                    topology: self.state.topology,
                    start_vertex,
                    vertex_count,
                    instance_count,
                },
            ],
        )
    }

    /// Where the indices of a draw start, in the index buffer.
    pub open spec fn index_start(self, start_index: u32) -> int {
        self.state.index_offset + index_size(self.state.index_format) * start_index
    }

    /// A draw of vertices through the index buffer.
    pub open spec fn draw_indexed(
        self,
        start_index: u32,
        index_count: u32,
        base_vertex: i32,
        start_instance: u32,
        instance_count: u32,
    ) -> EncoderView {
        self.prepare_draw(start_instance).record(
            seq![
                Command::DrawIndexed {
                    topology: self.state.topology,
                    index_type: index_type(self.state.index_format),
                    index_offset: self.index_start(start_index) as u64,
                    index_count,
                    base_vertex,
                    instance_count,
                },
            ],
        )
    }

    /// The first `count` of the draws whose arguments lie in a row in a buffer.
    pub open spec fn indirect_draws(
        self,
        buffer: Buffer,
        offset: BufferAddress,
        count: nat,
    ) -> Seq<CommandView> {
        Seq::new(
            count,
            |draw: int|
                Command::DrawIndirect {
                    topology: self.state.topology,
                    indirect_buf: buffer.raw,
                    indirect_offset: (offset + draw * DRAW_INDIRECT_ARGS_SIZE) as u64,
                },
        )
    }

    /// The first `count` of the indexed draws whose arguments lie in a row in a
    /// buffer.
    pub open spec fn indexed_indirect_draws(
        self,
        buffer: Buffer,
        offset: BufferAddress,
        count: nat,
    ) -> Seq<CommandView> {
        Seq::new(
            count,
            |draw: int|
                Command::DrawIndexedIndirect {
                    topology: self.state.topology,
                    index_type: index_type(self.state.index_format),
                    indirect_buf: buffer.raw,
                    indirect_offset: (offset + draw * DRAW_INDEXED_INDIRECT_ARGS_SIZE) as u64,
                },
        )
    }

    /// Draws whose arguments lie in a row in a buffer.
    pub open spec fn draw_indirect(
        self,
        buffer: Buffer,
        offset: BufferAddress,
        draw_count: u32,
    ) -> EncoderView {
        self.prepare_draw(0).record(self.indirect_draws(buffer, offset, draw_count as nat))
    }

    /// Indexed draws whose arguments lie in a row in a buffer.
    pub open spec fn draw_indexed_indirect(
        self,
        buffer: Buffer,
        offset: BufferAddress,
        draw_count: u32,
    ) -> EncoderView {
        self.prepare_draw(0).record(self.indexed_indirect_draws(buffer, offset, draw_count as nat))
    }

    /// A compute program run on a grid of work groups.
    pub open spec fn dispatch(self, count: [u32; 3]) -> EncoderView {
        self.record(seq![Command::Dispatch(count)])
    }

    /// A compute program run on a grid whose size is in a buffer.
    pub open spec fn dispatch_indirect(
        self,
        buffer: Buffer,
        offset: BufferAddress,
    ) -> EncoderView {
        self.record(
            seq![
                Command::DispatchIndirect { indirect_buf: buffer.raw, indirect_offset: offset },
            ],
        )
    }

    /// Another index buffer.
    pub open spec fn set_index_buffer(
        self,
        buffer: Buffer,
        offset: BufferAddress,
        format: IndexFormat,
    ) -> EncoderView {
        self.in_state(
            StateView { index_offset: offset, index_format: format, ..self.state },
        ).record(seq![Command::SetIndexBuffer(buffer.raw)])
    }

    /// Another vertex buffer, which is set at the next draw.
    pub open spec fn set_vertex_buffer(
        self,
        index: u32,
        buffer: Buffer,
        offset: BufferAddress,
    ) -> EncoderView {
        let i = index as int;
        let bound = (self.state.vertex_buffers[i].0, BufferBinding { raw: buffer.raw, offset });
        self.in_state(
            StateView {
                vertex_buffers: self.state.vertex_buffers.update(i, bound),
                dirty_vbufs: self.state.dirty_vbufs.insert(i),
                ..self.state
            },
        )
    }
}

/// Whether a command sets vertex data.
pub open spec fn sets_vertex_data(command: CommandView) -> bool {
    command is SetVertexBuffer || command is SetVertexAttribute
}

/// Setting vertex buffers takes no other commands.
pub proof fn lemma_vertex_data_commands_set(encoder: EncoderView, first_instance: u32)
    ensures
        ({
            let commands = encoder.vertex_data_commands(first_instance);
            forall|k: int| 0 <= k < commands.len() ==> sets_vertex_data(#[trigger] commands[k])
        }),
{
    let commands = encoder.vertex_data_commands(first_instance);
    assert forall|k: int| 0 <= k < commands.len() implies sets_vertex_data(
        #[trigger] commands[k],
    ) by {
        if encoder.private_caps.has(PrivateCapabilities::VERTEX_BUFFER_LAYOUT) {
            let step = |i: int| encoder.state.vertex_buffer_command(first_instance, i);
            let i = lemma_collect_member(MAX_VERTEX_BUFFERS as nat, step, k);
            assert(step(i) == Some(commands[k]));
        } else {
            let step = |i: int| encoder.state.vertex_attribute_command(first_instance, i);
            let i = lemma_collect_member(encoder.state.vertex_attributes.len(), step, k);
            assert(step(i) == Some(commands[k]));
        }
    }
}

/// Where no vertex buffer is dirty, none is set.
pub proof fn lemma_nothing_dirty(encoder: EncoderView, first_instance: u32)
    requires
        encoder.state.dirty_vbufs == Set::<int>::empty(),
    ensures
        encoder.vertex_data_commands(first_instance) == Seq::<CommandView>::empty(),
{
    lemma_collect_none(
        MAX_VERTEX_BUFFERS as nat,
        |i: int| encoder.state.vertex_buffer_command(first_instance, i),
    );
    lemma_collect_none(
        encoder.state.vertex_attributes.len(),
        |i: int| encoder.state.vertex_attribute_command(first_instance, i),
    );
}

impl CommandEncoder {
    /// Sets the dirty vertex buffers for a draw from `first_instance` on.
    pub fn rebind_vertex_data(&mut self, first_instance: u32)
        requires
            old(self)@.vertex_data_in_range(first_instance),
        ensures
            final(self)@ == old(self)@.record(old(self)@.vertex_data_commands(first_instance)),
            final(self).state == old(self).state,
    {
        if self.private_caps.contains(PrivateCapabilities::VERTEX_BUFFER_LAYOUT) {
            let mut index: usize = 0;
            assert(self@ =~= old(self)@.record(
                old(self)@.state.vertex_buffer_commands(first_instance, 0),
            ));
            while index < MAX_VERTEX_BUFFERS
                invariant
                    index <= MAX_VERTEX_BUFFERS,
                    self.state == old(self).state,
                    old(self)@.state.vertex_buffers_in_range(first_instance),
                    self@ == old(self)@.record(
                        old(self)@.state.vertex_buffer_commands(first_instance, index as nat),
                    ),
                decreases MAX_VERTEX_BUFFERS - index,
            {
                if word_has(self.state.dirty_vbuf_mask, index) {
                    let (desc, buffer) = self.state.vertex_buffers[index];
                    let offset: u32 = match desc.step {
                        InputStepMode::Vertex => 0,
                        InputStepMode::Instance => first_instance * desc.stride,
                    };
                    self.cmd_buffer.push(
                        Command::SetVertexBuffer {
                            index: index as u32,
                            buffer: BufferBinding {
                                raw: buffer.raw,
                                offset: buffer.offset + offset as u64,
                            },
                            buffer_desc: desc,
                        },
                    );
                }
                index += 1;
                assert(self@ =~= old(self)@.record(
                    old(self)@.state.vertex_buffer_commands(first_instance, index as nat),
                ));
            }
        } else {
            let count: usize = attributes_as_slice(&self.state.vertex_attributes).len();
            let mut i: usize = 0;
            assert(self@ =~= old(self)@.record(
                old(self)@.state.vertex_attribute_commands(first_instance, 0),
            ));
            while i < count
                invariant
                    i <= count,
                    count == attributes_of(self.state.vertex_attributes).len(),
                    self.state == old(self).state,
                    old(self)@.state.vertex_attributes_in_range(first_instance),
                    self@ == old(self)@.record(
                        old(self)@.state.vertex_attribute_commands(first_instance, i as nat),
                    ),
                decreases count - i,
            {
                let attribute = attributes_as_slice(&self.state.vertex_attributes)[i];
                if word_has(self.state.dirty_vbuf_mask, attribute.buffer_index as usize) {
                    let (buffer_desc, buffer) =
                        self.state.vertex_buffers[attribute.buffer_index as usize];
                    let mut attribute_desc = attribute;
                    attribute_desc.offset = attribute_desc.offset + buffer.offset as u32;
                    if buffer_desc.step == InputStepMode::Instance {
                        attribute_desc.offset = attribute_desc.offset + first_instance
                            * buffer_desc.stride;
                    }
                    self.cmd_buffer.push(
                        Command::SetVertexAttribute {
                            buffer: Some(buffer.raw),
                            buffer_desc,
                            attribute_desc,
                        },
                    );
                }
                i += 1;
                assert(self@ =~= old(self)@.record(
                    old(self)@.state.vertex_attribute_commands(first_instance, i as nat),
                ));
            }
        }
    }

    /// Sets the vertex buffers that a draw from `first_instance` on needs.
    pub fn prepare_draw(&mut self, first_instance: u32)
        requires
            old(self)@.can_draw_from(first_instance),
        ensures
            final(self)@ == old(self)@.prepare_draw(first_instance),
            old(self)@.wf() ==> final(self)@.wf(),
    {
        proof {
            lemma_word_bits_zero();
        }
        if first_instance != 0 {
            self.state.dirty_vbuf_mask = self.state.instance_vbuf_mask;
        }
        let ghost dirtied = self@;
        assert(dirtied =~= old(self)@.dirtied_for(first_instance));
        if self.state.dirty_vbuf_mask != 0 {
            proof {
                lemma_word_bits_nonzero(self.state.dirty_vbuf_mask);
            }
            self.rebind_vertex_data(first_instance);
            if first_instance == 0 {
                self.state.dirty_vbuf_mask = 0;
            }
        } else {
            proof {
                lemma_nothing_dirty(dirtied, first_instance);
            }
        }
        assert(self@ =~= old(self)@.prepare_draw(first_instance));
    }

    /// Draws vertices.
    pub fn draw(
        &mut self,
        start_vertex: u32,
        vertex_count: u32,
        start_instance: u32,
        instance_count: u32,
    )
        requires
            old(self)@.can_draw_from(start_instance),
        ensures
            final(self)@ == old(self)@.draw(
                start_vertex,
                vertex_count,
                start_instance,
                instance_count,
            ),
            old(self)@.wf() ==> final(self)@.wf(),
    {
        self.prepare_draw(start_instance);
        self.cmd_buffer.push(
            Command::Draw {
                topology: self.state.topology,
                start_vertex,
                vertex_count,
                instance_count,
            },
        );
    }

    /// Draws vertices through the index buffer.
    pub fn draw_indexed(
        &mut self,
        start_index: u32,
        index_count: u32,
        base_vertex: i32,
        start_instance: u32,
        instance_count: u32,
    )
        requires
            old(self)@.can_draw_from(start_instance),
            old(self)@.index_start(start_index) <= u64::MAX,
        ensures
            final(self)@ == old(self)@.draw_indexed(
                start_index,
                index_count,
                base_vertex,
                start_instance,
                instance_count,
            ),
            old(self)@.wf() ==> final(self)@.wf(),
    {
        self.prepare_draw(start_instance);
        let (size, index_type): (u64, u32) = match self.state.index_format {
            IndexFormat::Uint16 => (2, gl::unsigned_short()),
            IndexFormat::Uint32 => (4, gl::unsigned_int()),
        };
        let index_offset: u64 = self.state.index_offset + size * start_index as u64;
        self.cmd_buffer.push(
            Command::DrawIndexed {
                topology: self.state.topology,
                index_type,
                index_offset,
                index_count,
                base_vertex,
                instance_count,
            },
        );
    }

    /// Draws with arguments from a buffer, `draw_count` times in a row.
    pub fn draw_indirect(&mut self, buffer: &Buffer, offset: BufferAddress, draw_count: u32)
        requires
            old(self)@.can_draw_from(0),
            records_in_range(offset, draw_count, DRAW_INDIRECT_ARGS_SIZE),
        ensures
            final(self)@ == old(self)@.draw_indirect(*buffer, offset, draw_count),
            old(self)@.wf() ==> final(self)@.wf(),
    {
        self.prepare_draw(0);
        let ghost prepared = self@;
        let mut draw: u32 = 0;
        assert(self@ =~= prepared.record(old(self)@.indirect_draws(*buffer, offset, 0)));
        while draw < draw_count
            invariant
                draw <= draw_count,
                records_in_range(offset, draw_count, DRAW_INDIRECT_ARGS_SIZE),
                self.state.topology == old(self)@.state.topology,
                prepared == old(self)@.prepare_draw(0),
                self@ == prepared.record(
                    old(self)@.indirect_draws(*buffer, offset, draw as nat),
                ),
            decreases draw_count - draw,
        {
            let size: u64 = draw_indirect_args_size();
            let indirect_offset: u64 = offset + draw as u64 * size;
            self.cmd_buffer.push(
                Command::DrawIndirect {
                    topology: self.state.topology,
                    indirect_buf: buffer.raw,
                    indirect_offset,
                },
            );
            draw += 1;
            assert(self@ =~= prepared.record(
                old(self)@.indirect_draws(*buffer, offset, draw as nat),
            ));
        }
    }

    /// Draws indexed with arguments from a buffer, `draw_count` times in a row.
    pub fn draw_indexed_indirect(&mut self, buffer: &Buffer, offset: BufferAddress, draw_count: u32)
        requires
            old(self)@.can_draw_from(0),
            records_in_range(offset, draw_count, DRAW_INDEXED_INDIRECT_ARGS_SIZE),
        ensures
            final(self)@ == old(self)@.draw_indexed_indirect(*buffer, offset, draw_count),
            old(self)@.wf() ==> final(self)@.wf(),
    {
        self.prepare_draw(0);
        let ghost prepared = self@;
        let index_type: u32 = match self.state.index_format {
            IndexFormat::Uint16 => gl::unsigned_short(),
            IndexFormat::Uint32 => gl::unsigned_int(),
        };
        let mut draw: u32 = 0;
        assert(self@ =~= prepared.record(old(self)@.indexed_indirect_draws(*buffer, offset, 0)));
        while draw < draw_count
            invariant
                draw <= draw_count,
                records_in_range(offset, draw_count, DRAW_INDEXED_INDIRECT_ARGS_SIZE),
                self.state.topology == old(self)@.state.topology,
                index_type == self::index_type(old(self)@.state.index_format),
                prepared == old(self)@.prepare_draw(0),
                self@ == prepared.record(
                    old(self)@.indexed_indirect_draws(*buffer, offset, draw as nat),
                ),
            decreases draw_count - draw,
        {
            let size: u64 = draw_indexed_indirect_args_size();
            let indirect_offset: u64 = offset + draw as u64 * size;
            self.cmd_buffer.push(
                Command::DrawIndexedIndirect {
                    topology: self.state.topology,
                    index_type,
                    indirect_buf: buffer.raw,
                    indirect_offset,
                },
            );
            draw += 1;
            assert(self@ =~= prepared.record(
                old(self)@.indexed_indirect_draws(*buffer, offset, draw as nat),
            ));
        }
    }

    /// Binds an index buffer.
    pub fn set_index_buffer(&mut self, binding: BufferRegion, format: IndexFormat)
        ensures
            final(self)@ == old(self)@.set_index_buffer(*binding.buffer, binding.offset, format),
            old(self)@.wf() ==> final(self)@.wf(),
    {
        self.state.index_offset = binding.offset;
        self.state.index_format = format;
        self.cmd_buffer.push(Command::SetIndexBuffer(binding.buffer.raw));
    }

    /// Binds a vertex buffer. It is set at the next draw.
    pub fn set_vertex_buffer(&mut self, index: u32, binding: BufferRegion)
        requires
            index < MAX_VERTEX_BUFFERS,
        ensures
            final(self)@ == old(self)@.set_vertex_buffer(index, *binding.buffer, binding.offset),
            old(self)@.wf() ==> final(self)@.wf(),
    {
        self.state.dirty_vbuf_mask = word_with(self.state.dirty_vbuf_mask, index as usize);
        self.state.vertex_buffers[index as usize].1 = BufferBinding {
            raw: binding.buffer.raw,
            offset: binding.offset,
        };
        assert(self@ =~= old(self)@.set_vertex_buffer(index, *binding.buffer, binding.offset));
    }

    /// Runs a compute program.
    pub fn dispatch(&mut self, count: [u32; 3])
        ensures
            final(self)@ == old(self)@.dispatch(count),
            old(self)@.wf() ==> final(self)@.wf(),
    {
        self.cmd_buffer.push(Command::Dispatch(count));
    }

    /// Runs a compute program on a grid whose size is in a buffer.
    pub fn dispatch_indirect(&mut self, buffer: &Buffer, offset: BufferAddress)
        ensures
            final(self)@ == old(self)@.dispatch_indirect(*buffer, offset),
            old(self)@.wf() ==> final(self)@.wf(),
    {
        self.cmd_buffer.push(
            Command::DispatchIndirect { indirect_buf: buffer.raw, indirect_offset: offset },
        );
    }
}

} // verus!
