//! Barriers, copies and queries.
use std::ops::Range;

use vstd::prelude::*;

use crate::collect::collect;
use crate::command::{word_range, Command, CommandBufferView, CommandView};
use crate::encoder::{CommandEncoder, EncoderView};
use crate::flags::{BufferUses, PrivateCapabilities, TextureUses};
use crate::gl;
use crate::types::{
    Buffer, BufferAddress, BufferBarrier, BufferCopy, BufferTextureCopy, QuerySet, Texture,
    TextureBarrier, TextureCopy,
};

verus! {

// Barriers
/// What waits for the writes before a barrier. Only writes to storage have to
/// be waited for explicitly.
pub open spec fn buffer_barrier(barriers: Seq<BufferBarrier>, i: int) -> Option<CommandView> {
    if barriers[i].start.has(BufferUses::STORAGE_WRITE) {
        Some(Command::BufferBarrier(barriers[i].buffer.raw, barriers[i].end))
    } else {
        None
    }
}

/// What waits for the writes before the first `n` barriers.
pub open spec fn buffer_barriers(barriers: Seq<BufferBarrier>, n: nat) -> Seq<CommandView> {
    collect(n, |i: int| buffer_barrier(barriers, i))
}

/// The uses that follow writes to storage, over the first `n` barriers.
pub open spec fn uses_after_writes(barriers: Seq<TextureBarrier>, n: nat) -> TextureUses
    decreases n,
{
    if n == 0 {
        TextureUses { bits: 0 }
    } else {
        let earlier = uses_after_writes(barriers, (n - 1) as nat);
        if barriers[n - 1].start.has(TextureUses::STORAGE_WRITE) {
            earlier.joined(barriers[n - 1].end)
        } else {
            earlier
        }
    }
}

/// What waits for the writes before barriers on textures: one command for all of
/// them, since it names no texture.
pub open spec fn texture_barriers(barriers: Seq<TextureBarrier>) -> Seq<CommandView> {
    let uses = uses_after_writes(barriers, barriers.len());
    if uses.bits != 0 {
        seq![Command::TextureBarrier(uses)]
    } else {
        seq![]
    }
}

// Copies
/// What copies the first `n` regions from a buffer to a buffer.
pub open spec fn buffer_copies(src: Buffer, dst: Buffer, regions: Seq<BufferCopy>, n: nat) -> Seq<
    CommandView,
> {
    Seq::new(
        n,
        |i: int|
            Command::CopyBufferToBuffer {
                src: src.raw,
                src_target: gl::COPY_READ_BUFFER,
                dst: dst.raw,
                dst_target: gl::COPY_WRITE_BUFFER,
                copy: regions[i],
            },
    )
}

/// What copies the first `n` regions from a texture to a texture.
pub open spec fn texture_copies(
    src: Texture,
    dst: Texture,
    regions: Seq<TextureCopy>,
    n: nat,
) -> Seq<CommandView> {
    Seq::new(
        n,
        |i: int|
            Command::CopyTextureToTexture {
                src: src.inner.native().0,
                src_target: src.inner.native().1,
                dst: dst.inner.native().0,
                dst_target: dst.inner.native().1,
                copy: regions[i],
            },
    )
}

/// What copies the first `n` regions from a buffer to a texture.
pub open spec fn uploads(
    src: Buffer,
    dst: Texture,
    regions: Seq<BufferTextureCopy>,
    n: nat,
) -> Seq<CommandView> {
    Seq::new(
        n,
        |i: int|
            Command::CopyBufferToTexture {
                src: src.raw,
                src_target: src.target,
                dst: dst.inner.native().0,
                dst_target: dst.inner.native().1,
                dst_format: dst.format,
                copy: regions[i],
            },
    )
}

/// What copies the first `n` regions from a texture to a buffer.
pub open spec fn downloads(
    src: Texture,
    dst: Buffer,
    regions: Seq<BufferTextureCopy>,
    n: nat,
) -> Seq<CommandView> {
    Seq::new(
        n,
        |i: int|
            Command::CopyTextureToBuffer {
                src: src.inner.native().0,
                src_target: src.inner.native().1,
                src_format: src.format,
                dst: dst.raw,
                dst_target: dst.target,
                copy: regions[i],
            },
    )
}

impl EncoderView {
    /// Barriers on buffers, where the driver can be told to wait.
    pub open spec fn transition_buffers(self, barriers: Seq<BufferBarrier>) -> EncoderView {
        self.record(
            if self.private_caps.has(PrivateCapabilities::MEMORY_BARRIERS) {
                buffer_barriers(barriers, barriers.len())
            } else {
                seq![]
            },
        )
    }

    /// Barriers on textures, where the driver can be told to wait.
    pub open spec fn transition_textures(self, barriers: Seq<TextureBarrier>) -> EncoderView {
        self.record(
            if self.private_caps.has(PrivateCapabilities::MEMORY_BARRIERS) {
                texture_barriers(barriers)
            } else {
                seq![]
            },
        )
    }

    /// A range of a buffer filled with a byte.
    pub open spec fn fill_buffer(
        self,
        buffer: Buffer,
        range: Range<BufferAddress>,
        value: u8,
    ) -> EncoderView {
        self.record(
            seq![
                Command::FillBuffer { dst: buffer.raw, dst_target: buffer.target, range, value },
            ],
        )
    }

    /// Regions copied from a buffer to a buffer.
    pub open spec fn copy_buffer_to_buffer(
        self,
        src: Buffer,
        dst: Buffer,
        regions: Seq<BufferCopy>,
    ) -> EncoderView {
        self.record(buffer_copies(src, dst, regions, regions.len()))
    }

    /// Regions copied from a texture to a texture.
    pub open spec fn copy_texture_to_texture(
        self,
        src: Texture,
        dst: Texture,
        regions: Seq<TextureCopy>,
    ) -> EncoderView {
        self.record(texture_copies(src, dst, regions, regions.len()))
    }

    /// Regions copied from a buffer to a texture.
    pub open spec fn copy_buffer_to_texture(
        self,
        src: Buffer,
        dst: Texture,
        regions: Seq<BufferTextureCopy>,
    ) -> EncoderView {
        self.record(uploads(src, dst, regions, regions.len()))
    }

    /// Regions copied from a texture to a buffer.
    pub open spec fn copy_texture_to_buffer(
        self,
        src: Texture,
        dst: Buffer,
        regions: Seq<BufferTextureCopy>,
    ) -> EncoderView {
        self.record(downloads(src, dst, regions, regions.len()))
    }

    /// The start of a query of a set.
    pub open spec fn begin_query(self, set: QuerySet, index: u32) -> EncoderView {
        self.record(seq![Command::BeginQuery(set.queries@[index as int], set.target)])
    }

    /// The end of a query of a set.
    pub open spec fn end_query(self, set: QuerySet) -> EncoderView {
        self.record(seq![Command::EndQuery(set.target)])
    }

    /// The results of queries, written to a buffer. The queries are kept among
    /// the data words.
    pub open spec fn copy_query_results(
        self,
        queries: Seq<u32>,
        buffer: Buffer,
        offset: BufferAddress,
    ) -> EncoderView {
        let words = self.cmd_buffer.data_words;
        EncoderView {
            cmd_buffer: CommandBufferView { data_words: words + queries, ..self.cmd_buffer },
            ..self
        }.record(
            seq![
                Command::CopyQueryResults {
                    query_range: word_range(words.len(), words.len() + queries.len()),
                    dst: buffer.raw,
                    dst_target: buffer.target,
                    dst_offset: offset,
                },
            ],
        )
    }
}

impl CommandEncoder {
    /// Waits for writes to buffers, where the driver can be told to.
    pub fn transition_buffers(&mut self, barriers: &[BufferBarrier])
        ensures
            final(self)@ == old(self)@.transition_buffers(barriers@),
            old(self)@.wf() ==> final(self)@.wf(),
    {
        if !self.private_caps.contains(PrivateCapabilities::MEMORY_BARRIERS) {
            assert(self@ =~= old(self)@.record(seq![]));
            return ;
        }
        let mut i: usize = 0;
        assert(self@ =~= old(self)@.record(buffer_barriers(barriers@, 0)));
        while i < barriers.len()
            invariant
                i <= barriers@.len(),
                self@ == old(self)@.record(buffer_barriers(barriers@, i as nat)),
            decreases barriers@.len() - i,
        {
            let barrier = barriers[i];
            if barrier.start.contains(BufferUses::STORAGE_WRITE) {
                self.cmd_buffer.push(Command::BufferBarrier(barrier.buffer.raw, barrier.end));
            }
            i += 1;
            assert(self@ =~= old(self)@.record(buffer_barriers(barriers@, i as nat)));
        }
    }

    /// Waits for writes to textures, where the driver can be told to.
    pub fn transition_textures(&mut self, barriers: &[TextureBarrier])
        ensures
            final(self)@ == old(self)@.transition_textures(barriers@),
            old(self)@.wf() ==> final(self)@.wf(),
    {
        if !self.private_caps.contains(PrivateCapabilities::MEMORY_BARRIERS) {
            assert(self@ =~= old(self)@.record(seq![]));
            return ;
        }
        let mut combined_usage = TextureUses { bits: 0 };
        let mut i: usize = 0;
        while i < barriers.len()
            invariant
                i <= barriers@.len(),
                combined_usage == uses_after_writes(barriers@, i as nat),
            decreases barriers@.len() - i,
        {
            let barrier = barriers[i];
            if barrier.start.contains(TextureUses::STORAGE_WRITE) {
                combined_usage = combined_usage.join(barrier.end);
            }
            i += 1;
        }
        if combined_usage.bits != 0 {
            self.cmd_buffer.push(Command::TextureBarrier(combined_usage));
        }
        assert(self@ =~= old(self)@.record(texture_barriers(barriers@)));
    }

    /// Sets the bytes of a range of a buffer.
    pub fn fill_buffer(&mut self, buffer: &Buffer, range: Range<BufferAddress>, value: u8)
        ensures
            final(self)@ == old(self)@.fill_buffer(*buffer, range, value),
            old(self)@.wf() ==> final(self)@.wf(),
    {
        self.cmd_buffer.push(
            Command::FillBuffer { dst: buffer.raw, dst_target: buffer.target, range, value },
        );
    }

    /// Copies regions from a buffer to a buffer.
    pub fn copy_buffer_to_buffer(&mut self, src: &Buffer, dst: &Buffer, regions: &[BufferCopy])
        ensures
            final(self)@ == old(self)@.copy_buffer_to_buffer(*src, *dst, regions@),
            old(self)@.wf() ==> final(self)@.wf(),
    {
        let mut i: usize = 0;
        assert(self@ =~= old(self)@.record(buffer_copies(*src, *dst, regions@, 0)));
        while i < regions.len()
            invariant
                i <= regions@.len(),
                self@ == old(self)@.record(buffer_copies(*src, *dst, regions@, i as nat)),
            decreases regions@.len() - i,
        {
            self.cmd_buffer.push(
                Command::CopyBufferToBuffer {
                    src: src.raw,
                    src_target: gl::copy_read_buffer(),
                    dst: dst.raw,
                    dst_target: gl::copy_write_buffer(),
                    copy: regions[i],
                },
            );
            i += 1;
            assert(self@ =~= old(self)@.record(
                buffer_copies(*src, *dst, regions@, i as nat),
            ));
        }
    }

    /// Copies regions from a texture to a texture.
    pub fn copy_texture_to_texture(
        &mut self,
        src: &Texture,
        _src_usage: TextureUses,
        dst: &Texture,
        regions: &[TextureCopy],
    )
        requires
            src.inner is Texture,
            dst.inner is Texture,
        ensures
            final(self)@ == old(self)@.copy_texture_to_texture(*src, *dst, regions@),
            old(self)@.wf() ==> final(self)@.wf(),
    {
        let (src_raw, src_target) = src.inner.as_native();
        let (dst_raw, dst_target) = dst.inner.as_native();
        let mut i: usize = 0;
        assert(self@ =~= old(self)@.record(texture_copies(*src, *dst, regions@, 0)));
        while i < regions.len()
            invariant
                i <= regions@.len(),
                (src_raw, src_target) == src.inner.native(),
                (dst_raw, dst_target) == dst.inner.native(),
                self@ == old(self)@.record(texture_copies(*src, *dst, regions@, i as nat)),
            decreases regions@.len() - i,
        {
            self.cmd_buffer.push(
                Command::CopyTextureToTexture {
                    src: src_raw,
                    src_target,
                    dst: dst_raw,
                    dst_target,
                    copy: regions[i],
                },
            );
            i += 1;
            assert(self@ =~= old(self)@.record(
                texture_copies(*src, *dst, regions@, i as nat),
            ));
        }
    }

    /// Copies regions from a buffer to a texture.
    pub fn copy_buffer_to_texture(
        &mut self,
        src: &Buffer,
        dst: &Texture,
        regions: &[BufferTextureCopy],
    )
        requires
            dst.inner is Texture,
        ensures
            final(self)@ == old(self)@.copy_buffer_to_texture(*src, *dst, regions@),
            old(self)@.wf() ==> final(self)@.wf(),
    {
        let (dst_raw, dst_target) = dst.inner.as_native();
        let mut i: usize = 0;
        assert(self@ =~= old(self)@.record(uploads(*src, *dst, regions@, 0)));
        while i < regions.len()
            invariant
                i <= regions@.len(),
                (dst_raw, dst_target) == dst.inner.native(),
                self@ == old(self)@.record(uploads(*src, *dst, regions@, i as nat)),
            decreases regions@.len() - i,
        {
            self.cmd_buffer.push(
                Command::CopyBufferToTexture {
                    src: src.raw,
                    src_target: src.target,
                    dst: dst_raw,
                    dst_target,
                    dst_format: dst.format,
                    copy: regions[i],
                },
            );
            i += 1;
            assert(self@ =~= old(self)@.record(uploads(*src, *dst, regions@, i as nat)));
        }
    }

    /// Copies regions from a texture to a buffer.
    pub fn copy_texture_to_buffer(
        &mut self,
        src: &Texture,
        _src_usage: TextureUses,
        dst: &Buffer,
        regions: &[BufferTextureCopy],
    )
        requires
            src.inner is Texture,
        ensures
            final(self)@ == old(self)@.copy_texture_to_buffer(*src, *dst, regions@),
            old(self)@.wf() ==> final(self)@.wf(),
    {
        let (src_raw, src_target) = src.inner.as_native();
        let mut i: usize = 0;
        assert(self@ =~= old(self)@.record(downloads(*src, *dst, regions@, 0)));
        while i < regions.len()
            invariant
                i <= regions@.len(),
                (src_raw, src_target) == src.inner.native(),
                self@ == old(self)@.record(downloads(*src, *dst, regions@, i as nat)),
            decreases regions@.len() - i,
        {
            self.cmd_buffer.push(
                Command::CopyTextureToBuffer {
                    src: src_raw,
                    src_target,
                    src_format: src.format,
                    dst: dst.raw,
                    dst_target: dst.target,
                    copy: regions[i],
                },
            );
            i += 1;
            assert(self@ =~= old(self)@.record(downloads(*src, *dst, regions@, i as nat)));
        }
    }

    /// Starts a query.
    pub fn begin_query(&mut self, set: &QuerySet, index: u32)
        requires
            index < set.queries@.len(),
        ensures
            final(self)@ == old(self)@.begin_query(*set, index),
            old(self)@.wf() ==> final(self)@.wf(),
    {
        let query: u32 = set.queries[index as usize];
        self.cmd_buffer.push(Command::BeginQuery(query, set.target));
    }

    /// Ends the query that was started last, of the kind of the set.
    pub fn end_query(&mut self, set: &QuerySet, _index: u32)
        ensures
            final(self)@ == old(self)@.end_query(*set),
            old(self)@.wf() ==> final(self)@.wf(),
    {
        self.cmd_buffer.push(Command::EndQuery(set.target));
    }

    /// Makes queries ready for use: there is nothing to be done.
    pub fn reset_queries(&mut self, _set: &QuerySet, _range: Range<u32>)
        ensures
            final(self)@ == old(self)@,
    {
    }

    /// Writes the results of a range of queries to a buffer, one after another.
    pub fn copy_query_results(
        &mut self,
        set: &QuerySet,
        range: Range<u32>,
        buffer: &Buffer,
        offset: BufferAddress,
        _stride: BufferAddress,
    )
        requires
            range.start <= range.end <= set.queries@.len(),
        ensures
            final(self)@ == old(self)@.copy_query_results(
                set.queries@.subrange(range.start as int, range.end as int),
                *buffer,
                offset,
            ),
            old(self)@.wf() ==> final(self)@.wf(),
    {
        let start: usize = self.cmd_buffer.data_words.len();
        let queries = vstd::slice::slice_subrange(
            set.queries.as_slice(),
            range.start as usize,
            range.end as usize,
        );
        self.cmd_buffer.data_words.extend_from_slice(queries);
        let query_range = start as u32..self.cmd_buffer.data_words.len() as u32;
        self.cmd_buffer.push(
            Command::CopyQueryResults {
                query_range,
                dst: buffer.raw,
                dst_target: buffer.target,
                dst_offset: offset,
            },
        );
        assert(self@ =~= old(self)@.copy_query_results(
            set.queries@.subrange(range.start as int, range.end as int),
            *buffer,
            offset,
        ));
    }
}

} // verus!
