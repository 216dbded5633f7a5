//! What barriers wait for, and what copies copy.
use std::ops::Range;

use vstd::prelude::*;

use crate::collect::{increasing, lemma_collect_order};
use crate::command::{Command, CommandBufferView};
use crate::effect::lemma_added;
use crate::encoder::EncoderView;
use crate::flags::{BufferUses, PrivateCapabilities, TextureUses};
use crate::gl;
use crate::laws::{law_barrier_covers, law_barrier_covers_no_more};
use crate::transfer::{
    buffer_barrier, buffer_barriers, buffer_copies, downloads, texture_barriers, texture_copies,
    uploads, uses_after_writes,
};
use crate::types::{
    Buffer, BufferAddress, BufferBarrier, BufferCopy, BufferTextureCopy, QuerySet, Texture,
    TextureBarrier, TextureCopy, TextureInner,
};

verus! {

// Barriers
/// Where the driver can be told to, it waits for each buffer that was written as
/// storage, for the uses that follow, in the order of the barriers. The result is
/// the barriers that are waited for.
pub proof fn law_buffer_barriers_wait(encoder: EncoderView, barriers: Seq<BufferBarrier>) -> (at:
    Seq<int>)
    requires
        encoder.private_caps.has(PrivateCapabilities::MEMORY_BARRIERS),
    ensures
        ({
            let waited = encoder.transition_buffers(barriers);
            let added = encoder.added(waited);
            &&& encoder.only_adds(waited)
            &&& waited.state == encoder.state
            &&& increasing(at)
            &&& at.len() == added.len()
            &&& forall|k: int|
                0 <= k < at.len() ==> {
                    let i = #[trigger] at[k];
                    &&& 0 <= i < barriers.len()
                    &&& barriers[i].start.has(BufferUses::STORAGE_WRITE)
                    &&& added[k] matches Command::BufferBarrier(raw, uses)
                    &&& raw == barriers[i].buffer.raw
                    &&& uses == barriers[i].end
                }
            &&& forall|i: int|
                0 <= i < barriers.len() && barriers[i].start.has(BufferUses::STORAGE_WRITE)
                    ==> #[trigger] at.contains(i)
        }),
{
    lemma_added(encoder, encoder.state, buffer_barriers(barriers, barriers.len()));
    lemma_collect_order(barriers.len(), |i: int| buffer_barrier(barriers, i))
}

/// Where the driver cannot be told to wait, barriers record nothing.
pub proof fn law_no_barriers_without_the_capability(
    encoder: EncoderView,
    buffers: Seq<BufferBarrier>,
    textures: Seq<TextureBarrier>,
)
    requires
        !encoder.private_caps.has(PrivateCapabilities::MEMORY_BARRIERS),
    ensures
        encoder.transition_buffers(buffers) == encoder,
        encoder.transition_textures(textures) == encoder,
{
    assert(encoder.transition_buffers(buffers) =~= encoder);
    assert(encoder.transition_textures(textures) =~= encoder);
}

/// Whether a use follows a write to storage, by one of the barriers.
pub open spec fn follows_a_write(barriers: Seq<TextureBarrier>, bit: u32) -> bool {
    exists|i: int|
        0 <= i < barriers.len() && (#[trigger] barriers[i]).start.has(TextureUses::STORAGE_WRITE)
            && barriers[i].end.bits & (1u32 << bit) != 0
}

/// Where the driver can be told to, it waits once for all textures: for exactly
/// the uses that follow a write to storage, and not at all where there are none.
pub proof fn law_texture_barriers_wait(
    encoder: EncoderView,
    barriers: Seq<TextureBarrier>,
    bit: u32,
)
    requires
        encoder.private_caps.has(PrivateCapabilities::MEMORY_BARRIERS),
        bit < 32,
    ensures
        ({
            let waited = encoder.transition_textures(barriers);
            let added = encoder.added(waited);
            &&& encoder.only_adds(waited)
            &&& waited.state == encoder.state
            &&& added.len() <= 1
            &&& added.len() == 1 ==> {
                &&& added[0] matches Command::TextureBarrier(uses)
                &&& uses.bits != 0
                &&& uses.bits & (1u32 << bit) != 0 <==> follows_a_write(barriers, bit)
            }
            &&& added.len() == 0 ==> !follows_a_write(barriers, bit)
        }),
{
    lemma_added(encoder, encoder.state, texture_barriers(barriers));
    let uses = uses_after_writes(barriers, barriers.len()).bits;
    if follows_a_write(barriers, bit) {
        let i = choose|i: int|
            0 <= i < barriers.len() && (#[trigger] barriers[i]).start.has(
                TextureUses::STORAGE_WRITE,
            ) && barriers[i].end.bits & (1u32 << bit) != 0;
        law_barrier_covers(barriers, barriers.len(), i);
        let end = barriers[i].end.bits;
        assert(uses & (1u32 << bit) != 0) by (bit_vector)
            requires
                uses & end == end,
                end & (1u32 << bit) != 0,
        ;
        assert(0u32 & (1u32 << bit) == 0) by (bit_vector);
    }
    if uses & (1u32 << bit) != 0 {
        let i = law_barrier_covers_no_more(barriers, barriers.len(), bit);
        assert(barriers[i].start.has(TextureUses::STORAGE_WRITE));
    }
}

// Copies
/// A copy between buffers makes one command for each region, in order, from the
/// one buffer to the other, through the targets that are made for copies.
pub proof fn law_buffers_are_copied(
    encoder: EncoderView,
    src: Buffer,
    dst: Buffer,
    regions: Seq<BufferCopy>,
)
    ensures
        ({
            let copied = encoder.copy_buffer_to_buffer(src, dst, regions);
            let copies = encoder.added(copied);
            &&& encoder.only_adds(copied)
            &&& copied.state == encoder.state
            &&& copies.len() == regions.len()
            &&& forall|i: int|
                0 <= i < regions.len() ==> {
                    &&& (#[trigger] copies[i]) matches Command::CopyBufferToBuffer {
                        src: from,
                        src_target,
                        dst: to,
                        dst_target,
                        copy,
                    }
                    &&& from == src.raw
                    &&& src_target == gl::COPY_READ_BUFFER
                    &&& to == dst.raw
                    &&& dst_target == gl::COPY_WRITE_BUFFER
                    &&& copy == regions[i]
                }
        }),
{
    lemma_added(encoder, encoder.state, buffer_copies(src, dst, regions, regions.len()));
}

/// A copy between textures makes one command for each region, in order, from the
/// one texture object to the other.
pub proof fn law_textures_are_copied(
    encoder: EncoderView,
    src: Texture,
    dst: Texture,
    regions: Seq<TextureCopy>,
)
    requires
        src.inner is Texture,
        dst.inner is Texture,
    ensures
        ({
            let copied = encoder.copy_texture_to_texture(src, dst, regions);
            let copies = encoder.added(copied);
            &&& encoder.only_adds(copied)
            &&& copied.state == encoder.state
            &&& copies.len() == regions.len()
            &&& forall|i: int|
                0 <= i < regions.len() ==> {
                    &&& (#[trigger] copies[i]) matches Command::CopyTextureToTexture {
                        src: from,
                        src_target,
                        dst: to,
                        dst_target,
                        copy,
                    }
                    &&& src.inner == TextureInner::Texture { raw: from, target: src_target }
                    &&& dst.inner == TextureInner::Texture { raw: to, target: dst_target }
                    &&& copy == regions[i]
                }
        }),
{
    lemma_added(encoder, encoder.state, texture_copies(src, dst, regions, regions.len()));
}

/// A copy from a buffer to a texture makes one command for each region, in order,
/// with the format of the texture.
pub proof fn law_texels_are_uploaded(
    encoder: EncoderView,
    src: Buffer,
    dst: Texture,
    regions: Seq<BufferTextureCopy>,
)
    requires
        dst.inner is Texture,
    ensures
        ({
            let copied = encoder.copy_buffer_to_texture(src, dst, regions);
            let copies = encoder.added(copied);
            &&& encoder.only_adds(copied)
            &&& copied.state == encoder.state
            &&& copies.len() == regions.len()
            &&& forall|i: int|
                0 <= i < regions.len() ==> {
                    &&& (#[trigger] copies[i]) matches Command::CopyBufferToTexture {
                        src: from,
                        src_target,
                        dst: to,
                        dst_target,
                        dst_format,
                        copy,
                    }
                    &&& src == (Buffer { raw: from, target: src_target })
                    &&& dst.inner == TextureInner::Texture { raw: to, target: dst_target }
                    &&& dst_format == dst.format
                    &&& copy == regions[i]
                }
        }),
{
    lemma_added(encoder, encoder.state, uploads(src, dst, regions, regions.len()));
}

/// A copy from a texture to a buffer makes one command for each region, in order,
/// with the format of the texture.
pub proof fn law_texels_are_downloaded(
    encoder: EncoderView,
    src: Texture,
    dst: Buffer,
    regions: Seq<BufferTextureCopy>,
)
    requires
        src.inner is Texture,
    ensures
        ({
            let copied = encoder.copy_texture_to_buffer(src, dst, regions);
            let copies = encoder.added(copied);
            &&& encoder.only_adds(copied)
            &&& copied.state == encoder.state
            &&& copies.len() == regions.len()
            &&& forall|i: int|
                0 <= i < regions.len() ==> {
                    &&& (#[trigger] copies[i]) matches Command::CopyTextureToBuffer {
                        src: from,
                        src_target,
                        src_format,
                        dst: to,
                        dst_target,
                        copy,
                    }
                    &&& src.inner == TextureInner::Texture { raw: from, target: src_target }
                    &&& src_format == src.format
                    &&& dst == (Buffer { raw: to, target: dst_target })
                    &&& copy == regions[i]
                }
        }),
{
    lemma_added(encoder, encoder.state, downloads(src, dst, regions, regions.len()));
}

/// A texture's object and target are those that it holds.
pub proof fn law_native_is_the_object(inner: TextureInner)
    requires
        inner is Texture,
    ensures
        inner == (TextureInner::Texture { raw: inner.native().0, target: inner.native().1 }),
{
}

/// A fill is one command, which fills the range that it is given with the byte.
pub proof fn law_buffer_is_filled(
    encoder: EncoderView,
    buffer: Buffer,
    range: Range<BufferAddress>,
    value: u8,
)
    ensures
        ({
            let filled = encoder.fill_buffer(buffer, range, value);
            let added = encoder.added(filled);
            &&& encoder.only_adds(filled)
            &&& filled.state == encoder.state
            &&& added.len() == 1
            &&& added[0] matches Command::FillBuffer {
                dst,
                dst_target,
                range: bytes,
                value: byte,
            }
            &&& buffer == (Buffer { raw: dst, target: dst_target })
            &&& bytes.start == range.start
            &&& bytes.end == range.end
            &&& byte == value
        }),
{
    let fill = Command::FillBuffer { dst: buffer.raw, dst_target: buffer.target, range, value };
    lemma_added(encoder, encoder.state, seq![fill]);
}

// Queries
/// A query is started by its object and ended by the target of its set.
pub proof fn law_queries_are_recorded(encoder: EncoderView, set: QuerySet, index: u32)
    requires
        index < set.queries@.len(),
    ensures
        ({
            let begun = encoder.begin_query(set, index);
            let added = encoder.added(begun);
            &&& encoder.only_adds(begun)
            &&& begun.state == encoder.state
            &&& added.len() == 1
            &&& added[0] matches Command::BeginQuery(query, target)
            &&& query == set.queries@[index as int]
            &&& target == set.target
        }),
        ({
            let ended = encoder.end_query(set);
            let added = encoder.added(ended);
            &&& encoder.only_adds(ended)
            &&& ended.state == encoder.state
            &&& added.len() == 1
            &&& added[0] matches Command::EndQuery(target)
            &&& target == set.target
        }),
{
    let begin = Command::BeginQuery(set.queries@[index as int], set.target);
    lemma_added(encoder, encoder.state, seq![begin]);
    lemma_added(encoder, encoder.state, seq![Command::EndQuery(set.target)]);
}

/// Query results are copied by one command, to the buffer that is named. The
/// queries follow the data words that there are, and the range names them.
pub proof fn law_query_results_are_copied(
    encoder: EncoderView,
    queries: Seq<u32>,
    buffer: Buffer,
    offset: BufferAddress,
)
    ensures
        ({
            let copied = encoder.copy_query_results(queries, buffer, offset);
            let words = encoder.cmd_buffer.data_words;
            let added = encoder.added(copied);
            &&& copied.private_caps == encoder.private_caps
            &&& copied.state == encoder.state
            &&& copied.cmd_buffer == (CommandBufferView {
                commands: copied.cmd_buffer.commands,
                data_words: copied.cmd_buffer.data_words,
                ..encoder.cmd_buffer
            })
            &&& encoder.cmd_buffer.commands.is_prefix_of(copied.cmd_buffer.commands)
            &&& words.is_prefix_of(copied.cmd_buffer.data_words)
            &&& copied.cmd_buffer.data_words.skip(words.len() as int) == queries
            &&& added.len() == 1
            &&& added[0] matches Command::CopyQueryResults {
                query_range,
                dst,
                dst_target,
                dst_offset,
            }
            &&& query_range.start == words.len() as u32
            &&& query_range.end == copied.cmd_buffer.data_words.len() as u32
            &&& buffer == (Buffer { raw: dst, target: dst_target })
            &&& dst_offset == offset
        }),
{
    let copied = encoder.copy_query_results(queries, buffer, offset);
    let (a, b) = (encoder.cmd_buffer, copied.cmd_buffer);
    assert(a.commands =~= b.commands.subrange(0, a.commands.len() as int));
    assert(a.data_words =~= b.data_words.subrange(0, a.data_words.len() as int));
    assert(b.data_words.skip(a.data_words.len() as int) =~= queries);
}

} // verus!
