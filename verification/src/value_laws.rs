//! What the values of the recorder stand for, and what views of them tell apart.
use vstd::prelude::*;

use crate::bits::{mask_bits, word_bits};
use crate::command::{Command, CommandBuffer, CommandBufferView};
use crate::encoder::{label_view, CommandEncoder, EncoderView};
use crate::flags::{AttachmentOps, BufferUses, FormatAspects, PrivateCapabilities, TextureUses};
use crate::floats::FloatBits;
use crate::lists::{attributes_of, color_targets_of, invalidated_of, resolves_of, Invalidated};
use crate::state::{State, StateView};
use crate::types::DepthBiasState;

verus! {

// Numbers
/// A number is no number exactly where all bits of its exponent are set and one
/// of its fraction is.
pub proof fn law_no_number(a: FloatBits)
    ensures
        a.is_nan() <==> (a.bits >> 23) & 0xFF == 0xFF && a.bits & 0x007F_FFFF != 0,
{
    let bits = a.bits;
    assert((bits & 0x7FFF_FFFF > 0x7F80_0000) <==> ((bits >> 23) & 0xFF == 0xFF && bits
        & 0x007F_FFFF != 0)) by (bit_vector);
}

/// Numbers are equal where their bits are, unless they are no numbers; and so are
/// the two zeros. No others are.
pub proof fn law_equal_numbers(a: FloatBits, b: FloatBits)
    ensures
        a.same_number(a) <==> !a.is_nan(),
        a.same_number(b) <==> b.same_number(a),
        a.bits == b.bits && !a.is_nan() ==> a.same_number(b),
        a.bits == 0 && b.bits == 0x8000_0000 ==> a.same_number(b),
        a.same_number(b) && a.bits != b.bits ==> (a.bits == 0 && b.bits == 0x8000_0000) || (a.bits
            == 0x8000_0000 && b.bits == 0),
        a.is_nan() || b.is_nan() ==> !a.same_number(b),
{
    let (left, right) = (a.bits, b.bits);
    assert(left & 0x7FFF_FFFF == 0 <==> left == 0 || left == 0x8000_0000) by (bit_vector);
    assert(right & 0x7FFF_FFFF == 0 <==> right == 0 || right == 0x8000_0000) by (bit_vector);
}

/// Biases are the same where each of their numbers is equal.
pub proof fn law_equal_biases(a: DepthBiasState, b: DepthBiasState)
    ensures
        a.same_bias(b) ==> a.constant == b.constant,
        a.same_bias(b) ==> a.slope_scale.same_number(b.slope_scale),
        a.same_bias(b) ==> a.clamp.same_number(b.clamp),
        !a.same_bias(b) ==> a.constant != b.constant || !a.slope_scale.same_number(b.slope_scale)
            || !a.clamp.same_number(b.clamp),
{
}

// Flags
/// Flags are in a set where none of them is missing.
pub proof fn law_flags_are_in_a_set(
    caps: PrivateCapabilities,
    buffer: BufferUses,
    texture: TextureUses,
    flags: u32,
    aspects: FormatAspects,
    ops: AttachmentOps,
    few: u8,
)
    ensures
        caps.has(flags) <==> flags & !caps.bits == 0,
        buffer.has(flags) <==> flags & !buffer.bits == 0,
        texture.has(flags) <==> flags & !texture.bits == 0,
        aspects.has(few) <==> few & !aspects.bits == 0,
        ops.has(few) <==> few & !ops.bits == 0,
{
    lemma_has(caps.bits, flags);
    lemma_has(buffer.bits, flags);
    lemma_has(texture.bits, flags);
    lemma_has_few(aspects.bits, few);
    lemma_has_few(ops.bits, few);
}

proof fn lemma_has(bits: u32, flags: u32)
    ensures
        bits & flags == flags <==> flags & !bits == 0,
{
    assert(bits & flags == flags <==> flags & !bits == 0) by (bit_vector);
}

proof fn lemma_has_few(bits: u8, flags: u8)
    ensures
        bits & flags == flags <==> flags & !bits == 0,
{
    assert(bits & flags == flags <==> flags & !bits == 0) by (bit_vector);
}

/// Two sets of uses joined hold the uses of either.
pub proof fn law_joined_uses(a: TextureUses, b: TextureUses, bit: u32)
    requires
        bit < 32,
    ensures
        a.joined(b).bits & (1u32 << bit) != 0 <==> a.bits & (1u32 << bit) != 0 || b.bits & (1u32
            << bit) != 0,
{
    let (left, right) = (a.bits, b.bits);
    assert((left | right) & (1u32 << bit) != 0 <==> left & (1u32 << bit) != 0 || right & (1u32
        << bit) != 0) by (bit_vector)
        requires
            bit < 32,
    ;
}

// Masks
/// A mask holds the numbers of its bits, and masks that hold the same are the
/// same.
pub proof fn law_masks_hold_their_bits(a: u32, b: u32, i: u32)
    requires
        i < 32,
    ensures
        mask_bits(a).contains(i as int) <==> (a >> i) & 1 == 1,
        mask_bits(a) == mask_bits(b) ==> a == b,
{
    assert(a & (1u32 << i) != 0 <==> (a >> i) & 1 == 1) by (bit_vector)
        requires
            i < 32,
    ;
    if mask_bits(a) == mask_bits(b) && a != b {
        assert(a != b ==> (a ^ b) >> 0u32 != 0) by (bit_vector);
        let k = lemma_differing_bit(a, b, 0);
        assert(mask_bits(a).contains(k as int) <==> mask_bits(b).contains(k as int));
    }
}

proof fn lemma_differing_bit(a: u32, b: u32, from: u32) -> (k: u32)
    requires
        from < 32,
        (a ^ b) >> from != 0,
    ensures
        k < 32,
        (a & (1u32 << k) != 0) != (b & (1u32 << k) != 0),
    decreases 32 - from,
{
    if (a & (1u32 << from) != 0) != (b & (1u32 << from) != 0) {
        from
    } else {
        let next = (from + 1) as u32;
        assert(next < 32 && (a ^ b) >> next != 0) by (bit_vector)
            requires
                from < 32,
                (a ^ b) >> from != 0,
                (a & (1u32 << from) != 0) == (b & (1u32 << from) != 0),
                next == from + 1,
        ;
        lemma_differing_bit(a, b, next)
    }
}

/// A word holds the numbers of its bits, and words that hold the same are the
/// same.
pub proof fn law_words_hold_their_bits(a: usize, b: usize, i: usize)
    requires
        i < usize::BITS,
    ensures
        word_bits(a).contains(i as int) <==> (a >> i) & 1 == 1,
        word_bits(a) == word_bits(b) ==> a == b,
{
    assert(a & (1usize << i) != 0 <==> (a >> i) & 1 == 1) by (bit_vector)
        requires
            i < usize::BITS,
    ;
    if word_bits(a) == word_bits(b) && a != b {
        assert(a != b ==> (a ^ b) >> 0usize != 0) by (bit_vector);
        let k = lemma_differing_word_bit(a, b, 0);
        assert(word_bits(a).contains(k as int) <==> word_bits(b).contains(k as int));
    }
}

proof fn lemma_differing_word_bit(a: usize, b: usize, from: usize) -> (k: usize)
    requires
        from < usize::BITS,
        (a ^ b) >> from != 0,
    ensures
        k < usize::BITS,
        (a & (1usize << k) != 0) != (b & (1usize << k) != 0),
    decreases usize::BITS - from,
{
    if (a & (1usize << from) != 0) != (b & (1usize << from) != 0) {
        from
    } else {
        let next = (from + 1) as usize;
        assert(next < usize::BITS && (a ^ b) >> next != 0) by (bit_vector)
            requires
                from < usize::BITS,
                (a ^ b) >> from != 0,
                (a & (1usize << from) != 0) == (b & (1usize << from) != 0),
                next == from + 1,
        ;
        lemma_differing_word_bit(a, b, next)
    }
}

// Views
/// Commands that look the same are the same, but for how a list of attachments
/// is held.
pub proof fn law_commands_are_told_apart(a: Command<Invalidated>, b: Command<Invalidated>)
    requires
        a@ == b@,
    ensures
        a is InvalidateAttachments <==> b is InvalidateAttachments,
        !(a is InvalidateAttachments) ==> a == b,
        a matches Command::InvalidateAttachments(left) ==> (b matches
            Command::InvalidateAttachments(right) && invalidated_of(left) == invalidated_of(right)),
{
}

/// Command buffers that look the same have the same label, as many commands, each
/// of which looks the same, and the same data.
pub proof fn law_buffers_are_told_apart(a: CommandBuffer, b: CommandBuffer, i: int)
    requires
        a@ == b@,
        0 <= i < a.commands@.len(),
    ensures
        a.label is Some <==> b.label is Some,
        a.label is Some ==> a.label->0@ == b.label->0@,
        a.commands@.len() == b.commands@.len(),
        a.commands@[i]@ == b.commands@[i]@,
        a.data_bytes@ == b.data_bytes@,
        a.data_words@ == b.data_words@,
{
    assert(a@.commands.len() == a.commands@.len());
    assert(b@.commands.len() == b.commands@.len());
    assert(a@.commands[i] == a.commands@[i]@);
    assert(b@.commands[i] == b.commands@[i]@);
}

/// States that look the same are the same, but for how lists are held.
pub proof fn law_states_are_told_apart(a: State, b: State)
    requires
        a@ == b@,
    ensures
        a.topology == b.topology,
        a.primitive == b.primitive,
        a.index_format == b.index_format,
        a.index_offset == b.index_offset,
        a.vertex_buffers@ == b.vertex_buffers@,
        attributes_of(a.vertex_attributes) == attributes_of(b.vertex_attributes),
        color_targets_of(a.color_targets) == color_targets_of(b.color_targets),
        a.stencil == b.stencil,
        a.depth_bias == b.depth_bias,
        a.samplers@ == b.samplers@,
        a.texture_slots@ == b.texture_slots@,
        a.render_size == b.render_size,
        resolves_of(a.resolve_attachments) == resolves_of(b.resolve_attachments),
        invalidated_of(a.invalidate_attachments) == invalidated_of(b.invalidate_attachments),
        a.has_pass_label == b.has_pass_label,
        a.instance_vbuf_mask == b.instance_vbuf_mask,
        a.dirty_vbuf_mask == b.dirty_vbuf_mask,
{
    law_words_hold_their_bits(a.instance_vbuf_mask, b.instance_vbuf_mask, 0);
    law_words_hold_their_bits(a.dirty_vbuf_mask, b.dirty_vbuf_mask, 0);
}

/// Recorders that look the same have command buffers and states that do, and the
/// same capabilities.
pub proof fn law_recorders_are_told_apart(a: CommandEncoder, b: CommandEncoder)
    requires
        a@ == b@,
    ensures
        a.cmd_buffer@ == b.cmd_buffer@,
        a.state@ == b.state@,
        a.private_caps == b.private_caps,
{
}

// Command buffers
/// A new recorder has the capabilities that it is given, nothing recorded, and
/// the initial state. A recorder that is started has the initial state and the
/// label that it is given, and keeps the rest; one whose commands are handed out
/// or dropped has nothing recorded, and keeps its state and capabilities.
pub proof fn law_life_of_a_recorder(
    encoder: EncoderView,
    caps: PrivateCapabilities,
    label: Option<&str>,
)
    ensures
        ({
            let made = EncoderView::created(caps);
            &&& made.private_caps == caps
            &&& made.state == StateView::initial()
            &&& made.cmd_buffer.label is None
            &&& made.cmd_buffer.commands.len() == 0
            &&& made.cmd_buffer.data_bytes.len() == 0
            &&& made.cmd_buffer.data_words.len() == 0
        }),
        ({
            let started = encoder.begin_encoding(label_view(label));
            &&& started.private_caps == encoder.private_caps
            &&& started.state == StateView::initial()
            &&& started.cmd_buffer == (CommandBufferView {
                label: started.cmd_buffer.label,
                ..encoder.cmd_buffer
            })
            &&& label is None ==> started.cmd_buffer.label is None
            &&& label matches Some(text) ==> started.cmd_buffer.label == Some(text@)
        }),
        ({
            let emptied = encoder.without_commands();
            &&& emptied.private_caps == encoder.private_caps
            &&& emptied.state == encoder.state
            &&& emptied.cmd_buffer.label is None
            &&& emptied.cmd_buffer.commands.len() == 0
            &&& emptied.cmd_buffer.data_bytes.len() == 0
            &&& emptied.cmd_buffer.data_words.len() == 0
        }),
{
}

} // verus!
