//! What passes attach, clear, resolve and discard, and what labels name.
use std::ops::Range;

use vstd::prelude::*;
use vstd::utf8::encode_utf8;

use crate::collect::{
    increasing, latest, lemma_collect_order, lemma_latest_concat, lemma_latest_none,
};
use crate::command::{Command, CommandBufferView, CommandView};
use crate::effect::lemma_added;
use crate::encoder::EncoderView;
use crate::flags::{AttachmentOps, FormatAspects};
use crate::floats::FloatBits;
use crate::gl;
use crate::pass::{
    color_binds, color_clear, color_clears, color_discard, color_discards, color_resolve,
    depth_stencil_binds, depth_stencil_clears, depth_stencil_discards, pass_setup, pass_teardown,
    target_commands,
};
use crate::state::StateView;
use crate::types::{
    initial_primitive, ColorAttachment, DepthStencilAttachment, Rect, RenderPassDescriptor,
    TextureSampleType,
};

verus! {

// Labels
/// The text of a label follows the data bytes that there are, and the range that
/// is handed out names it, in 32 bits.
pub proof fn law_marker_is_added(buffer: CommandBufferView, label: Seq<char>)
    ensures
        ({
            let bytes = buffer.data_bytes;
            let marked = buffer.with_marker(label);
            let range = buffer.marker_range(label);
            &&& bytes.is_prefix_of(marked.data_bytes)
            &&& marked.data_bytes.skip(bytes.len() as int) == encode_utf8(label)
            &&& marked == (CommandBufferView { data_bytes: marked.data_bytes, ..buffer })
            &&& range.start == bytes.len() as u32
            &&& range.end == marked.data_bytes.len() as u32
        }),
{
    let bytes = buffer.data_bytes;
    let marked = buffer.with_marker(label).data_bytes;
    assert(bytes =~= marked.subrange(0, bytes.len() as int));
    assert(marked.skip(bytes.len() as int) =~= encode_utf8(label));
}

/// A group is opened, and a place is marked, by one command, whose range names
/// the text of the label. Nothing of the state changes.
pub proof fn law_labels_are_recorded(encoder: EncoderView, label: Seq<char>)
    ensures
        ({
            let before = encoder.cmd_buffer;
            let opened = encoder.push_debug_group(label);
            let marked = encoder.insert_debug_marker(label);
            let bytes = before.data_bytes + encode_utf8(label);
            &&& opened.cmd_buffer.data_bytes == bytes
            &&& marked.cmd_buffer.data_bytes == bytes
            &&& opened.cmd_buffer.commands.drop_last() == before.commands
            &&& marked.cmd_buffer.commands.drop_last() == before.commands
            &&& opened.cmd_buffer.commands.len() == before.commands.len() + 1
            &&& marked.cmd_buffer.commands.len() == before.commands.len() + 1
            &&& opened.cmd_buffer.commands.last() matches Command::PushDebugGroup(range)
            &&& range.start == before.data_bytes.len() as u32
            &&& range.end == bytes.len() as u32
            &&& marked.cmd_buffer.commands.last() matches Command::InsertDebugMarker(range)
            &&& range.start == before.data_bytes.len() as u32
            &&& range.end == bytes.len() as u32
            &&& opened.cmd_buffer.label == before.label
            &&& opened.cmd_buffer.data_words == before.data_words
            &&& marked.cmd_buffer.label == before.label
            &&& marked.cmd_buffer.data_words == before.data_words
            &&& opened.state == encoder.state
            &&& marked.state == encoder.state
            &&& opened.private_caps == encoder.private_caps
            &&& marked.private_caps == encoder.private_caps
        }),
{
    let before = encoder.cmd_buffer.commands;
    assert(encoder.push_debug_group(label).cmd_buffer.commands.drop_last() =~= before);
    assert(encoder.insert_debug_marker(label).cmd_buffer.commands.drop_last() =~= before);
}

/// A pass with a label opens a group with it, and the recorder knows; one without
/// a label changes nothing.
pub proof fn law_pass_with_a_label_is_a_group(encoder: EncoderView, label: Option<&str>)
    ensures
        label is None ==> encoder.label_pass(label) == encoder,
        label matches Some(text) ==> {
            let labelled = encoder.label_pass(label);
            &&& labelled.cmd_buffer == encoder.push_debug_group(text@).cmd_buffer
            &&& labelled.private_caps == encoder.private_caps
            &&& labelled.state == (StateView { has_pass_label: true, ..encoder.state })
        },
{
}

/// The end of a pass with a label closes its group, and that of one without
/// changes nothing.
pub proof fn law_end_of_a_pass_with_a_label(encoder: EncoderView)
    ensures
        !encoder.state.has_pass_label ==> encoder.unlabel_pass() == encoder,
        encoder.state.has_pass_label ==> {
            let ended = encoder.unlabel_pass();
            &&& encoder.only_adds(ended)
            &&& encoder.added(ended) == seq![Command::<Seq<u32>>::PopDebugGroup]
            &&& ended.state == (StateView { has_pass_label: false, ..encoder.state })
        },
{
    lemma_added(encoder, encoder.unlabel_pass().state, seq![Command::PopDebugGroup]);
}

/// The end of a group is one command.
pub proof fn law_group_is_popped(encoder: EncoderView)
    ensures
        ({
            let popped = encoder.pop_debug_group();
            &&& encoder.only_adds(popped)
            &&& popped.state == encoder.state
            &&& encoder.added(popped).len() == 1
            &&& encoder.added(popped)[0] is PopDebugGroup
        }),
{
    lemma_added(encoder, encoder.state, seq![Command::PopDebugGroup]);
}

// Viewports
/// A viewport, a scissor rectangle and a blend constant are one command each,
/// with what they are given. The sides of a scissor rectangle keep their bits.
pub proof fn law_viewports_are_recorded(
    encoder: EncoderView,
    rect: Rect<i32>,
    depth: Range<FloatBits>,
    scissor: Rect<u32>,
    color: [FloatBits; 4],
)
    ensures
        ({
            let set = encoder.set_viewport(rect, depth);
            &&& encoder.only_adds(set)
            &&& set.state == encoder.state
            &&& encoder.added(set).len() == 1
            &&& encoder.added(set)[0] matches Command::SetViewport { rect: area, depth: range }
            &&& area.x == rect.x && area.y == rect.y && area.w == rect.w && area.h == rect.h
            &&& range.start == depth.start && range.end == depth.end
        }),
        ({
            let set = encoder.set_scissor_rect(scissor);
            &&& encoder.only_adds(set)
            &&& set.state == encoder.state
            &&& encoder.added(set).len() == 1
            &&& encoder.added(set)[0] matches Command::SetScissor(area)
            &&& area.x as u32 == scissor.x
            &&& area.y as u32 == scissor.y
            &&& area.w as u32 == scissor.w
            &&& area.h as u32 == scissor.h
        }),
        ({
            let set = encoder.set_blend_constants(color);
            &&& encoder.only_adds(set)
            &&& set.state == encoder.state
            &&& encoder.added(set).len() == 1
            &&& encoder.added(set)[0] matches Command::SetBlendConstant(constant)
            &&& constant@ == color@
        }),
{
    lemma_added(encoder, encoder.state, seq![Command::SetViewport { rect, depth }]);
    lemma_added(encoder, encoder.state, seq![Command::SetBlendConstant(color)]);
    let cut = Rect {
        x: scissor.x as i32,
        y: scissor.y as i32,
        w: scissor.w as i32,
        h: scissor.h as i32,
    };
    lemma_added(encoder, encoder.state, seq![Command::SetScissor(cut)]);
    lemma_bits_are_kept(scissor.x);
    lemma_bits_are_kept(scissor.y);
    lemma_bits_are_kept(scissor.w);
    lemma_bits_are_kept(scissor.h);
}

proof fn lemma_bits_are_kept(side: u32)
    ensures
        (side as i32) as u32 == side,
{
    assert((side as i32) as u32 == side) by (bit_vector);
}

// Render passes
/// How many commands attach a depth and stencil attachment.
pub open spec fn attached(attachment: Option<&DepthStencilAttachment>) -> int {
    if attachment is Some {
        1
    } else {
        0
    }
}

/// A pass resets the framebuffer, attaches each color attachment to the point of
/// its number and the depth and stencil attachment to the point of its aspects,
/// draws to as many color buffers as there are, and covers the whole extent, for
/// depths from 0 to 1.
pub proof fn law_pass_attaches(encoder: EncoderView, desc: RenderPassDescriptor)
    ensures
        ({
            let labelled = encoder.label_pass(desc.label);
            let begun = encoder.begin_render_pass(desc);
            let added = labelled.added(begun);
            let colors = desc.color_attachments@;
            let next = 1 + colors.len() + attached(desc.depth_stencil_attachment);
            &&& labelled.only_adds(begun)
            &&& added.len() >= next + 3
            &&& added[0] is ResetFramebuffer
            &&& forall|i: int|
                #![trigger colors[i]]
                0 <= i < colors.len() ==> {
                    &&& added[1 + i] matches Command::BindAttachment { attachment, view }
                    &&& view == colors[i].target.view
                    &&& gl::COLOR_ATTACHMENT0 + i <= u32::MAX ==> attachment
                        == gl::COLOR_ATTACHMENT0 + i
                }
            &&& desc.depth_stencil_attachment matches Some(dsat) ==> {
                let aspects = dsat.target.view.aspects.bits;
                &&& added[1 + colors.len() as int] matches Command::BindAttachment {
                    attachment,
                    view,
                }
                &&& view == dsat.target.view
                &&& aspects == FormatAspects::DEPTH ==> attachment == gl::DEPTH_ATTACHMENT
                &&& aspects == FormatAspects::STENCIL ==> attachment == gl::STENCIL_ATTACHMENT
                &&& aspects != FormatAspects::DEPTH && aspects != FormatAspects::STENCIL
                    ==> attachment == gl::DEPTH_STENCIL_ATTACHMENT
            }
            &&& added[next] matches Command::SetDrawColorBuffers(count)
            &&& count == colors.len() as u8
            &&& added[next + 1] matches Command::SetScissor(rect)
            &&& rect.x == 0 && rect.y == 0
            &&& rect.w == desc.extent.width as i32 && rect.h == desc.extent.height as i32
            &&& added[next + 2] matches Command::SetViewport { rect: viewport, depth }
            &&& viewport == rect
            &&& depth.start.bits == 0
            &&& depth.end.bits == 0x3F80_0000
        }),
{
    let labelled = encoder.label_pass(desc.label);
    let begun = encoder.begin_render_pass(desc);
    let colors = desc.color_attachments@;
    lemma_added(labelled, begun.state, pass_setup(desc));
    let added = pass_setup(desc);
    let binds = color_binds(colors, colors.len());
    assert forall|i: int| #![trigger colors[i]] 0 <= i < colors.len() implies added[1 + i]
        == binds[i] by {}
}

/// After that, each color attachment that is not loaded is cleared, once and in
/// order: by its own number, to its own color, in the form that its format takes.
/// Then depth and stencil are cleared, where they are not loaded. Nothing else is
/// recorded. The result is the color attachments that are cleared.
pub proof fn law_pass_clears(encoder: EncoderView, desc: RenderPassDescriptor) -> (at: Seq<int>)
    requires
        desc.color_attachments@.len() <= u32::MAX,
    ensures
        ({
            let labelled = encoder.label_pass(desc.label);
            let begun = encoder.begin_render_pass(desc);
            let added = labelled.added(begun);
            let colors = desc.color_attachments@;
            let first = 4 + colors.len() + attached(desc.depth_stencil_attachment);
            let next = first + at.len();
            &&& increasing(at)
            &&& added.len() >= next
            &&& forall|k: int|
                0 <= k < at.len() ==> {
                    let i = #[trigger] at[k];
                    let clear = colors[i].clear_value;
                    &&& 0 <= i < colors.len()
                    &&& !colors[i].ops.has(AttachmentOps::LOAD)
                    &&& match colors[i].target.view.sample_type {
                        TextureSampleType::Float { .. } => added[first + k] matches
                            Command::ClearColorF(index, color) && index == i && color
                            == clear.float,
                        TextureSampleType::Uint => added[first + k] matches Command::ClearColorU(
                            index,
                            color,
                        ) && index == i && color == clear.uint,
                        TextureSampleType::Sint => added[first + k] matches Command::ClearColorI(
                            index,
                            color,
                        ) && index == i && color == clear.sint,
                        TextureSampleType::Depth => false,
                    }
                }
            &&& forall|i: int|
                0 <= i < colors.len() && !colors[i].ops.has(AttachmentOps::LOAD) && !(
                colors[i].target.view.sample_type is Depth) ==> #[trigger] at.contains(i)
            &&& desc.depth_stencil_attachment is None ==> added.len() == next
            &&& desc.depth_stencil_attachment matches Some(dsat) ==> {
                let clears_depth = !dsat.depth_ops.has(AttachmentOps::LOAD);
                let clears_stencil = !dsat.stencil_ops.has(AttachmentOps::LOAD);
                let depth: int = if clears_depth {
                    1
                } else {
                    0
                };
                let stencil: int = if clears_stencil {
                    1
                } else {
                    0
                };
                &&& added.len() == next + depth + stencil
                &&& clears_depth ==> added[next as int] == Command::<Seq<u32>>::ClearDepth(
                    dsat.clear_value.0,
                )
                &&& clears_stencil ==> added[next + depth] == Command::<Seq<u32>>::ClearStencil(
                    dsat.clear_value.1,
                )
            }
        }),
{
    let labelled = encoder.label_pass(desc.label);
    let begun = encoder.begin_render_pass(desc);
    let colors = desc.color_attachments@;
    lemma_added(labelled, begun.state, pass_setup(desc));
    let added = pass_setup(desc);
    let first = 4 + colors.len() + attached(desc.depth_stencil_attachment);
    let clears = color_clears(colors, colors.len());
    let at = lemma_collect_order(colors.len(), |i: int| color_clear(colors, i));
    let earlier = seq![Command::ResetFramebuffer] + color_binds(colors, colors.len())
        + depth_stencil_binds(desc.depth_stencil_attachment) + target_commands(
        colors.len(),
        desc.extent,
    );
    let after = depth_stencil_clears(desc.depth_stencil_attachment);
    assert(added =~= earlier + clears + after);
    assert(earlier.len() == first);
    assert forall|k: int| #![trigger at[k]] 0 <= k < at.len() implies Some(added[first + k])
        == color_clear(colors, at[k]) by {
        assert(added[first + k] == clears[k]);
    }
    assert forall|k: int| 0 <= k < after.len() implies added[first + clears.len() + k]
        == #[trigger] after[k] by {}
    if let Some(dsat) = desc.depth_stencil_attachment {
        if !dsat.depth_ops.has(AttachmentOps::LOAD) {
            assert(after[0] == Command::<Seq<u32>>::ClearDepth(dsat.clear_value.0));
            if !dsat.stencil_ops.has(AttachmentOps::LOAD) {
                assert(after[1] == Command::<Seq<u32>>::ClearStencil(dsat.clear_value.1));
            }
        } else if !dsat.stencil_ops.has(AttachmentOps::LOAD) {
            assert(after[0] == Command::<Seq<u32>>::ClearStencil(dsat.clear_value.1));
        }
    }
    at
}

/// A command that clears the color buffer of the given number.
pub open spec fn clear_pick(buffer: int) -> spec_fn(CommandView) -> Option<CommandView> {
    |command: CommandView|
        match command {
            Command::ClearColorF(index, _) => if index == buffer {
                Some(command)
            } else {
                None
            },
            Command::ClearColorU(index, _) => if index == buffer {
                Some(command)
            } else {
                None
            },
            Command::ClearColorI(index, _) => if index == buffer {
                Some(command)
            } else {
                None
            },
            _ => None,
        }
}

/// Each color buffer of a pass ends up cleared to its own color, in the form
/// that its format takes, where it is not loaded; and is not cleared where it is.
pub proof fn law_each_color_is_cleared(encoder: EncoderView, desc: RenderPassDescriptor, i: int)
    requires
        0 <= i < desc.color_attachments@.len() <= u32::MAX,
    ensures
        ({
            let labelled = encoder.label_pass(desc.label);
            let added = labelled.added(encoder.begin_render_pass(desc));
            let color = desc.color_attachments@[i];
            let cleared = latest(added, clear_pick(i));
            if color.ops.has(AttachmentOps::LOAD) {
                cleared is None
            } else {
                match color.target.view.sample_type {
                    TextureSampleType::Float { .. } => cleared == Some(
                        Command::<Seq<u32>>::ClearColorF(i as u32, color.clear_value.float),
                    ),
                    TextureSampleType::Uint => cleared == Some(
                        Command::<Seq<u32>>::ClearColorU(i as u32, color.clear_value.uint),
                    ),
                    TextureSampleType::Sint => cleared == Some(
                        Command::<Seq<u32>>::ClearColorI(i as u32, color.clear_value.sint),
                    ),
                    TextureSampleType::Depth => cleared is None,
                }
            }
        }),
{
    let labelled = encoder.label_pass(desc.label);
    let begun = encoder.begin_render_pass(desc);
    let colors = desc.color_attachments@;
    lemma_added(labelled, begun.state, pass_setup(desc));
    let earlier = seq![Command::ResetFramebuffer] + color_binds(colors, colors.len())
        + depth_stencil_binds(desc.depth_stencil_attachment) + target_commands(
        colors.len(),
        desc.extent,
    );
    let clears = color_clears(colors, colors.len());
    let after = depth_stencil_clears(desc.depth_stencil_attachment);
    assert(pass_setup(desc) =~= (earlier + clears) + after);
    lemma_latest_none(earlier, clear_pick(i));
    lemma_latest_none(after, clear_pick(i));
    lemma_latest_concat(earlier + clears, after, clear_pick(i));
    lemma_latest_concat(earlier, clears, clear_pick(i));
    lemma_cleared(colors, colors.len(), i);
}

proof fn lemma_cleared(colors: Seq<ColorAttachment>, n: nat, i: int)
    requires
        n <= colors.len() <= u32::MAX,
        0 <= i < colors.len(),
    ensures
        latest(color_clears(colors, n), clear_pick(i)) == if i < n {
            color_clear(colors, i)
        } else {
            None
        },
    decreases n,
{
    if n > 0 {
        lemma_cleared(colors, (n - 1) as nat, i);
        let earlier = color_clears(colors, (n - 1) as nat);
        let clears = color_clears(colors, n);
        match color_clear(colors, n - 1) {
            Some(_) => {
                assert(clears.drop_last() =~= earlier);
            },
            None => {
                assert(clears == earlier);
            },
        }
    }
}

/// A pass notes its extent; for its end, the color attachments that are resolved,
/// each with its target; and what is discarded, because it is not stored: color
/// attachments in order, then depth, then stencil, where the attachment has those
/// aspects. Nothing else of the state changes. The results are the color
/// attachments that are resolved and those that are discarded.
pub proof fn law_pass_notes_its_end(encoder: EncoderView, desc: RenderPassDescriptor) -> (r: (
    Seq<int>,
    Seq<int>,
))
    requires
        gl::COLOR_ATTACHMENT0 + desc.color_attachments@.len() - 1 <= u32::MAX,
    ensures
        ({
            let (resolved, discarded) = r;
            let labelled = encoder.label_pass(desc.label);
            let state = encoder.begin_render_pass(desc).state;
            let colors = desc.color_attachments@;
            &&& state.render_size == desc.extent
            &&& increasing(resolved)
            &&& resolved.len() == state.resolve_attachments.len()
            &&& forall|k: int|
                0 <= k < resolved.len() ==> {
                    let i = #[trigger] resolved[k];
                    &&& 0 <= i < colors.len()
                    &&& colors[i].resolve_target matches Some(target)
                    &&& state.resolve_attachments[k].0 == gl::COLOR_ATTACHMENT0 + i
                    &&& state.resolve_attachments[k].1 == target.view
                }
            &&& forall|i: int|
                0 <= i < colors.len() && colors[i].resolve_target is Some
                    ==> #[trigger] resolved.contains(i)
            &&& increasing(discarded)
            &&& discarded.len() <= state.invalidate_attachments.len()
            &&& forall|k: int|
                0 <= k < discarded.len() ==> {
                    let i = #[trigger] discarded[k];
                    &&& 0 <= i < colors.len()
                    &&& !colors[i].ops.has(AttachmentOps::STORE)
                    &&& state.invalidate_attachments[k] == gl::COLOR_ATTACHMENT0 + i
                }
            &&& forall|i: int|
                0 <= i < colors.len() && !colors[i].ops.has(AttachmentOps::STORE)
                    ==> #[trigger] discarded.contains(i)
            &&& ({
                let rest = state.invalidate_attachments.skip(discarded.len() as int);
                match desc.depth_stencil_attachment {
                    None => rest.len() == 0,
                    Some(dsat) => {
                        let aspects = dsat.target.view.aspects;
                        let depth = aspects.has(FormatAspects::DEPTH) && !dsat.depth_ops.has(
                            AttachmentOps::STORE,
                        );
                        let stencil = aspects.has(FormatAspects::STENCIL) && !dsat.stencil_ops.has(
                            AttachmentOps::STORE,
                        );
                        &&& rest.contains(gl::DEPTH_ATTACHMENT) <==> depth
                        &&& rest.contains(gl::STENCIL_ATTACHMENT) <==> stencil
                        &&& depth ==> rest[0] == gl::DEPTH_ATTACHMENT
                        &&& depth && stencil ==> rest.len() == 2
                        &&& !depth || !stencil ==> rest.len() <= 1
                        &&& !depth && !stencil ==> rest.len() == 0
                    },
                }
            })
            &&& state == (StateView {
                render_size: state.render_size,
                resolve_attachments: state.resolve_attachments,
                invalidate_attachments: state.invalidate_attachments,
                ..labelled.state
            })
        }),
{
    let colors = desc.color_attachments@;
    let resolved = lemma_collect_order(colors.len(), |i: int| color_resolve(colors, i));
    let discarded = lemma_collect_order(colors.len(), |i: int| color_discard(colors, i));
    let state = encoder.begin_render_pass(desc).state;
    let first = color_discards(colors, colors.len());
    let last = depth_stencil_discards(desc.depth_stencil_attachment);
    assert(state.invalidate_attachments.skip(first.len() as int) =~= last);
    if let Some(dsat) = desc.depth_stencil_attachment {
        let aspects = dsat.target.view.aspects;
        if aspects.has(FormatAspects::DEPTH) && !dsat.depth_ops.has(AttachmentOps::STORE) {
            assert(last[0] == gl::DEPTH_ATTACHMENT);
        }
        if aspects.has(FormatAspects::STENCIL) && !dsat.stencil_ops.has(AttachmentOps::STORE) {
            assert(last[last.len() - 1] == gl::STENCIL_ATTACHMENT);
        }
    }
    (resolved, discarded)
}

/// The end of a render pass resolves what was noted, each attachment into its
/// target at the size of the pass; then discards what was noted, if anything;
/// then closes the group of the pass, if it has a label. What belongs to the pass
/// is forgotten, and nothing else.
pub proof fn law_end_of_a_render_pass(encoder: EncoderView)
    ensures
        ({
            let before = encoder.state;
            let ended = encoder.end_render_pass();
            let added = encoder.added(ended);
            let resolves = before.resolve_attachments;
            let n = resolves.len() as int;
            let discards: int = if before.invalidate_attachments.len() > 0 {
                1
            } else {
                0
            };
            let pops: int = if before.has_pass_label {
                1
            } else {
                0
            };
            &&& encoder.only_adds(ended)
            &&& added.len() == n + discards + pops
            &&& forall|i: int|
                #![trigger resolves[i]]
                0 <= i < n ==> {
                    &&& added[i] matches Command::ResolveAttachment { attachment, dst, size }
                    &&& resolves[i] == (attachment, dst)
                    &&& size == before.render_size
                }
            &&& discards == 1 ==> added[n] == Command::InvalidateAttachments(
                before.invalidate_attachments,
            )
            &&& pops == 1 ==> added[n + discards] is PopDebugGroup
            &&& !ended.state.has_pass_label
            &&& ended.state.resolve_attachments.len() == 0
            &&& ended.state.invalidate_attachments.len() == 0
            &&& ended.state.vertex_attributes.len() == 0
            &&& ended.state.color_targets.len() == 0
            &&& forall|i: int| !#[trigger] ended.state.instance_vbufs.contains(i)
            &&& forall|i: int| !#[trigger] ended.state.dirty_vbufs.contains(i)
            &&& ended.state.primitive == initial_primitive()
            &&& ended.state == (StateView {
                resolve_attachments: ended.state.resolve_attachments,
                invalidate_attachments: ended.state.invalidate_attachments,
                vertex_attributes: ended.state.vertex_attributes,
                color_targets: ended.state.color_targets,
                instance_vbufs: ended.state.instance_vbufs,
                dirty_vbufs: ended.state.dirty_vbufs,
                primitive: ended.state.primitive,
                has_pass_label: ended.state.has_pass_label,
                ..before
            })
        }),
{
    let before = encoder.state;
    let ended = encoder.end_render_pass();
    let pop: Seq<CommandView> = if before.has_pass_label {
        seq![Command::PopDebugGroup]
    } else {
        seq![]
    };
    let all = pass_teardown(before) + pop;
    lemma_added(encoder, ended.state, all);
    assert(ended =~= encoder.in_state(ended.state).record(all));
    let resolves = before.resolve_attachments;
    assert forall|i: int| #![trigger resolves[i]] 0 <= i < resolves.len() implies (all[
        i
    ] matches Command::ResolveAttachment { attachment, dst, size } && resolves[i] == (
        attachment,
        dst,
    ) && size == before.render_size) by {}
}

} // verus!
