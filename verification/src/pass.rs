//! Passes, and the labels, viewports and scissors that go with them.
use std::ops::Range;

use vstd::pervasive::unreached;
use vstd::prelude::*;

use crate::collect::{collect, lemma_collect_grows, lemma_collect_member};
use crate::command::{Command, CommandView};
use crate::encoder::{CommandEncoder, EncoderView};
use crate::flags::{AttachmentOps, FormatAspects};
use crate::floats::{FloatBits, ONE_BITS, ZERO_BITS};
use crate::gl;
use crate::lists::{
    attributes_clear, color_targets_clear, invalidated_as_slice, invalidated_clear,
    invalidated_clone, invalidated_push, resolves_clear, resolves_drain, resolves_push,
};
use crate::bits::lemma_word_bits_zero;
use crate::state::StateView;
use crate::types::{
    initial_primitive, ColorAttachment, ComputePassDescriptor, DepthStencilAttachment, Extent3d,
    PrimitiveState, Rect, RenderPassDescriptor, TextureSampleType, TextureView, MAX_COLOR_TARGETS,
    MAX_INVALIDATED,
};

verus! {

// Labels
impl EncoderView {
    /// A group that is opened, with a label.
    pub open spec fn push_debug_group(self, label: Seq<char>) -> EncoderView {
        EncoderView { cmd_buffer: self.cmd_buffer.with_marker(label), ..self }.record(
            seq![Command::PushDebugGroup(self.cmd_buffer.marker_range(label))],
        )
    }

    /// The group that was opened last, closed.
    pub open spec fn pop_debug_group(self) -> EncoderView {
        self.record(seq![Command::PopDebugGroup])
    }

    /// A place that is marked, with a label.
    pub open spec fn insert_debug_marker(self, label: Seq<char>) -> EncoderView {
        EncoderView { cmd_buffer: self.cmd_buffer.with_marker(label), ..self }.record(
            seq![Command::InsertDebugMarker(self.cmd_buffer.marker_range(label))],
        )
    }

    /// The start of a pass. A pass with a label is a group.
    pub open spec fn label_pass(self, label: Option<&str>) -> EncoderView {
        match label {
            Some(label) => self.push_debug_group(label@).in_state(
                StateView { has_pass_label: true, ..self.state },
            ),
            None => self,
        }
    }

    /// The end of a pass, which closes the group of the pass.
    pub open spec fn unlabel_pass(self) -> EncoderView {
        if self.state.has_pass_label {
            self.in_state(StateView { has_pass_label: false, ..self.state }).record(
                seq![Command::PopDebugGroup],
            )
        } else {
            self
        }
    }
}

impl CommandEncoder {
    /// Marks a place.
    pub fn insert_debug_marker(&mut self, label: &str)
        ensures
            final(self)@ == old(self)@.insert_debug_marker(label@),
            old(self)@.wf() ==> final(self)@.wf(),
    {
        let range = self.cmd_buffer.add_marker(label);
        self.cmd_buffer.push(Command::InsertDebugMarker(range));
    }

    /// Opens a group.
    pub fn begin_debug_marker(&mut self, group_label: &str)
        ensures
            final(self)@ == old(self)@.push_debug_group(group_label@),
            old(self)@.wf() ==> final(self)@.wf(),
    {
        let range = self.cmd_buffer.add_marker(group_label);
        self.cmd_buffer.push(Command::PushDebugGroup(range));
    }

    /// Closes the group that was opened last.
    pub fn end_debug_marker(&mut self)
        ensures
            final(self)@ == old(self)@.pop_debug_group(),
            old(self)@.wf() ==> final(self)@.wf(),
    {
        self.cmd_buffer.push(Command::PopDebugGroup);
    }

    /// Starts a compute pass.
    pub fn begin_compute_pass(&mut self, desc: &ComputePassDescriptor)
        ensures
            final(self)@ == old(self)@.label_pass(desc.label),
            old(self)@.wf() ==> final(self)@.wf(),
    {
        if let Some(label) = desc.label {
            self.begin_debug_marker(label);
            self.state.has_pass_label = true;
        }
    }

    /// Ends a compute pass.
    pub fn end_compute_pass(&mut self)
        ensures
            final(self)@ == old(self)@.unlabel_pass(),
            old(self)@.wf() ==> final(self)@.wf(),
    {
        if self.state.has_pass_label {
            self.cmd_buffer.push(Command::PopDebugGroup);
            self.state.has_pass_label = false;
        }
    }
}

// Viewports
impl EncoderView {
    /// Another viewport and range of depth values.
    pub open spec fn set_viewport(self, rect: Rect<i32>, depth: Range<FloatBits>) -> EncoderView {
        self.record(seq![Command::SetViewport { rect, depth }])
    }

    /// Another scissor rectangle.
    pub open spec fn set_scissor_rect(self, rect: Rect<u32>) -> EncoderView {
        self.record(
            seq![
                Command::SetScissor(
                    Rect {
                        x: rect.x as i32,
                        y: rect.y as i32,
                        w: rect.w as i32,
                        h: rect.h as i32,
                    },
                ),
            ],
        )
    }

    /// Another constant color of blending.
    pub open spec fn set_blend_constants(self, color: [FloatBits; 4]) -> EncoderView {
        self.record(seq![Command::SetBlendConstant(color)])
    }
}

impl CommandEncoder {
    /// Sets the viewport, and the range of depth values.
    pub fn set_viewport(&mut self, rect: Rect<i32>, depth: Range<FloatBits>)
        ensures
            final(self)@ == old(self)@.set_viewport(rect, depth),
            old(self)@.wf() ==> final(self)@.wf(),
    {
        self.cmd_buffer.push(Command::SetViewport { rect, depth });
    }

    /// Sets the scissor rectangle.
    pub fn set_scissor_rect(&mut self, rect: &Rect<u32>)
        ensures
            final(self)@ == old(self)@.set_scissor_rect(*rect),
            old(self)@.wf() ==> final(self)@.wf(),
    {
        self.cmd_buffer.push(
            Command::SetScissor(
                Rect { x: rect.x as i32, y: rect.y as i32, w: rect.w as i32, h: rect.h as i32 },
            ),
        );
    }

    /// Sets the constant color of blending.
    pub fn set_blend_constants(&mut self, color: &[FloatBits; 4])
        ensures
            final(self)@ == old(self)@.set_blend_constants(*color),
            old(self)@.wf() ==> final(self)@.wf(),
    {
        self.cmd_buffer.push(Command::SetBlendConstant(*color));
    }
}

// Render passes
/// The attachment point of a color attachment.
pub open spec fn color_point(i: int) -> int {
    gl::COLOR_ATTACHMENT0 + i
}

/// What attaches the first `n` color attachments.
pub open spec fn color_binds(colors: Seq<ColorAttachment>, n: nat) -> Seq<CommandView> {
    Seq::new(
        n,
        |i: int|
            Command::BindAttachment {
                attachment: color_point(i) as u32,
                view: colors[i].target.view,
            },
    )
}

/// The resolve of a color attachment.
pub open spec fn color_resolve(colors: Seq<ColorAttachment>, i: int) -> Option<
    (u32, TextureView),
> {
    match colors[i].resolve_target {
        Some(target) => Some((color_point(i) as u32, target.view)),
        None => None,
    }
}

/// The resolves of the first `n` color attachments.
pub open spec fn color_resolves(colors: Seq<ColorAttachment>, n: nat) -> Seq<(u32, TextureView)> {
    collect(n, |i: int| color_resolve(colors, i))
}

/// The attachment point of a color attachment that is discarded.
pub open spec fn color_discard(colors: Seq<ColorAttachment>, i: int) -> Option<u32> {
    if colors[i].ops.has(AttachmentOps::STORE) {
        None
    } else {
        Some(color_point(i) as u32)
    }
}

/// The attachment points of the first `n` color attachments that are discarded.
pub open spec fn color_discards(colors: Seq<ColorAttachment>, n: nat) -> Seq<u32> {
    collect(n, |i: int| color_discard(colors, i))
}

/// What clears a color attachment that is not loaded.
pub open spec fn color_clear(colors: Seq<ColorAttachment>, i: int) -> Option<CommandView> {
    let color = colors[i];
    if color.ops.has(AttachmentOps::LOAD) {
        None
    } else {
        match color.target.view.sample_type {
            TextureSampleType::Float { .. } => Some(
                Command::ClearColorF(i as u32, color.clear_value.float),
            ),
            TextureSampleType::Uint => Some(Command::ClearColorU(i as u32, color.clear_value.uint)),
            TextureSampleType::Sint => Some(Command::ClearColorI(i as u32, color.clear_value.sint)),
            TextureSampleType::Depth => None,
        }
    }
}

/// What clears the first `n` color attachments.
pub open spec fn color_clears(colors: Seq<ColorAttachment>, n: nat) -> Seq<CommandView> {
    collect(n, |i: int| color_clear(colors, i))
}

/// Whether a command clears a color attachment.
pub open spec fn clears_color(command: CommandView) -> bool {
    command is ClearColorF || command is ClearColorU || command is ClearColorI
}

/// Clearing color attachments takes no other commands.
pub proof fn lemma_color_clears_clear(colors: Seq<ColorAttachment>)
    ensures
        ({
            let commands = color_clears(colors, colors.len());
            forall|k: int| 0 <= k < commands.len() ==> clears_color(#[trigger] commands[k])
        }),
{
    let step = |i: int| color_clear(colors, i);
    let commands = color_clears(colors, colors.len());
    assert forall|k: int| 0 <= k < commands.len() implies clears_color(#[trigger] commands[k]) by {
        let i = lemma_collect_member(colors.len(), step, k);
        assert(step(i) == Some(commands[k]));
    }
}

/// The attachment point of a depth and stencil attachment.
pub open spec fn depth_stencil_point(aspects: FormatAspects) -> u32 {
    if aspects.bits == FormatAspects::DEPTH {
        gl::DEPTH_ATTACHMENT
    } else if aspects.bits == FormatAspects::STENCIL {
        gl::STENCIL_ATTACHMENT
    } else {
        gl::DEPTH_STENCIL_ATTACHMENT
    }
}

/// What attaches a depth and stencil attachment.
pub open spec fn depth_stencil_binds(attachment: Option<&DepthStencilAttachment>) -> Seq<
    CommandView,
> {
    match attachment {
        Some(attachment) => seq![
            Command::BindAttachment {
                attachment: depth_stencil_point(attachment.target.view.aspects),
                view: attachment.target.view,
            },
        ],
        None => seq![],
    }
}

/// The attachment points of a depth and stencil attachment that are discarded.
pub open spec fn depth_stencil_discards(attachment: Option<&DepthStencilAttachment>) -> Seq<u32> {
    match attachment {
        Some(attachment) => {
            let aspects = attachment.target.view.aspects;
            let depth = if aspects.has(FormatAspects::DEPTH) && !attachment.depth_ops.has(
                AttachmentOps::STORE,
            ) {
                seq![gl::DEPTH_ATTACHMENT]
            } else {
                seq![]
            };
            let stencil = if aspects.has(FormatAspects::STENCIL) && !attachment.stencil_ops.has(
                AttachmentOps::STORE,
            ) {
                seq![gl::STENCIL_ATTACHMENT]
            } else {
                seq![]
            };
            depth + stencil
        },
        None => seq![],
    }
}

/// What clears a depth and stencil attachment.
pub open spec fn depth_stencil_clears(attachment: Option<&DepthStencilAttachment>) -> Seq<
    CommandView,
> {
    match attachment {
        Some(attachment) => {
            let depth: Seq<CommandView> = if attachment.depth_ops.has(AttachmentOps::LOAD) {
                seq![]
            } else {
                seq![Command::ClearDepth(attachment.clear_value.0)]
            };
            let stencil: Seq<CommandView> = if attachment.stencil_ops.has(AttachmentOps::LOAD) {
                seq![]
            } else {
                seq![Command::ClearStencil(attachment.clear_value.1)]
            };
            depth + stencil
        },
        None => seq![],
    }
}

/// The rectangle that a framebuffer of the given size covers.
pub open spec fn full_rect(extent: Extent3d) -> Rect<i32> {
    Rect { x: 0, y: 0, w: extent.width as i32, h: extent.height as i32 }
}

/// What draws to all of a framebuffer.
pub open spec fn target_commands(color_count: nat, extent: Extent3d) -> Seq<CommandView> {
    seq![
        Command::SetDrawColorBuffers(color_count as u8),
        Command::SetScissor(full_rect(extent)),
        Command::SetViewport {
            rect: full_rect(extent),
            depth: Range {
                start: FloatBits { bits: ZERO_BITS },
                end: FloatBits { bits: ONE_BITS },
            },
        },
    ]
}

/// What is resolved at the end of a pass.
pub open spec fn pass_resolves(desc: RenderPassDescriptor) -> Seq<(u32, TextureView)> {
    color_resolves(desc.color_attachments@, desc.color_attachments@.len())
}

/// What is discarded at the end of a pass.
pub open spec fn pass_discards(desc: RenderPassDescriptor) -> Seq<u32> {
    color_discards(desc.color_attachments@, desc.color_attachments@.len())
        + depth_stencil_discards(desc.depth_stencil_attachment)
}

/// What sets up the framebuffer of a pass and clears it.
pub open spec fn pass_setup(desc: RenderPassDescriptor) -> Seq<CommandView> {
    let colors = desc.color_attachments@;
    seq![Command::ResetFramebuffer] + color_binds(colors, colors.len()) + depth_stencil_binds(
        desc.depth_stencil_attachment,
    ) + target_commands(colors.len(), desc.extent) + color_clears(colors, colors.len())
        + depth_stencil_clears(desc.depth_stencil_attachment)
}

/// Whether a render pass can be started: there is room for what it resolves and
/// discards, the attachment points can be numbered, and no color attachment of a
/// depth format is cleared.
pub open spec fn can_begin_render_pass(desc: RenderPassDescriptor) -> bool {
    let colors = desc.color_attachments@;
    &&& pass_resolves(desc).len() <= MAX_COLOR_TARGETS
    &&& pass_discards(desc).len() <= MAX_INVALIDATED
    &&& color_point(colors.len() - 1) <= u32::MAX
    &&& forall|i: int|
        0 <= i < colors.len() && (#[trigger] colors[i]).target.view.sample_type is Depth
            ==> colors[i].ops.has(AttachmentOps::LOAD)
}

/// What ends a pass in the given state, but for its label.
pub open spec fn pass_teardown(state: StateView) -> Seq<CommandView> {
    let resolves: Seq<CommandView> = resolve_commands(state, state.resolve_attachments.len());
    let discards: Seq<CommandView> = if state.invalidate_attachments.len() > 0 {
        seq![Command::InvalidateAttachments(state.invalidate_attachments)]
    } else {
        seq![]
    };
    resolves + discards
}

/// What makes the first `n` resolves of a pass.
pub open spec fn resolve_commands(state: StateView, n: nat) -> Seq<CommandView> {
    Seq::new(
        n,
        |i: int|
            Command::ResolveAttachment {
                attachment: state.resolve_attachments[i].0,
                dst: state.resolve_attachments[i].1,
                size: state.render_size,
            },
    )
}

impl EncoderView {
    /// The start of a render pass.
    pub open spec fn begin_render_pass(self, desc: RenderPassDescriptor) -> EncoderView {
        let labelled = self.label_pass(desc.label);
        labelled.in_state(
            StateView {
                render_size: desc.extent,
                resolve_attachments: pass_resolves(desc),
                invalidate_attachments: pass_discards(desc),
                ..labelled.state
            },
        ).record(pass_setup(desc))
    }

    /// The end of a render pass.
    pub open spec fn end_render_pass(self) -> EncoderView {
        let ended = self.record(pass_teardown(self.state)).unlabel_pass();
        ended.in_state(
            StateView {
                resolve_attachments: Seq::empty(),
                invalidate_attachments: Seq::empty(),
                instance_vbufs: Set::empty(),
                dirty_vbufs: Set::empty(),
                color_targets: Seq::empty(),
                vertex_attributes: Seq::empty(),
                primitive: initial_primitive(),
                ..ended.state
            },
        )
    }
}

impl CommandEncoder {
    /// Attaches the color attachments of a pass, and notes which of them are
    /// resolved and which are discarded.
    fn attach_colors(&mut self, colors: &[ColorAttachment])
        requires
            old(self)@.state.resolve_attachments == Seq::<(u32, TextureView)>::empty(),
            old(self)@.state.invalidate_attachments == Seq::<u32>::empty(),
            color_resolves(colors@, colors@.len()).len() <= MAX_COLOR_TARGETS,
            color_discards(colors@, colors@.len()).len() <= MAX_INVALIDATED,
            color_point(colors@.len() - 1) <= u32::MAX,
        ensures
            final(self)@ == old(self)@.in_state(
                StateView {
                    resolve_attachments: color_resolves(colors@, colors@.len()),
                    invalidate_attachments: color_discards(colors@, colors@.len()),
                    ..old(self)@.state
                },
            ).record(color_binds(colors@, colors@.len())),
    {
        let mut i: usize = 0;
        assert(self@ =~= old(self)@.in_state(
            StateView {
                resolve_attachments: color_resolves(colors@, 0),
                invalidate_attachments: color_discards(colors@, 0),
                ..old(self)@.state
            },
        ).record(color_binds(colors@, 0)));
        while i < colors.len()
            invariant
                i <= colors@.len(),
                color_resolves(colors@, colors@.len()).len() <= MAX_COLOR_TARGETS,
                color_discards(colors@, colors@.len()).len() <= MAX_INVALIDATED,
                color_point(colors@.len() - 1) <= u32::MAX,
                self@ == old(self)@.in_state(
                    StateView {
                        resolve_attachments: color_resolves(colors@, i as nat),
                        invalidate_attachments: color_discards(colors@, i as nat),
                        ..old(self)@.state
                    },
                ).record(color_binds(colors@, i as nat)),
            decreases colors@.len() - i,
        {
            proof {
                lemma_collect_grows(
                    (i + 1) as nat,
                    colors@.len(),
                    |i: int| color_resolve(colors@, i),
                );
                lemma_collect_grows(
                    (i + 1) as nat,
                    colors@.len(),
                    |i: int| color_discard(colors@, i),
                );
            }
            let color = &colors[i];
            let attachment: u32 = gl::color_attachment0() + i as u32;
            self.cmd_buffer.push(
                Command::BindAttachment { attachment, view: color.target.view.clone() },
            );
            if let Some(target) = &color.resolve_target {
                resolves_push(
                    &mut self.state.resolve_attachments,
                    (attachment, target.view.clone()),
                );
            }
            if !color.ops.contains(AttachmentOps::STORE) {
                invalidated_push(&mut self.state.invalidate_attachments, attachment);
            }
            i += 1;
            assert(self@ =~= old(self)@.in_state(
                StateView {
                    resolve_attachments: color_resolves(colors@, i as nat),
                    invalidate_attachments: color_discards(colors@, i as nat),
                    ..old(self)@.state
                },
            ).record(color_binds(colors@, i as nat)));
        }
    }

    /// Attaches the depth and stencil attachment of a pass, and notes which of
    /// its aspects are discarded.
    fn attach_depth_stencil(&mut self, attachment: Option<&DepthStencilAttachment>)
        requires
            old(self)@.state.invalidate_attachments.len() + depth_stencil_discards(attachment).len()
                <= MAX_INVALIDATED,
        ensures
            final(self)@ == old(self)@.in_state(
                StateView {
                    invalidate_attachments: old(self)@.state.invalidate_attachments
                        + depth_stencil_discards(attachment),
                    ..old(self)@.state
                },
            ).record(depth_stencil_binds(attachment)),
    {
        if let Some(attachment) = attachment {
            let aspects = attachment.target.view.aspects;
            let point: u32 = if aspects.bits == FormatAspects::DEPTH {
                gl::depth_attachment()
            } else if aspects.bits == FormatAspects::STENCIL {
                gl::stencil_attachment()
            } else {
                gl::depth_stencil_attachment()
            };
            self.cmd_buffer.push(
                Command::BindAttachment {
                    attachment: point,
                    view: attachment.target.view.clone(),
                },
            );
            if aspects.contains(FormatAspects::DEPTH) && !attachment.depth_ops.contains(
                AttachmentOps::STORE,
            ) {
                invalidated_push(&mut self.state.invalidate_attachments, gl::depth_attachment());
            }
            if aspects.contains(FormatAspects::STENCIL) && !attachment.stencil_ops.contains(
                AttachmentOps::STORE,
            ) {
                invalidated_push(&mut self.state.invalidate_attachments, gl::stencil_attachment());
            }
        }
        assert(self@ =~= old(self)@.in_state(
            StateView {
                invalidate_attachments: old(self)@.state.invalidate_attachments
                    + depth_stencil_discards(attachment),
                ..old(self)@.state
            },
        ).record(depth_stencil_binds(attachment)));
    }

    /// Draws to all of a framebuffer.
    fn set_targets(&mut self, color_count: usize, extent: &Extent3d)
        ensures
            final(self)@ == old(self)@.record(target_commands(color_count as nat, *extent)),
            final(self).state == old(self).state,
    {
        let width: i32 = extent.width as i32;
        let height: i32 = extent.height as i32;
        self.cmd_buffer.push(Command::SetDrawColorBuffers(color_count as u8));
        self.cmd_buffer.push(Command::SetScissor(Rect { x: 0, y: 0, w: width, h: height }));
        self.cmd_buffer.push(
            Command::SetViewport {
                rect: Rect { x: 0, y: 0, w: width, h: height },
                depth: FloatBits { bits: ZERO_BITS }..FloatBits { bits: ONE_BITS },
            },
        );
        assert(self@ =~= old(self)@.record(target_commands(color_count as nat, *extent)));
    }

    /// Clears the color attachments that are not loaded.
    fn clear_colors(&mut self, colors: &[ColorAttachment])
        requires
            colors@.len() <= u32::MAX,
            forall|i: int|
                0 <= i < colors@.len() && (#[trigger] colors@[i]).target.view.sample_type is Depth
                    ==> colors@[i].ops.has(AttachmentOps::LOAD),
        ensures
            final(self)@ == old(self)@.record(color_clears(colors@, colors@.len())),
            final(self).state == old(self).state,
    {
        let mut i: usize = 0;
        assert(self@ =~= old(self)@.record(color_clears(colors@, 0)));
        while i < colors.len()
            invariant
                i <= colors@.len() <= u32::MAX,
                forall|i: int|
                    0 <= i < colors@.len() && (
                    #[trigger] colors@[i]).target.view.sample_type is Depth ==> colors@[i].ops.has(
                        AttachmentOps::LOAD,
                    ),
                self.state == old(self).state,
                self@ == old(self)@.record(color_clears(colors@, i as nat)),
            decreases colors@.len() - i,
        {
            let color = &colors[i];
            if !color.ops.contains(AttachmentOps::LOAD) {
                self.cmd_buffer.push(
                    match color.target.view.sample_type {
                        TextureSampleType::Float { .. } => Command::ClearColorF(
                            i as u32,
                            color.clear_value.float,
                        ),
                        TextureSampleType::Depth => unreached(),
                        TextureSampleType::Uint => Command::ClearColorU(
                            i as u32,
                            color.clear_value.uint,
                        ),
                        TextureSampleType::Sint => Command::ClearColorI(
                            i as u32,
                            color.clear_value.sint,
                        ),
                    },
                );
            }
            i += 1;
            assert(self@ =~= old(self)@.record(color_clears(colors@, i as nat)));
        }
    }

    /// Clears the aspects of the depth and stencil attachment that are not
    /// loaded.
    fn clear_depth_stencil(&mut self, attachment: Option<&DepthStencilAttachment>)
        ensures
            final(self)@ == old(self)@.record(depth_stencil_clears(attachment)),
            final(self).state == old(self).state,
    {
        if let Some(attachment) = attachment {
            if !attachment.depth_ops.contains(AttachmentOps::LOAD) {
                self.cmd_buffer.push(Command::ClearDepth(attachment.clear_value.0));
            }
            if !attachment.stencil_ops.contains(AttachmentOps::LOAD) {
                self.cmd_buffer.push(Command::ClearStencil(attachment.clear_value.1));
            }
        }
        assert(self@ =~= old(self)@.record(depth_stencil_clears(attachment)));
    }

    /// Starts a render pass.
    pub fn begin_render_pass(&mut self, desc: &RenderPassDescriptor)
        requires
            can_begin_render_pass(*desc),
        ensures
            final(self)@ == old(self)@.begin_render_pass(*desc),
            old(self)@.wf() ==> final(self)@.wf(),
    {
        self.state.render_size = desc.extent;
        resolves_clear(&mut self.state.resolve_attachments);
        invalidated_clear(&mut self.state.invalidate_attachments);
        if let Some(label) = desc.label {
            self.begin_debug_marker(label);
            self.state.has_pass_label = true;
        }
        self.cmd_buffer.push(Command::ResetFramebuffer);
        self.attach_colors(desc.color_attachments);
        self.attach_depth_stencil(desc.depth_stencil_attachment);
        self.set_targets(desc.color_attachments.len(), &desc.extent);
        self.clear_colors(desc.color_attachments);
        self.clear_depth_stencil(desc.depth_stencil_attachment);
        assert(self@ =~= old(self)@.begin_render_pass(*desc));
    }

    /// Ends a render pass.
    pub fn end_render_pass(&mut self)
        ensures
            final(self)@ == old(self)@.end_render_pass(),
            old(self)@.wf() ==> final(self)@.wf(),
    {
        let resolves = resolves_drain(&mut self.state.resolve_attachments);
        let ghost drained = self@;
        let mut i: usize = 0;
        assert(self@ =~= drained.record(resolve_commands(old(self)@.state, 0)));
        while i < resolves.len()
            invariant
                i <= resolves@.len(),
                resolves@ == old(self)@.state.resolve_attachments,
                drained.state.render_size == old(self)@.state.render_size,
                self@ == drained.record(resolve_commands(old(self)@.state, i as nat)),
            decreases resolves@.len() - i,
        {
            self.cmd_buffer.push(
                Command::ResolveAttachment {
                    attachment: resolves[i].0,
                    dst: resolves[i].1.clone(),
                    size: self.state.render_size,
                },
            );
            i += 1;
            assert(self@ =~= drained.record(resolve_commands(old(self)@.state, i as nat)));
        }
        if invalidated_as_slice(&self.state.invalidate_attachments).len() > 0 {
            self.cmd_buffer.push(
                Command::InvalidateAttachments(
                    invalidated_clone(&self.state.invalidate_attachments),
                ),
            );
            invalidated_clear(&mut self.state.invalidate_attachments);
        }
        if self.state.has_pass_label {
            self.cmd_buffer.push(Command::PopDebugGroup);
            self.state.has_pass_label = false;
        }
        self.state.instance_vbuf_mask = 0;
        self.state.dirty_vbuf_mask = 0;
        color_targets_clear(&mut self.state.color_targets);
        attributes_clear(&mut self.state.vertex_attributes);
        self.state.primitive = PrimitiveState::default();
        proof {
            lemma_word_bits_zero();
        }
        assert(self@ =~= old(self)@.end_render_pass());
    }
}

} // verus!
