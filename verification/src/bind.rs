//! Bind groups, and the samplers that are bound to texture slots.
//!
//! A program samples each texture with one sampler. A sampler is therefore
//! bound to the slot of the texture, whenever the texture, the sampler or the
//! program changes.
use vstd::pervasive::unreached;
use vstd::prelude::*;

use crate::bits::{lemma_mask_bits_zero, mask_bits, mask_has, mask_with};
use crate::collect::{collect, lemma_collect_member, lemma_collect_none};
use crate::command::{Command, CommandView};
use crate::encoder::{CommandEncoder, EncoderView};
use crate::gl;
use crate::state::StateView;
use crate::types::{
    BindGroup, BindGroupLayoutInfo, BindTarget, BindingType, BufferBindingType, ComputePipeline,
    DynamicOffset, PipelineInner, PipelineLayout, RawBinding, TextureSlotDesc, MAX_SAMPLERS,
    MAX_TEXTURE_SLOTS,
};

verus! {

impl StateView {
    /// What binds the sampler of texture slot `i`, where the slot is among
    /// `textures` or its sampler among `samplers`.
    pub open spec fn sampler_command(
        self,
        textures: Set<int>,
        samplers: Set<int>,
        i: int,
    ) -> Option<CommandView> {
        match self.texture_slots[i].sampler_index {
            Some(sampler_index) => if textures.contains(i) || samplers.contains(
                sampler_index as int,
            ) {
                match self.samplers[sampler_index as int] {
                    Some(sampler) => Some(Command::BindSampler(i as u32, sampler)),
                    None => None,
                }
            } else {
                None
            },
            None => None,
        }
    }

    /// What binds the samplers of the first `n` texture slots.
    pub open spec fn sampler_commands(
        self,
        textures: Set<int>,
        samplers: Set<int>,
        n: nat,
    ) -> Seq<CommandView> {
        collect(n, |i: int| self.sampler_command(textures, samplers, i))
    }

    /// The texture slots that a program samples with another sampler than the
    /// program before it.
    pub open spec fn resampled_slots(self, inner: PipelineInner) -> Set<int> {
        Set::new(
            |i: int|
                0 <= i < MAX_TEXTURE_SLOTS && self.texture_slots[i].sampler_index
                    != inner.sampler_map@[i],
        )
    }

    /// The texture slots, the first `n` of them sampled as a program does.
    pub open spec fn slots_for(self, inner: PipelineInner, n: int) -> Seq<TextureSlotDesc> {
        Seq::new(
            self.texture_slots.len(),
            |i: int|
                if i < n {
                    TextureSlotDesc {
                        sampler_index: inner.sampler_map@[i],
                        ..self.texture_slots[i]
                    }
                } else {
                    self.texture_slots[i]
                },
        )
    }
}

/// Whether a program uses only samplers that there are.
pub open spec fn samplers_in_range(inner: PipelineInner) -> bool {
    forall|i: int|
        0 <= i < MAX_TEXTURE_SLOTS && (#[trigger] inner.sampler_map@[i]) is Some
            ==> inner.sampler_map@[i]->0 < MAX_SAMPLERS
}

impl EncoderView {
    /// Another program: the samplers of the slots that it samples otherwise are
    /// bound.
    pub open spec fn set_pipeline_inner(self, inner: PipelineInner) -> EncoderView {
        let state = StateView {
            texture_slots: self.state.slots_for(inner, MAX_TEXTURE_SLOTS as int),
            ..self.state
        };
        self.in_state(state).record(
            seq![Command::SetProgram(inner.program)] + state.sampler_commands(
                self.state.resampled_slots(inner),
                Set::empty(),
                MAX_TEXTURE_SLOTS as nat,
            ),
        )
    }
}

/// Binding samplers takes no other commands.
pub proof fn lemma_sampler_commands_bind(state: StateView, textures: Set<int>, samplers: Set<int>)
    ensures
        ({
            let commands = state.sampler_commands(textures, samplers, MAX_TEXTURE_SLOTS as nat);
            forall|k: int| 0 <= k < commands.len() ==> #[trigger] commands[k] is BindSampler
        }),
{
    let step = |i: int| state.sampler_command(textures, samplers, i);
    let commands = state.sampler_commands(textures, samplers, MAX_TEXTURE_SLOTS as nat);
    assert forall|k: int| 0 <= k < commands.len() implies #[trigger] commands[k] is BindSampler by {
        let i = lemma_collect_member(MAX_TEXTURE_SLOTS as nat, step, k);
        assert(step(i) == Some(commands[k]));
    }
}

/// How many resources of a group are bound: those that both the layout and the
/// group have.
pub open spec fn binding_count(info: BindGroupLayoutInfo, group: BindGroup) -> nat {
    if info.entries@.len() < group.contents@.len() {
        info.entries@.len()
    } else {
        group.contents@.len()
    }
}

/// The slot of the resource `j` of a group.
pub open spec fn slot_of(info: BindGroupLayoutInfo, j: int) -> u8 {
    info.binding_to_slot@[info.entries@[j].binding as int]
}

/// Whether the resource `j` of a group takes one of the dynamic offsets.
pub open spec fn takes_offset(info: BindGroupLayoutInfo, group: BindGroup, j: int) -> bool {
    &&& group.contents@[j] is Buffer
    &&& info.entries@[j].ty is Buffer
    &&& info.entries@[j].ty->has_dynamic_offset
}

/// How many dynamic offsets the resources before `j` take.
pub open spec fn offsets_before(info: BindGroupLayoutInfo, group: BindGroup, j: int) -> nat
    decreases j,
{
    if j <= 0 {
        0
    } else if takes_offset(info, group, j - 1) {
        offsets_before(info, group, j - 1) + 1
    } else {
        offsets_before(info, group, j - 1)
    }
}

/// The offset that buffer `j` of a group is bound at: its own, and the dynamic
/// one that it takes, reinterpreted as a signed number.
pub open spec fn bound_offset(
    info: BindGroupLayoutInfo,
    group: BindGroup,
    offsets: Seq<DynamicOffset>,
    j: int,
) -> int {
    group.contents@[j]->Buffer_offset + if takes_offset(info, group, j) {
        offsets[offsets_before(info, group, j) as int] as i32 as int
    } else {
        0
    }
}

/// The target of a buffer binding, as an OpenGL enumerant.
pub open spec fn buffer_target(ty: BufferBindingType) -> BindTarget {
    match ty {
        BufferBindingType::Uniform => gl::UNIFORM_BUFFER,
        BufferBindingType::Storage { .. } => gl::SHADER_STORAGE_BUFFER,
    }
}

/// What binds the resource `j` of a group. Samplers are bound with the textures
/// that are sampled with them.
pub open spec fn binding_command(
    info: BindGroupLayoutInfo,
    group: BindGroup,
    offsets: Seq<DynamicOffset>,
    j: int,
) -> Option<CommandView> {
    let slot = slot_of(info, j) as u32;
    match group.contents@[j] {
        RawBinding::Buffer { raw, offset, size } => Some(
            Command::BindBuffer {
                target: buffer_target(info.entries@[j].ty->ty),
                slot,
                buffer: raw,
                offset: bound_offset(info, group, offsets, j) as i32,
                size,
            },
        ),
        RawBinding::Texture { raw, target } => Some(
            Command::BindTexture { slot, texture: raw, target },
        ),
        RawBinding::Image(binding) => Some(Command::BindImage { slot, binding }),
        RawBinding::Sampler(_) => None,
    }
}

/// What binds the first `n` resources of a group.
pub open spec fn binding_commands(
    info: BindGroupLayoutInfo,
    group: BindGroup,
    offsets: Seq<DynamicOffset>,
    n: nat,
) -> Seq<CommandView> {
    collect(n, |j: int| binding_command(info, group, offsets, j))
}

/// Whether a command binds a resource other than a sampler.
pub open spec fn binds_resource(command: CommandView) -> bool {
    command is BindBuffer || command is BindTexture || command is BindImage
}

/// Binding the resources of a group takes no other commands.
pub proof fn lemma_binding_commands_bind(
    info: BindGroupLayoutInfo,
    group: BindGroup,
    offsets: Seq<DynamicOffset>,
    n: nat,
)
    ensures
        ({
            let commands = binding_commands(info, group, offsets, n);
            forall|k: int| 0 <= k < commands.len() ==> binds_resource(#[trigger] commands[k])
        }),
{
    let step = |j: int| binding_command(info, group, offsets, j);
    let commands = binding_commands(info, group, offsets, n);
    assert forall|k: int| 0 <= k < commands.len() implies binds_resource(
        #[trigger] commands[k],
    ) by {
        let j = lemma_collect_member(n, step, k);
        assert(step(j) == Some(commands[k]));
    }
}

/// Whether the resource `j` of a group can be bound: it has a slot, its layout
/// is that of a buffer where it is one, and there is a dynamic offset if it
/// takes one.
pub open spec fn can_bind(
    info: BindGroupLayoutInfo,
    group: BindGroup,
    offsets: Seq<DynamicOffset>,
    j: int,
) -> bool {
    &&& info.entries@[j].binding < info.binding_to_slot@.len()
    &&& match group.contents@[j] {
        RawBinding::Buffer { .. } => {
            &&& info.entries@[j].ty is Buffer
            &&& takes_offset(info, group, j) ==> {
                &&& offsets_before(info, group, j) < offsets.len()
                &&& i32::MIN <= bound_offset(info, group, offsets, j) <= i32::MAX
            }
        },
        RawBinding::Texture { .. } => slot_of(info, j) < MAX_TEXTURE_SLOTS,
        RawBinding::Image(_) => true,
        RawBinding::Sampler(_) => slot_of(info, j) < MAX_SAMPLERS,
    }
}

/// Whether a group can be bound.
pub open spec fn can_bind_group(
    info: BindGroupLayoutInfo,
    group: BindGroup,
    offsets: Seq<DynamicOffset>,
) -> bool {
    forall|j: int|
        0 <= j < binding_count(info, group) ==> #[trigger] can_bind(info, group, offsets, j)
}

/// The slots of the textures among the first `n` resources of a group.
pub open spec fn bound_textures(info: BindGroupLayoutInfo, group: BindGroup, n: nat) -> Set<int>
    decreases n,
{
    if n == 0 {
        Set::empty()
    } else {
        let earlier = bound_textures(info, group, (n - 1) as nat);
        if group.contents@[n - 1] is Texture {
            earlier.insert(slot_of(info, n - 1) as int)
        } else {
            earlier
        }
    }
}

/// The slots of the samplers among the first `n` resources of a group.
pub open spec fn bound_samplers(info: BindGroupLayoutInfo, group: BindGroup, n: nat) -> Set<int>
    decreases n,
{
    if n == 0 {
        Set::empty()
    } else {
        let earlier = bound_samplers(info, group, (n - 1) as nat);
        if group.contents@[n - 1] is Sampler {
            earlier.insert(slot_of(info, n - 1) as int)
        } else {
            earlier
        }
    }
}

impl StateView {
    /// The state once the first `n` resources of a group are in their slots.
    pub open spec fn with_bindings(
        self,
        info: BindGroupLayoutInfo,
        group: BindGroup,
        n: nat,
    ) -> StateView
        decreases n,
    {
        if n == 0 {
            self
        } else {
            let earlier = self.with_bindings(info, group, (n - 1) as nat);
            let slot = slot_of(info, n - 1) as int;
            match group.contents@[n - 1] {
                RawBinding::Sampler(sampler) => StateView {
                    samplers: earlier.samplers.update(slot, Some(sampler)),
                    ..earlier
                },
                RawBinding::Texture { raw, target } => StateView {
                    texture_slots: earlier.texture_slots.update(
                        slot,
                        TextureSlotDesc { tex_target: target, ..earlier.texture_slots[slot] },
                    ),
                    ..earlier
                },
                _ => earlier,
            }
        }
    }
}

impl EncoderView {
    /// Another bind group: its resources are bound, and then the samplers of
    /// the slots that it changes.
    pub open spec fn set_bind_group(
        self,
        info: BindGroupLayoutInfo,
        group: BindGroup,
        offsets: Seq<DynamicOffset>,
    ) -> EncoderView {
        let n = binding_count(info, group);
        let state = self.state.with_bindings(info, group, n);
        self.in_state(state).record(
            binding_commands(info, group, offsets, n) + state.sampler_commands(
                bound_textures(info, group, n),
                bound_samplers(info, group, n),
                MAX_TEXTURE_SLOTS as nat,
            ),
        )
    }
}

impl CommandEncoder {
    /// Binds the samplers of the texture slots that are in `dirty_textures`,
    /// and the samplers that are in `dirty_samplers`.
    pub fn rebind_sampler_states(&mut self, dirty_textures: u32, dirty_samplers: u32)
        requires
            old(self)@.wf(),
        ensures
            final(self)@ == old(self)@.record(
                old(self)@.state.sampler_commands(
                    mask_bits(dirty_textures),
                    mask_bits(dirty_samplers),
                    MAX_TEXTURE_SLOTS as nat,
                ),
            ),
            final(self)@.wf(),
    {
        let ghost textures = mask_bits(dirty_textures);
        let ghost samplers = mask_bits(dirty_samplers);
        let mut texture_index: usize = 0;
        assert(self@ =~= old(self)@.record(
            old(self)@.state.sampler_commands(textures, samplers, 0),
        ));
        while texture_index < MAX_TEXTURE_SLOTS
            invariant
                texture_index <= MAX_TEXTURE_SLOTS,
                textures == mask_bits(dirty_textures),
                samplers == mask_bits(dirty_samplers),
                self.state == old(self).state,
                old(self)@.wf(),
                self@ == old(self)@.record(
                    old(self)@.state.sampler_commands(textures, samplers, texture_index as nat),
                ),
            decreases MAX_TEXTURE_SLOTS - texture_index,
        {
            let slot = self.state.texture_slots[texture_index];
            assert(old(self)@.state.texture_slots[texture_index as int] == slot);
            if let Some(sampler_index) = slot.sampler_index {
                if mask_has(dirty_textures, texture_index as u32) || mask_has(
                    dirty_samplers,
                    sampler_index as u32,
                ) {
                    if let Some(sampler) = self.state.samplers[sampler_index as usize] {
                        self.cmd_buffer.push(Command::BindSampler(texture_index as u32, sampler));
                    }
                }
            }
            texture_index += 1;
            assert(self@ =~= old(self)@.record(
                old(self)@.state.sampler_commands(textures, samplers, texture_index as nat),
            ));
        }
    }

    /// Uses another program.
    pub fn set_pipeline_inner(&mut self, inner: &PipelineInner)
        requires
            old(self)@.wf(),
            samplers_in_range(*inner),
        ensures
            final(self)@ == old(self)@.set_pipeline_inner(*inner),
            final(self)@.wf(),
    {
        self.cmd_buffer.push(Command::SetProgram(inner.program));
        let ghost started = self@;
        let ghost changed = old(self)@.state.resampled_slots(*inner);

        let mut dirty_textures: u32 = 0;
        let mut texture_index: usize = 0;
        proof {
            lemma_mask_bits_zero();
            assert(mask_bits(0) =~= changed.filter(|i: int| i < 0));
        }
        assert(self@ =~= started.in_state(
            StateView { texture_slots: old(self)@.state.slots_for(*inner, 0), ..started.state },
        ));
        while texture_index < MAX_TEXTURE_SLOTS
            invariant
                texture_index <= MAX_TEXTURE_SLOTS,
                started.state == old(self)@.state,
                changed == old(self)@.state.resampled_slots(*inner),
                mask_bits(dirty_textures) == changed.filter(|i: int| i < texture_index),
                self@ == started.in_state(
                    StateView {
                        texture_slots: old(self)@.state.slots_for(*inner, texture_index as int),
                        ..started.state
                    },
                ),
            decreases MAX_TEXTURE_SLOTS - texture_index,
        {
            let sampler_index = inner.sampler_map[texture_index];
            if self.state.texture_slots[texture_index].sampler_index != sampler_index {
                self.state.texture_slots[texture_index].sampler_index = sampler_index;
                dirty_textures = mask_with(dirty_textures, texture_index as u32);
            }
            texture_index += 1;
            assert(mask_bits(dirty_textures) =~= changed.filter(|i: int| i < texture_index));
            assert(self@ =~= started.in_state(
                StateView {
                    texture_slots: old(self)@.state.slots_for(*inner, texture_index as int),
                    ..started.state
                },
            ));
        }
        assert(mask_bits(dirty_textures) =~= changed);
        if dirty_textures != 0 {
            proof {
                lemma_mask_bits_zero();
            }
            self.rebind_sampler_states(dirty_textures, 0);
        } else {
            proof {
                lemma_mask_bits_zero();
                lemma_collect_none(
                    MAX_TEXTURE_SLOTS as nat,
                    |i: int| self@.state.sampler_command(changed, Set::empty(), i),
                );
            }
        }
        assert(self@ =~= old(self)@.set_pipeline_inner(*inner));
    }

    /// Binds the resources of a group, as the group `index` of a layout.
    pub fn set_bind_group(
        &mut self,
        layout: &PipelineLayout,
        index: u32,
        group: &BindGroup,
        dynamic_offsets: &[DynamicOffset],
    )
        requires
            old(self)@.wf(),
            index < layout.group_infos@.len(),
            can_bind_group(layout.group_infos@[index as int], *group, dynamic_offsets@),
        ensures
            final(self)@ == old(self)@.set_bind_group(
                layout.group_infos@[index as int],
                *group,
                dynamic_offsets@,
            ),
            final(self)@.wf(),
    {
        let info = &layout.group_infos[index as usize];
        let ghost offsets = dynamic_offsets@;
        let ghost count = binding_count(*info, *group);
        let mut next_offset: usize = 0;
        let mut dirty_textures: u32 = 0;
        let mut dirty_samplers: u32 = 0;
        let mut j: usize = 0;
        proof {
            lemma_mask_bits_zero();
        }
        assert(self@ =~= old(self)@.in_state(old(self)@.state.with_bindings(*info, *group, 0)).record(
            binding_commands(*info, *group, offsets, 0),
        ));
        while j < info.entries.len() && j < group.contents.len()
            invariant
                j <= count,
                count == binding_count(*info, *group),
                can_bind_group(*info, *group, offsets),
                offsets == dynamic_offsets@,
                next_offset == offsets_before(*info, *group, j as int),
                next_offset <= j,
                mask_bits(dirty_textures) == bound_textures(*info, *group, j as nat),
                mask_bits(dirty_samplers) == bound_samplers(*info, *group, j as nat),
                self@.wf(),
                self@ == old(self)@.in_state(
                    old(self)@.state.with_bindings(*info, *group, j as nat),
                ).record(binding_commands(*info, *group, offsets, j as nat)),
            decreases count - j,
        {
            assert(can_bind(*info, *group, offsets, j as int));
            let entry = info.entries[j];
            let slot: u32 = info.binding_to_slot[entry.binding as usize] as u32;
            match group.contents[j] {
                RawBinding::Buffer { raw, offset: base_offset, size } => {
                    let mut offset: i32 = base_offset;
                    let target: BindTarget = match entry.ty {
                        BindingType::Buffer { ty, has_dynamic_offset } => {
                            if has_dynamic_offset {
                                offset = offset + dynamic_offsets[next_offset] as i32;
                                next_offset += 1;
                            }
                            match ty {
                                BufferBindingType::Uniform => gl::uniform_buffer(),
                                BufferBindingType::Storage { .. } => gl::shader_storage_buffer(),
                            }
                        },
                        _ => unreached(),
                    };
                    self.cmd_buffer.push(
                        Command::BindBuffer { target, slot, buffer: raw, offset, size },
                    );
                },
                RawBinding::Sampler(sampler) => {
                    dirty_samplers = mask_with(dirty_samplers, slot);
                    self.state.samplers[slot as usize] = Some(sampler);
                },
                RawBinding::Texture { raw, target } => {
                    dirty_textures = mask_with(dirty_textures, slot);
                    self.state.texture_slots[slot as usize].tex_target = target;
                    self.cmd_buffer.push(Command::BindTexture { slot, texture: raw, target });
                },
                RawBinding::Image(binding) => {
                    self.cmd_buffer.push(Command::BindImage { slot, binding });
                },
            }
            j += 1;
            assert(self@ =~= old(self)@.in_state(
                old(self)@.state.with_bindings(*info, *group, j as nat),
            ).record(binding_commands(*info, *group, offsets, j as nat)));
        }
        self.rebind_sampler_states(dirty_textures, dirty_samplers);
        assert(self@ =~= old(self)@.set_bind_group(*info, *group, offsets));
    }

    /// Uses the program of a compute pipeline.
    pub fn set_compute_pipeline(&mut self, pipeline: &ComputePipeline)
        requires
            old(self)@.wf(),
            samplers_in_range(pipeline.inner),
        ensures
            final(self)@ == old(self)@.set_pipeline_inner(pipeline.inner),
            final(self)@.wf(),
    {
        self.set_pipeline_inner(&pipeline.inner);
    }
}

} // verus!
