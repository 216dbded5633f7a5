//! What bind groups and programs leave bound, and where.
use vstd::prelude::*;

use crate::bind::{
    binding_command, binding_commands, binding_count, bound_samplers, bound_textures,
    lemma_binding_commands_bind, offsets_before, takes_offset,
};
use crate::collect::{increasing, lemma_collect_order};
use crate::command::Command;
use crate::effect::lemma_added;
use crate::encoder::EncoderView;
use crate::gl;
use crate::state::StateView;
use crate::types::{
    BindGroup, BindGroupLayoutInfo, BindingType, BufferBindingType, DynamicOffset, PipelineInner,
    RawBinding, MAX_SAMPLERS, MAX_TEXTURE_SLOTS,
};

verus! {

// Samplers
/// Samplers are bound to the texture slots that are sampled with one, where the
/// slot is among `textures` or the sampler among `samplers`, each slot once and
/// in order. The result is the slots.
pub proof fn law_samplers_are_bound(
    state: StateView,
    textures: Set<int>,
    samplers: Set<int>,
) -> (at: Seq<int>)
    ensures
        ({
            let commands = state.sampler_commands(textures, samplers, MAX_TEXTURE_SLOTS as nat);
            &&& increasing(at)
            &&& at.len() == commands.len()
            &&& forall|k: int|
                0 <= k < at.len() ==> {
                    let i = #[trigger] at[k];
                    &&& 0 <= i < MAX_TEXTURE_SLOTS
                    &&& state.texture_slots[i].sampler_index matches Some(s)
                    &&& textures.contains(i) || samplers.contains(s as int)
                    &&& commands[k] matches Command::BindSampler(slot, sampler)
                    &&& slot == i
                    &&& state.samplers[s as int] == Some(sampler)
                }
            &&& forall|i: int|
                {
                    &&& 0 <= i < MAX_TEXTURE_SLOTS
                    &&& state.texture_slots[i].sampler_index matches Some(s)
                    &&& textures.contains(i) || samplers.contains(s as int)
                    &&& state.samplers[s as int] is Some
                } ==> #[trigger] at.contains(i)
        }),
{
    lemma_collect_order(
        MAX_TEXTURE_SLOTS as nat,
        |i: int| state.sampler_command(textures, samplers, i),
    )
}

/// A program is used, and after that the samplers are bound to the texture slots
/// that it samples with another sampler than before, each once and in order. The
/// result is those slots. The slots hold the textures that they held.
pub proof fn law_program_is_used(encoder: EncoderView, inner: PipelineInner) -> (at: Seq<int>)
    requires
        encoder.wf(),
    ensures
        ({
            let used = encoder.set_pipeline_inner(inner);
            let added = encoder.added(used);
            let (before, after) = (encoder.state.texture_slots, used.state.texture_slots);
            &&& encoder.only_adds(used)
            &&& increasing(at)
            &&& added.len() == 1 + at.len()
            &&& added[0] == Command::<Seq<u32>>::SetProgram(inner.program)
            &&& forall|k: int|
                0 <= k < at.len() ==> {
                    let i = #[trigger] at[k];
                    &&& 0 <= i < MAX_TEXTURE_SLOTS
                    &&& before[i].sampler_index != inner.sampler_map@[i]
                    &&& inner.sampler_map@[i] matches Some(s)
                    &&& added[1 + k] matches Command::BindSampler(slot, sampler)
                    &&& slot == i
                    &&& encoder.state.samplers[s as int] == Some(sampler)
                }
            &&& forall|i: int|
                {
                    &&& 0 <= i < MAX_TEXTURE_SLOTS
                    &&& before[i].sampler_index != inner.sampler_map@[i]
                    &&& inner.sampler_map@[i] matches Some(s)
                    &&& encoder.state.samplers[s as int] is Some
                } ==> #[trigger] at.contains(i)
            &&& after.len() == before.len()
            &&& forall|i: int|
                0 <= i < MAX_TEXTURE_SLOTS ==> (#[trigger] after[i]).sampler_index
                    == inner.sampler_map@[i] && after[i].tex_target == before[i].tex_target
            &&& used.state == (StateView { texture_slots: after, ..encoder.state })
        }),
{
    let used = encoder.set_pipeline_inner(inner);
    let changed = encoder.state.resampled_slots(inner);
    let binds = used.state.sampler_commands(changed, Set::empty(), MAX_TEXTURE_SLOTS as nat);
    lemma_added(encoder, used.state, seq![Command::SetProgram(inner.program)] + binds);
    let at = law_samplers_are_bound(used.state, changed, Set::empty());
    assert forall|i: int|
        {
            &&& 0 <= i < MAX_TEXTURE_SLOTS
            &&& encoder.state.texture_slots[i].sampler_index != inner.sampler_map@[i]
            &&& inner.sampler_map@[i] matches Some(s)
            &&& encoder.state.samplers[s as int] is Some
        } implies #[trigger] at.contains(i) by {
        assert(changed.contains(i));
        assert(used.state.texture_slots[i].sampler_index == inner.sampler_map@[i]);
    }
    assert forall|k: int| 0 <= k < at.len() implies {
        let i = #[trigger] at[k];
        &&& 0 <= i < MAX_TEXTURE_SLOTS
        &&& encoder.state.texture_slots[i].sampler_index != inner.sampler_map@[i]
        &&& inner.sampler_map@[i] matches Some(s)
        &&& encoder.added(used)[1 + k] matches Command::BindSampler(slot, sampler)
        &&& slot == i
        &&& encoder.state.samplers[s as int] == Some(sampler)
    } by {
        let i = at[k];
        assert(used.state.texture_slots[i].sampler_index == inner.sampler_map@[i]);
        assert(encoder.added(used)[1 + k] == binds[k]);
    }
    at
}

// Bind groups
/// Whether resource `j` of a group is bound, and to the given slot: the layout
/// and the group both have it, and the layout gives its number that slot.
pub open spec fn lies_in(info: BindGroupLayoutInfo, group: BindGroup, j: int, slot: int) -> bool {
    &&& 0 <= j < info.entries@.len()
    &&& j < group.contents@.len()
    &&& info.binding_to_slot@[info.entries@[j].binding as int] == slot
}

/// Whether resource `j` of a group is a buffer that takes a dynamic offset.
pub open spec fn is_dynamic(info: BindGroupLayoutInfo, group: BindGroup, j: int) -> bool {
    &&& group.contents@[j] is Buffer
    &&& info.entries@[j].ty matches BindingType::Buffer { has_dynamic_offset, .. }
        && has_dynamic_offset
}

proof fn lemma_dynamic(info: BindGroupLayoutInfo, group: BindGroup, n: nat) -> (dynamic: Seq<int>)
    ensures
        dynamic.len() == offsets_before(info, group, n as int),
        increasing(dynamic),
        forall|d: int|
            0 <= d < dynamic.len() ==> {
                let j = #[trigger] dynamic[d];
                &&& 0 <= j < n
                &&& is_dynamic(info, group, j)
                &&& offsets_before(info, group, j) == d
            },
        forall|j: int| 0 <= j < n && is_dynamic(info, group, j) ==> #[trigger] dynamic.contains(j),
    decreases n,
{
    if n == 0 {
        Seq::empty()
    } else {
        let earlier = lemma_dynamic(info, group, (n - 1) as nat);
        if is_dynamic(info, group, n - 1) {
            assert(takes_offset(info, group, n - 1));
            let dynamic = earlier.push(n - 1);
            assert(dynamic[dynamic.len() - 1] == n - 1);
            assert forall|j: int| 0 <= j < n && is_dynamic(info, group, j) implies
                #[trigger] dynamic.contains(j) by {
                if j < n - 1 {
                    assert(earlier.contains(j));
                    let d = choose|d: int| 0 <= d < earlier.len() && earlier[d] == j;
                    assert(dynamic[d] == j);
                }
            }
            dynamic
        } else {
            assert(!takes_offset(info, group, n - 1));
            earlier
        }
    }
}

/// The resources of a group but for the samplers are bound first, each once, in
/// order and to its slot: buffers to the target of their kind, with their size
/// and at their offset; textures to their target; images as they are. The
/// dynamic offsets go to the buffers that take one, in order: the one after
/// another is added, as a signed number, to the buffer's own. The results are
/// the resources that are bound and the buffers that take an offset.
pub proof fn law_group_binds_its_resources(
    encoder: EncoderView,
    info: BindGroupLayoutInfo,
    group: BindGroup,
    offsets: Seq<DynamicOffset>,
) -> (r: (Seq<int>, Seq<int>))
    ensures
        ({
            let (at, dynamic) = r;
            let bound = encoder.set_bind_group(info, group, offsets);
            let added = encoder.added(bound);
            let (entries, contents) = (info.entries@, group.contents@);
            &&& encoder.only_adds(bound)
            &&& increasing(at)
            &&& at.len() <= added.len()
            &&& forall|k: int|
                at.len() <= k < added.len() ==> (#[trigger] added[k]) is BindSampler
            &&& forall|k: int|
                #![trigger at[k]]
                0 <= k < at.len() ==> {
                    let j = at[k];
                    match contents[j] {
                        RawBinding::Buffer { raw, offset, size } => {
                            &&& added[k] matches Command::BindBuffer {
                                target,
                                slot,
                                buffer,
                                offset: place,
                                size: extent,
                            }
                            &&& lies_in(info, group, j, slot as int)
                            &&& buffer == raw
                            &&& extent == size
                            &&& !is_dynamic(info, group, j) ==> place == offset
                            &&& entries[j].ty matches BindingType::Buffer { ty, .. } ==> (match ty {
                                BufferBindingType::Uniform => target == gl::UNIFORM_BUFFER,
                                BufferBindingType::Storage { read_only: _ } => target
                                    == gl::SHADER_STORAGE_BUFFER,
                            })
                        },
                        RawBinding::Texture { raw, target } => {
                            &&& added[k] matches Command::BindTexture {
                                slot,
                                texture,
                                target: bound_target,
                            }
                            &&& lies_in(info, group, j, slot as int)
                            &&& texture == raw
                            &&& bound_target == target
                        },
                        RawBinding::Image(image) => {
                            &&& added[k] matches Command::BindImage { slot, binding }
                            &&& lies_in(info, group, j, slot as int)
                            &&& binding == image
                        },
                        RawBinding::Sampler(_) => false,
                    }
                }
            &&& forall|j: int|
                0 <= j < entries.len() && j < contents.len() && !(contents[j] is Sampler)
                    ==> #[trigger] at.contains(j)
            &&& increasing(dynamic)
            &&& forall|d: int|
                0 <= d < dynamic.len() ==> is_dynamic(info, group, #[trigger] dynamic[d])
                    && 0 <= dynamic[d] < entries.len() && dynamic[d] < contents.len()
            &&& forall|j: int|
                0 <= j < entries.len() && j < contents.len() && is_dynamic(info, group, j)
                    ==> #[trigger] dynamic.contains(j)
            &&& forall|k: int, d: int|
                #![trigger at[k], dynamic[d]]
                0 <= k < at.len() && 0 <= d < dynamic.len() && at[k] == dynamic[d] ==> {
                    &&& added[k] matches Command::BindBuffer { offset: place, .. }
                    &&& contents[at[k]] matches RawBinding::Buffer { offset, .. }
                    &&& i32::MIN <= offset + (offsets[d] as i32) <= i32::MAX ==> place == offset + (
                    offsets[d] as i32)
                }
        }),
{
    let n = binding_count(info, group);
    let state = encoder.state.with_bindings(info, group, n);
    let binds = binding_commands(info, group, offsets, n);
    let textures = bound_textures(info, group, n);
    let samplers = bound_samplers(info, group, n);
    let rebinds = state.sampler_commands(textures, samplers, MAX_TEXTURE_SLOTS as nat);
    lemma_added(encoder, state, binds + rebinds);
    let added = binds + rebinds;
    let at = lemma_collect_order(n, |j: int| binding_command(info, group, offsets, j));
    let dynamic = lemma_dynamic(info, group, n);
    let rebound = law_samplers_are_bound(state, textures, samplers);
    assert forall|k: int| at.len() <= k < added.len() implies (
    #[trigger] added[k]) is BindSampler by {
        assert(added[k] == rebinds[k - at.len()]);
        assert(0 <= rebound[k - at.len()]);
    }
    assert forall|k: int| #![trigger at[k]] 0 <= k < at.len() implies added[k] == binding_command(
        info,
        group,
        offsets,
        at[k],
    )->0 by {}
    (at, dynamic)
}

/// Whether a group binds a texture to a slot.
pub open spec fn has_texture(info: BindGroupLayoutInfo, group: BindGroup, slot: int) -> bool {
    exists|j: int| #[trigger] lies_in(info, group, j, slot) && group.contents@[j] is Texture
}

/// Whether a group binds a sampler to a slot.
pub open spec fn has_sampler(info: BindGroupLayoutInfo, group: BindGroup, slot: int) -> bool {
    exists|j: int| #[trigger] lies_in(info, group, j, slot) && group.contents@[j] is Sampler
}

proof fn lemma_bound(info: BindGroupLayoutInfo, group: BindGroup, n: nat, slot: int)
    requires
        n <= binding_count(info, group),
    ensures
        bound_textures(info, group, n).contains(slot) <==> exists|j: int|
            j < n && #[trigger] lies_in(info, group, j, slot) && group.contents@[j] is Texture,
        bound_samplers(info, group, n).contains(slot) <==> exists|j: int|
            j < n && #[trigger] lies_in(info, group, j, slot) && group.contents@[j] is Sampler,
    decreases n,
{
    if n > 0 {
        lemma_bound(info, group, (n - 1) as nat, slot);
        if info.binding_to_slot@[info.entries@[n - 1].binding as int] == slot {
            assert(lies_in(info, group, n - 1, slot));
        }
    }
}

/// After its resources, the samplers of a group are bound, to the texture slots
/// that are sampled with them, and those of the slots that it binds a texture to,
/// each slot once and in order. The result is those slots.
pub proof fn law_group_rebinds_samplers(
    encoder: EncoderView,
    info: BindGroupLayoutInfo,
    group: BindGroup,
    offsets: Seq<DynamicOffset>,
) -> (at: Seq<int>)
    ensures
        ({
            let bound = encoder.set_bind_group(info, group, offsets);
            let added = encoder.added(bound);
            let first = added.len() - at.len();
            &&& increasing(at)
            &&& first >= 0
            &&& forall|k: int| 0 <= k < first ==> !((#[trigger] added[k]) is BindSampler)
            &&& forall|k: int|
                0 <= k < at.len() ==> {
                    let i = #[trigger] at[k];
                    &&& 0 <= i < MAX_TEXTURE_SLOTS
                    &&& bound.state.texture_slots[i].sampler_index matches Some(s)
                    &&& has_texture(info, group, i) || has_sampler(info, group, s as int)
                    &&& added[first + k] matches Command::BindSampler(slot, sampler)
                    &&& slot == i
                    &&& bound.state.samplers[s as int] == Some(sampler)
                }
            &&& forall|i: int|
                {
                    &&& 0 <= i < MAX_TEXTURE_SLOTS
                    &&& bound.state.texture_slots[i].sampler_index matches Some(s)
                    &&& has_texture(info, group, i) || has_sampler(info, group, s as int)
                    &&& bound.state.samplers[s as int] is Some
                } ==> #[trigger] at.contains(i)
        }),
{
    let bound = encoder.set_bind_group(info, group, offsets);
    let n = binding_count(info, group);
    let state = encoder.state.with_bindings(info, group, n);
    let binds = binding_commands(info, group, offsets, n);
    let textures = bound_textures(info, group, n);
    let samplers = bound_samplers(info, group, n);
    let rebinds = state.sampler_commands(textures, samplers, MAX_TEXTURE_SLOTS as nat);
    lemma_added(encoder, state, binds + rebinds);
    lemma_binding_commands_bind(info, group, offsets, n);
    let added = binds + rebinds;
    let at = law_samplers_are_bound(state, textures, samplers);
    let first = added.len() - at.len();
    assert(first == binds.len());
    assert forall|slot: int|
        (#[trigger] textures.contains(slot) <==> has_texture(info, group, slot)) && (
        samplers.contains(slot) <==> has_sampler(info, group, slot)) by {
        lemma_bound(info, group, n, slot);
    }
    assert forall|slot: int| #[trigger]
        samplers.contains(slot) <==> has_sampler(info, group, slot) by {
        lemma_bound(info, group, n, slot);
    }
    assert forall|k: int| 0 <= k < at.len() implies {
        let i = #[trigger] at[k];
        &&& 0 <= i < MAX_TEXTURE_SLOTS
        &&& bound.state.texture_slots[i].sampler_index matches Some(s)
        &&& has_texture(info, group, i) || has_sampler(info, group, s as int)
        &&& added[first + k] matches Command::BindSampler(slot, sampler)
        &&& slot == i
        &&& bound.state.samplers[s as int] == Some(sampler)
    } by {
        assert(added[first + k] == rebinds[k]);
    }
    assert forall|i: int|
        {
            &&& 0 <= i < MAX_TEXTURE_SLOTS
            &&& bound.state.texture_slots[i].sampler_index matches Some(s)
            &&& has_texture(info, group, i) || has_sampler(info, group, s as int)
            &&& bound.state.samplers[s as int] is Some
        } implies #[trigger] at.contains(i) by {
        let s = bound.state.texture_slots[i].sampler_index->0;
        assert(textures.contains(i) || samplers.contains(s as int));
    }
    at
}

/// Whether resource `j` is the last sampler, of the first `n` resources, that a
/// group binds to a slot.
pub open spec fn last_sampler(
    info: BindGroupLayoutInfo,
    group: BindGroup,
    n: nat,
    slot: int,
    j: int,
) -> bool {
    &&& j < n
    &&& lies_in(info, group, j, slot)
    &&& group.contents@[j] is Sampler
    &&& forall|l: int|
        j < l < n && #[trigger] lies_in(info, group, l, slot) ==> !(
        group.contents@[l] is Sampler)
}

/// Whether resource `j` is the last texture, of the first `n` resources, that a
/// group binds to a slot.
pub open spec fn last_texture(
    info: BindGroupLayoutInfo,
    group: BindGroup,
    n: nat,
    slot: int,
    j: int,
) -> bool {
    &&& j < n
    &&& lies_in(info, group, j, slot)
    &&& group.contents@[j] is Texture
    &&& forall|l: int|
        j < l < n && #[trigger] lies_in(info, group, l, slot) ==> !(
        group.contents@[l] is Texture)
}

/// Whether the textures and samplers of a group have slots that there are.
pub open spec fn has_slots(info: BindGroupLayoutInfo, group: BindGroup) -> bool {
    forall|j: int, slot: int|
        #[trigger] lies_in(info, group, j, slot) ==> {
            &&& group.contents@[j] is Sampler ==> slot < MAX_SAMPLERS
            &&& group.contents@[j] is Texture ==> slot < MAX_TEXTURE_SLOTS
        }
}

/// A sampler slot holds the last sampler that a group binds to it, or what it
/// held where there is none; a texture slot has the target of the last texture
/// likewise. Nothing else of the state changes, nor what textures are sampled
/// with.
pub proof fn law_group_fills_its_slots(
    encoder: EncoderView,
    info: BindGroupLayoutInfo,
    group: BindGroup,
    offsets: Seq<DynamicOffset>,
    slot: int,
)
    requires
        encoder.wf(),
        has_slots(info, group),
        0 <= slot < MAX_TEXTURE_SLOTS,
    ensures
        ({
            let bound = encoder.set_bind_group(info, group, offsets);
            let (before, after) = (encoder.state, bound.state);
            let contents = group.contents@;
            &&& after == (StateView {
                samplers: after.samplers,
                texture_slots: after.texture_slots,
                ..before
            })
            &&& after.samplers.len() == before.samplers.len()
            &&& after.texture_slots.len() == before.texture_slots.len()
            &&& after.texture_slots[slot].sampler_index == before.texture_slots[slot].sampler_index
            &&& !has_sampler(info, group, slot) ==> after.samplers[slot] == before.samplers[slot]
            &&& !has_texture(info, group, slot) ==> after.texture_slots[slot].tex_target
                == before.texture_slots[slot].tex_target
            &&& forall|j: int| #[trigger]
                last_sampler(info, group, contents.len(), slot, j) ==> after.samplers[slot] == Some(
                    contents[j]->Sampler_0,
                )
            &&& forall|j: int| #[trigger]
                last_texture(info, group, contents.len(), slot, j)
                    ==> after.texture_slots[slot].tex_target == contents[j]->Texture_target
        }),
{
    let n = binding_count(info, group);
    let contents = group.contents@;
    lemma_filled(encoder.state, info, group, n, slot);
    assert forall|j: int| #[trigger]
        last_sampler(info, group, contents.len(), slot, j) implies last_sampler(
        info,
        group,
        n,
        slot,
        j,
    ) by {}
    assert forall|j: int| #[trigger]
        last_texture(info, group, contents.len(), slot, j) implies last_texture(
        info,
        group,
        n,
        slot,
        j,
    ) by {}
}

proof fn lemma_filled(
    before: StateView,
    info: BindGroupLayoutInfo,
    group: BindGroup,
    n: nat,
    slot: int,
)
    requires
        before.wf(),
        has_slots(info, group),
        0 <= slot < MAX_TEXTURE_SLOTS,
        n <= binding_count(info, group),
    ensures
        ({
            let after = before.with_bindings(info, group, n);
            let contents = group.contents@;
            &&& after == (StateView {
                samplers: after.samplers,
                texture_slots: after.texture_slots,
                ..before
            })
            &&& after.samplers.len() == MAX_SAMPLERS
            &&& after.texture_slots.len() == MAX_TEXTURE_SLOTS
            &&& after.texture_slots[slot].sampler_index == before.texture_slots[slot].sampler_index
            &&& (forall|j: int|
                j < n && #[trigger] lies_in(info, group, j, slot) ==> !(contents[j] is Sampler))
                ==> after.samplers[slot] == before.samplers[slot]
            &&& (forall|j: int|
                j < n && #[trigger] lies_in(info, group, j, slot) ==> !(contents[j] is Texture))
                ==> after.texture_slots[slot].tex_target == before.texture_slots[slot].tex_target
            &&& forall|j: int| #[trigger]
                last_sampler(info, group, n, slot, j) ==> after.samplers[slot] == Some(
                    contents[j]->Sampler_0,
                )
            &&& forall|j: int| #[trigger]
                last_texture(info, group, n, slot, j) ==> after.texture_slots[slot].tex_target
                    == contents[j]->Texture_target
        }),
    decreases n,
{
    if n > 0 {
        lemma_filled(before, info, group, (n - 1) as nat, slot);
        let last = info.binding_to_slot@[info.entries@[n - 1].binding as int] as int;
        assert(lies_in(info, group, n - 1, last));
        assert forall|j: int| #[trigger] last_sampler(info, group, n, slot, j) && j < n - 1 implies
            last_sampler(info, group, (n - 1) as nat, slot, j) && !(last == slot
            && group.contents@[n - 1] is Sampler) by {}
        assert forall|j: int| #[trigger] last_texture(info, group, n, slot, j) && j < n - 1 implies
            last_texture(info, group, (n - 1) as nat, slot, j) && !(last == slot
            && group.contents@[n - 1] is Texture) by {}
    }
}

} // verus!
