//! Bind groups, programs and samplers.
use gles_command::command::Command;
use gles_command::encoder::CommandEncoder;
use gles_command::flags::PrivateCapabilities;
use gles_command::types::{
    BindGroup, BindGroupLayoutEntry, BindGroupLayoutInfo, BindingType, BufferBindingType,
    ComputePipeline, ImageBinding, PipelineInner, PipelineLayout, RawBinding, MAX_TEXTURE_SLOTS,
};

fn encoder() -> CommandEncoder {
    CommandEncoder::new(PrivateCapabilities { bits: 0 })
}

fn buffer_type(ty: BufferBindingType, has_dynamic_offset: bool) -> BindingType {
    BindingType::Buffer { ty, has_dynamic_offset }
}

/// A layout of one group, whose binding `i` has the type `types[i]` and the
/// slot `slots[i]`.
fn layout(types: &[BindingType], slots: &[u8]) -> PipelineLayout {
    let entries = types
        .iter()
        .enumerate()
        .map(|(binding, ty)| BindGroupLayoutEntry { binding: binding as u32, ty: *ty })
        .collect();
    PipelineLayout {
        group_infos: vec![BindGroupLayoutInfo { entries, binding_to_slot: slots.to_vec() }],
    }
}

fn program(program: u32, samplers: &[(usize, u8)]) -> PipelineInner {
    let mut sampler_map = [None; MAX_TEXTURE_SLOTS];
    for (slot, sampler) in samplers.iter() {
        sampler_map[*slot] = Some(*sampler);
    }
    PipelineInner { program, sampler_map }
}

fn raw_buffer(raw: u32, offset: i32) -> RawBinding {
    RawBinding::Buffer { raw, offset, size: 64 }
}

#[test]
fn dynamic_offsets_go_to_the_buffers_that_take_them_in_order() {
    let mut encoder = encoder();
    let uniform = BufferBindingType::Uniform;
    let storage = BufferBindingType::Storage { read_only: true };
    let layout = layout(
        &[
            buffer_type(uniform, true),
            buffer_type(storage, false),
            BindingType::Sampler,
            buffer_type(storage, true),
        ],
        &[4, 5, 6, 7],
    );
    let group = BindGroup {
        contents: vec![
            raw_buffer(1, 16),
            raw_buffer(2, 32),
            RawBinding::Sampler(90),
            raw_buffer(3, 0),
        ],
    };
    encoder.set_bind_group(&layout, 0, &group, &[256, 512]);
    assert_eq!(
        encoder.cmd_buffer.commands,
        vec![
            Command::BindBuffer { target: 0x8A11, slot: 4, buffer: 1, offset: 272, size: 64 },
            Command::BindBuffer { target: 0x90D2, slot: 5, buffer: 2, offset: 32, size: 64 },
            Command::BindBuffer { target: 0x90D2, slot: 7, buffer: 3, offset: 512, size: 64 },
        ]
    );
    assert_eq!(encoder.state.samplers[6], Some(90));
}

#[test]
fn a_dynamic_offset_is_read_as_a_signed_number() {
    let mut encoder = encoder();
    let layout = layout(&[buffer_type(BufferBindingType::Uniform, true)], &[0]);
    let group = BindGroup { contents: vec![raw_buffer(1, 100)] };
    encoder.set_bind_group(&layout, 0, &group, &[0xFFFF_FFF6]);
    assert_eq!(
        encoder.cmd_buffer.commands,
        vec![Command::BindBuffer { target: 0x8A11, slot: 0, buffer: 1, offset: 90, size: 64 }]
    );
}

#[test]
fn slots_are_found_by_the_number_of_the_binding() {
    let mut encoder = encoder();
    let entry = |binding: u32| BindGroupLayoutEntry { binding, ty: BindingType::Texture };
    let layout = PipelineLayout {
        group_infos: vec![
            BindGroupLayoutInfo { entries: vec![], binding_to_slot: vec![] },
            BindGroupLayoutInfo {
                entries: vec![entry(2), entry(0)],
                binding_to_slot: vec![8, 255, 9],
            },
        ],
    };
    let group = BindGroup {
        contents: vec![
            RawBinding::Texture { raw: 50, target: 0x0DE1 },
            RawBinding::Texture { raw: 51, target: 0x8513 },
        ],
    };
    encoder.set_bind_group(&layout, 1, &group, &[]);
    assert_eq!(
        encoder.cmd_buffer.commands,
        vec![
            Command::BindTexture { slot: 9, texture: 50, target: 0x0DE1 },
            Command::BindTexture { slot: 8, texture: 51, target: 0x8513 },
        ]
    );
    assert_eq!(encoder.state.texture_slots[9].tex_target, 0x0DE1);
    assert_eq!(encoder.state.texture_slots[8].tex_target, 0x8513);
}

#[test]
fn images_are_bound_as_they_are() {
    let mut encoder = encoder();
    let layout = layout(&[BindingType::StorageTexture], &[200]);
    let image = ImageBinding {
        raw: 60,
        mip_level: 1,
        array_layer: Some(2),
        access: 0x88BA,
        format: 0x8058,
    };
    let group = BindGroup { contents: vec![RawBinding::Image(image)] };
    encoder.set_bind_group(&layout, 0, &group, &[]);
    assert_eq!(
        encoder.cmd_buffer.commands,
        vec![Command::BindImage { slot: 200, binding: image }]
    );
}

#[test]
fn what_only_the_layout_or_only_the_group_has_is_not_bound() {
    let mut encoder = encoder();
    let layout = layout(&[BindingType::Texture, BindingType::Texture], &[0, 1]);
    let texture = RawBinding::Texture { raw: 50, target: 0x0DE1 };
    encoder.set_bind_group(&layout, 0, &BindGroup { contents: vec![texture] }, &[]);
    encoder.set_bind_group(
        &layout,
        0,
        &BindGroup { contents: vec![texture, texture, texture] },
        &[],
    );
    assert_eq!(encoder.cmd_buffer.commands.len(), 3);
}

#[test]
fn a_sampler_is_bound_to_each_texture_that_is_sampled_with_it() {
    let mut encoder = encoder();
    encoder.set_pipeline_inner(&program(3, &[(0, 2), (5, 2), (6, 1)]));
    assert_eq!(encoder.cmd_buffer.commands, vec![Command::SetProgram(3)]);
    let layout = layout(&[BindingType::Sampler], &[2]);
    encoder.set_bind_group(&layout, 0, &BindGroup { contents: vec![RawBinding::Sampler(70)] }, &[]);
    assert_eq!(
        encoder.cmd_buffer.commands[1..],
        [Command::BindSampler(0, 70), Command::BindSampler(5, 70)]
    );
}

#[test]
fn a_texture_brings_its_sampler() {
    let mut encoder = encoder();
    encoder.set_pipeline_inner(&program(3, &[(0, 2), (5, 2)]));
    let samplers = layout(&[BindingType::Sampler], &[2]);
    let textures = layout(&[BindingType::Texture], &[5]);
    let sampler = BindGroup { contents: vec![RawBinding::Sampler(70)] };
    let texture = BindGroup { contents: vec![RawBinding::Texture { raw: 50, target: 0x0DE1 }] };
    encoder.set_bind_group(&samplers, 0, &sampler, &[]);
    encoder.cmd_buffer.commands.clear();
    encoder.set_bind_group(&textures, 0, &texture, &[]);
    assert_eq!(
        encoder.cmd_buffer.commands,
        vec![
            Command::BindTexture { slot: 5, texture: 50, target: 0x0DE1 },
            Command::BindSampler(5, 70),
        ]
    );
}

#[test]
fn another_program_rebinds_the_slots_it_samples_otherwise() {
    let mut encoder = encoder();
    let layout = layout(&[BindingType::Sampler, BindingType::Sampler], &[1, 2]);
    let group = BindGroup { contents: vec![RawBinding::Sampler(71), RawBinding::Sampler(72)] };
    encoder.set_bind_group(&layout, 0, &group, &[]);
    assert!(encoder.cmd_buffer.commands.is_empty());
    encoder.set_pipeline_inner(&program(3, &[(0, 1), (15, 2)]));
    encoder.set_pipeline_inner(&program(4, &[(0, 2), (15, 2)]));
    encoder.set_pipeline_inner(&program(4, &[(0, 2), (15, 2)]));
    encoder.set_pipeline_inner(&program(5, &[(15, 7)]));
    assert_eq!(
        encoder.cmd_buffer.commands,
        vec![
            Command::SetProgram(3),
            Command::BindSampler(0, 71),
            Command::BindSampler(15, 72),
            Command::SetProgram(4),
            Command::BindSampler(0, 72),
            Command::SetProgram(4),
            Command::SetProgram(5),
        ]
    );
    assert_eq!(encoder.state.texture_slots[0].sampler_index, None);
    assert_eq!(encoder.state.texture_slots[15].sampler_index, Some(7));
}

#[test]
fn samplers_are_rebound_by_texture_or_by_sampler() {
    let mut encoder = encoder();
    encoder.set_pipeline_inner(&program(3, &[(0, 1), (1, 2), (2, 3), (3, 4)]));
    encoder.state.samplers[1] = Some(71);
    encoder.state.samplers[2] = Some(72);
    encoder.state.samplers[3] = Some(73);
    encoder.cmd_buffer.commands.clear();
    encoder.rebind_sampler_states(0b1001, 0b0100);
    assert_eq!(
        encoder.cmd_buffer.commands,
        vec![Command::BindSampler(0, 71), Command::BindSampler(1, 72)]
    );
}

#[test]
fn a_compute_pipeline_is_a_program() {
    let mut encoder = encoder();
    encoder.set_compute_pipeline(&ComputePipeline { inner: program(8, &[]) });
    assert_eq!(encoder.cmd_buffer.commands, vec![Command::SetProgram(8)]);
}
