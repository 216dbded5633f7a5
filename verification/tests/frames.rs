//! Whole frames: what holds over many operations.
use gles_command::command::{Command, CommandBuffer};
use gles_command::encoder::CommandEncoder;
use gles_command::flags::{AttachmentOps, FormatAspects, PrivateCapabilities};
use gles_command::floats::FloatBits;
use gles_command::lists::Invalidated;
use gles_command::types::{
    Attachment, AttributeDesc, BindGroup, BindGroupLayoutEntry, BindGroupLayoutInfo, BindingType,
    Buffer, BufferRegion, ClearColor, ColorAttachment, ColorTargetDesc, ColorWrites,
    ComputePassDescriptor, DepthBiasState, DepthState, Extent3d, IndexFormat, InputStepMode,
    PipelineInner, PipelineLayout, PrimitiveState, QuerySet, RawBinding, RenderPassDescriptor,
    RenderPipeline, StencilSide, StencilState, TextureInner, TextureSampleType, TextureView,
    VertexAttribKind, VertexBufferDesc, VertexFormatDesc, MAX_TEXTURE_SLOTS,
};

type Recorded = Command<Invalidated>;

fn view(raw: u32) -> TextureView {
    TextureView {
        inner: TextureInner::Texture { raw, target: 0x0DE1 },
        sample_type: TextureSampleType::Float { filterable: false },
        aspects: FormatAspects { bits: FormatAspects::COLOR },
        mip_levels: 0..1,
        array_layers: 0..1,
    }
}

fn color() -> ColorAttachment {
    ColorAttachment {
        target: Attachment { view: view(50) },
        resolve_target: Some(Attachment { view: view(60) }),
        ops: AttachmentOps { bits: 0 },
        clear_value: ClearColor {
            float: [FloatBits { bits: 0 }; 4],
            uint: [0; 4],
            sint: [0; 4],
        },
    }
}

fn pipeline(program: u32) -> RenderPipeline {
    let mut sampler_map = [None; MAX_TEXTURE_SLOTS];
    sampler_map[3] = Some(1);
    RenderPipeline {
        inner: PipelineInner { program, sampler_map },
        topology: 4,
        primitive: PrimitiveState { front_face: 0x0901, cull_face: program, clamp_depth: false },
        vertex_buffers: vec![VertexBufferDesc { step: InputStepMode::Vertex, stride: 12 }],
        vertex_attributes: vec![AttributeDesc {
            location: 0,
            offset: 0,
            buffer_index: 0,
            format_desc: VertexFormatDesc {
                element_count: 3,
                element_format: 0x1406,
                attrib_kind: VertexAttribKind::Float,
            },
        }],
        color_targets: vec![ColorTargetDesc { mask: ColorWrites { bits: program }, blend: None }],
        depth: Some(DepthState { function: 0x0203, mask: true }),
        depth_bias: DepthBiasState {
            constant: program as i32,
            slope_scale: FloatBits { bits: 0 },
            clamp: FloatBits { bits: 0 },
        },
        stencil: Some(StencilState {
            front: StencilSide::default(),
            back: StencilSide { function: program, ..StencilSide::default() },
        }),
    }
}

fn sampler_layout() -> PipelineLayout {
    PipelineLayout {
        group_infos: vec![BindGroupLayoutInfo {
            entries: vec![BindGroupLayoutEntry { binding: 0, ty: BindingType::Sampler }],
            binding_to_slot: vec![1],
        }],
    }
}

/// The steps of a frame, which can be taken one at a time.
fn step(encoder: &mut CommandEncoder, number: usize) {
    let buffer = Buffer { raw: 30, target: 0x8892 };
    let set = QuerySet { queries: vec![1, 2], target: 0x8C2F };
    match number {
        0 => encoder.begin_render_pass(&RenderPassDescriptor {
            label: Some("frame"),
            extent: Extent3d { width: 8, height: 4, depth_or_array_layers: 1 },
            color_attachments: &[color()],
            depth_stencil_attachment: None,
        }),
        1 => encoder.set_render_pipeline(&pipeline(5)),
        2 => encoder.set_bind_group(
            &sampler_layout(),
            0,
            &BindGroup { contents: vec![RawBinding::Sampler(77)] },
            &[],
        ),
        3 => encoder.set_vertex_buffer(0, BufferRegion { buffer: &buffer, offset: 4 }),
        4 => encoder.draw(0, 3, 0, 1),
        5 => encoder.insert_debug_marker("between"),
        6 => encoder.set_render_pipeline(&pipeline(6)),
        7 => encoder.set_stencil_reference(2),
        8 => encoder.set_index_buffer(
            BufferRegion { buffer: &buffer, offset: 0 },
            IndexFormat::Uint16,
        ),
        9 => encoder.draw_indexed(0, 3, 0, 2, 1),
        10 => encoder.end_render_pass(),
        11 => encoder.begin_compute_pass(&ComputePassDescriptor { label: Some("after") }),
        12 => encoder.dispatch([1, 1, 1]),
        13 => encoder.end_compute_pass(),
        _ => encoder.copy_query_results(&set, 0..2, &buffer, 0, 8),
    }
}

const STEPS: usize = 15;

fn run(from: usize, to: usize, encoder: &mut CommandEncoder) {
    for number in from..to {
        step(encoder, number);
    }
}

fn encoder() -> CommandEncoder {
    CommandEncoder::new(PrivateCapabilities { bits: PrivateCapabilities::VERTEX_BUFFER_LAYOUT })
}

fn recorded(steps: usize) -> CommandBuffer {
    let mut encoder = encoder();
    run(0, steps, &mut encoder);
    encoder.cmd_buffer
}

/// How many groups are open after commands.
fn depth(commands: &[Recorded]) -> i32 {
    commands.iter().fold(0, |depth, command| match command {
        Command::PushDebugGroup(_) => depth + 1,
        Command::PopDebugGroup => depth - 1,
        _ => depth,
    })
}

#[test]
fn recording_only_appends() {
    let whole = recorded(STEPS);
    for steps in 0..STEPS {
        let part = recorded(steps);
        assert_eq!(part.label, whole.label);
        assert_eq!(part.commands[..], whole.commands[..part.commands.len()]);
        assert_eq!(part.data_bytes[..], whole.data_bytes[..part.data_bytes.len()]);
        assert_eq!(part.data_words[..], whole.data_words[..part.data_words.len()]);
    }
}

#[test]
fn what_is_tracked_is_what_the_commands_leave_behind() {
    for steps in 2..10 {
        let mut encoder = encoder();
        run(0, steps, &mut encoder);
        let commands = &encoder.cmd_buffer.commands;
        let mut primitive = None;
        let mut bias = None;
        let mut target = None;
        let mut front = None;
        let mut back = None;
        let mut sampler = None;
        for command in commands.iter() {
            match command {
                Command::SetPrimitive(set) => primitive = Some(*set),
                Command::SetDepthBias(set) => bias = Some(*set),
                Command::SetColorTarget { desc, .. } => target = Some(*desc),
                Command::SetStencilFunc { face, function, reference, read_mask } => {
                    let test = Some((*function, *reference, *read_mask));
                    if *face != 0x0405 {
                        front = test;
                    }
                    if *face != 0x0404 {
                        back = test;
                    }
                }
                Command::BindSampler(3, bound) => sampler = Some(*bound),
                _ => {}
            }
        }
        let state = &encoder.state;
        let test = |side: &StencilSide| Some((side.function, side.reference, side.mask_read));
        assert_eq!(primitive, Some(state.primitive));
        assert_eq!(bias, Some(state.depth_bias));
        assert_eq!(target, state.color_targets.first().cloned());
        assert_eq!(front, test(&state.stencil.front));
        assert_eq!(back, test(&state.stencil.back));
        assert_eq!(sampler, state.samplers[1]);
    }
}

#[test]
fn passes_close_the_groups_that_they_open() {
    assert_eq!(depth(&recorded(0).commands), 0);
    for steps in 1..11 {
        assert_eq!(depth(&recorded(steps).commands), 1);
    }
    assert_eq!(depth(&recorded(11).commands), 0);
    assert_eq!(depth(&recorded(12).commands), 1);
    assert_eq!(depth(&recorded(STEPS).commands), 0);
}

#[test]
fn a_group_in_a_pass_is_closed_by_itself() {
    let mut encoder = encoder();
    run(0, 2, &mut encoder);
    encoder.begin_debug_marker("inner");
    run(2, 10, &mut encoder);
    encoder.end_debug_marker();
    encoder.end_render_pass();
    assert_eq!(depth(&encoder.cmd_buffer.commands), 0);
}

#[test]
fn a_pass_ends_as_described_whatever_was_recorded_in_it() {
    let mut encoder = encoder();
    run(0, 10, &mut encoder);
    let inside = encoder.cmd_buffer.commands.len();
    encoder.end_render_pass();
    let mut discarded = Invalidated::new();
    discarded.push(0x8CE0);
    assert_eq!(
        encoder.cmd_buffer.commands[inside..],
        [
            Command::ResolveAttachment {
                attachment: 0x8CE0,
                dst: view(60),
                size: Extent3d { width: 8, height: 4, depth_or_array_layers: 1 },
            },
            Command::InvalidateAttachments(discarded),
            Command::PopDebugGroup,
        ]
    );
}
