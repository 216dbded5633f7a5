//! Render pipelines.
use gles_command::command::Command;
use gles_command::encoder::CommandEncoder;
use gles_command::flags::{FormatAspects, PrivateCapabilities};
use gles_command::floats::FloatBits;
use gles_command::types::{
    AttributeDesc, BlendComponent, BlendDesc, ColorTargetDesc, ColorWrites, DepthBiasState,
    DepthState, InputStepMode, PipelineInner, PrimitiveState, RenderPipeline, StencilOps,
    StencilSide, StencilState, VertexAttribKind, VertexBufferDesc, VertexFormatDesc,
    MAX_TEXTURE_SLOTS,
};

const FRONT: u32 = 0x0404;
const BACK: u32 = 0x0405;
const FRONT_AND_BACK: u32 = 0x0408;

fn encoder_with(bits: u32) -> CommandEncoder {
    CommandEncoder::new(PrivateCapabilities { bits })
}

fn bias(constant: i32, slope_scale: f32, clamp: f32) -> DepthBiasState {
    DepthBiasState {
        constant,
        slope_scale: FloatBits { bits: slope_scale.to_bits() },
        clamp: FloatBits { bits: clamp.to_bits() },
    }
}

fn attribute(location: u32, buffer_index: u32) -> AttributeDesc {
    AttributeDesc {
        location,
        offset: 0,
        buffer_index,
        format_desc: VertexFormatDesc {
            element_count: 2,
            element_format: 0x1404,
            attrib_kind: VertexAttribKind::Integer,
        },
    }
}

fn pipeline() -> RenderPipeline {
    RenderPipeline {
        inner: PipelineInner { program: 3, sampler_map: [None; MAX_TEXTURE_SLOTS] },
        topology: 5,
        primitive: PrimitiveState::default(),
        vertex_buffers: vec![],
        vertex_attributes: vec![],
        color_targets: vec![],
        depth: None,
        depth_bias: bias(0, 0.0, 0.0),
        stencil: None,
    }
}

fn side(function: u32, reference: u32, mask_write: u32) -> StencilSide {
    StencilSide {
        function,
        mask_read: 0xFF,
        mask_write,
        reference,
        ops: StencilOps { pass: 0x1E01, fail: 0x1E00, depth_fail: 0x1E00 },
    }
}

fn target(bits: u32) -> ColorTargetDesc {
    ColorTargetDesc { mask: ColorWrites { bits }, blend: None }
}

#[test]
fn a_plain_pipeline_sets_a_program_and_no_tests() {
    let mut encoder = encoder_with(0);
    encoder.set_render_pipeline(&pipeline());
    assert_eq!(
        encoder.cmd_buffer.commands,
        vec![
            Command::SetProgram(3),
            Command::ConfigureDepthStencil(FormatAspects { bits: 0 }),
        ]
    );
    assert_eq!(encoder.state.topology, 5);
}

#[test]
fn layouts_are_set_at_once_where_they_are_apart() {
    let mut encoder = encoder_with(PrivateCapabilities::VERTEX_BUFFER_LAYOUT);
    let mut pipeline = pipeline();
    let by_instance = VertexBufferDesc { step: InputStepMode::Instance, stride: 8 };
    let by_vertex = VertexBufferDesc { step: InputStepMode::Vertex, stride: 4 };
    pipeline.vertex_buffers = vec![by_instance, by_vertex];
    pipeline.vertex_attributes = vec![attribute(0, 1), attribute(1, 0)];
    encoder.set_render_pipeline(&pipeline);
    assert_eq!(
        encoder.cmd_buffer.commands,
        vec![
            Command::UnsetVertexAttribute(0),
            Command::UnsetVertexAttribute(1),
            Command::SetVertexAttribute {
                buffer: None,
                buffer_desc: by_vertex,
                attribute_desc: attribute(0, 1),
            },
            Command::SetVertexAttribute {
                buffer: None,
                buffer_desc: by_instance,
                attribute_desc: attribute(1, 0),
            },
            Command::SetProgram(3),
            Command::ConfigureDepthStencil(FormatAspects { bits: 0 }),
        ]
    );
    assert!(encoder.state.vertex_attributes.is_empty());
    assert_eq!(encoder.state.instance_vbuf_mask, 1);
    assert_eq!(encoder.state.dirty_vbuf_mask, 3);
    assert_eq!(encoder.state.vertex_buffers[0].0, by_instance);
    assert_eq!(encoder.state.vertex_buffers[1].0, by_vertex);
}

#[test]
fn attributes_are_kept_for_the_draw_elsewhere() {
    let mut encoder = encoder_with(0);
    let mut pipeline = pipeline();
    pipeline.vertex_buffers = vec![VertexBufferDesc { step: InputStepMode::Vertex, stride: 0 }];
    pipeline.vertex_attributes = vec![attribute(0, 3), attribute(1, 3)];
    encoder.set_render_pipeline(&pipeline);
    assert_eq!(encoder.cmd_buffer.commands[0], Command::UnsetVertexAttribute(0));
    assert_eq!(encoder.cmd_buffer.commands[1], Command::UnsetVertexAttribute(1));
    assert_eq!(encoder.cmd_buffer.commands.len(), 4);
    assert_eq!(&encoder.state.vertex_attributes[..], &[attribute(0, 3), attribute(1, 3)]);
    assert_eq!(encoder.state.dirty_vbuf_mask, 8);
    // Attributes add up until the pass ends.
    pipeline.vertex_attributes = vec![attribute(4, 1), attribute(5, 1), attribute(6, 1)];
    encoder.cmd_buffer.commands.clear();
    encoder.set_render_pipeline(&pipeline);
    assert_eq!(encoder.cmd_buffer.commands[0], Command::UnsetVertexAttribute(2));
    assert_eq!(encoder.state.vertex_attributes.len(), 5);
    assert_eq!(encoder.state.dirty_vbuf_mask, 2);
}

#[test]
fn more_buffers_than_slots_are_passed_over() {
    let mut encoder = encoder_with(PrivateCapabilities::VERTEX_BUFFER_LAYOUT);
    let mut pipeline = pipeline();
    let by_instance = VertexBufferDesc { step: InputStepMode::Instance, stride: 1 };
    pipeline.vertex_buffers = vec![by_instance; 20];
    encoder.set_render_pipeline(&pipeline);
    assert_eq!(encoder.state.instance_vbuf_mask, 0xFFFF);
    assert_eq!(encoder.state.dirty_vbuf_mask, 0xFFFF);
}

#[test]
fn a_buffer_that_is_stepped_as_before_stays_clean() {
    let mut encoder = encoder_with(PrivateCapabilities::VERTEX_BUFFER_LAYOUT);
    let mut pipeline = pipeline();
    pipeline.vertex_buffers = vec![VertexBufferDesc { step: InputStepMode::Instance, stride: 1 }];
    encoder.set_render_pipeline(&pipeline);
    encoder.prepare_draw(0);
    assert_eq!(encoder.state.dirty_vbuf_mask, 0);
    encoder.set_render_pipeline(&pipeline);
    assert_eq!(encoder.state.dirty_vbuf_mask, 0);
    assert_eq!(encoder.state.instance_vbuf_mask, 1);
}

#[test]
fn what_is_set_already_is_not_set_again() {
    let mut encoder = encoder_with(0);
    let mut pipeline = pipeline();
    pipeline.primitive = PrimitiveState { front_face: 0x0901, cull_face: 0x0405, clamp_depth: true };
    pipeline.depth_bias = bias(2, 1.5, 0.25);
    pipeline.color_targets = vec![target(7), target(3)];
    encoder.set_render_pipeline(&pipeline);
    assert_eq!(
        encoder.cmd_buffer.commands,
        vec![
            Command::SetProgram(3),
            Command::SetPrimitive(pipeline.primitive),
            Command::SetDepthBias(pipeline.depth_bias),
            Command::ConfigureDepthStencil(FormatAspects { bits: 0 }),
            Command::SetColorTarget { draw_buffer_index: Some(0), desc: target(7) },
            Command::SetColorTarget { draw_buffer_index: Some(1), desc: target(3) },
        ]
    );
    encoder.cmd_buffer.commands.clear();
    encoder.set_render_pipeline(&pipeline);
    assert_eq!(
        encoder.cmd_buffer.commands,
        vec![
            Command::SetProgram(3),
            Command::ConfigureDepthStencil(FormatAspects { bits: 0 }),
        ]
    );
}

#[test]
fn a_bias_that_is_no_number_is_set_each_time() {
    let mut encoder = encoder_with(0);
    let mut pipeline = pipeline();
    pipeline.depth_bias = bias(0, f32::NAN, 0.0);
    encoder.set_render_pipeline(&pipeline);
    encoder.cmd_buffer.commands.clear();
    encoder.set_render_pipeline(&pipeline);
    assert_eq!(encoder.cmd_buffer.commands[1], Command::SetDepthBias(pipeline.depth_bias));
}

#[test]
fn a_bias_of_negative_zero_is_that_of_zero() {
    let mut encoder = encoder_with(0);
    let mut pipeline = pipeline();
    pipeline.depth_bias = bias(0, -0.0, -0.0);
    encoder.set_render_pipeline(&pipeline);
    assert_eq!(encoder.cmd_buffer.commands.len(), 2);
    assert_eq!(encoder.state.depth_bias, bias(0, 0.0, 0.0));
}

#[test]
fn targets_that_are_alike_are_set_together() {
    let blend = BlendComponent { src: 1, dst: 0, equation: 0x8006 };
    let blended = ColorTargetDesc {
        mask: ColorWrites { bits: 15 },
        blend: Some(BlendDesc { alpha: blend, color: blend }),
    };
    let mut encoder = encoder_with(0);
    let mut pipeline = pipeline();
    pipeline.color_targets = vec![blended, blended, blended];
    encoder.set_render_pipeline(&pipeline);
    assert_eq!(
        encoder.cmd_buffer.commands[2..],
        [Command::SetColorTarget { draw_buffer_index: None, desc: blended }]
    );
    assert_eq!(&encoder.state.color_targets[..], &[blended, blended, blended]);
}

#[test]
fn a_pipeline_without_targets_sets_the_initial_ones() {
    let mut encoder = encoder_with(0);
    let mut with_target = pipeline();
    with_target.color_targets = vec![target(1)];
    encoder.set_render_pipeline(&with_target);
    encoder.cmd_buffer.commands.clear();
    encoder.set_render_pipeline(&pipeline());
    assert_eq!(
        encoder.cmd_buffer.commands[2..],
        [Command::SetColorTarget { draw_buffer_index: None, desc: target(15) }]
    );
    assert!(encoder.state.color_targets.is_empty());
}

#[test]
fn depth_and_stencil_tests_are_configured() {
    let mut encoder = encoder_with(0);
    let mut pipeline = pipeline();
    let depth = DepthState { function: 0x0201, mask: true };
    pipeline.depth = Some(depth);
    encoder.set_render_pipeline(&pipeline);
    assert_eq!(
        encoder.cmd_buffer.commands,
        vec![
            Command::SetProgram(3),
            Command::SetDepth(depth),
            Command::ConfigureDepthStencil(FormatAspects { bits: FormatAspects::DEPTH }),
        ]
    );
    let both = side(0x0202, 1, 0x0F);
    pipeline.stencil = Some(StencilState { front: both, back: both });
    encoder.cmd_buffer.commands.clear();
    encoder.set_render_pipeline(&pipeline);
    assert_eq!(
        encoder.cmd_buffer.commands,
        vec![
            Command::SetProgram(3),
            Command::SetDepth(depth),
            Command::SetStencilFunc {
                face: FRONT_AND_BACK,
                function: 0x0202,
                reference: 1,
                read_mask: 0xFF,
            },
            Command::SetStencilOps { face: FRONT_AND_BACK, write_mask: 0x0F, ops: both.ops },
            Command::ConfigureDepthStencil(FormatAspects { bits: 6 }),
        ]
    );
}

#[test]
fn faces_that_differ_are_set_apart() {
    let mut encoder = encoder_with(0);
    let mut pipeline = pipeline();
    let front = side(0x0202, 1, 0x0F);
    let back = side(0x0203, 1, 0xF0);
    pipeline.stencil = Some(StencilState { front, back });
    encoder.set_render_pipeline(&pipeline);
    assert_eq!(
        encoder.cmd_buffer.commands[1..],
        [
            Command::SetStencilFunc { face: FRONT, function: 0x0202, reference: 1, read_mask: 0xFF },
            Command::SetStencilFunc { face: BACK, function: 0x0203, reference: 1, read_mask: 0xFF },
            Command::SetStencilOps { face: FRONT, write_mask: 0x0F, ops: front.ops },
            Command::SetStencilOps { face: BACK, write_mask: 0xF0, ops: back.ops },
            Command::ConfigureDepthStencil(FormatAspects { bits: FormatAspects::STENCIL }),
        ]
    );
}

#[test]
fn tests_and_operations_are_joined_each_for_itself() {
    let mut encoder = encoder_with(0);
    let mut pipeline = pipeline();
    let front = side(0x0202, 1, 0x0F);
    pipeline.stencil = Some(StencilState { front, back: side(0x0202, 1, 0xF0) });
    encoder.set_render_pipeline(&pipeline);
    // One test for both faces, and operations for each.
    assert_eq!(encoder.cmd_buffer.commands.len(), 5);
    pipeline.stencil = Some(StencilState { front, back: side(0x0202, 2, 0x0F) });
    encoder.cmd_buffer.commands.clear();
    encoder.set_render_pipeline(&pipeline);
    assert_eq!(
        encoder.cmd_buffer.commands[1..4],
        [
            Command::SetStencilFunc { face: FRONT, function: 0x0202, reference: 1, read_mask: 0xFF },
            Command::SetStencilFunc { face: BACK, function: 0x0202, reference: 2, read_mask: 0xFF },
            Command::SetStencilOps { face: FRONT_AND_BACK, write_mask: 0x0F, ops: front.ops },
        ]
    );
}

#[test]
fn a_reference_value_holds_for_both_faces() {
    let mut encoder = encoder_with(0);
    encoder.set_stencil_reference(9);
    assert_eq!(
        encoder.cmd_buffer.commands,
        vec![Command::SetStencilFunc {
            face: FRONT_AND_BACK,
            function: 0x0207,
            reference: 9,
            read_mask: 0xFF,
        }]
    );
    encoder.state.stencil.back.function = 0x0200;
    encoder.cmd_buffer.commands.clear();
    encoder.rebind_stencil_func();
    assert_eq!(
        encoder.cmd_buffer.commands,
        vec![
            Command::SetStencilFunc { face: FRONT, function: 0x0207, reference: 9, read_mask: 0xFF },
            Command::SetStencilFunc { face: BACK, function: 0x0200, reference: 9, read_mask: 0xFF },
        ]
    );
}
