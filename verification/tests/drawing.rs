//! Draws, and the vertex buffers that are set before them.
use gles_command::command::Command;
use gles_command::encoder::CommandEncoder;
use gles_command::flags::PrivateCapabilities;
use gles_command::floats::FloatBits;
use gles_command::types::{
    AttributeDesc, Buffer, BufferBinding, BufferRegion, DepthBiasState, IndexFormat, InputStepMode,
    PipelineInner, PrimitiveState, RenderPipeline, VertexAttribKind, VertexBufferDesc,
    VertexFormatDesc, MAX_TEXTURE_SLOTS,
};

const TRIANGLES: u32 = 4;

fn encoder_with(bits: u32) -> CommandEncoder {
    CommandEncoder::new(PrivateCapabilities { bits })
}

fn per_vertex(stride: u32) -> VertexBufferDesc {
    VertexBufferDesc { step: InputStepMode::Vertex, stride }
}

fn per_instance(stride: u32) -> VertexBufferDesc {
    VertexBufferDesc { step: InputStepMode::Instance, stride }
}

fn attribute(location: u32, buffer_index: u32, offset: u32) -> AttributeDesc {
    AttributeDesc {
        location,
        offset,
        buffer_index,
        format_desc: VertexFormatDesc {
            element_count: 4,
            element_format: 0x1406,
            attrib_kind: VertexAttribKind::Float,
        },
    }
}

fn pipeline(buffers: Vec<VertexBufferDesc>, attributes: Vec<AttributeDesc>) -> RenderPipeline {
    RenderPipeline {
        inner: PipelineInner { program: 3, sampler_map: [None; MAX_TEXTURE_SLOTS] },
        topology: TRIANGLES,
        primitive: PrimitiveState::default(),
        vertex_buffers: buffers,
        vertex_attributes: attributes,
        color_targets: vec![],
        depth: None,
        depth_bias: DepthBiasState {
            constant: 0,
            slope_scale: FloatBits { bits: 0 },
            clamp: FloatBits { bits: 0 },
        },
        stencil: None,
    }
}

fn bind(encoder: &mut CommandEncoder, index: u32, raw: u32, offset: u64) {
    let buffer = Buffer { raw, target: 0x8892 };
    encoder.set_vertex_buffer(index, BufferRegion { buffer: &buffer, offset });
}

/// An encoder with a per-vertex and a per-instance buffer bound, and no
/// commands.
fn ready(bits: u32) -> CommandEncoder {
    let mut encoder = encoder_with(bits);
    encoder.set_render_pipeline(&pipeline(
        vec![per_vertex(12), per_instance(16)],
        vec![attribute(0, 0, 0), attribute(1, 1, 4)],
    ));
    bind(&mut encoder, 0, 100, 256);
    bind(&mut encoder, 1, 101, 512);
    encoder.cmd_buffer.commands.clear();
    encoder
}

#[test]
fn vertex_buffers_are_set_once_where_layouts_are_apart() {
    let mut encoder = ready(PrivateCapabilities::VERTEX_BUFFER_LAYOUT);
    encoder.draw(1, 6, 0, 2);
    encoder.draw(7, 3, 0, 1);
    assert_eq!(
        encoder.cmd_buffer.commands,
        vec![
            Command::SetVertexBuffer {
                index: 0,
                buffer: BufferBinding { raw: 100, offset: 256 },
                buffer_desc: per_vertex(12),
            },
            Command::SetVertexBuffer {
                index: 1,
                buffer: BufferBinding { raw: 101, offset: 512 },
                buffer_desc: per_instance(16),
            },
            Command::Draw {
                topology: TRIANGLES,
                start_vertex: 1,
                vertex_count: 6,
                instance_count: 2,
            },
            Command::Draw {
                topology: TRIANGLES,
                start_vertex: 7,
                vertex_count: 3,
                instance_count: 1,
            },
        ]
    );
}

#[test]
fn later_instances_start_further_into_their_buffer() {
    let mut encoder = ready(PrivateCapabilities::VERTEX_BUFFER_LAYOUT);
    encoder.prepare_draw(0);
    encoder.cmd_buffer.commands.clear();
    encoder.prepare_draw(10);
    assert_eq!(
        encoder.cmd_buffer.commands,
        vec![Command::SetVertexBuffer {
            index: 1,
            buffer: BufferBinding { raw: 101, offset: 672 },
            buffer_desc: per_instance(16),
        }]
    );
    // The next draw from the first instance on sets the buffer back.
    assert_eq!(encoder.state.dirty_vbuf_mask, 2);
    encoder.cmd_buffer.commands.clear();
    encoder.prepare_draw(0);
    assert_eq!(
        encoder.cmd_buffer.commands,
        vec![Command::SetVertexBuffer {
            index: 1,
            buffer: BufferBinding { raw: 101, offset: 512 },
            buffer_desc: per_instance(16),
        }]
    );
    assert_eq!(encoder.state.dirty_vbuf_mask, 0);
}

#[test]
fn a_draw_of_later_instances_sets_the_instance_buffers_only() {
    let mut encoder = ready(PrivateCapabilities::VERTEX_BUFFER_LAYOUT);
    encoder.prepare_draw(1);
    assert_eq!(
        encoder.cmd_buffer.commands,
        vec![Command::SetVertexBuffer {
            index: 1,
            buffer: BufferBinding { raw: 101, offset: 528 },
            buffer_desc: per_instance(16),
        }]
    );
}

#[test]
fn attributes_are_set_with_their_buffers_elsewhere() {
    let mut encoder = ready(0);
    encoder.prepare_draw(0);
    assert_eq!(
        encoder.cmd_buffer.commands,
        vec![
            Command::SetVertexAttribute {
                buffer: Some(100),
                buffer_desc: per_vertex(12),
                attribute_desc: attribute(0, 0, 256),
            },
            Command::SetVertexAttribute {
                buffer: Some(101),
                buffer_desc: per_instance(16),
                attribute_desc: attribute(1, 1, 516),
            },
        ]
    );
    encoder.cmd_buffer.commands.clear();
    encoder.rebind_vertex_data(0);
    assert!(encoder.cmd_buffer.commands.is_empty());
    encoder.prepare_draw(3);
    assert_eq!(
        encoder.cmd_buffer.commands,
        vec![Command::SetVertexAttribute {
            buffer: Some(101),
            buffer_desc: per_instance(16),
            attribute_desc: attribute(1, 1, 564),
        }]
    );
}

#[test]
fn a_buffer_offset_is_cut_to_the_width_of_an_attribute_offset() {
    let mut encoder = encoder_with(0);
    encoder.set_render_pipeline(&pipeline(vec![per_vertex(8)], vec![attribute(0, 0, 4)]));
    bind(&mut encoder, 0, 100, 0x1_0000_0010);
    encoder.cmd_buffer.commands.clear();
    encoder.prepare_draw(0);
    assert_eq!(
        encoder.cmd_buffer.commands,
        vec![Command::SetVertexAttribute {
            buffer: Some(100),
            buffer_desc: per_vertex(8),
            attribute_desc: attribute(0, 0, 20),
        }]
    );
}

#[test]
fn a_buffer_that_is_bound_is_dirty() {
    let mut encoder = encoder_with(PrivateCapabilities::VERTEX_BUFFER_LAYOUT);
    bind(&mut encoder, 15, 7, 0);
    bind(&mut encoder, 2, 8, 0);
    assert_eq!(encoder.state.dirty_vbuf_mask, 0x8004);
    assert!(encoder.cmd_buffer.commands.is_empty());
    encoder.prepare_draw(0);
    let order: Vec<bool> = encoder
        .cmd_buffer
        .commands
        .iter()
        .map(|command| matches!(command, Command::SetVertexBuffer { index: 2, .. }))
        .collect();
    assert_eq!(order, vec![true, false]);
}

#[test]
fn indices_of_16_bits_take_two_bytes() {
    let mut encoder = encoder_with(0);
    let buffer = Buffer { raw: 30, target: 0x8893 };
    encoder.set_index_buffer(BufferRegion { buffer: &buffer, offset: 100 }, IndexFormat::Uint16);
    encoder.draw_indexed(7, 12, -3, 0, 2);
    assert_eq!(
        encoder.cmd_buffer.commands,
        vec![
            Command::SetIndexBuffer(30),
            Command::DrawIndexed {
                topology: 0,
                index_type: 0x1403,
                index_offset: 114,
                index_count: 12,
                base_vertex: -3,
                instance_count: 2,
            },
        ]
    );
}

#[test]
fn indices_of_32_bits_take_four_bytes() {
    let mut encoder = encoder_with(0);
    let buffer = Buffer { raw: 30, target: 0x8893 };
    encoder.set_index_buffer(BufferRegion { buffer: &buffer, offset: 100 }, IndexFormat::Uint32);
    encoder.draw_indexed(7, 12, 0, 0, 1);
    assert_eq!(
        encoder.cmd_buffer.commands[1],
        Command::DrawIndexed {
            topology: 0,
            index_type: 0x1405,
            index_offset: 128,
            index_count: 12,
            base_vertex: 0,
            instance_count: 1,
        }
    );
}

#[test]
fn indirect_draws_step_through_their_arguments() {
    let mut encoder = encoder_with(0);
    let buffer = Buffer { raw: 40, target: 0x8F3F };
    encoder.draw_indirect(&buffer, 8, 3);
    let offsets = [8, 24, 40];
    assert_eq!(encoder.cmd_buffer.commands.len(), 3);
    for (command, offset) in encoder.cmd_buffer.commands.iter().zip(offsets.iter()) {
        assert_eq!(
            *command,
            Command::DrawIndirect { topology: 0, indirect_buf: 40, indirect_offset: *offset }
        );
    }
}

#[test]
fn indexed_indirect_draws_step_through_their_arguments() {
    let mut encoder = encoder_with(0);
    let buffer = Buffer { raw: 40, target: 0x8F3F };
    encoder.set_index_buffer(BufferRegion { buffer: &buffer, offset: 0 }, IndexFormat::Uint16);
    encoder.draw_indexed_indirect(&buffer, 100, 2);
    assert_eq!(
        encoder.cmd_buffer.commands,
        vec![
            Command::SetIndexBuffer(40),
            Command::DrawIndexedIndirect {
                topology: 0,
                index_type: 0x1403,
                indirect_buf: 40,
                indirect_offset: 100,
            },
            Command::DrawIndexedIndirect {
                topology: 0,
                index_type: 0x1403,
                indirect_buf: 40,
                indirect_offset: 120,
            },
        ]
    );
}

#[test]
fn no_indirect_draws_are_none_at_the_end_of_the_address_space() {
    let mut encoder = encoder_with(0);
    let buffer = Buffer { raw: 40, target: 0x8F3F };
    encoder.draw_indirect(&buffer, u64::MAX, 0);
    encoder.draw_indexed_indirect(&buffer, u64::MAX, 0);
    assert!(encoder.cmd_buffer.commands.is_empty());
    encoder.draw_indirect(&buffer, u64::MAX, 1);
    assert_eq!(encoder.cmd_buffer.commands.len(), 1);
}

#[test]
fn indirect_draws_set_the_vertex_buffers_first() {
    let mut encoder = ready(PrivateCapabilities::VERTEX_BUFFER_LAYOUT);
    let buffer = Buffer { raw: 40, target: 0x8F3F };
    encoder.draw_indirect(&buffer, 0, 1);
    assert_eq!(encoder.cmd_buffer.commands.len(), 3);
    assert_eq!(
        encoder.cmd_buffer.commands[2],
        Command::DrawIndirect { topology: TRIANGLES, indirect_buf: 40, indirect_offset: 0 }
    );
}

#[test]
fn dispatches_name_their_grid() {
    let mut encoder = encoder_with(0);
    encoder.dispatch([1, 2, 3]);
    encoder.dispatch_indirect(&Buffer { raw: 40, target: 0x90EE }, 64);
    assert_eq!(
        encoder.cmd_buffer.commands,
        vec![
            Command::Dispatch([1, 2, 3]),
            Command::DispatchIndirect { indirect_buf: 40, indirect_offset: 64 },
        ]
    );
}
