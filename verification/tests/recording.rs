//! The life of a command buffer, labels, and the values that come from outside.
use gles_command::command::{Command, CommandBuffer};
use gles_command::encoder::CommandEncoder;
use gles_command::flags::PrivateCapabilities;
use gles_command::floats::FloatBits;
use gles_command::state::State;
use gles_command::types::{
    BufferBinding, ColorTargetDesc, ComputePassDescriptor, DepthBiasState, Extent3d, IndexFormat,
    InputStepMode, PrimitiveState, StencilOps, StencilSide, VertexBufferDesc,
};

fn encoder() -> CommandEncoder {
    CommandEncoder::new(PrivateCapabilities { bits: 0 })
}

#[test]
fn a_new_recorder_holds_nothing() {
    let encoder = encoder();
    assert_eq!(encoder.cmd_buffer, CommandBuffer::default());
    assert_eq!(encoder.cmd_buffer.label, None);
    assert!(encoder.cmd_buffer.commands.is_empty());
    assert!(encoder.cmd_buffer.data_bytes.is_empty());
    assert!(encoder.cmd_buffer.data_words.is_empty());
}

#[test]
fn the_initial_state_is_that_of_webgpu_and_opengl() {
    let state = State::default();
    assert_eq!(state.topology, 0);
    assert_eq!(state.index_format, IndexFormat::Uint32);
    assert_eq!(state.index_offset, 0);
    assert_eq!(
        state.render_size,
        Extent3d { width: 1, height: 1, depth_or_array_layers: 1 }
    );
    assert_eq!(state.primitive, PrimitiveState { front_face: 0, cull_face: 0, clamp_depth: false });
    assert_eq!(state.depth_bias.constant, 0);
    assert_eq!(state.depth_bias.slope_scale.bits, 0f32.to_bits());
    assert_eq!(state.depth_bias.clamp.bits, 0f32.to_bits());
    assert_eq!(state.stencil.front, StencilSide::default());
    assert_eq!(state.stencil.back, StencilSide::default());
    for buffer in state.vertex_buffers.iter() {
        assert_eq!(buffer.0, VertexBufferDesc { step: InputStepMode::Vertex, stride: 0 });
        assert_eq!(buffer.1, BufferBinding { raw: 0, offset: 0 });
    }
    assert!(state.vertex_attributes.is_empty());
    assert!(state.color_targets.is_empty());
    assert!(state.resolve_attachments.is_empty());
    assert!(state.invalidate_attachments.is_empty());
    assert!(state.samplers.iter().all(|sampler| sampler.is_none()));
    assert!(state.texture_slots.iter().all(|slot| slot.tex_target == 0));
    assert!(state.texture_slots.iter().all(|slot| slot.sampler_index.is_none()));
    assert!(!state.has_pass_label);
    assert_eq!(state.instance_vbuf_mask, 0);
    assert_eq!(state.dirty_vbuf_mask, 0);
}

#[test]
fn the_initial_stencil_test_always_passes_and_keeps() {
    let side = StencilSide::default();
    assert_eq!(side.function, 0x0207);
    assert_eq!(side.mask_read, 0xFF);
    assert_eq!(side.mask_write, 0xFF);
    assert_eq!(side.reference, 0);
    assert_eq!(side.ops, StencilOps { pass: 0x1E00, fail: 0x1E00, depth_fail: 0x1E00 });
}

#[test]
fn a_color_target_is_written_in_full_without_blending() {
    let target = ColorTargetDesc::default();
    assert_eq!(target.mask.bits, 15);
    assert_eq!(target.mask.bits, wgpu_types::ColorWrites::ALL.bits());
    assert_eq!(target.blend, None);
}

#[test]
fn encoding_hands_out_what_was_recorded() {
    let mut encoder = encoder();
    assert_eq!(encoder.begin_encoding(Some("frame")), Ok(()));
    encoder.dispatch([1, 2, 3]);
    let buffer = match encoder.end_encoding() {
        Ok(buffer) => buffer,
        Err(error) => panic!("{:?}", error),
    };
    assert_eq!(buffer.label, Some("frame".to_string()));
    assert_eq!(buffer.commands, vec![Command::Dispatch([1, 2, 3])]);
    assert_eq!(encoder.cmd_buffer, CommandBuffer::default());
}

#[test]
fn a_command_buffer_may_have_no_label() {
    let mut encoder = encoder();
    assert!(encoder.begin_encoding(Some("first")).is_ok());
    assert!(encoder.begin_encoding(None).is_ok());
    assert_eq!(encoder.cmd_buffer.label, None);
}

#[test]
fn starting_again_forgets_the_state() {
    let mut encoder = encoder();
    encoder.begin_compute_pass(&ComputePassDescriptor { label: Some("pass") });
    assert!(encoder.state.has_pass_label);
    assert!(encoder.begin_encoding(None).is_ok());
    assert!(!encoder.state.has_pass_label);
    // What was recorded is kept until it is handed out or dropped.
    assert_eq!(encoder.cmd_buffer.commands.len(), 1);
}

#[test]
fn a_discarded_recorder_started_again_is_as_new() {
    let mut encoder = encoder();
    assert!(encoder.begin_encoding(Some("frame")).is_ok());
    encoder.insert_debug_marker("here");
    encoder.discard_encoding();
    assert_eq!(encoder.cmd_buffer, CommandBuffer::default());
    assert!(encoder.begin_encoding(Some("again")).is_ok());
    assert_eq!(encoder.cmd_buffer.label, Some("again".to_string()));
    assert!(encoder.cmd_buffer.data_bytes.is_empty());
}

#[test]
fn taking_buffers_back_records_nothing() {
    let mut encoder = encoder();
    encoder.dispatch([1, 1, 1]);
    encoder.reset_all(vec![CommandBuffer::default()]);
    assert_eq!(encoder.cmd_buffer.commands, vec![Command::Dispatch([1, 1, 1])]);
}

#[test]
fn a_cleared_buffer_holds_nothing() {
    let mut buffer = CommandBuffer::default();
    buffer.label = Some("label".to_string());
    buffer.add_marker("marker");
    buffer.data_words.push(7);
    buffer.push(Command::PopDebugGroup);
    buffer.clear();
    assert_eq!(buffer, CommandBuffer::default());
}

#[test]
fn markers_lie_one_after_another() {
    let mut buffer = CommandBuffer::default();
    assert_eq!(buffer.add_marker("abc"), 0..3);
    assert_eq!(buffer.add_marker(""), 3..3);
    // Three characters, six bytes.
    assert_eq!(buffer.add_marker("\u{e9}\u{20ac}z"), 3..9);
    assert_eq!(&buffer.data_bytes[0..3], b"abc");
    assert_eq!(&buffer.data_bytes[3..9], "\u{e9}\u{20ac}z".as_bytes());
}

#[test]
fn a_label_stays_readable() {
    let mut encoder = encoder();
    encoder.begin_debug_marker("outer");
    encoder.insert_debug_marker("inner");
    encoder.end_debug_marker();
    assert_eq!(
        encoder.cmd_buffer.commands,
        vec![
            Command::PushDebugGroup(0..5),
            Command::InsertDebugMarker(5..10),
            Command::PopDebugGroup,
        ]
    );
    assert_eq!(&encoder.cmd_buffer.data_bytes[0..5], b"outer");
    assert_eq!(&encoder.cmd_buffer.data_bytes[5..10], b"inner");
}

#[test]
fn a_compute_pass_with_a_label_is_a_group() {
    let mut encoder = encoder();
    encoder.begin_compute_pass(&ComputePassDescriptor { label: Some("blur") });
    encoder.dispatch([4, 4, 1]);
    encoder.end_compute_pass();
    encoder.end_compute_pass();
    assert_eq!(
        encoder.cmd_buffer.commands,
        vec![
            Command::PushDebugGroup(0..4),
            Command::Dispatch([4, 4, 1]),
            Command::PopDebugGroup,
        ]
    );
}

#[test]
fn a_compute_pass_without_a_label_is_no_group() {
    let mut encoder = encoder();
    encoder.begin_compute_pass(&ComputePassDescriptor { label: None });
    encoder.end_compute_pass();
    assert!(encoder.cmd_buffer.commands.is_empty());
}

#[test]
fn numbers_compare_as_single_precision_does() {
    let values = [
        0f32,
        -0f32,
        1f32,
        -1f32,
        f32::MIN_POSITIVE,
        f32::from_bits(1),
        f32::MAX,
        f32::INFINITY,
        f32::NEG_INFINITY,
        f32::NAN,
        f32::from_bits(0x7F80_0001),
        f32::from_bits(0xFFFF_FFFF),
    ];
    for left in values.iter() {
        for right in values.iter() {
            let same = FloatBits { bits: left.to_bits() }.equals(FloatBits { bits: right.to_bits() });
            assert_eq!(same, left == right, "{} {}", left, right);
        }
    }
}

#[test]
fn biases_compare_number_by_number() {
    let bias = |constant: i32, slope_scale: f32, clamp: f32| DepthBiasState {
        constant,
        slope_scale: FloatBits { bits: slope_scale.to_bits() },
        clamp: FloatBits { bits: clamp.to_bits() },
    };
    assert!(bias(1, 0.0, 2.0).equals(bias(1, -0.0, 2.0)));
    assert!(!bias(1, 0.0, 2.0).equals(bias(2, 0.0, 2.0)));
    assert!(!bias(1, 0.5, 2.0).equals(bias(1, 0.0, 2.0)));
    assert!(!bias(1, 0.0, 2.0).equals(bias(1, 0.0, 3.0)));
    assert!(!bias(1, 0.0, f32::NAN).equals(bias(1, 0.0, f32::NAN)));
}
