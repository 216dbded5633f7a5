//! Barriers, copies and queries.
use gles_command::command::Command;
use gles_command::encoder::CommandEncoder;
use gles_command::flags::{BufferUses, FormatAspects, PrivateCapabilities, TextureUses};
use gles_command::types::{
    Buffer, BufferBarrier, BufferCopy, BufferTextureCopy, CopyExtent, ImageDataLayout, Origin3d,
    QuerySet, Texture, TextureBarrier, TextureCopy, TextureCopyBase, TextureInner,
};
use wgpu_types::TextureFormat;

fn encoder_with(bits: u32) -> CommandEncoder {
    CommandEncoder::new(PrivateCapabilities { bits })
}

fn barrier(raw: u32, start: u32, end: u32) -> BufferBarrier {
    BufferBarrier {
        buffer: Buffer { raw, target: 0x8892 },
        start: BufferUses { bits: start },
        end: BufferUses { bits: end },
    }
}

fn texture_barrier(start: u32, end: u32) -> TextureBarrier {
    TextureBarrier { start: TextureUses { bits: start }, end: TextureUses { bits: end } }
}

fn base(mip_level: u32) -> TextureCopyBase {
    TextureCopyBase {
        mip_level,
        array_layer: 0,
        origin: Origin3d { x: 1, y: 2, z: 3 },
        aspect: FormatAspects { bits: FormatAspects::COLOR },
    }
}

fn texture(raw: u32, format: TextureFormat) -> Texture {
    Texture { inner: TextureInner::Texture { raw, target: 0x0DE1 }, format }
}

fn texel_copy(offset: u64) -> BufferTextureCopy {
    BufferTextureCopy {
        buffer_layout: ImageDataLayout { offset, bytes_per_row: Some(256), rows_per_image: None },
        texture_base: base(1),
        size: CopyExtent { width: 8, height: 8, depth: 1 },
    }
}

#[test]
fn only_writes_to_storage_buffers_are_waited_for() {
    let mut encoder = encoder_with(PrivateCapabilities::MEMORY_BARRIERS);
    encoder.transition_buffers(&[
        barrier(1, BufferUses::STORAGE_WRITE, 4),
        barrier(2, 4, BufferUses::STORAGE_WRITE),
        barrier(3, BufferUses::STORAGE_WRITE | 1, 8),
    ]);
    assert_eq!(
        encoder.cmd_buffer.commands,
        vec![
            Command::BufferBarrier(1, BufferUses { bits: 4 }),
            Command::BufferBarrier(3, BufferUses { bits: 8 }),
        ]
    );
}

#[test]
fn without_barriers_in_the_driver_none_is_recorded() {
    let mut encoder = encoder_with(PrivateCapabilities::VERTEX_BUFFER_LAYOUT);
    encoder.transition_buffers(&[barrier(1, BufferUses::STORAGE_WRITE, 4)]);
    encoder.transition_textures(&[texture_barrier(TextureUses::STORAGE_WRITE, 4)]);
    assert!(encoder.cmd_buffer.commands.is_empty());
}

#[test]
fn barriers_on_textures_are_joined() {
    let mut encoder = encoder_with(PrivateCapabilities::MEMORY_BARRIERS);
    encoder.transition_textures(&[
        texture_barrier(TextureUses::STORAGE_WRITE, 4),
        texture_barrier(2, 16),
        texture_barrier(TextureUses::STORAGE_WRITE, 9),
    ]);
    assert_eq!(
        encoder.cmd_buffer.commands,
        vec![Command::TextureBarrier(TextureUses { bits: 13 })]
    );
}

#[test]
fn barriers_that_cover_nothing_are_left_out() {
    let mut encoder = encoder_with(PrivateCapabilities::MEMORY_BARRIERS);
    encoder.transition_textures(&[texture_barrier(2, 16)]);
    encoder.transition_textures(&[texture_barrier(TextureUses::STORAGE_WRITE, 0)]);
    encoder.transition_textures(&[]);
    encoder.transition_buffers(&[]);
    assert!(encoder.cmd_buffer.commands.is_empty());
}

#[test]
fn a_fill_keeps_its_range() {
    let mut encoder = encoder_with(0);
    encoder.fill_buffer(&Buffer { raw: 5, target: 0x8892 }, 16..48, 0xAB);
    assert_eq!(
        encoder.cmd_buffer.commands,
        vec![Command::FillBuffer { dst: 5, dst_target: 0x8892, range: 16..48, value: 0xAB }]
    );
}

#[test]
fn buffers_are_copied_through_the_copy_targets() {
    let mut encoder = encoder_with(0);
    let copies = [
        BufferCopy { src_offset: 0, dst_offset: 64, size: 16 },
        BufferCopy { src_offset: 32, dst_offset: 0, size: 8 },
    ];
    encoder.copy_buffer_to_buffer(
        &Buffer { raw: 5, target: 0x8892 },
        &Buffer { raw: 6, target: 0x8893 },
        &copies,
    );
    assert_eq!(
        encoder.cmd_buffer.commands,
        vec![
            Command::CopyBufferToBuffer {
                src: 5,
                src_target: 0x8F36,
                dst: 6,
                dst_target: 0x8F37,
                copy: copies[0],
            },
            Command::CopyBufferToBuffer {
                src: 5,
                src_target: 0x8F36,
                dst: 6,
                dst_target: 0x8F37,
                copy: copies[1],
            },
        ]
    );
}

#[test]
fn no_regions_make_no_copies() {
    let mut encoder = encoder_with(0);
    let buffer = Buffer { raw: 5, target: 0x8892 };
    let image = texture(9, TextureFormat::Rgba8Unorm);
    encoder.copy_buffer_to_buffer(&buffer, &buffer, &[]);
    encoder.copy_texture_to_texture(&image, TextureUses { bits: 1 }, &image, &[]);
    encoder.copy_buffer_to_texture(&buffer, &image, &[]);
    encoder.copy_texture_to_buffer(&image, TextureUses { bits: 1 }, &buffer, &[]);
    assert!(encoder.cmd_buffer.commands.is_empty());
}

#[test]
fn textures_are_copied_by_object_and_target() {
    let mut encoder = encoder_with(0);
    let copy = TextureCopy {
        src_base: base(0),
        dst_base: base(2),
        size: CopyExtent { width: 4, height: 4, depth: 1 },
    };
    let src = texture(9, TextureFormat::Rgba8Unorm);
    let dst = Texture {
        inner: TextureInner::Texture { raw: 10, target: 0x8C1A },
        format: TextureFormat::Rgba8Unorm,
    };
    encoder.copy_texture_to_texture(&src, TextureUses { bits: 1 }, &dst, &[copy]);
    assert_eq!(
        encoder.cmd_buffer.commands,
        vec![Command::CopyTextureToTexture {
            src: 9,
            src_target: 0x0DE1,
            dst: 10,
            dst_target: 0x8C1A,
            copy,
        }]
    );
}

#[test]
fn texel_copies_carry_the_format() {
    let mut encoder = encoder_with(0);
    let buffer = Buffer { raw: 5, target: 0x88EC };
    let image = texture(9, TextureFormat::Rg32Float);
    encoder.copy_buffer_to_texture(&buffer, &image, &[texel_copy(0)]);
    encoder.copy_texture_to_buffer(&image, TextureUses { bits: 1 }, &buffer, &[texel_copy(512)]);
    assert_eq!(
        encoder.cmd_buffer.commands,
        vec![
            Command::CopyBufferToTexture {
                src: 5,
                src_target: 0x88EC,
                dst: 9,
                dst_target: 0x0DE1,
                dst_format: TextureFormat::Rg32Float,
                copy: texel_copy(0),
            },
            Command::CopyTextureToBuffer {
                src: 9,
                src_target: 0x0DE1,
                src_format: TextureFormat::Rg32Float,
                dst: 5,
                dst_target: 0x88EC,
                copy: texel_copy(512),
            },
        ]
    );
}

#[test]
fn queries_are_named_by_their_objects() {
    let mut encoder = encoder_with(0);
    let set = QuerySet { queries: vec![21, 22, 23], target: 0x8C2F };
    encoder.begin_query(&set, 1);
    encoder.end_query(&set, 1);
    encoder.reset_queries(&set, 0..3);
    assert_eq!(
        encoder.cmd_buffer.commands,
        vec![Command::BeginQuery(22, 0x8C2F), Command::EndQuery(0x8C2F)]
    );
}

#[test]
fn query_results_stay_readable() {
    let mut encoder = encoder_with(0);
    let set = QuerySet { queries: vec![21, 22, 23, 24], target: 0x8C2F };
    let buffer = Buffer { raw: 5, target: 0x9192 };
    encoder.copy_query_results(&set, 1..4, &buffer, 128, 8);
    encoder.copy_query_results(&set, 0..1, &buffer, 0, 8);
    encoder.copy_query_results(&set, 2..2, &buffer, 0, 8);
    assert_eq!(encoder.cmd_buffer.data_words, vec![22, 23, 24, 21]);
    assert_eq!(
        encoder.cmd_buffer.commands,
        vec![
            Command::CopyQueryResults {
                query_range: 0..3,
                dst: 5,
                dst_target: 0x9192,
                dst_offset: 128,
            },
            Command::CopyQueryResults {
                query_range: 3..4,
                dst: 5,
                dst_target: 0x9192,
                dst_offset: 0,
            },
            Command::CopyQueryResults {
                query_range: 4..4,
                dst: 5,
                dst_target: 0x9192,
                dst_offset: 0,
            },
        ]
    );
}
