//! The OpenGL enumerants that recorded commands carry.
//!
//! Contracts speak of the constants of this module; executable code takes each
//! value from `glow`, through the function of the same name in lower case.
use vstd::prelude::*;

verus! {

/// The front polygon face.
pub const FRONT: u32 = 0x0404;

/// The back polygon face.
pub const BACK: u32 = 0x0405;

/// Both polygon faces.
pub const FRONT_AND_BACK: u32 = 0x0408;

/// The comparison that always passes.
pub const ALWAYS: u32 = 0x0207;

/// The stencil operation that keeps the stored value.
pub const KEEP: u32 = 0x1E00;

/// The target a copied buffer is read through.
pub const COPY_READ_BUFFER: u32 = 0x8F36;

/// The target a copied buffer is written through.
pub const COPY_WRITE_BUFFER: u32 = 0x8F37;

/// The target of uniform buffers.
pub const UNIFORM_BUFFER: u32 = 0x8A11;

/// The target of storage buffers.
pub const SHADER_STORAGE_BUFFER: u32 = 0x90D2;

/// The first color attachment point of a framebuffer.
pub const COLOR_ATTACHMENT0: u32 = 0x8CE0;

/// The depth attachment point of a framebuffer.
pub const DEPTH_ATTACHMENT: u32 = 0x8D00;

/// The stencil attachment point of a framebuffer.
pub const STENCIL_ATTACHMENT: u32 = 0x8D20;

/// The combined depth and stencil attachment point of a framebuffer.
pub const DEPTH_STENCIL_ATTACHMENT: u32 = 0x821A;

/// The type of 16-bit indices.
pub const UNSIGNED_SHORT: u32 = 0x1403;

/// The type of 32-bit indices.
pub const UNSIGNED_INT: u32 = 0x1405;

/// Reads `glow::FRONT`, the front polygon face. Its value in the OpenGL
/// registry, and in `glow`, is the one that [`FRONT`] holds.
#[verifier::external_body]
pub(crate) fn front() -> (value: u32)
    ensures
        value == FRONT,
{
    glow::FRONT
}

/// Reads `glow::BACK`, the back polygon face. Its value in the OpenGL registry,
/// and in `glow`, is the one that [`BACK`] holds.
#[verifier::external_body]
pub(crate) fn back() -> (value: u32)
    ensures
        value == BACK,
{
    glow::BACK
}

/// Reads `glow::FRONT_AND_BACK`, both polygon faces. Its value in the OpenGL
/// registry, and in `glow`, is the one that [`FRONT_AND_BACK`] holds.
#[verifier::external_body]
pub(crate) fn front_and_back() -> (value: u32)
    ensures
        value == FRONT_AND_BACK,
{
    glow::FRONT_AND_BACK
}

/// Reads `glow::ALWAYS`, the comparison that always passes. Its value in the
/// OpenGL registry, and in `glow`, is the one that [`ALWAYS`] holds.
#[verifier::external_body]
pub(crate) fn always() -> (value: u32)
    ensures
        value == ALWAYS,
{
    glow::ALWAYS
}

/// Reads `glow::KEEP`, the stencil operation that keeps the stored value. Its
/// value in the OpenGL registry, and in `glow`, is the one that [`KEEP`] holds.
#[verifier::external_body]
pub(crate) fn keep() -> (value: u32)
    ensures
        value == KEEP,
{
    glow::KEEP
}

/// Reads `glow::COPY_READ_BUFFER`, the target a copied buffer is read through.
/// Its value in the OpenGL registry, and in `glow`, is the one that
/// [`COPY_READ_BUFFER`] holds.
#[verifier::external_body]
pub(crate) fn copy_read_buffer() -> (value: u32)
    ensures
        value == COPY_READ_BUFFER,
{
    glow::COPY_READ_BUFFER
}

/// Reads `glow::COPY_WRITE_BUFFER`, the target a copied buffer is written
/// through. Its value in the OpenGL registry, and in `glow`, is the one that
/// [`COPY_WRITE_BUFFER`] holds.
#[verifier::external_body]
pub(crate) fn copy_write_buffer() -> (value: u32)
    ensures
        value == COPY_WRITE_BUFFER,
{
    glow::COPY_WRITE_BUFFER
}

/// Reads `glow::UNIFORM_BUFFER`, the target of uniform buffers. Its value in
/// the OpenGL registry, and in `glow`, is the one that [`UNIFORM_BUFFER`]
/// holds.
#[verifier::external_body]
pub(crate) fn uniform_buffer() -> (value: u32)
    ensures
        value == UNIFORM_BUFFER,
{
    glow::UNIFORM_BUFFER
}

/// Reads `glow::SHADER_STORAGE_BUFFER`, the target of storage buffers. Its
/// value in the OpenGL registry, and in `glow`, is the one that
/// [`SHADER_STORAGE_BUFFER`] holds.
#[verifier::external_body]
pub(crate) fn shader_storage_buffer() -> (value: u32)
    ensures
        value == SHADER_STORAGE_BUFFER,
{
    glow::SHADER_STORAGE_BUFFER
}

/// Reads `glow::COLOR_ATTACHMENT0`, the first color attachment point of a
/// framebuffer. Its value in the OpenGL registry, and in `glow`, is the one
/// that [`COLOR_ATTACHMENT0`] holds.
#[verifier::external_body]
pub(crate) fn color_attachment0() -> (value: u32)
    ensures
        value == COLOR_ATTACHMENT0,
{
    glow::COLOR_ATTACHMENT0
}

/// Reads `glow::DEPTH_ATTACHMENT`, the depth attachment point of a framebuffer.
/// Its value in the OpenGL registry, and in `glow`, is the one that
/// [`DEPTH_ATTACHMENT`] holds.
#[verifier::external_body]
pub(crate) fn depth_attachment() -> (value: u32)
    ensures
        value == DEPTH_ATTACHMENT,
{
    glow::DEPTH_ATTACHMENT
}

/// Reads `glow::STENCIL_ATTACHMENT`, the stencil attachment point of a
/// framebuffer. Its value in the OpenGL registry, and in `glow`, is the one
/// that [`STENCIL_ATTACHMENT`] holds.
#[verifier::external_body]
pub(crate) fn stencil_attachment() -> (value: u32)
    ensures
        value == STENCIL_ATTACHMENT,
{
    glow::STENCIL_ATTACHMENT
}

/// Reads `glow::DEPTH_STENCIL_ATTACHMENT`, the combined depth and stencil
/// attachment point of a framebuffer. Its value in the OpenGL registry, and in
/// `glow`, is the one that [`DEPTH_STENCIL_ATTACHMENT`] holds.
#[verifier::external_body]
pub(crate) fn depth_stencil_attachment() -> (value: u32)
    ensures
        value == DEPTH_STENCIL_ATTACHMENT,
{
    glow::DEPTH_STENCIL_ATTACHMENT
}

/// Reads `glow::UNSIGNED_SHORT`, the type of 16-bit indices. Its value in the
/// OpenGL registry, and in `glow`, is the one that [`UNSIGNED_SHORT`] holds.
#[verifier::external_body]
pub(crate) fn unsigned_short() -> (value: u32)
    ensures
        value == UNSIGNED_SHORT,
{
    glow::UNSIGNED_SHORT
}

/// Reads `glow::UNSIGNED_INT`, the type of 32-bit indices. Its value in the
/// OpenGL registry, and in `glow`, is the one that [`UNSIGNED_INT`] holds.
#[verifier::external_body]
pub(crate) fn unsigned_int() -> (value: u32)
    ensures
        value == UNSIGNED_INT,
{
    glow::UNSIGNED_INT
}

} // verus!
