//! Sets of flags packed into the bits of an integer.
use vstd::prelude::*;

verus! {

/// Capabilities of the driver that change how commands are recorded, but not
/// what a user may ask for.
#[derive(Clone, Copy, Debug, PartialEq, Eq, Structural)]
pub struct PrivateCapabilities {
    pub bits: u32,
}

impl PrivateCapabilities {
    /// Memory barriers can be issued explicitly.
    pub const MEMORY_BARRIERS: u32 = 0x0004;

    /// Vertex buffer layouts are set apart from the buffers themselves.
    pub const VERTEX_BUFFER_LAYOUT: u32 = 0x0008;

    /// Whether every flag of `flags` is in `self`.
    pub open spec fn has(self, flags: u32) -> bool {
        self.bits & flags == flags
    }

    /// Whether every flag of `flags` is in `self`.
    pub fn contains(self, flags: u32) -> (yes: bool)
        ensures
            yes == self.has(flags),
    {
        self.bits & flags == flags
    }
}

/// The ways in which a buffer is used.
#[derive(Clone, Copy, Debug, PartialEq, Eq, Structural)]
pub struct BufferUses {
    pub bits: u32,
}

impl BufferUses {
    /// Written by a shader, as a storage buffer.
    pub const STORAGE_WRITE: u32 = 256;

    /// Whether every use of `flags` is in `self`.
    pub open spec fn has(self, flags: u32) -> bool {
        self.bits & flags == flags
    }

    /// Whether every use of `flags` is in `self`.
    pub fn contains(self, flags: u32) -> (yes: bool)
        ensures
            yes == self.has(flags),
    {
        self.bits & flags == flags
    }
}

/// The ways in which a texture is used.
#[derive(Clone, Copy, Debug, PartialEq, Eq, Structural)]
pub struct TextureUses {
    pub bits: u32,
}

impl TextureUses {
    /// Written by a shader, as a storage texture.
    pub const STORAGE_WRITE: u32 = 128;

    /// Whether every use of `flags` is in `self`.
    pub open spec fn has(self, flags: u32) -> bool {
        self.bits & flags == flags
    }

    /// The uses of either set.
    pub open spec fn joined(self, other: TextureUses) -> TextureUses {
        TextureUses { bits: self.bits | other.bits }
    }

    /// Whether every use of `flags` is in `self`.
    pub fn contains(self, flags: u32) -> (yes: bool)
        ensures
            yes == self.has(flags),
    {
        self.bits & flags == flags
    }

    /// The uses of either set.
    pub fn join(self, other: TextureUses) -> (both: TextureUses)
        ensures
            both == self.joined(other),
    {
        TextureUses { bits: self.bits | other.bits }
    }
}

/// The aspects of a texture format.
#[derive(Clone, Copy, Debug, PartialEq, Eq, Structural)]
pub struct FormatAspects {
    pub bits: u8,
}

impl FormatAspects {
    pub const COLOR: u8 = 1;

    pub const DEPTH: u8 = 2;

    pub const STENCIL: u8 = 4;

    /// Whether every aspect of `flags` is in `self`.
    pub open spec fn has(self, flags: u8) -> bool {
        self.bits & flags == flags
    }

    /// Whether every aspect of `flags` is in `self`.
    pub fn contains(self, flags: u8) -> (yes: bool)
        ensures
            yes == self.has(flags),
    {
        self.bits & flags == flags
    }
}

/// What happens to the contents of an attachment around a render pass.
#[derive(Clone, Copy, Debug, PartialEq, Eq, Structural)]
pub struct AttachmentOps {
    pub bits: u8,
}

impl AttachmentOps {
    /// The contents are loaded at the start; without it they are cleared.
    pub const LOAD: u8 = 1;

    /// The contents are stored at the end; without it they are discarded.
    pub const STORE: u8 = 2;

    /// Whether every operation of `flags` is in `self`.
    pub open spec fn has(self, flags: u8) -> bool {
        self.bits & flags == flags
    }

    /// Whether every operation of `flags` is in `self`.
    pub fn contains(self, flags: u8) -> (yes: bool)
        ensures
            yes == self.has(flags),
    {
        self.bits & flags == flags
    }
}

} // verus!
