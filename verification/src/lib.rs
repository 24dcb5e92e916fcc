//! Firmware-style display stack: a mailbox property-protocol engine that
//! negotiates a framebuffer from a graphics co-processor, a pixel surface
//! that encodes colored pixels into the negotiated memory layout, and a
//! scrolling text console drawing glyphs onto that surface.

use vstd::prelude::*;

pub mod console;
pub mod font;
pub mod gpu;
pub mod mailbox;
pub mod synchronization;
pub mod video;

verus! {

/// Faults raised by the display stack.
///
/// Alignment violations are unrecoverable programming errors; a channel
/// mismatch is recoverable (the caller keeps polling); an unsupported color
/// depth is fatal at the first pixel write.
#[derive(Clone, Copy, PartialEq, Eq, Structural, Debug)]
pub enum Fault {
    /// A mailbox message or its buffer is not 16-byte aligned.
    AlignmentViolation,
    /// A mailbox response arrived for the given channel instead of the
    /// requested one.
    ChannelMismatch(u32),
    /// The negotiated pixel format has no known encoding.
    UnsupportedColorDepth,
}

} // verus!
