//! The error taxonomy of this core.

use vstd::prelude::*;

verus! {

/// The attachment a failed read-back was missing.
#[derive(Clone, Copy, Debug, PartialEq, Eq, Structural)]
pub enum AttachmentKind {
    Color,
    Depth,
}

/// Everything that can go wrong in this core.
#[derive(Clone, Debug, PartialEq, Eq)]
pub enum CoreError {
    /// A device resource (context, framebuffer) could not be created.
    ContextCreation(String),
    /// The device failed while rendering.
    ContextError(String),
    /// A shader stage failed to compile: stage name, shader name, compiler log.
    ShaderCompilation(String, String, String),
    /// A shader program failed to link: linker log.
    ShaderLink(String),
    /// A read-back was asked of a render target that lacks the attachment.
    MissingAttachment(AttachmentKind),
}

} // verus!
