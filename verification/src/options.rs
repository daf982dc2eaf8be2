//! What a build is configured with, and where its commands go.

use vstd::prelude::*;
use crate::gpu_data::{BoundingQuad, RenderCommand, RenderCommandView};

verus! {

/// The options of a build, with everything that can be computed ahead already computed.
/// The transform and the dilation of a build are applied to the outlines before they
/// reach the scene; what is left here is what the builder itself reads.
#[derive(Clone, Copy, Debug, PartialEq, Eq, Structural)]
pub struct PreparedBuildOptions {
    /// The corners of the area that the frame covers.
    pub bounding_quad: BoundingQuad,
    /// Whether each pixel is rendered as three subpixels side by side.
    pub subpixel_aa_enabled: bool,
}

impl PreparedBuildOptions {
    /// The corners of the area that the frame covers.
    pub fn bounding_quad(&self) -> (quad: BoundingQuad)
        ensures
            quad == self.bounding_quad,
    {
        self.bounding_quad
    }
}

/// Receives the commands of a build, in the order in which the builder sends them.
pub trait RenderCommandListener {
    /// The commands received so far.
    spec fn sent(&self) -> Seq<RenderCommandView>;

    /// Receives one command.
    fn send(&mut self, command: RenderCommand)
        ensures
            final(self).sent() == old(self).sent().push(command@),
    ;
}

/// A listener that keeps the commands it receives.
pub struct CommandBuffer {
    pub commands: Vec<RenderCommand>,
}

impl CommandBuffer {
    /// Makes a listener that has received nothing.
    pub fn new() -> (buffer: CommandBuffer)
        ensures
            buffer.sent() == Seq::<RenderCommandView>::empty(),
            buffer.commands@.len() == 0,
    {
        let buffer = CommandBuffer { commands: Vec::new() };
        assert(buffer.sent() =~= Seq::<RenderCommandView>::empty());
        buffer
    }
}

impl RenderCommandListener for CommandBuffer {
    open spec fn sent(&self) -> Seq<RenderCommandView> {
        Seq::new(self.commands@.len(), |i: int| self.commands@[i]@)
    }

    fn send(&mut self, command: RenderCommand) {
        self.commands.push(command);
        assert(self.sent() =~= old(self).sent().push(command@));
    }
}

} // verus!
