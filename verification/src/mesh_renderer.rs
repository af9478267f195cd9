//! The drawable attachment of an entity: a reference to a registered mesh.
//!
//! GPU submission (buffer upload, bind groups, the draw call itself) is the
//! renderer's business and lives outside this crate; the core only carries
//! which mesh an entity draws.

use vstd::prelude::*;
use crate::assets::MeshId;

verus! {

/// Draws a registered mesh at its owner's world transform.
#[derive(Debug, Clone, Copy, PartialEq, Eq, Structural)]
pub struct MeshRenderer {
    /// The mesh this renderer draws.
    pub mesh: MeshId,
}

impl MeshRenderer {
    /// A renderer for the given mesh.
    pub fn new(mesh: MeshId) -> (r: MeshRenderer)
        ensures
            r.mesh_id() == mesh,
    {
        MeshRenderer { mesh }
    }

    /// The mesh this renderer draws.
    pub open spec fn mesh_id(self) -> MeshId {
        self.mesh
    }

    /// The mesh this renderer draws.
    pub fn mesh(&self) -> (r: MeshId)
        ensures
            r == self.mesh_id(),
    {
        self.mesh
    }
}

} // verus!
