//! Processor-side asset bookkeeping: meshes and materials, identified by
//! append-only indices that are never reused.
//!
//! GPU residency (buffers, bind groups, pipelines) is the renderer's
//! business and lives outside this crate; here an asset is its plain data.

use vstd::prelude::*;
use crate::algebra::{Vec2, Vec3};
use crate::fx::Fx;

verus! {

/// Identifier of a mesh in the mesh manager.
pub type MeshId = usize;

/// Identifier of a material in the material manager.
pub type MaterialId = usize;

/// Identifier of a shader.
pub type ShaderId = usize;

/// Identifier of a texture.
pub type TextureId = usize;

/// The material every mesh without explicit ranges is drawn with.
pub const FALLBACK_MATERIAL_ID: usize = 0;

/// The shader a material falls back to.
pub const FALLBACK_SHADER_ID: usize = 0;

/// A compact vertex: position and normal only.
#[derive(Debug, Clone, Copy, PartialEq, Eq, Structural)]
pub struct SimpleVertex3D {
    /// Object-space position.
    pub position: Vec3,
    /// Object-space normal.
    pub normal: Vec3,
}

/// A full vertex as the scene loader produces it.
#[derive(Debug, Clone, Copy, PartialEq, Eq, Structural)]
pub struct Vertex3D {
    /// Object-space position.
    pub position: Vec3,
    /// Texture coordinate.
    pub tex_coord: Vec2,
    /// Object-space normal.
    pub normal: Vec3,
    /// Object-space tangent.
    pub tangent: Vec3,
    /// Object-space bitangent.
    pub bitangent: Vec3,
}

impl SimpleVertex3D {
    /// Widen to a full vertex: texture coordinate, tangent and bitangent
    /// are zero.
    pub fn upgrade(self) -> (r: Vertex3D)
        ensures
            r == (Vertex3D {
                position: self.position,
                tex_coord: crate::algebra::vec2_zero_s(),
                normal: self.normal,
                tangent: crate::algebra::vec3_zero_s(),
                bitangent: crate::algebra::vec3_zero_s(),
            }),
    {
        Vertex3D {
            position: self.position,
            tex_coord: Vec2 { x: 0, y: 0 },
            normal: self.normal,
            tangent: Vec3 { x: 0, y: 0, z: 0 },
            bitangent: Vec3 { x: 0, y: 0, z: 0 },
        }
    }
}

/// The vertex streams of a mesh: the vertices and, optionally, an index
/// list.
pub struct MeshVertexData<T> {
    /// The vertex stream.
    pub vertices: Vec<T>,
    /// Optional index stream.
    pub indices: Option<Vec<u32>>,
}

/// A mesh: vertex data plus the material ranges that partition its draw
/// submission; each range is `(material, start, end)` over indices when an
/// index stream is present, else over vertices.
pub struct Mesh<T> {
    /// The vertex streams.
    pub data: MeshVertexData<T>,
    /// Material ranges in submission order.
    pub material_ranges: Vec<(MaterialId, u32, u32)>,
}

impl<T> Mesh<T> {
    /// Assemble a mesh. An absent or empty range list falls back to a
    /// single range of the fallback material covering the whole index
    /// stream, or the whole vertex stream when no indices are given.
    pub fn new(vertices: Vec<T>, indices: Option<Vec<u32>>, material_ranges: Option<
        Vec<(MaterialId, u32, u32)>,
    >) -> (r: Mesh<T>)
        requires
            vertices@.len() <= u32::MAX,
            indices matches Some(ix) ==> ix@.len() <= u32::MAX,
        ensures
            r.data.vertices == vertices,
            r.data.indices == indices,
            match material_ranges {
                Some(mr) => {
                    if mr@.len() > 0 {
                        r.material_ranges == mr
                    } else {
                        r.material_ranges@ == fallback_ranges_s(vertices@.len() as int,
                            match indices {
                                Some(ix) => Some(ix@.len() as int),
                                None => None,
                            })
                    }
                },
                None => r.material_ranges@ == fallback_ranges_s(vertices@.len() as int,
                    match indices {
                        Some(ix) => Some(ix@.len() as int),
                        None => None,
                    }),
            },
    {
        let has_explicit = match &material_ranges {
            Some(mr) => mr.len() > 0,
            None => false,
        };
        if has_explicit {
            let mr = match material_ranges {
                Some(mr) => mr,
                None => Vec::new(),
            };
            Mesh { data: MeshVertexData { vertices, indices }, material_ranges: mr }
        } else {
            let end: u32 = match &indices {
                Some(ix) => ix.len() as u32,
                None => vertices.len() as u32,
            };
            let mut mr: Vec<(MaterialId, u32, u32)> = Vec::new();
            mr.push((FALLBACK_MATERIAL_ID, 0, end));
            Mesh { data: MeshVertexData { vertices, indices }, material_ranges: mr }
        }
    }
}

/// The single whole-stream fallback range: over the index stream when one
/// is present, else over the vertex stream.
pub open spec fn fallback_ranges_s(n_vertices: int, n_indices: Option<int>) -> Seq<
    (MaterialId, u32, u32),
> {
    match n_indices {
        Some(n) => seq![(FALLBACK_MATERIAL_ID, 0u32, n as u32)],
        None => seq![(FALLBACK_MATERIAL_ID, 0u32, n_vertices as u32)],
    }
}

/// A material: its plain parameters and the assets it references.
#[derive(Debug, Clone, PartialEq, Eq)]
pub struct Material {
    /// Display name.
    pub name: String,
    /// Diffuse color.
    pub diffuse: Vec3,
    /// Specular exponent.
    pub shininess: Fx,
    /// Optional diffuse texture.
    pub diffuse_texture: Option<TextureId>,
    /// Optional normal map.
    pub normal_texture: Option<TextureId>,
    /// Optional shininess map.
    pub shininess_texture: Option<TextureId>,
    /// Opacity.
    pub opacity: Fx,
    /// The shader that draws this material.
    pub shader: ShaderId,
}

/// Owner of all meshes; identifiers are indices and are never reused.
pub struct MeshManager<T> {
    /// The meshes, in creation order.
    pub meshes: Vec<Mesh<T>>,
}

impl<T> MeshManager<T> {
    /// An empty manager.
    pub fn new() -> (r: MeshManager<T>)
        ensures
            r.meshes@.len() == 0,
    {
        MeshManager { meshes: Vec::new() }
    }

    /// Register a mesh; the new identifier is the number of meshes
    /// registered before it.
    pub fn add_mesh(&mut self, mesh: Mesh<T>) -> (id: MeshId)
        ensures
            id == old(self).meshes@.len(),
            final(self).meshes@.len() == old(self).meshes@.len() + 1,
            forall|i: int| 0 <= i < old(self).meshes@.len() ==> final(self).meshes@[i]
                == old(self).meshes@[i],
    {
        let id = self.meshes.len();
        self.meshes.push(mesh);
        id
    }

    /// Look a mesh up; absent for an unknown identifier.
    pub fn get_raw_mesh(&self, id: MeshId) -> (r: Option<&Mesh<T>>)
        ensures
            id < self.meshes@.len() ==> (r matches Some(m) && m == &self.meshes@[id as int]),
            id >= self.meshes@.len() ==> r is None,
    {
        if id < self.meshes.len() {
            Some(&self.meshes[id])
        } else {
            None
        }
    }
}

/// Owner of all materials; identifiers are indices and are never reused.
pub struct MaterialManager {
    /// The materials, in creation order; index 0 is the fallback material.
    pub materials: Vec<Material>,
}

impl MaterialManager {
    /// A manager holding only the fallback material.
    pub fn new() -> (r: MaterialManager)
        ensures
            r.materials@.len() == 1,
    {
        let fallback = Material {
            name: String::new(),
            diffuse: Vec3 { x: 51642, y: 51642, z: 51642 },
            shininess: 0,
            diffuse_texture: None,
            normal_texture: None,
            shininess_texture: None,
            opacity: crate::fx::FX_ONE,
            shader: FALLBACK_SHADER_ID,
        };
        let mut materials: Vec<Material> = Vec::new();
        materials.push(fallback);
        MaterialManager { materials }
    }

    /// Register a material; the new identifier is the number of materials
    /// registered before it.
    pub fn add_material(&mut self, material: Material) -> (id: MaterialId)
        ensures
            id == old(self).materials@.len(),
            final(self).materials@ == old(self).materials@.push(material),
    {
        let id = self.materials.len();
        self.materials.push(material);
        id
    }

    /// Look a material up; absent for an unknown identifier.
    pub fn get_raw_material(&self, id: MaterialId) -> (r: Option<&Material>)
        ensures
            id < self.materials@.len() ==> (r matches Some(m) && m == &self.materials@[id as int]),
            id >= self.materials@.len() ==> r is None,
    {
        if id < self.materials.len() {
            Some(&self.materials[id])
        } else {
            None
        }
    }
}

/// All processor-side asset tables.
pub struct AssetManager {
    /// The mesh table.
    pub meshes: MeshManager<Vertex3D>,
    /// The material table.
    pub materials: MaterialManager,
}

impl AssetManager {
    /// Fresh tables: no meshes, the fallback material only.
    pub fn new() -> (r: AssetManager)
        ensures
            r.meshes.meshes@.len() == 0,
            r.materials.materials@.len() == 1,
    {
        AssetManager { meshes: MeshManager::new(), materials: MaterialManager::new() }
    }
}

} // verus!
