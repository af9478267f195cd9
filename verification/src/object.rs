//! Entities: the identifier handle and the entity record itself.
//!
//! An identifier is an opaque, copyable handle; dereferencing it is a
//! checked lookup in the world's entity table, which returns absent — never
//! a crash — for a destroyed or unknown identifier. An entity owns its
//! display name, its ordered child list, an optional weak parent reference,
//! its transform, an optional drawable, and its attached components.

use vstd::prelude::*;
use crate::components::{ComponentSlot, ComponentKind, SlotV, kind_of_v};
use crate::mesh_renderer::MeshRenderer;
use crate::transform::Transform;

verus! {

/// An opaque, copyable handle denoting a logical object; valid only while
/// its entity is present in the world's table.
#[derive(Debug, Clone, Copy, PartialEq, Eq, PartialOrd, Ord, Hash, Structural)]
pub struct GameObjectId(pub usize);

/// A logical object of the simulated world.
#[derive(Debug, Clone, PartialEq, Eq)]
pub struct GameObject {
    /// This entity's own identifier.
    pub id: GameObjectId,
    /// Display name.
    pub name: String,
    /// Children in insertion order; this order is traversal order.
    pub children: Vec<GameObjectId>,
    /// Weak reference to the parent, if any.
    pub parent: Option<GameObjectId>,
    /// Local spatial state.
    pub transform: Transform,
    /// Optional drawable attachment.
    pub drawable: Option<MeshRenderer>,
    /// Attached components in registration order.
    pub components: Vec<ComponentSlot>,
}

/// Mathematical model of an entity.
#[verifier::ext_equal]
pub struct ObjV {
    /// This entity's own identifier.
    pub id: GameObjectId,
    /// Display name.
    pub name: Seq<char>,
    /// Children in insertion order.
    pub children: Seq<GameObjectId>,
    /// Weak reference to the parent, if any.
    pub parent: Option<GameObjectId>,
    /// Local spatial state.
    pub transform: Transform,
    /// Optional drawable attachment.
    pub drawable: Option<MeshRenderer>,
    /// Attached components in registration order.
    pub components: Seq<SlotV>,
}

impl View for GameObject {
    type V = ObjV;

    open spec fn view(&self) -> ObjV {
        ObjV {
            id: self.id,
            name: self.name@,
            children: self.children@,
            parent: self.parent,
            transform: self.transform,
            drawable: self.drawable,
            components: self.components@.map_values(|c: ComponentSlot| c@),
        }
    }
}

/// The first component of the given kind, searched in registration order.
pub open spec fn find_component_s(comps: Seq<SlotV>, kind: ComponentKind) -> Option<SlotV>
    decreases comps.len(),
{
    if comps.len() == 0 {
        None
    } else if kind_of_v(comps[0].data) == kind {
        Some(comps[0])
    } else {
        find_component_s(comps.drop_first(), kind)
    }
}

impl GameObject {
    /// Replace the drawable attachment.
    pub fn set_drawable(&mut self, drawable: Option<MeshRenderer>)
        ensures
            *final(self) == (GameObject { drawable, ..*old(self) }),
    {
        self.drawable = drawable;
    }

    /// Capability query: the first attached component of the given kind, in
    /// registration order; absent when no component of that kind is
    /// attached. A checked lookup, never an unchecked cast.
    pub fn get_component(&self, kind: ComponentKind) -> (r: Option<&ComponentSlot>)
        ensures
            match r {
                Some(c) => find_component_s(self@.components, kind) == Some(c@),
                None => find_component_s(self@.components, kind) is None,
            },
    {
        let n = self.components.len();
        proof {
            assert(self@.components.skip(0) =~= self@.components);
        }
        for i in 0..n
            invariant
                n == self.components@.len(),
                find_component_s(self@.components, kind) == find_component_s(
                    self@.components.skip(i as int),
                    kind,
                ),
        {
            proof {
                assert(self@.components.skip(i as int)[0] == self@.components[i as int]);
                assert(self@.components.skip(i as int).drop_first() == self@.components.skip(
                    i as int + 1));
            }
            if self.components[i].data.kind() == kind {
                return Some(&self.components[i]);
            }
        }
        proof {
            assert(self@.components.skip(n as int).len() == 0);
        }
        None
    }
}

} // verus!
