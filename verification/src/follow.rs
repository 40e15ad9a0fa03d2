//! Camera rig: keep a camera at a tracked entity's position plus a fixed
//! offset, oriented toward the entity.
//!
//! The binding holds an entity handle, not ownership: the tracked entity
//! may be despawned by unrelated logic at any time, so resolution returns
//! an optional position and a miss skips the binding for this frame only.

use vstd::prelude::*;

verus! {

use crate::vec3::Vec3Fx;

/// Largest world-coordinate magnitude the transform store accepts; keeps
/// the sum of a position and an offset within `i64` range.
pub const MAX_COORD: i64 = 1_000_000_000_000;

/// All components within the store's coordinate range.
pub open spec fn coord_bounded(v: Vec3Fx) -> bool {
    &&& -MAX_COORD <= v.x <= MAX_COORD
    &&& -MAX_COORD <= v.y <= MAX_COORD
    &&& -MAX_COORD <= v.z <= MAX_COORD
}

/// Declares which entity a camera tracks and the fixed spatial offset kept
/// between them; immutable for the binding's lifetime.
#[derive(Clone, Copy, Debug, PartialEq, Eq, Structural)]
pub struct FollowTarget {
    pub entity: u64,
    pub offset: Vec3Fx,
}

/// World-space placement of the camera: a position and the direction the
/// camera faces.
#[derive(Clone, Copy, Debug, PartialEq, Eq, Structural)]
pub struct Transform {
    pub translation: Vec3Fx,
    pub look_direction: Vec3Fx,
}

/// Entity table mapping handles to world positions, with resolve-or-absent
/// lookup; the scene-store collaborator seen by the camera rig.
pub struct TransformStore {
    pub entries: Vec<(u64, Vec3Fx)>,
}

/// First-match lookup of an entity's position.
pub open spec fn resolve_spec(s: Seq<(u64, Vec3Fx)>, id: u64) -> Option<Vec3Fx>
    decreases s.len(),
{
    if s.len() == 0 {
        None
    } else if s[0].0 == id {
        Some(s[0].1)
    } else {
        resolve_spec(s.skip(1), id)
    }
}

/// Every stored position is within the coordinate range.
pub open spec fn store_bounded(s: Seq<(u64, Vec3Fx)>) -> bool {
    forall|k: int| 0 <= k < s.len() ==> coord_bounded(#[trigger] s[k].1)
}

/// How lookup behaves when one entry is appended: earlier entries win, the
/// new entry answers only what was absent before.
pub proof fn lemma_resolve_push(s: Seq<(u64, Vec3Fx)>, e: (u64, Vec3Fx), id: u64)
    ensures
        resolve_spec(s.push(e), id) == (if resolve_spec(s, id) is Some {
            resolve_spec(s, id)
        } else if e.0 == id {
            Some(e.1)
        } else {
            None::<Vec3Fx>
        }),
    decreases s.len(),
{
    assert(s.push(e)[s.len() as int] == e);
    if s.len() == 0 {
        assert(s.push(e)[0] == e);
        assert(s.push(e).skip(1) =~= Seq::<(u64, Vec3Fx)>::empty());
        assert(resolve_spec(Seq::<(u64, Vec3Fx)>::empty(), id) is None);
    } else {
        assert(s.push(e)[0] == s[0]);
        assert(s.push(e).skip(1) =~= s.skip(1).push(e));
        lemma_resolve_push(s.skip(1), e, id);
    }
}

/// A resolved position comes from the store, so it is within the
/// coordinate range whenever the store is.
pub proof fn lemma_resolve_bounded(s: Seq<(u64, Vec3Fx)>, id: u64)
    requires
        store_bounded(s),
    ensures
        resolve_spec(s, id) matches Some(p) ==> coord_bounded(p),
    decreases s.len(),
{
    if s.len() > 0 && s[0].0 != id {
        assert(store_bounded(s.skip(1))) by {
            assert(forall|k: int|
                0 <= k < s.skip(1).len() ==> s.skip(1)[k] == s[k + 1]);
        }
        lemma_resolve_bounded(s.skip(1), id);
    }
}

impl TransformStore {
    /// The store's invariant: all stored positions in range.
    pub open spec fn wf(&self) -> bool {
        store_bounded(self.entries@)
    }

    /// An empty entity table.
    pub fn new() -> (s: TransformStore)
        ensures
            s.wf(),
            s.entries@.len() == 0,
            forall|id: u64| resolve_spec(s.entries@, id) is None,
    {
        TransformStore { entries: Vec::new() }
    }

    /// Record an entity's position. An already-present handle keeps its
    /// earlier position (handles are expected to be fresh).
    pub fn spawn(&mut self, id: u64, position: Vec3Fx)
        requires
            old(self).wf(),
            coord_bounded(position),
        ensures
            final(self).wf(),
            forall|j: u64|
                resolve_spec(final(self).entries@, j) == (if resolve_spec(
                    old(self).entries@,
                    j,
                ) is Some {
                    resolve_spec(old(self).entries@, j)
                } else if j == id {
                    Some(position)
                } else {
                    None::<Vec3Fx>
                }),
    {
        self.entries.push((id, position));
        proof {
            assert forall|j: u64|
                resolve_spec(self.entries@, j) == (if resolve_spec(old(self).entries@, j) is Some {
                    resolve_spec(old(self).entries@, j)
                } else if j == id {
                    Some(position)
                } else {
                    None::<Vec3Fx>
                }) by {
                lemma_resolve_push(old(self).entries@, (id, position), j);
            }
        }
    }

    /// Forget an entity: afterwards its handle no longer resolves, and
    /// every other handle resolves as before.
    pub fn despawn(&mut self, id: u64)
        requires
            old(self).wf(),
        ensures
            final(self).wf(),
            resolve_spec(final(self).entries@, id) is None,
            forall|j: u64|
                j != id ==> resolve_spec(final(self).entries@, j) == resolve_spec(
                    old(self).entries@,
                    j,
                ),
    {
        let mut kept: Vec<(u64, Vec3Fx)> = Vec::new();
        let n: usize = self.entries.len();
        proof {
            assert(self.entries@.take(0) =~= Seq::<(u64, Vec3Fx)>::empty());
        }
        let mut k: usize = 0;
        while k < n
            invariant
                k <= n,
                n == self.entries@.len(),
                self.entries@ == old(self).entries@,
                store_bounded(self.entries@),
                store_bounded(kept@),
                resolve_spec(kept@, id) is None,
                forall|j: u64|
                    j != id ==> resolve_spec(kept@, j) == resolve_spec(
                        self.entries@.take(k as int),
                        j,
                    ),
            decreases n - k,
        {
            let ghost kept_before = kept@;
            let ghost prefix = self.entries@.take(k as int);
            let e = self.entries[k];
            if e.0 != id {
                kept.push(e);
            }
            proof {
                assert(self.entries@.take(k as int + 1) =~= prefix.push(self.entries@[k as int]));
                if e.0 != id {
                    lemma_resolve_push(kept_before, e, id);
                }
                assert forall|j: u64|
                    j != id implies resolve_spec(kept@, j) == resolve_spec(
                    self.entries@.take(k as int + 1),
                    j,
                ) by {
                    lemma_resolve_push(prefix, self.entries@[k as int], j);
                    if e.0 != id {
                        lemma_resolve_push(kept_before, e, j);
                    }
                }
            }
            k = k + 1;
        }
        proof {
            assert(self.entries@.take(n as int) =~= self.entries@);
        }
        self.entries = kept;
    }

    /// Resolve an entity's current position, or report it absent.
    pub fn resolve(&self, id: u64) -> (r: Option<Vec3Fx>)
        ensures
            r == resolve_spec(self.entries@, id),
    {
        let n: usize = self.entries.len();
        proof {
            assert(self.entries@.skip(0) =~= self.entries@);
        }
        let mut k: usize = 0;
        while k < n
            invariant
                k <= n,
                n == self.entries@.len(),
                resolve_spec(self.entries@, id) == resolve_spec(self.entries@.skip(k as int), id),
            decreases n - k,
        {
            let e = self.entries[k];
            if e.0 == id {
                return Some(e.1);
            }
            proof {
                assert(self.entries@.skip(k as int).skip(1) =~= self.entries@.skip(k as int + 1));
            }
            k = k + 1;
        }
        proof {
            assert(self.entries@.skip(n as int) =~= Seq::<(u64, Vec3Fx)>::empty());
        }
        None
    }
}

/// One camera-rig frame for one binding. If the tracked entity resolves,
/// the camera moves to the tracked position plus the fixed offset and faces
/// the tracked position; if it does not, the camera keeps its last resolved
/// placement and the frame goes on.
pub fn follow_camera(camera: &mut Transform, target: &FollowTarget, store: &TransformStore)
    requires
        store.wf(),
        coord_bounded(target.offset),
    ensures
        resolve_spec(store.entries@, target.entity) is None ==> *final(camera) == *old(camera),
        resolve_spec(store.entries@, target.entity) matches Some(p) ==> {
            &&& final(camera).translation.x == p.x + target.offset.x
            &&& final(camera).translation.y == p.y + target.offset.y
            &&& final(camera).translation.z == p.z + target.offset.z
            &&& final(camera).look_direction.x == -target.offset.x
            &&& final(camera).look_direction.y == -target.offset.y
            &&& final(camera).look_direction.z == -target.offset.z
        },
{
    proof {
        lemma_resolve_bounded(store.entries@, target.entity);
    }
    let resolved = store.resolve(target.entity);
    match resolved {
        None => {},
        Some(p) => {
            camera.translation = p.plus(&target.offset);
            camera.look_direction = target.offset.negate();
        },
    }
}

} // verus!
