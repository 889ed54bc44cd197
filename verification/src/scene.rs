//! A scene: objects, the materials they use, and the objects of each
//! material grouped by material type.

use vstd::prelude::*;
use std::collections::HashMap;
use crate::render::MaterialGroup;

verus! {

/// A material as a scene sees it: which material it is (its identity, as
/// the allocation it lives in), its type, and the id it carries (0 for
/// none). The id belongs to the material and is shared by all its users.
#[derive(Debug, Clone, Copy, PartialEq, Eq, Structural)]
pub struct MaterialHandle {
    pub identity: u64,
    pub type_key: u64,
    pub id: u64,
}

/// The objects of material `mid` in the group of its type.
pub open spec fn group_list(groups: Map<u64, MaterialGroup>, t: u64, mid: u64) -> Seq<u64> {
    if groups.contains_key(t) && groups[t].map@.contains_key(mid) {
        groups[t].map@[mid]@
    } else {
        Seq::empty()
    }
}

/// Objects by id, each with a payload `O`, and the materials they use.
pub struct Scene<O> {
    last_id: u64,
    dyn_material_map: HashMap<u64, u64>,
    objects: HashMap<u64, (O, u64)>,
    material_objects: HashMap<u64, MaterialGroup>,
}

impl<O> Scene<O> {
    /// The next id to give.
    pub closed spec fn next_id(&self) -> u64 {
        self.last_id
    }

    /// The materials the scene gave ids, by id: their identities.
    pub closed spec fn materials(&self) -> Map<u64, u64> {
        self.dyn_material_map@
    }

    /// The objects by id: payload and material id.
    pub closed spec fn objects(&self) -> Map<u64, (O, u64)> {
        self.objects@
    }

    /// The groups by material type.
    pub closed spec fn groups(&self) -> Map<u64, MaterialGroup> {
        self.material_objects@
    }

    /// Every object id and every id given to a material is below the next
    /// id.
    pub closed spec fn wf(&self) -> bool {
        &&& forall|k: u64| #[trigger] self.objects@.contains_key(k) ==> k < self.last_id
        &&& forall|k: u64| #[trigger] self.dyn_material_map@.contains_key(k) ==> k < self.last_id
    }

    /// An empty scene; ids start at 1.
    pub fn new() -> (r: Self)
        ensures
            r.wf(),
            r.next_id() == 1,
            r.materials() == Map::<u64, u64>::empty(),
            r.objects() == Map::<u64, (O, u64)>::empty(),
            r.groups() == Map::<u64, MaterialGroup>::empty(),
    {
        Scene {
            last_id: 1,
            dyn_material_map: HashMap::new(),
            objects: HashMap::new(),
            material_objects: HashMap::new(),
        }
    }

    /// Whether `material` may join the scene: a material carrying an id the
    /// scene gave another material belongs to another scene.
    pub open spec fn accepts(&self, material: MaterialHandle) -> bool {
        material.id != 0 && self.materials().contains_key(material.id) ==> self.materials()[material.id]
            == material.identity
    }

    /// Whether `material` may join the scene (see [`Scene::accepts`]).
    pub fn can_add(&self, material: &MaterialHandle) -> (r: bool)
        ensures
            r == self.accepts(*material),
    {
        broadcast use vstd::std_specs::hash::group_hash_axioms;
        if material.id == 0 {
            return true;
        }
        match self.dyn_material_map.get(&material.id) {
            Some(identity) => *identity == material.identity,
            None => true,
        }
    }

    /// Adds `object` drawn with `material` and returns its id. A material
    /// without an id gets the next id and is recorded; the object joins the
    /// group of its material type under its material id.
    pub fn add_object(&mut self, object: O, material: &mut MaterialHandle) -> (r: u64)
        requires
            old(self).wf(),
            old(self).next_id() + 2 <= u64::MAX,
            old(self).accepts(*old(material)),
        ensures
            final(self).wf(),
            r == old(self).next_id(),
            ({
                let fresh = old(material).id == 0;
                let mid: u64 = if fresh { (old(self).next_id() + 1) as u64 } else { old(material).id };
                let t = old(material).type_key;
                &&& final(material).id == mid
                &&& final(material).identity == old(material).identity
                &&& final(material).type_key == t
                &&& final(self).next_id() == if fresh { old(self).next_id() + 2 } else { old(self).next_id() + 1 }
                &&& final(self).materials() == if fresh {
                    old(self).materials().insert(mid, old(material).identity)
                } else {
                    old(self).materials()
                }
                &&& final(self).objects() == old(self).objects().insert(r, (object, mid))
                &&& final(self).groups().dom() == old(self).groups().dom().insert(t)
                &&& group_list(final(self).groups(), t, mid) == group_list(old(self).groups(), t, mid).push(r)
                &&& forall|t2: u64, m2: u64| (t2 != t || m2 != mid) ==> group_list(final(self).groups(), t2, m2)
                    == group_list(old(self).groups(), t2, m2)
            }),
    {
        broadcast use vstd::std_specs::hash::group_hash_axioms;
        let id = self.last_id;
        self.last_id = self.last_id + 1;
        let material_id = if material.id != 0 {
            material.id
        } else {
            let mid = self.last_id;
            material.id = mid;
            self.last_id = self.last_id + 1;
            self.dyn_material_map.insert(mid, material.identity);
            mid
        };
        let t = material.type_key;
        let ghost g0 = self.material_objects@;
        let mut group = match self.material_objects.remove(&t) {
            Some(g) => g,
            None => MaterialGroup::new(),
        };
        let ghost m0 = group.map@;
        let mut list = match group.map.remove(&material_id) {
            Some(l) => l,
            None => Vec::new(),
        };
        proof {
            assert(list@ == group_list(g0, t, material_id));
        }
        list.push(id);
        group.map.insert(material_id, list);
        self.material_objects.insert(t, group);
        self.objects.insert(id, (object, material_id));
        proof {
            let g1 = self.material_objects@;
            assert(g1.dom() =~= g0.dom().insert(t));
            assert forall|t2: u64, m2: u64| (t2 != t || m2 != material_id) implies group_list(g1, t2, m2)
                == group_list(g0, t2, m2) by {
                if t2 == t {
                    assert(g1[t].map@ == m0.insert(material_id, g1[t].map@[material_id]));
                }
            }
        }
        id
    }

    /// Removes nothing: deleting objects is not supported, and it reports
    /// success.
    pub fn delete_object(&mut self, id: u64) -> (r: bool)
        ensures
            r,
            final(self).objects() == old(self).objects(),
    {
        true
    }

    /// The object with id `id`, if any.
    pub fn get_object(&self, id: u64) -> (r: Option<&O>)
        ensures
            match r {
                Some(o) => self.objects().contains_key(id) && *o == self.objects()[id].0,
                None => !self.objects().contains_key(id),
            },
    {
        broadcast use vstd::std_specs::hash::group_hash_axioms;
        match self.objects.get(&id) {
            Some(p) => Some(&p.0),
            None => None,
        }
    }

    /// The identity of the material with id `id`, if the scene gave that id.
    pub fn get_material(&self, id: u64) -> (r: Option<u64>)
        ensures
            match r {
                Some(m) => self.materials().contains_key(id) && m == self.materials()[id],
                None => !self.materials().contains_key(id),
            },
    {
        broadcast use vstd::std_specs::hash::group_hash_axioms;
        match self.dyn_material_map.get(&id) {
            Some(m) => Some(*m),
            None => None,
        }
    }

    /// The groups by material type.
    pub fn load_material_objects(&self) -> (r: &HashMap<u64, MaterialGroup>)
        ensures
            r@ == self.groups(),
    {
        &self.material_objects
    }
}


/// Object ids are never reused: the id `add_object` returns is not that of
/// an object already in the scene.
pub proof fn lemma_object_ids_fresh<O>(s: Scene<O>)
    requires
        s.wf(),
    ensures
        !s.objects().contains_key(s.next_id()),
{
}

/// Scenes kept under ids, handed out and taken back.
pub struct ResourceManager<S> {
    last_id: u64,
    scene_map: HashMap<u64, S>,
}

impl<S> ResourceManager<S> {
    pub closed spec fn next_id(&self) -> u64 {
        self.last_id
    }

    pub closed spec fn scenes(&self) -> Map<u64, S> {
        self.scene_map@
    }

    /// Every kept scene's id is below the next id.
    pub closed spec fn wf(&self) -> bool {
        forall|k: u64| #[trigger] self.scene_map@.contains_key(k) ==> k < self.last_id
    }

    /// No scenes; ids start at 0.
    pub fn new() -> (r: Self)
        ensures
            r.wf(),
            r.next_id() == 0,
            r.scenes() == Map::<u64, S>::empty(),
    {
        ResourceManager { last_id: 0, scene_map: HashMap::new() }
    }

    /// Keeps `scene` under the next id, which it returns.
    pub fn insert(&mut self, scene: S) -> (r: u64)
        requires
            old(self).wf(),
            old(self).next_id() < u64::MAX,
        ensures
            final(self).wf(),
            r == old(self).next_id(),
            final(self).next_id() == old(self).next_id() + 1,
            final(self).scenes() == old(self).scenes().insert(r, scene),
    {
        broadcast use vstd::std_specs::hash::group_hash_axioms;
        let id = self.last_id;
        self.last_id = self.last_id + 1;
        self.scene_map.insert(id, scene);
        id
    }

    /// Takes back the scene kept under `id`.
    pub fn take(&mut self, id: u64) -> (r: S)
        requires
            old(self).wf(),
            old(self).scenes().contains_key(id),
        ensures
            final(self).wf(),
            r == old(self).scenes()[id],
            final(self).scenes() == old(self).scenes().remove(id),
            final(self).next_id() == old(self).next_id(),
    {
        broadcast use vstd::std_specs::hash::group_hash_axioms;
        self.scene_map.remove(&id).unwrap()
    }
}

/// A scene inserted is taken back unchanged: the id `insert` returns is
/// new, so taking it gives the scene and leaves the others as they were.
pub proof fn lemma_insert_take<S>(rm: ResourceManager<S>, scene: S)
    requires
        rm.wf(),
    ensures
        !rm.scenes().contains_key(rm.next_id()),
        rm.scenes().insert(rm.next_id(), scene)[rm.next_id()] == scene,
        rm.scenes().insert(rm.next_id(), scene).remove(rm.next_id()) == rm.scenes(),
{
    assert(rm.scenes().insert(rm.next_id(), scene).remove(rm.next_id()) =~= rm.scenes());
}

} // verus!
