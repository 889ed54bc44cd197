//! Materials and the grouping of scene objects by material.

use vstd::prelude::*;
use std::any::TypeId;
use std::collections::HashMap;

verus! {

#[verifier::external_type_specification]
#[verifier::external_body]
pub struct ExTypeId(TypeId);

/// `TypeId::of`: the identifier of type `T`. It is only compared with
/// others, so nothing is stated of it.
#[verifier::external_body]
fn type_id_of<T: 'static>() -> (r: TypeId) {
    TypeId::of::<T>()
}

/// A material: it may carry the id a scene gave it.
pub trait Material {
    /// The id the material was given, if any.
    fn material_id(&self) -> Option<u64>;

    /// Sets the id (none for `None`), returning the former one.
    fn reset_material_id(&mut self, id: Option<u64>) -> Option<u64>;
}

/// The parameters of a kind of material.
pub trait MaterialParameter {}

/// A material of parameters `P`; the id 0 stands for no id.
#[derive(Debug)]
pub struct BMaterial<P> {
    p: P,
    id: u64,
}

impl<P: MaterialParameter> BMaterial<P> {
    /// The stored id, 0 for none.
    pub closed spec fn id_view(&self) -> u64 {
        self.id
    }

    pub closed spec fn params(&self) -> P {
        self.p
    }

    /// A material without an id.
    pub fn new(p: P) -> (r: Self)
        ensures
            r.id_view() == 0,
            r.params() == p,
    {
        BMaterial { p, id: 0 }
    }

    /// The type identifier of this material type.
    pub fn static_type_id() -> (r: TypeId)
        where P: 'static
    {
        type_id_of::<Self>()
    }

    /// The parameters.
    pub fn inner(&self) -> (r: &P)
        ensures
            *r == self.params(),
    {
        &self.p
    }
}

impl<P: MaterialParameter> Material for BMaterial<P> {
    fn material_id(&self) -> (r: Option<u64>)
        ensures
            r == if self.id_view() == 0 {
                None
            } else {
                Some(self.id_view())
            },
    {
        if self.id == 0 {
            None
        } else {
            Some(self.id)
        }
    }

    fn reset_material_id(&mut self, id: Option<u64>) -> (r: Option<u64>)
        ensures
            r == if old(self).id_view() == 0 {
                None
            } else {
                Some(old(self).id_view())
            },
            final(self).id_view() == match id {
                Some(i) => i,
                None => 0,
            },
            final(self).params() == old(self).params(),
    {
        let old_id = if self.id == 0 {
            None
        } else {
            Some(self.id)
        };
        match id {
            Some(i) => {
                self.id = i;
            },
            None => {
                self.id = 0;
            },
        }
        old_id
    }
}

/// The parameters of the basic material.
#[derive(Debug, Default)]
pub struct BasicMaterialParameter {
    pub has_color: bool,
    pub has_texture: bool,
    pub has_normal: bool,
    pub line: bool,
}

impl BasicMaterialParameter {
    pub fn new() -> (r: Self)
        ensures
            !r.has_color && !r.has_texture && !r.has_normal && !r.line,
    {
        BasicMaterialParameter { has_color: false, has_texture: false, has_normal: false, line: false }
    }
}

impl MaterialParameter for BasicMaterialParameter {}

/// The parameters of the depth material.
#[derive(Debug)]
pub struct DepthMaterialParameter {
    pub line: bool,
}

impl DepthMaterialParameter {
    pub fn new() -> (r: Self)
        ensures
            !r.line,
    {
        DepthMaterialParameter { line: false }
    }
}

impl MaterialParameter for DepthMaterialParameter {}

/// The parameters of the constant color material.
#[derive(Debug)]
pub struct ConstantMaterialParameter {
    pub line: bool,
}

impl ConstantMaterialParameter {
    pub fn new() -> (r: Self)
        ensures
            !r.line,
    {
        ConstantMaterialParameter { line: false }
    }
}

impl MaterialParameter for ConstantMaterialParameter {}

/// The objects of one material type, by material id.
#[derive(Debug)]
pub struct MaterialGroup {
    pub map: HashMap<u64, Vec<u64>>,
}

impl MaterialGroup {
    pub fn new() -> (r: Self)
        ensures
            r.map@ == Map::<u64, Vec<u64>>::empty(),
    {
        MaterialGroup { map: HashMap::new() }
    }

    /// The objects of material `id`, which must have some.
    pub fn get_objects_from_material(&self, id: u64) -> (r: &Vec<u64>)
        requires
            self.map@.contains_key(id),
        ensures
            *r == self.map@[id],
    {
        broadcast use vstd::std_specs::hash::group_hash_axioms;
        self.map.get(&id).unwrap()
    }
}

} // verus!
