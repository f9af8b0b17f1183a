//! Building footprints by subtype and rotation, taken from the object bank
//! and SHAPES.DAT.

use std::collections::HashMap;

use vstd::prelude::*;

use super::types::{is_subtype_value, subtype_value, BuildingSubtype};
use crate::data::objects::{occupied_list, Object3D, ShapeFootprints};
use crate::data::units::{building_obj_index, building_obj_index_spec};

verus! {

broadcast use vstd::std_specs::hash::group_hash_axioms;

/// The key a footprint is stored under: the subtype's value and the
/// rotation taken modulo 4.
pub open spec fn footprint_key(subtype: BuildingSubtype, rotation: u8) -> u16 {
    (subtype_value(subtype) as int * 4 + rotation as int % 4) as u16
}

/// The occupied cells of each building subtype at each rotation.
#[derive(Debug, Clone)]
pub struct BuildingCatalog {
    footprints: HashMap<u16, Vec<(i16, i16)>>,
}

/// The footprint the assets give a subtype at rotation `rot` (0..4): the
/// completed model of tribe 0 names a SHAPES.DAT entry for the rotation,
/// and the entry's occupied cells, when there are any, are the footprint.
pub open spec fn asset_footprint(
    objects: Seq<Option<Object3D>>,
    fp: (Seq<crate::data::objects::Shape>, Seq<u8>),
    subtype: BuildingSubtype,
    rot: int,
) -> Option<Seq<(i16, i16)>> {
    match building_obj_index_spec(subtype_value(subtype), 0) {
        Some(i) => if i < objects.len() && objects[i as int] is Some {
            let o = objects[i as int]->0@;
            let si = o.0.fp_idx[rot];
            if si >= 0 && (si as int) < fp.0.len() {
                let s = fp.0[si as int];
                let cells = occupied_list(fp, si as int, s.width * s.height);
                if cells.len() > 0 {
                    Some(cells)
                } else {
                    None
                }
            } else {
                None
            }
        } else {
            None
        },
        None => None,
    }
}

/// Whether every footprint's cells can be addressed in the bitmap.
pub open spec fn footprints_addressable(fp: (Seq<crate::data::objects::Shape>, Seq<u8>)) -> bool {
    forall|i: int| 0 <= i < fp.0.len() ==> (#[trigger] fp.0[i]).shape_ref + fp.0[i].width * fp.0[i].height <= usize::MAX
}

proof fn lemma_key_unique(a: BuildingSubtype, ra: u8, b: BuildingSubtype, rb: u8)
    ensures
        footprint_key(a, ra) == footprint_key(b, rb) <==> (a == b && ra % 4 == rb % 4),
{
}

impl BuildingCatalog {
    /// The footprint stored for a subtype at a rotation (taken modulo 4).
    pub closed spec fn footprint_spec(&self, subtype: BuildingSubtype, rotation: u8) -> Option<Seq<(i16, i16)>> {
        let k = footprint_key(subtype, rotation);
        if self.footprints@.contains_key(k) {
            Some(self.footprints@[k]@)
        } else {
            None
        }
    }

    /// An empty catalog.
    pub fn new() -> (r: Self)
        ensures
            forall|s: BuildingSubtype, rot: u8| (#[trigger] r.footprint_spec(s, rot)) is None,
    {
        BuildingCatalog { footprints: HashMap::new() }
    }

    /// Store the footprint of a subtype at a rotation (taken modulo 4),
    /// replacing what was stored there.
    pub fn insert(&mut self, subtype: BuildingSubtype, rotation: u8, cells: Vec<(i16, i16)>)
        ensures
            final(self).footprint_spec(subtype, rotation) == Some(cells@),
            forall|s: BuildingSubtype, rot: u8|
                s != subtype || rot % 4 != rotation % 4 ==> #[trigger] final(self).footprint_spec(s, rot) == old(
                    self,
                ).footprint_spec(s, rot),
    {
        let r = rotation & 3;
        assert(r == rotation % 4) by (bit_vector)
            requires
                r == rotation & 3,
        ;
        let key = subtype.value() as u16 * 4 + r as u16;
        self.footprints.insert(key, cells);
        proof {
            assert forall|s: BuildingSubtype, rot: u8|
                s != subtype || rot % 4 != rotation % 4 implies #[trigger] self.footprint_spec(s, rot) == old(
                    self,
                ).footprint_spec(s, rot) by {
                lemma_key_unique(s, rot, subtype, rotation);
            }
        }
    }

    /// The footprint of a subtype at a rotation (taken modulo 4), if stored.
    pub fn footprint(&self, subtype: BuildingSubtype, rotation: u8) -> (r: Option<&[(i16, i16)]>)
        ensures
            r matches Some(c) ==> self.footprint_spec(subtype, rotation) == Some(c@),
            r is None ==> self.footprint_spec(subtype, rotation) is None,
    {
        let r = rotation & 3;
        assert(r == rotation % 4) by (bit_vector)
            requires
                r == rotation & 3,
        ;
        let key = subtype.value() as u16 * 4 + r as u16;
        match self.footprints.get(&key) {
            Some(v) => Some(v.as_slice()),
            None => None,
        }
    }

    /// The footprints the assets give every building subtype at each
    /// rotation (see `asset_footprint`); subtypes and rotations without one
    /// are left out.
    pub fn from_assets(objects: &[Option<Object3D>], footprints: &ShapeFootprints) -> (r: Self)
        requires
            footprints_addressable(footprints@),
        ensures
            forall|s: BuildingSubtype, rot: u8|
                #[trigger] r.footprint_spec(s, rot) == asset_footprint(objects@, footprints@, s, rot as int % 4),
    {
        let mut catalog = Self::new();
        let mut raw_subtype: u8 = 1;
        while raw_subtype <= 18
            invariant
                1 <= raw_subtype <= 19,
                footprints_addressable(footprints@),
                forall|s: BuildingSubtype, rot: u8|
                    #[trigger] catalog.footprint_spec(s, rot) == if subtype_value(s) < raw_subtype {
                        asset_footprint(objects@, footprints@, s, rot as int % 4)
                    } else {
                        None
                    },
            decreases 19 - raw_subtype,
        {
            match BuildingSubtype::from_u8(raw_subtype) {
                Ok(subtype) => {
                    match building_obj_index(raw_subtype, 0) {
                        Some(object_index) => {
                            if object_index < objects.len() {
                                match &objects[object_index] {
                                    Some(object) => {
                                        let mut rotation: u8 = 0;
                                        while rotation < 4
                                            invariant
                                                rotation <= 4,
                                                subtype_value(subtype) == raw_subtype,
                                                building_obj_index_spec(raw_subtype, 0) == Some(object_index),
                                                object_index < objects@.len(),
                                                objects@[object_index as int] == Some(*object),
                                                footprints_addressable(footprints@),
                                                forall|s: BuildingSubtype, rot: u8|
                                                    #[trigger] catalog.footprint_spec(s, rot) == if subtype_value(s)
                                                        < raw_subtype || (s == subtype && rot % 4 < rotation) {
                                                        asset_footprint(objects@, footprints@, s, rot as int % 4)
                                                    } else {
                                                        None
                                                    },
                                            decreases 4 - rotation,
                                        {
                                            let ghost before = catalog;
                                            let shape_index = object.footprint_index(rotation as usize);
                                            if shape_index >= 0 {
                                                match footprints.occupied_offsets(shape_index as usize) {
                                                    Some(cells) => {
                                                        if cells.len() > 0 {
                                                            catalog.insert(subtype, rotation, cells);
                                                        }
                                                    },
                                                    None => {},
                                                }
                                            }
                                            proof {
                                                assert forall|s: BuildingSubtype, rot: u8|
                                                    #[trigger] catalog.footprint_spec(s, rot) == if subtype_value(s)
                                                        < raw_subtype || (s == subtype && rot % 4 < rotation + 1) {
                                                        asset_footprint(objects@, footprints@, s, rot as int % 4)
                                                    } else {
                                                        None
                                                    } by {
                                                    assert(before.footprint_spec(s, rot) == if subtype_value(s)
                                                        < raw_subtype || (s == subtype && rot % 4 < rotation) {
                                                        asset_footprint(objects@, footprints@, s, rot as int % 4)
                                                    } else {
                                                        None
                                                    });
                                                }
                                            }
                                            rotation += 1;
                                        }
                                    },
                                    None => {},
                                }
                            }
                        },
                        None => {},
                    }
                },
                Err(_) => {},
            }
            raw_subtype += 1;
        }
        catalog
    }
}

impl Default for BuildingCatalog {
    /// An empty catalog.
    fn default() -> (r: Self)
        ensures
            forall|s: BuildingSubtype, rot: u8| (#[trigger] r.footprint_spec(s, rot)) is None,
    {
        Self::new()
    }
}

} // verus!
