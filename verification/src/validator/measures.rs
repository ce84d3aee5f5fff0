//! Rules on measured geometry: the orientation of build item transforms and
//! of meshes.
//!
//! The measures (determinants, volumes) are taken in binary64 arithmetic by
//! the caller; this module compares them with the thresholds of the rules.
use crate::error::{self, Error, Kind};
use crate::float_bits::{self, ONE_BITS, ZERO_BITS};
use crate::model::{Model, Object};
use crate::validator::displacement::{geometry_fits, geometry_matches, DisplacementGeometry};
use std::collections::HashSet;
use vstd::prelude::*;

verus! {

broadcast use vstd::std_specs::hash::group_hash_axioms;

/// The bit pattern of `1e-10`.
pub const DETERMINANT_EPSILON: u64 = 0x3ddb_7cdf_d9d7_bdbbu64;

/// The bit pattern of `-1e-10`.
pub const NEGATIVE_EPSILON: u64 = 0xbddb_7cdf_d9d7_bdbbu64;

/// Measures of a model, taken in binary64 arithmetic.  Values are bit
/// patterns of `f64`.
#[derive(Debug)]
pub struct Measures {
    /// Per build item, the determinant of the linear part (the first nine
    /// entries, row-major) of its transform, where it has one.
    pub determinants: Vec<u64>,
    /// Per object, the signed volume of its mesh, where it has one.
    pub mesh_volumes: Vec<u64>,
    /// The measures of the displacement resources.
    pub displacement: DisplacementGeometry,
}

/// Whether `meas` holds a measure for each thing of `m` that it measures: a
/// determinant per build item, a volume per object, and the displacement
/// measures (see `geometry_fits`).
pub open spec fn measures_fit(m: Model, meas: Measures) -> bool {
    &&& meas.determinants@.len() == m.build.items@.len()
    &&& meas.mesh_volumes@.len() == m.resources.objects@.len()
    &&& geometry_fits(m, meas.displacement)
}

/// Whether `meas` fits `m` (see `measures_fit`).
pub fn measures_match(m: &Model, meas: &Measures) -> (r: bool)
    ensures
        r == measures_fit(*m, *meas),
{
    meas.determinants.len() == m.build.items.len() && meas.mesh_volumes.len()
        == m.resources.objects.len() && geometry_matches(m, &meas.displacement)
}

/// The determinant of the transform of build item `k`.
pub open spec fn determinant_of(meas: Measures, k: int) -> u64 {
    if 0 <= k < meas.determinants@.len() {
        meas.determinants@[k]
    } else {
        ONE_BITS
    }
}

/// The signed volume of the mesh of object `i`.
pub open spec fn mesh_volume_of(meas: Measures, i: int) -> u64 {
    if 0 <= i < meas.mesh_volumes@.len() {
        meas.mesh_volumes@[i]
    } else {
        ONE_BITS
    }
}

/// Whether some object with id `id` has a slice stack.
pub open spec fn is_sliced_id(m: Model, id: usize) -> bool {
    exists|i: int|
        0 <= i < m.resources.objects@.len() && (#[trigger] m.resources.objects@[i]).id == id
            && m.resources.objects@[i].slicestackid is Some
}

/// The transform of build item `k`, unless it places a sliced object, has a
/// determinant of absolute value at least `1e-10` and not negative.
pub open spec fn item_transform_finding(m: Model, meas: Measures, k: int) -> error::Finding {
    let item = m.build.items@[k];
    if is_sliced_id(m, item.objectid) {
        None
    } else {
        match item.transform {
            None => None,
            Some(t) => {
                let det = determinant_of(meas, k);
                if float_bits::spec_lt(det, DETERMINANT_EPSILON) && float_bits::spec_lt(
                    NEGATIVE_EPSILON,
                    det,
                ) {
                    error::found(
                        Kind::TransformSingular {
                            item: k as usize,
                            det,
                            m00: t@[0],
                            m01: t@[1],
                            m02: t@[2],
                            m10: t@[3],
                            m11: t@[4],
                            m12: t@[5],
                            m20: t@[6],
                            m21: t@[7],
                            m22: t@[8],
                            tx: t@[9],
                            ty: t@[10],
                            tz: t@[11],
                        },
                    )
                } else if float_bits::spec_lt(det, ZERO_BITS) {
                    error::found(
                        Kind::TransformMirror {
                            item: k as usize,
                            det,
                            m00: t@[0],
                            m01: t@[1],
                            m02: t@[2],
                            m10: t@[3],
                            m11: t@[4],
                            m12: t@[5],
                            m20: t@[6],
                            m21: t@[7],
                            m22: t@[8],
                            tx: t@[9],
                            ty: t@[10],
                            tz: t@[11],
                        },
                    )
                } else {
                    None
                }
            },
        }
    }
}

pub open spec fn item_transform_check(m: Model, meas: Measures) -> spec_fn(int) -> error::Finding {
    |k: int| item_transform_finding(m, meas, k)
}

pub open spec fn transforms_finding(m: Model, meas: Measures) -> error::Finding {
    error::first(m.build.items@.len() as int, item_transform_check(m, meas))
}

/// The mesh of object `o`, the `i`-th, unless it has a slice stack, has a
/// signed volume of at least `-1e-10`.
pub open spec fn mesh_volume_finding(meas: Measures, i: int, o: Object) -> error::Finding {
    if o.slicestackid is Some || o.mesh is None {
        None
    } else if float_bits::spec_lt(mesh_volume_of(meas, i), NEGATIVE_EPSILON) {
        error::found(Kind::MeshNegativeVolume { object: o.id, volume: mesh_volume_of(meas, i) })
    } else {
        None
    }
}

pub open spec fn mesh_volume_check(m: Model, meas: Measures) -> spec_fn(int) -> error::Finding {
    |i: int| mesh_volume_finding(meas, i, m.resources.objects@[i])
}

pub open spec fn mesh_volumes_finding(m: Model, meas: Measures) -> error::Finding {
    error::first(m.resources.objects@.len() as int, mesh_volume_check(m, meas))
}

fn sliced_id_set(m: &Model) -> (s: HashSet<usize>)
    ensures
        forall|id: usize| #[trigger] s@.contains(id) <==> is_sliced_id(*m, id),
{
    let objs = &m.resources.objects;
    let mut s: HashSet<usize> = HashSet::new();
    let mut i: usize = 0;
    while i < objs.len()
        invariant
            i <= objs@.len(),
            objs@ == m.resources.objects@,
            forall|id: usize| #[trigger]
                s@.contains(id) <==> exists|j: int|
                    0 <= j < i && (#[trigger] objs@[j]).id == id && objs@[j].slicestackid is Some,
        decreases objs@.len() - i,
    {
        if objs[i].slicestackid.is_some() {
            s.insert(objs[i].id);
        }
        proof {
            assert forall|id: usize| #[trigger]
                s@.contains(id) <==> exists|j: int|
                    0 <= j < i + 1 && (#[trigger] objs@[j]).id == id && objs@[j].slicestackid is Some by {
                if objs@[i as int].id == id && objs@[i as int].slicestackid is Some {
                    assert(s@.contains(id));
                }
            }
        }
        i += 1;
    }
    s
}

/// Checks that the transforms of build items do not collapse or mirror
/// space, given their determinants; items that place sliced objects are
/// exempt.
pub fn validate_transform_matrices(model: &Model, measures: &Measures) -> (r: Result<(), Error>)
    requires
        measures_fit(*model, *measures),
    ensures
        error::reports(r, transforms_finding(*model, *measures)),
{
    let sliced = sliced_id_set(model);
    let items = &model.build.items;
    let ghost n = items@.len() as int;
    let mut k: usize = 0;
    while k < items.len()
        invariant
            k <= items@.len(),
            n == items@.len(),
            items@ == model.build.items@,
            forall|id: usize| #[trigger] sliced@.contains(id) <==> is_sliced_id(*model, id),
            error::first(n, item_transform_check(*model, *measures)) == error::first_from(
                n,
                item_transform_check(*model, *measures),
                k as int,
            ),
        decreases items@.len() - k,
    {
        let item = &items[k];
        if !sliced.contains(&item.objectid) {
            if let Some(t) = &item.transform {
                let det = if k < measures.determinants.len() {
                    measures.determinants[k]
                } else {
                    ONE_BITS
                };
                if float_bits::f64_lt(det, DETERMINANT_EPSILON) && float_bits::f64_lt(
                    NEGATIVE_EPSILON,
                    det,
                ) {
                    return error::fail(
                        Kind::TransformSingular {
                            item: k,
                            det,
                            m00: t[0],
                            m01: t[1],
                            m02: t[2],
                            m10: t[3],
                            m11: t[4],
                            m12: t[5],
                            m20: t[6],
                            m21: t[7],
                            m22: t[8],
                            tx: t[9],
                            ty: t[10],
                            tz: t[11],
                        },
                    );
                }
                if float_bits::f64_lt(det, ZERO_BITS) {
                    return error::fail(
                        Kind::TransformMirror {
                            item: k,
                            det,
                            m00: t[0],
                            m01: t[1],
                            m02: t[2],
                            m10: t[3],
                            m11: t[4],
                            m12: t[5],
                            m20: t[6],
                            m21: t[7],
                            m22: t[8],
                            tx: t[9],
                            ty: t[10],
                            tz: t[11],
                        },
                    );
                }
            }
        }
        k += 1;
    }
    Ok(())
}

/// Checks that the meshes of objects without slice stacks are not inside
/// out, given their signed volumes.
pub fn validate_mesh_volume(model: &Model, measures: &Measures) -> (r: Result<(), Error>)
    requires
        measures_fit(*model, *measures),
    ensures
        error::reports(r, mesh_volumes_finding(*model, *measures)),
{
    let objs = &model.resources.objects;
    let ghost n = objs@.len() as int;
    let mut i: usize = 0;
    while i < objs.len()
        invariant
            i <= objs@.len(),
            n == objs@.len(),
            objs@ == model.resources.objects@,
            error::first(n, mesh_volume_check(*model, *measures)) == error::first_from(
                n,
                mesh_volume_check(*model, *measures),
                i as int,
            ),
        decreases objs@.len() - i,
    {
        let o = &objs[i];
        if o.slicestackid.is_none() && o.mesh.is_some() {
            let volume = if i < measures.mesh_volumes.len() {
                measures.mesh_volumes[i]
            } else {
                ONE_BITS
            };
            if float_bits::f64_lt(volume, NEGATIVE_EPSILON) {
                return error::fail(Kind::MeshNegativeVolume { object: o.id, volume });
            }
        }
        i += 1;
    }
    Ok(())
}

} // verus!
