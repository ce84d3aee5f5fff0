//! Beam lattice extension rules: beams, balls, the meshes a lattice
//! references, its modes, and its material properties.
use crate::error::{self, Error, Kind, LatticeMesh, PropAttr, PropertyKind};
use crate::model::{BeamSet, Mesh, Model, Object, ObjectType};
use crate::validator::materials::{
    self, base_ids, color_ids, composite_ids, find_id, find_in, multi_ids, texture_group_ids,
};
use crate::validator::structure::{self, edge_key, find_object, object_ids};
use std::collections::HashSet;
use vstd::prelude::*;

verus! {

broadcast use vstd::std_specs::hash::group_hash_axioms;

/// Whether `x` is the id of an object or of a property group.
pub open spec fn lattice_resource(m: Model, x: usize) -> bool {
    object_ids(m).contains(x) || color_ids(m).contains(x) || base_ids(m).contains(x)
        || texture_group_ids(m).contains(x) || composite_ids(m).contains(x) || multi_ids(m).contains(x)
}

/// The color group, or else the base material group, that `p` names, with
/// its number of entries.
pub open spec fn lattice_group(m: Model, p: u32) -> Option<(PropertyKind, usize)> {
    match find_id(color_ids(m), p as usize) {
        Some(i) => Some((PropertyKind::ColorGroup, m.resources.color_groups@[i].colors@.len() as usize)),
        None => match find_id(base_ids(m), p as usize) {
            Some(i) => Some(
                (
                    PropertyKind::BaseMaterials,
                    m.resources.base_material_groups@[i].materials@.len() as usize,
                ),
            ),
            None => None,
        },
    }
}

// ---------------------------------------------------------------------------
// The parts of a lattice, in the order they are checked
// ---------------------------------------------------------------------------

/// Beam `b`: vertices in range and distinct, and a property group that exists.
pub open spec fn beam_finding(m: Model, oid: usize, nv: usize, bs: BeamSet, b: int) -> error::Finding {
    let beam = bs.beams@[b];
    if beam.v1 >= nv {
        error::found(
            Kind::BeamVertexOutOfRange {
                object: oid,
                beam: b as usize,
                end: PropAttr::P1,
                index: beam.v1,
                vertex_count: nv,
            },
        )
    } else if beam.v2 >= nv {
        error::found(
            Kind::BeamVertexOutOfRange {
                object: oid,
                beam: b as usize,
                end: PropAttr::P2,
                index: beam.v2,
                vertex_count: nv,
            },
        )
    } else if beam.v1 == beam.v2 {
        error::found(Kind::BeamSelfReferencing { object: oid, beam: b as usize, vertex: beam.v1 })
    } else if beam.property_id matches Some(p) && !lattice_resource(m, p as usize) {
        error::found(
            Kind::BeamUnknownProperty { object: oid, beam: b as usize, pid: (beam.property_id->0) as usize },
        )
    } else {
        None
    }
}

pub open spec fn beam_check(m: Model, oid: usize, nv: usize, bs: BeamSet) -> spec_fn(int) -> error::Finding {
    |b: int| beam_finding(m, oid, nv, bs, b)
}

/// The vertex pair of a beam, lower index first.
pub open spec fn beam_pair(v1: usize, v2: usize) -> (usize, usize) {
    if v1 < v2 {
        (v1, v2)
    } else {
        (v2, v1)
    }
}

/// Beam `b` does not connect the same pair of vertices as an earlier beam.
pub open spec fn duplicate_beam_check(oid: usize, bs: BeamSet) -> spec_fn(int) -> error::Finding {
    |b: int| {
        let beams = bs.beams@;
        if exists|j: int|
            0 <= j < b && #[trigger] beam_pair(beams[j].v1, beams[j].v2) == beam_pair(
                beams[b].v1,
                beams[b].v2,
            ) {
            error::found(
                Kind::BeamDuplicate { object: oid, beam: b as usize, v1: beams[b].v1, v2: beams[b].v2 },
            )
        } else {
            None
        }
    }
}

/// Whether a beam or ball of the lattice carries properties.
pub open spec fn has_assigned_properties(bs: BeamSet) -> bool {
    (exists|j: int|
        0 <= j < bs.beams@.len() && (#[trigger] bs.beams@[j].property_id is Some
            || bs.beams@[j].p1 is Some || bs.beams@[j].p2 is Some)) || (exists|j: int|
        0 <= j < bs.balls@.len() && (#[trigger] bs.balls@[j].property_id is Some
            || bs.balls@[j].property_index is Some))
}

/// A lattice pid needs an object pid; beams or balls with properties need a
/// default pid on the lattice or the object.
pub open spec fn default_pid_finding(o: Object, bs: BeamSet) -> error::Finding {
    if bs.property_id is Some && o.pid is None {
        error::found(Kind::LatticePidWithoutObjectPid { object: o.id })
    } else if has_assigned_properties(bs) && bs.property_id is None && o.pid is None {
        error::found(Kind::LatticePropertiesWithoutDefault { object: o.id })
    } else {
        None
    }
}

pub open spec fn beam_ref_check(oid: usize, bs: BeamSet) -> spec_fn(int) -> error::Finding {
    |k: int|
        if bs.beam_set_refs@[k] >= bs.beams@.len() {
            error::found(
                Kind::BeamSetRefOutOfRange {
                    object: oid,
                    index: bs.beam_set_refs@[k],
                    count: bs.beams@.len() as usize,
                },
            )
        } else {
            None
        }
}

pub open spec fn ball_ref_check(oid: usize, bs: BeamSet) -> spec_fn(int) -> error::Finding {
    |k: int|
        if bs.ball_set_refs@[k] >= bs.balls@.len() {
            error::found(
                Kind::BallSetRefOutOfRange {
                    object: oid,
                    index: bs.ball_set_refs@[k],
                    count: bs.balls@.len() as usize,
                },
            )
        } else {
            None
        }
}

/// Whether `v` is an end of a beam of the lattice.
pub open spec fn is_beam_end(bs: BeamSet, v: usize) -> bool {
    exists|j: int|
        #![trigger bs.beams@[j]]
        0 <= j < bs.beams@.len() && (bs.beams@[j].v1 == v || bs.beams@[j].v2 == v)
}

/// Ball `k`: at a vertex in range that ends a beam, with a property group
/// that exists and an index that fits it.
pub open spec fn ball_finding(m: Model, oid: usize, nv: usize, bs: BeamSet, k: int) -> error::Finding {
    let ball = bs.balls@[k];
    if ball.vindex >= nv {
        error::found(
            Kind::BallVertexOutOfRange { object: oid, ball: k as usize, vindex: ball.vindex, vertex_count: nv },
        )
    } else if !is_beam_end(bs, ball.vindex) {
        error::found(Kind::BallNotAtBeamEnd { object: oid, ball: k as usize, vindex: ball.vindex })
    } else {
        match ball.property_id {
            Some(p) => if !lattice_resource(m, p as usize) {
                error::found(Kind::BallUnknownProperty { object: oid, ball: k as usize, pid: p as usize })
            } else {
                match ball.property_index {
                    Some(x) => match lattice_group(m, p) {
                        Some((kind, n)) => if x as usize >= n {
                            error::found(
                                Kind::BallPindexOutOfBounds {
                                    object: oid,
                                    ball: k as usize,
                                    pindex: x as usize,
                                    group_kind: kind,
                                    group: p as usize,
                                    count: n,
                                },
                            )
                        } else {
                            None
                        },
                        None => None,
                    },
                    None => None,
                }
            },
            None => None,
        }
    }
}

pub open spec fn ball_check(m: Model, oid: usize, nv: usize, bs: BeamSet) -> spec_fn(int) -> error::Finding {
    |k: int| ball_finding(m, oid, nv, bs, k)
}

/// The clipping or representation mesh `id` of the lattice of object `i`: an
/// existing resource, not the object itself, an object defined earlier, with
/// a mesh, and without a lattice of its own.
pub open spec fn lattice_mesh_finding(m: Model, i: int, oid: usize, which: LatticeMesh, id: Option<u32>) -> error::Finding {
    match id {
        None => None,
        Some(c) => if !lattice_resource(m, c as usize) {
            error::found(Kind::LatticeMeshUnknown { object: oid, mesh: which, id: c as usize })
        } else if c as usize == oid {
            error::found(Kind::LatticeMeshSelf { object: oid, mesh: which })
        } else {
            match find_object(m.resources.objects@, c as usize) {
                Some(q) => {
                    let t = m.resources.objects@[q];
                    if q >= i {
                        error::found(Kind::LatticeMeshNotEarlier { object: oid, mesh: which, id: c as usize })
                    } else if t.mesh is None && t.components@.len() > 0 {
                        error::found(Kind::LatticeMeshComponents { object: oid, mesh: which, id: c as usize })
                    } else if t.mesh matches Some(tm) && tm.beamset is Some {
                        error::found(Kind::LatticeMeshHasLattice { object: oid, mesh: which, id: c as usize })
                    } else {
                        None
                    }
                },
                None => None,
            }
        },
    }
}

/// The clipping mode is none, inside or outside, and needs a clipping mesh
/// unless it is none.
pub open spec fn clipping_mode_finding(oid: usize, bs: BeamSet) -> error::Finding {
    match bs.clipping_mode {
        Some(mode) => if mode@ != "none"@ && mode@ != "inside"@ && mode@ != "outside"@ {
            error::found_text(Kind::LatticeClippingModeInvalid { object: oid }, mode@)
        } else if mode@ != "none"@ && bs.clipping_mesh_id is None {
            error::found_text(Kind::LatticeClippingModeWithoutMesh { object: oid }, mode@)
        } else {
            None
        },
        None => None,
    }
}

/// The ball mode is none, all or mixed, and needs a ball radius unless none.
pub open spec fn ball_mode_finding(oid: usize, bs: BeamSet) -> error::Finding {
    match bs.ball_mode {
        Some(mode) => if mode@ != "none"@ && mode@ != "all"@ && mode@ != "mixed"@ {
            error::found_text(Kind::LatticeBallModeInvalid { object: oid }, mode@)
        } else if (mode@ == "all"@ || mode@ == "mixed"@) && bs.ball_radius is None {
            error::found_text(Kind::LatticeBallModeWithoutRadius { object: oid }, mode@)
        } else {
            None
        },
        None => None,
    }
}

/// The lattice's pid names a resource, and its pindex fits a color or base
/// material group it names.
pub open spec fn lattice_pid_finding(m: Model, oid: usize, bs: BeamSet) -> error::Finding {
    match bs.property_id {
        Some(p) => if !lattice_resource(m, p as usize) {
            error::found(Kind::LatticeUnknownProperty { object: oid, pid: p as usize })
        } else {
            match bs.property_index {
                Some(x) => match lattice_group(m, p) {
                    Some((kind, n)) => if x as usize >= n {
                        error::found(
                            Kind::LatticePindexOutOfBounds {
                                object: oid,
                                pindex: x as usize,
                                group_kind: kind,
                                group: p as usize,
                                count: n,
                            },
                        )
                    } else {
                        None
                    },
                    None => None,
                },
                None => None,
            }
        },
        None => None,
    }
}

pub open spec fn beam_attr_finding(
    oid: usize,
    b: int,
    attr: PropAttr,
    value: Option<u32>,
    kind: PropertyKind,
    p: u32,
    n: usize,
) -> error::Finding {
    match value {
        Some(v) => if v as usize >= n {
            error::found(
                Kind::BeamPropertyOutOfBounds {
                    object: oid,
                    beam: b as usize,
                    attr,
                    value: v as usize,
                    group_kind: kind,
                    group: p as usize,
                    count: n,
                },
            )
        } else {
            None
        },
        None => None,
    }
}

/// The p1 and p2 of beam `b` fit the color or base material group that the
/// beam's pid, or else the lattice's, names.
pub open spec fn beam_property_check(m: Model, oid: usize, bs: BeamSet) -> spec_fn(int) -> error::Finding {
    |b: int| {
        let beam = bs.beams@[b];
        let pid = if beam.property_id is Some {
            beam.property_id
        } else {
            bs.property_id
        };
        match pid {
            Some(p) => match lattice_group(m, p) {
                Some((kind, n)) => error::either(
                    beam_attr_finding(oid, b, PropAttr::P1, beam.p1, kind, p, n),
                    beam_attr_finding(oid, b, PropAttr::P2, beam.p2, kind, p, n),
                ),
                None => None,
            },
            None => None,
        }
    }
}

/// The beam lattice of object `i`, part by part in the order they are checked.
pub open spec fn lattice_finding(m: Model, i: int, o: Object, mesh: Mesh, bs: BeamSet) -> error::Finding {
    let nv = mesh.vertices@.len() as usize;
    if o.object_type != ObjectType::Model && o.object_type != ObjectType::SolidSupport {
        error::found(Kind::BeamLatticeObjectType { object: o.id, object_type: o.object_type })
    } else {
        error::either(
            error::first(bs.beams@.len() as int, beam_check(m, o.id, nv, bs)),
            error::either(
                error::first(bs.beams@.len() as int, duplicate_beam_check(o.id, bs)),
                error::either(
                    default_pid_finding(o, bs),
                    error::either(
                        error::first(bs.beam_set_refs@.len() as int, beam_ref_check(o.id, bs)),
                        error::either(
                            error::first(bs.ball_set_refs@.len() as int, ball_ref_check(o.id, bs)),
                            error::either(
                                error::first(bs.balls@.len() as int, ball_check(m, o.id, nv, bs)),
                                lattice_tail_finding(m, i, o, bs),
                            ),
                        ),
                    ),
                ),
            ),
        )
    }
}

/// The references, modes and properties of the lattice of object `i`.
pub open spec fn lattice_tail_finding(m: Model, i: int, o: Object, bs: BeamSet) -> error::Finding {
    error::either(
        lattice_mesh_finding(m, i, o.id, LatticeMesh::Clipping, bs.clipping_mesh_id),
        error::either(
            lattice_mesh_finding(m, i, o.id, LatticeMesh::Representation, bs.representation_mesh_id),
            error::either(
                clipping_mode_finding(o.id, bs),
                error::either(
                    ball_mode_finding(o.id, bs),
                    error::either(
                        lattice_pid_finding(m, o.id, bs),
                        error::first(bs.beams@.len() as int, beam_property_check(m, o.id, bs)),
                    ),
                ),
            ),
        ),
    )
}

pub open spec fn object_lattice_finding(m: Model, i: int) -> error::Finding {
    let o = m.resources.objects@[i];
    match o.mesh {
        Some(mesh) => match mesh.beamset {
            Some(bs) => lattice_finding(m, i, o, mesh, bs),
            None => None,
        },
        None => None,
    }
}

pub open spec fn object_lattice_check(m: Model) -> spec_fn(int) -> error::Finding {
    |i: int| object_lattice_finding(m, i)
}

pub open spec fn beam_lattice_finding(m: Model) -> error::Finding {
    error::first(m.resources.objects@.len() as int, object_lattice_check(m))
}

// ---------------------------------------------------------------------------
// Checks
// ---------------------------------------------------------------------------

/// The ids of the model's objects and property groups.
fn resource_set(m: &Model, ix: &materials::PropertyIds) -> (s: HashSet<usize>)
    requires
        ix.of(*m),
    ensures
        forall|x: usize| #[trigger] s@.contains(x) <==> lattice_resource(*m, x),
{
    let mut s = structure::object_id_set(m);
    let ghost objs = s@;
    let lists = [&ix.colors, &ix.bases, &ix.textures, &ix.composites, &ix.multis];
    let mut l: usize = 0;
    while l < 5
        invariant
            l <= 5,
            lists@ == seq![&ix.colors, &ix.bases, &ix.textures, &ix.composites, &ix.multis],
            objs == object_ids(*m),
            forall|x: usize|
                #[trigger] s@.contains(x) <==> (objs.contains(x) || exists|q: int|
                    0 <= q < l && (#[trigger] lists@[q])@.contains(x)),
        decreases 5 - l,
    {
        let v = lists[l];
        let ghost before = s@;
        let mut k: usize = 0;
        while k < v.len()
            invariant
                k <= v@.len(),
                forall|x: usize|
                    #[trigger] s@.contains(x) <==> (before.contains(x) || v@.take(k as int).contains(x)),
            decreases v@.len() - k,
        {
            s.insert(v[k]);
            proof {
                let t0 = v@.take(k as int);
                let t1 = v@.take(k + 1);
                assert(t1 =~= t0.push(v@[k as int]));
                assert forall|x: usize| #[trigger]
                    s@.contains(x) <==> (before.contains(x) || t1.contains(x)) by {
                    if t0.contains(x) {
                        let q = choose|q: int| 0 <= q < t0.len() && t0[q] == x;
                        assert(t1[q] == x);
                    }
                    if t1.contains(x) {
                        let q = choose|q: int| 0 <= q < t1.len() && t1[q] == x;
                        if q < k {
                            assert(t0[q] == x);
                        }
                    }
                    if x == v@[k as int] {
                        assert(t1[k as int] == x);
                    }
                }
            }
            k += 1;
        }
        proof {
            assert(v@.take(v@.len() as int) =~= v@);
            assert forall|x: usize| #[trigger]
                s@.contains(x) <==> (objs.contains(x) || exists|q: int|
                    0 <= q < l + 1 && (#[trigger] lists@[q])@.contains(x)) by {
                if v@.contains(x) {
                    assert(lists@[l as int]@.contains(x));
                }
                if exists|q: int| 0 <= q < l + 1 && (#[trigger] lists@[q])@.contains(x) {
                    let q = choose|q: int| 0 <= q < l + 1 && (#[trigger] lists@[q])@.contains(x);
                    if q == l {
                        assert(v@.contains(x));
                    } else {
                        assert(exists|q2: int| 0 <= q2 < l && (#[trigger] lists@[q2])@.contains(x));
                    }
                }
            }
        }
        l += 1;
    }
    proof {
        assert forall|x: usize| #[trigger] s@.contains(x) <==> lattice_resource(*m, x) by {
            if exists|q: int| 0 <= q < 5 && (#[trigger] lists@[q])@.contains(x) {
                let q = choose|q: int| 0 <= q < 5 && (#[trigger] lists@[q])@.contains(x);
                assert(q == 0 || q == 1 || q == 2 || q == 3 || q == 4);
            }
            if color_ids(*m).contains(x) {
                assert(lists@[0]@.contains(x));
            }
            if base_ids(*m).contains(x) {
                assert(lists@[1]@.contains(x));
            }
            if texture_group_ids(*m).contains(x) {
                assert(lists@[2]@.contains(x));
            }
            if composite_ids(*m).contains(x) {
                assert(lists@[3]@.contains(x));
            }
            if multi_ids(*m).contains(x) {
                assert(lists@[4]@.contains(x));
            }
        }
    }
    s
}

fn lookup_lattice_group(m: &Model, ix: &materials::PropertyIds, p: u32) -> (r: Option<(PropertyKind, usize)>)
    requires
        ix.of(*m),
    ensures
        r == lattice_group(*m, p),
{
    match find_in(&ix.colors, p as usize) {
        Some(i) => Some((PropertyKind::ColorGroup, m.resources.color_groups[i].colors.len())),
        None => match find_in(&ix.bases, p as usize) {
            Some(i) => Some((PropertyKind::BaseMaterials, m.resources.base_material_groups[i].materials.len())),
            None => None,
        },
    }
}

fn check_beams(m: &Model, known: &HashSet<usize>, oid: usize, nv: usize, bs: &BeamSet) -> (r: Result<(), Error>)
    requires
        forall|x: usize| #[trigger] known@.contains(x) <==> lattice_resource(*m, x),
    ensures
        error::reports(r, error::first(bs.beams@.len() as int, beam_check(*m, oid, nv, *bs))),
{
    let beams = &bs.beams;
    let ghost n = beams@.len() as int;
    let mut b: usize = 0;
    while b < beams.len()
        invariant
            b <= beams@.len(),
            n == beams@.len(),
            beams@ == bs.beams@,
            forall|x: usize| #[trigger] known@.contains(x) <==> lattice_resource(*m, x),
            error::first(n, beam_check(*m, oid, nv, *bs)) == error::first_from(
                n,
                beam_check(*m, oid, nv, *bs),
                b as int,
            ),
        decreases beams@.len() - b,
    {
        let beam = &beams[b];
        if beam.v1 >= nv {
            return error::fail(
                Kind::BeamVertexOutOfRange {
                    object: oid,
                    beam: b,
                    end: PropAttr::P1,
                    index: beam.v1,
                    vertex_count: nv,
                },
            );
        }
        if beam.v2 >= nv {
            return error::fail(
                Kind::BeamVertexOutOfRange {
                    object: oid,
                    beam: b,
                    end: PropAttr::P2,
                    index: beam.v2,
                    vertex_count: nv,
                },
            );
        }
        if beam.v1 == beam.v2 {
            return error::fail(Kind::BeamSelfReferencing { object: oid, beam: b, vertex: beam.v1 });
        }
        if let Some(p) = beam.property_id {
            if !known.contains(&(p as usize)) {
                return error::fail(Kind::BeamUnknownProperty { object: oid, beam: b, pid: p as usize });
            }
        }
        b += 1;
    }
    Ok(())
}

fn check_duplicate_beams(oid: usize, bs: &BeamSet) -> (r: Result<(), Error>)
    ensures
        error::reports(r, error::first(bs.beams@.len() as int, duplicate_beam_check(oid, *bs))),
{
    let beams = &bs.beams;
    let ghost n = beams@.len() as int;
    let mut seen: HashSet<u128> = HashSet::new();
    let mut b: usize = 0;
    while b < beams.len()
        invariant
            b <= beams@.len(),
            n == beams@.len(),
            beams@ == bs.beams@,
            forall|x: usize, y: usize|
                #[trigger] seen@.contains(edge_key(x, y)) <==> exists|j: int|
                    0 <= j < b && #[trigger] beam_pair(beams@[j].v1, beams@[j].v2) == (x, y),
            error::first(n, duplicate_beam_check(oid, *bs)) == error::first_from(
                n,
                duplicate_beam_check(oid, *bs),
                b as int,
            ),
        decreases beams@.len() - b,
    {
        let beam = &beams[b];
        let pair = if beam.v1 < beam.v2 {
            (beam.v1, beam.v2)
        } else {
            (beam.v2, beam.v1)
        };
        let key = structure::key_of(pair);
        let ghost before = seen@;
        if !seen.insert(key) {
            assert(before.contains(edge_key(pair.0, pair.1)));
            return error::fail(Kind::BeamDuplicate { object: oid, beam: b, v1: beam.v1, v2: beam.v2 });
        }
        proof {
            assert forall|x: usize, y: usize| #[trigger]
                seen@.contains(edge_key(x, y)) <==> exists|j: int|
                    0 <= j < b + 1 && #[trigger] beam_pair(beams@[j].v1, beams@[j].v2) == (x, y) by {
                if edge_key(x, y) == key {
                    structure::lemma_edge_key_injective(x, y, pair.0, pair.1);
                    assert(beam_pair(beams@[b as int].v1, beams@[b as int].v2) == (x, y));
                } else {
                    if beam_pair(beams@[b as int].v1, beams@[b as int].v2) == (x, y) {
                        assert(edge_key(x, y) == key);
                    }
                }
            }
        }
        b += 1;
    }
    Ok(())
}

fn any_assigned_properties(bs: &BeamSet) -> (r: bool)
    ensures
        r == has_assigned_properties(*bs),
{
    let mut j: usize = 0;
    while j < bs.beams.len()
        invariant
            j <= bs.beams@.len(),
            forall|q: int|
                0 <= q < j ==> !(#[trigger] bs.beams@[q].property_id is Some || bs.beams@[q].p1 is Some
                    || bs.beams@[q].p2 is Some),
        decreases bs.beams@.len() - j,
    {
        let b = &bs.beams[j];
        if b.property_id.is_some() || b.p1.is_some() || b.p2.is_some() {
            return true;
        }
        j += 1;
    }
    let mut j: usize = 0;
    while j < bs.balls.len()
        invariant
            j <= bs.balls@.len(),
            forall|q: int|
                0 <= q < j ==> !(#[trigger] bs.balls@[q].property_id is Some
                    || bs.balls@[q].property_index is Some),
        decreases bs.balls@.len() - j,
    {
        let b = &bs.balls[j];
        if b.property_id.is_some() || b.property_index.is_some() {
            return true;
        }
        j += 1;
    }
    false
}

fn check_refs(oid: usize, bs: &BeamSet) -> (r: Result<(), Error>)
    ensures
        error::reports(
            r,
            error::either(
                error::first(bs.beam_set_refs@.len() as int, beam_ref_check(oid, *bs)),
                error::first(bs.ball_set_refs@.len() as int, ball_ref_check(oid, *bs)),
            ),
        ),
{
    let refs = &bs.beam_set_refs;
    let ghost n = refs@.len() as int;
    let mut k: usize = 0;
    while k < refs.len()
        invariant
            k <= refs@.len(),
            n == refs@.len(),
            refs@ == bs.beam_set_refs@,
            error::first(n, beam_ref_check(oid, *bs)) == error::first_from(
                n,
                beam_ref_check(oid, *bs),
                k as int,
            ),
        decreases refs@.len() - k,
    {
        if refs[k] >= bs.beams.len() {
            return error::fail(
                Kind::BeamSetRefOutOfRange { object: oid, index: refs[k], count: bs.beams.len() },
            );
        }
        k += 1;
    }
    let refs = &bs.ball_set_refs;
    let ghost nb = refs@.len() as int;
    let mut k: usize = 0;
    while k < refs.len()
        invariant
            k <= refs@.len(),
            nb == refs@.len(),
            refs@ == bs.ball_set_refs@,
            n == bs.beam_set_refs@.len(),
            error::first(n, beam_ref_check(oid, *bs)) is None,
            error::first(nb, ball_ref_check(oid, *bs)) == error::first_from(
                nb,
                ball_ref_check(oid, *bs),
                k as int,
            ),
        decreases refs@.len() - k,
    {
        if refs[k] >= bs.balls.len() {
            return error::fail(
                Kind::BallSetRefOutOfRange { object: oid, index: refs[k], count: bs.balls.len() },
            );
        }
        k += 1;
    }
    Ok(())
}

fn beam_end(bs: &BeamSet, v: usize) -> (r: bool)
    ensures
        r == is_beam_end(*bs, v),
{
    let mut j: usize = 0;
    while j < bs.beams.len()
        invariant
            j <= bs.beams@.len(),
            forall|q: int|
                #![trigger bs.beams@[q]]
                0 <= q < j ==> !(bs.beams@[q].v1 == v || bs.beams@[q].v2 == v),
        decreases bs.beams@.len() - j,
    {
        if bs.beams[j].v1 == v || bs.beams[j].v2 == v {
            assert(bs.beams@[j as int].v1 == v || bs.beams@[j as int].v2 == v);
            return true;
        }
        j += 1;
    }
    false
}

fn check_balls(
    m: &Model,
    ix: &materials::PropertyIds,
    known: &HashSet<usize>,
    oid: usize,
    nv: usize,
    bs: &BeamSet,
) -> (r: Result<(), Error>)
    requires
        ix.of(*m),
        forall|x: usize| #[trigger] known@.contains(x) <==> lattice_resource(*m, x),
    ensures
        error::reports(r, error::first(bs.balls@.len() as int, ball_check(*m, oid, nv, *bs))),
{
    let balls = &bs.balls;
    let ghost n = balls@.len() as int;
    let mut k: usize = 0;
    while k < balls.len()
        invariant
            k <= balls@.len(),
            n == balls@.len(),
            balls@ == bs.balls@,
            ix.of(*m),
            forall|x: usize| #[trigger] known@.contains(x) <==> lattice_resource(*m, x),
            error::first(n, ball_check(*m, oid, nv, *bs)) == error::first_from(
                n,
                ball_check(*m, oid, nv, *bs),
                k as int,
            ),
        decreases balls@.len() - k,
    {
        let ball = &balls[k];
        if ball.vindex >= nv {
            return error::fail(
                Kind::BallVertexOutOfRange { object: oid, ball: k, vindex: ball.vindex, vertex_count: nv },
            );
        }
        if !beam_end(bs, ball.vindex) {
            return error::fail(Kind::BallNotAtBeamEnd { object: oid, ball: k, vindex: ball.vindex });
        }
        if let Some(p) = ball.property_id {
            if !known.contains(&(p as usize)) {
                return error::fail(Kind::BallUnknownProperty { object: oid, ball: k, pid: p as usize });
            }
            if let Some(x) = ball.property_index {
                match lookup_lattice_group(m, ix, p) {
                    Some((kind, cnt)) => {
                        if x as usize >= cnt {
                            return error::fail(
                                Kind::BallPindexOutOfBounds {
                                    object: oid,
                                    ball: k,
                                    pindex: x as usize,
                                    group_kind: kind,
                                    group: p as usize,
                                    count: cnt,
                                },
                            );
                        }
                    },
                    None => {},
                }
            }
        }
        k += 1;
    }
    Ok(())
}

fn check_lattice_mesh(
    m: &Model,
    known: &HashSet<usize>,
    i: usize,
    oid: usize,
    which: LatticeMesh,
    id: Option<u32>,
) -> (r: Result<(), Error>)
    requires
        forall|x: usize| #[trigger] known@.contains(x) <==> lattice_resource(*m, x),
    ensures
        error::reports(r, lattice_mesh_finding(*m, i as int, oid, which, id)),
{
    match id {
        None => Ok(()),
        Some(c) => {
            if !known.contains(&(c as usize)) {
                return error::fail(Kind::LatticeMeshUnknown { object: oid, mesh: which, id: c as usize });
            }
            if c as usize == oid {
                return error::fail(Kind::LatticeMeshSelf { object: oid, mesh: which });
            }
            match structure::find_object_index(&m.resources.objects, c as usize) {
                None => Ok(()),
                Some(q) => {
                    let t = &m.resources.objects[q];
                    if q >= i {
                        return error::fail(Kind::LatticeMeshNotEarlier { object: oid, mesh: which, id: c as usize });
                    }
                    if t.mesh.is_none() && t.components.len() > 0 {
                        return error::fail(Kind::LatticeMeshComponents { object: oid, mesh: which, id: c as usize });
                    }
                    if let Some(tm) = &t.mesh {
                        if tm.beamset.is_some() {
                            return error::fail(
                                Kind::LatticeMeshHasLattice { object: oid, mesh: which, id: c as usize },
                            );
                        }
                    }
                    Ok(())
                },
            }
        },
    }
}

fn check_modes(oid: usize, bs: &BeamSet) -> (r: Result<(), Error>)
    ensures
        error::reports(r, error::either(clipping_mode_finding(oid, *bs), ball_mode_finding(oid, *bs))),
{
    if let Some(mode) = &bs.clipping_mode {
        let none = crate::text::same_text(mode.as_str(), "none");
        let inside = crate::text::same_text(mode.as_str(), "inside");
        let outside = crate::text::same_text(mode.as_str(), "outside");
        if !none && !inside && !outside {
            return error::fail_text(Kind::LatticeClippingModeInvalid { object: oid }, mode.clone());
        }
        if !none && bs.clipping_mesh_id.is_none() {
            return error::fail_text(Kind::LatticeClippingModeWithoutMesh { object: oid }, mode.clone());
        }
    }
    if let Some(mode) = &bs.ball_mode {
        let none = crate::text::same_text(mode.as_str(), "none");
        let all = crate::text::same_text(mode.as_str(), "all");
        let mixed = crate::text::same_text(mode.as_str(), "mixed");
        if !none && !all && !mixed {
            return error::fail_text(Kind::LatticeBallModeInvalid { object: oid }, mode.clone());
        }
        if (all || mixed) && bs.ball_radius.is_none() {
            return error::fail_text(Kind::LatticeBallModeWithoutRadius { object: oid }, mode.clone());
        }
    }
    Ok(())
}

fn check_lattice_pid(
    m: &Model,
    ix: &materials::PropertyIds,
    known: &HashSet<usize>,
    oid: usize,
    bs: &BeamSet,
) -> (r: Result<(), Error>)
    requires
        ix.of(*m),
        forall|x: usize| #[trigger] known@.contains(x) <==> lattice_resource(*m, x),
    ensures
        error::reports(r, lattice_pid_finding(*m, oid, *bs)),
{
    if let Some(p) = bs.property_id {
        if !known.contains(&(p as usize)) {
            return error::fail(Kind::LatticeUnknownProperty { object: oid, pid: p as usize });
        }
        if let Some(x) = bs.property_index {
            match lookup_lattice_group(m, ix, p) {
                Some((kind, n)) => {
                    if x as usize >= n {
                        return error::fail(
                            Kind::LatticePindexOutOfBounds {
                                object: oid,
                                pindex: x as usize,
                                group_kind: kind,
                                group: p as usize,
                                count: n,
                            },
                        );
                    }
                },
                None => {},
            }
        }
    }
    Ok(())
}

fn check_beam_attr(
    oid: usize,
    b: usize,
    attr: PropAttr,
    value: Option<u32>,
    kind: PropertyKind,
    p: u32,
    n: usize,
) -> (r: Result<(), Error>)
    ensures
        error::reports(r, beam_attr_finding(oid, b as int, attr, value, kind, p, n)),
{
    if let Some(v) = value {
        if v as usize >= n {
            return error::fail(
                Kind::BeamPropertyOutOfBounds {
                    object: oid,
                    beam: b,
                    attr,
                    value: v as usize,
                    group_kind: kind,
                    group: p as usize,
                    count: n,
                },
            );
        }
    }
    Ok(())
}

fn check_beam_properties(m: &Model, ix: &materials::PropertyIds, oid: usize, bs: &BeamSet) -> (r:
    Result<(), Error>)
    requires
        ix.of(*m),
    ensures
        error::reports(r, error::first(bs.beams@.len() as int, beam_property_check(*m, oid, *bs))),
{
    let beams = &bs.beams;
    let ghost n = beams@.len() as int;
    let mut b: usize = 0;
    while b < beams.len()
        invariant
            b <= beams@.len(),
            n == beams@.len(),
            beams@ == bs.beams@,
            ix.of(*m),
            error::first(n, beam_property_check(*m, oid, *bs)) == error::first_from(
                n,
                beam_property_check(*m, oid, *bs),
                b as int,
            ),
        decreases beams@.len() - b,
    {
        let beam = &beams[b];
        let pid = if beam.property_id.is_some() {
            beam.property_id
        } else {
            bs.property_id
        };
        if let Some(p) = pid {
            match lookup_lattice_group(m, ix, p) {
                Some((kind, cnt)) => {
                    let r = check_beam_attr(oid, b, PropAttr::P1, beam.p1, kind, p, cnt);
                    if r.is_err() {
                        return r;
                    }
                    let r = check_beam_attr(oid, b, PropAttr::P2, beam.p2, kind, p, cnt);
                    if r.is_err() {
                        return r;
                    }
                },
                None => {},
            }
        }
        b += 1;
    }
    Ok(())
}

fn check_lattice_tail(
    m: &Model,
    ix: &materials::PropertyIds,
    known: &HashSet<usize>,
    i: usize,
    o: &Object,
    bs: &BeamSet,
) -> (r: Result<(), Error>)
    requires
        ix.of(*m),
        forall|x: usize| #[trigger] known@.contains(x) <==> lattice_resource(*m, x),
    ensures
        error::reports(r, lattice_tail_finding(*m, i as int, *o, *bs)),
{
    let r = check_lattice_mesh(m, known, i, o.id, LatticeMesh::Clipping, bs.clipping_mesh_id);
    if r.is_err() {
        return r;
    }
    let r = check_lattice_mesh(
        m,
        known,
        i,
        o.id,
        LatticeMesh::Representation,
        bs.representation_mesh_id,
    );
    if r.is_err() {
        return r;
    }
    let r = check_modes(o.id, bs);
    if r.is_err() {
        return r;
    }
    let r = check_lattice_pid(m, ix, known, o.id, bs);
    if r.is_err() {
        return r;
    }
    check_beam_properties(m, ix, o.id, bs)
}

fn check_object_lattice(
    m: &Model,
    ix: &materials::PropertyIds,
    known: &HashSet<usize>,
    i: usize,
) -> (r: Result<(), Error>)
    requires
        i < m.resources.objects@.len(),
        ix.of(*m),
        forall|x: usize| #[trigger] known@.contains(x) <==> lattice_resource(*m, x),
    ensures
        error::reports(r, object_lattice_finding(*m, i as int)),
{
    let o = &m.resources.objects[i];
    match &o.mesh {
        None => Ok(()),
        Some(mesh) => match &mesh.beamset {
            None => Ok(()),
            Some(bs) => {
                if o.object_type != ObjectType::Model && o.object_type != ObjectType::SolidSupport {
                    return error::fail(
                        Kind::BeamLatticeObjectType { object: o.id, object_type: o.object_type },
                    );
                }
                let nv = mesh.vertices.len();
                let r = check_beams(m, known, o.id, nv, bs);
                if r.is_err() {
                    return r;
                }
                let r = check_duplicate_beams(o.id, bs);
                if r.is_err() {
                    return r;
                }
                if bs.property_id.is_some() && o.pid.is_none() {
                    return error::fail(Kind::LatticePidWithoutObjectPid { object: o.id });
                }
                if any_assigned_properties(bs) && bs.property_id.is_none() && o.pid.is_none() {
                    return error::fail(Kind::LatticePropertiesWithoutDefault { object: o.id });
                }
                let r = check_refs(o.id, bs);
                if r.is_err() {
                    return r;
                }
                let r = check_balls(m, ix, known, o.id, nv, bs);
                if r.is_err() {
                    return r;
                }
                check_lattice_tail(m, ix, known, i, o, bs)
            },
        },
    }
}

/// Checks the beam lattices of all objects.
pub fn validate_beam_lattice(model: &Model) -> (r: Result<(), Error>)
    ensures
        error::reports(r, beam_lattice_finding(*model)),
{
    let ix = materials::property_ids(model);
    let known = resource_set(model, &ix);
    let ghost n = model.resources.objects@.len() as int;
    let mut i: usize = 0;
    while i < model.resources.objects.len()
        invariant
            i <= n,
            n == model.resources.objects@.len(),
            ix.of(*model),
            forall|x: usize| #[trigger] known@.contains(x) <==> lattice_resource(*model, x),
            error::first(n, object_lattice_check(*model)) == error::first_from(
                n,
                object_lattice_check(*model),
                i as int,
            ),
        decreases n - i,
    {
        let r = check_object_lattice(model, &ix, &known, i);
        if r.is_err() {
            return r;
        }
        i += 1;
    }
    Ok(())
}

} // verus!
