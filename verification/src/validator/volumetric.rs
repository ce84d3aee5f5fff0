//! Volumetric extension rules: the declaration of the extension, boundaries,
//! voxel grids and volumetric property groups.
use crate::error::{self, Error, Kind};
use crate::float_bits::{self, ZERO_BITS};
use crate::model::{self, Extension, Model, VolumetricData};
use crate::text;
use std::collections::HashSet;
use vstd::prelude::*;

verus! {

broadcast use vstd::std_specs::hash::group_hash_axioms;

/// The namespace fragment that marks a custom extension as the volumetric one.
pub open spec fn volumetric_marker() -> Seq<char> {
    "volumetric/2023/02"@
}

/// Whether the model declares the volumetric extension, directly or by the
/// namespace of a custom extension.
pub open spec fn declares_volumetric(m: Model) -> bool {
    model::extension_listed(m.required_extensions@, Extension::Volumetric) || exists|k: int|
        0 <= k < m.required_custom_extensions@.len() && text::has_substring(
            #[trigger] m.required_custom_extensions@[k]@,
            volumetric_marker(),
        )
}

pub open spec fn property_group_ids(m: Model) -> Seq<usize> {
    m.resources.volumetric_property_groups@.map_values(|g: model::VolumetricPropertyGroup| g.id)
}

pub open spec fn voxel_check(m: Model, d: VolumetricData) -> spec_fn(int) -> error::Finding {
    |v: int| {
        let g = d.voxels->0;
        let vx = g.voxels@[v];
        if vx.position.0 >= g.dimensions.0 || vx.position.1 >= g.dimensions.1 || vx.position.2
            >= g.dimensions.2 {
            error::found(
                Kind::VoxelOutside {
                    data: d.id,
                    at_x: vx.position.0,
                    at_y: vx.position.1,
                    at_z: vx.position.2,
                    dim_x: g.dimensions.0,
                    dim_y: g.dimensions.1,
                    dim_z: g.dimensions.2,
                },
            )
        } else if vx.property_id matches Some(p) && !property_group_ids(m).contains(p) {
            error::found(Kind::VoxelUnknownProperty { data: d.id, property: vx.property_id->0 })
        } else {
            None
        }
    }
}

/// The boundary of a volumetric data resource has min below max on each axis.
pub open spec fn boundary_finding(d: VolumetricData) -> error::Finding {
    match d.boundary {
        Some(b) => if float_bits::spec_le(b.max.0, b.min.0) || float_bits::spec_le(b.max.1, b.min.1)
            || float_bits::spec_le(b.max.2, b.min.2) {
            error::found(
                Kind::VolumetricBoundary {
                    data: d.id,
                    min_x: b.min.0,
                    min_y: b.min.1,
                    min_z: b.min.2,
                    max_x: b.max.0,
                    max_y: b.max.1,
                    max_z: b.max.2,
                },
            )
        } else {
            None
        },
        None => None,
    }
}

/// The spacing of a voxel grid is positive on each axis.
pub open spec fn spacing_finding(d: VolumetricData, g: model::VoxelGrid) -> error::Finding {
    match g.spacing {
        Some(sp) => if float_bits::spec_le(sp.0, ZERO_BITS) || float_bits::spec_le(sp.1, ZERO_BITS)
            || float_bits::spec_le(sp.2, ZERO_BITS) {
            error::found(Kind::VoxelSpacing { data: d.id, step_x: sp.0, step_y: sp.1, step_z: sp.2 })
        } else {
            None
        },
        None => None,
    }
}

/// A voxel grid has non-zero dimensions, voxels inside it that reference
/// existing property groups, and positive spacing.
pub open spec fn grid_finding(m: Model, d: VolumetricData) -> error::Finding {
    match d.voxels {
        Some(g) => if g.dimensions.0 == 0 || g.dimensions.1 == 0 || g.dimensions.2 == 0 {
            error::found(
                Kind::VoxelGridEmpty {
                    data: d.id,
                    dim_x: g.dimensions.0,
                    dim_y: g.dimensions.1,
                    dim_z: g.dimensions.2,
                },
            )
        } else {
            error::either(
                error::first(g.voxels@.len() as int, voxel_check(m, d)),
                spacing_finding(d, g),
            )
        },
        None => None,
    }
}

/// A volumetric data resource: a valid boundary and a valid voxel grid.
pub open spec fn data_finding(m: Model, d: VolumetricData) -> error::Finding {
    error::either(boundary_finding(d), grid_finding(m, d))
}

pub open spec fn data_check(m: Model) -> spec_fn(int) -> error::Finding {
    |i: int| data_finding(m, m.resources.volumetric_data@[i])
}

pub open spec fn property_group_check(m: Model) -> spec_fn(int) -> error::Finding {
    |k: int| {
        let ids = property_group_ids(m);
        if exists|j: int| 0 <= j < k && #[trigger] ids[j] == ids[k] {
            error::found(Kind::DuplicateVolumetricPropertyGroup { id: ids[k] })
        } else {
            None
        }
    }
}

/// Volumetric resources need the extension declared; volumetric data and
/// voxel grids are well formed; property group ids are unique.
pub open spec fn volumetric_finding(m: Model) -> error::Finding {
    let has_resources = m.resources.volumetric_data@.len() > 0
        || m.resources.volumetric_property_groups@.len() > 0;
    if has_resources && !declares_volumetric(m) {
        error::found(Kind::VolumetricNotDeclared)
    } else {
        error::either(
            error::first(m.resources.volumetric_data@.len() as int, data_check(m)),
            error::first(property_group_ids(m).len() as int, property_group_check(m)),
        )
    }
}

fn declares_volumetric_extension(m: &Model) -> (r: bool)
    ensures
        r == declares_volumetric(*m),
{
    if model::contains_extension(&m.required_extensions, Extension::Volumetric) {
        return true;
    }
    let marker = text::chars_of("volumetric/2023/02");
    let custom = &m.required_custom_extensions;
    let mut k: usize = 0;
    while k < custom.len()
        invariant
            k <= custom@.len(),
            custom@ == m.required_custom_extensions@,
            marker@ == volumetric_marker(),
            forall|q: int| 0 <= q < k ==> !text::has_substring(#[trigger] custom@[q]@, volumetric_marker()),
        decreases custom@.len() - k,
    {
        let ns = text::chars_of(custom[k].as_str());
        if text::contains_substring(&ns, &marker) {
            assert(text::has_substring(custom@[k as int]@, volumetric_marker()));
            return true;
        }
        k += 1;
    }
    false
}

fn property_group_set(m: &Model) -> (s: HashSet<usize>)
    ensures
        forall|x: usize| #[trigger] s@.contains(x) <==> property_group_ids(*m).contains(x),
{
    let gs = &m.resources.volumetric_property_groups;
    let mut s: HashSet<usize> = HashSet::new();
    let mut i: usize = 0;
    while i < gs.len()
        invariant
            i <= gs@.len(),
            gs@ == m.resources.volumetric_property_groups@,
            forall|x: usize| #[trigger] s@.contains(x) <==> property_group_ids(*m).take(i as int).contains(x),
        decreases gs@.len() - i,
    {
        s.insert(gs[i].id);
        proof {
            let t0 = property_group_ids(*m).take(i as int);
            let t1 = property_group_ids(*m).take(i + 1);
            assert(t1 =~= t0.push(gs@[i as int].id));
            assert forall|x: usize| #[trigger] s@.contains(x) <==> t1.contains(x) by {
                if t0.contains(x) {
                    let q = choose|q: int| 0 <= q < t0.len() && t0[q] == x;
                    assert(t1[q] == x);
                }
                if t1.contains(x) {
                    let q = choose|q: int| 0 <= q < t1.len() && t1[q] == x;
                    if q < i {
                        assert(t0[q] == x);
                    }
                }
                if x == gs@[i as int].id {
                    assert(t1[i as int] == x);
                }
            }
        }
        i += 1;
    }
    proof {
        assert(property_group_ids(*m).take(gs@.len() as int) =~= property_group_ids(*m));
    }
    s
}

fn check_data(m: &Model, known: &HashSet<usize>, d: &VolumetricData) -> (r: Result<(), Error>)
    requires
        forall|x: usize| #[trigger] known@.contains(x) <==> property_group_ids(*m).contains(x),
    ensures
        error::reports(r, data_finding(*m, *d)),
{
    if let Some(b) = &d.boundary {
        if float_bits::f64_le(b.max.0, b.min.0) || float_bits::f64_le(b.max.1, b.min.1)
            || float_bits::f64_le(b.max.2, b.min.2) {
            return error::fail(
                Kind::VolumetricBoundary {
                    data: d.id,
                    min_x: b.min.0,
                    min_y: b.min.1,
                    min_z: b.min.2,
                    max_x: b.max.0,
                    max_y: b.max.1,
                    max_z: b.max.2,
                },
            );
        }
    }
    match &d.voxels {
        None => Ok(()),
        Some(g) => {
            let dims = g.dimensions;
            if dims.0 == 0 || dims.1 == 0 || dims.2 == 0 {
                return error::fail(
                    Kind::VoxelGridEmpty { data: d.id, dim_x: dims.0, dim_y: dims.1, dim_z: dims.2 },
                );
            }
            let vs = &g.voxels;
            let ghost n = vs@.len() as int;
            let mut v: usize = 0;
            while v < vs.len()
                invariant
                    v <= vs@.len(),
                    n == vs@.len(),
                    d.voxels == Some(*g),
                    vs@ == g.voxels@,
                    dims == g.dimensions,
                    boundary_finding(*d) is None,
                    !(dims.0 == 0 || dims.1 == 0 || dims.2 == 0),
                    forall|x: usize| #[trigger] known@.contains(x) <==> property_group_ids(*m).contains(x),
                    error::first(n, voxel_check(*m, *d)) == error::first_from(
                        n,
                        voxel_check(*m, *d),
                        v as int,
                    ),
                decreases vs@.len() - v,
            {
                let p = vs[v].position;
                if p.0 >= dims.0 || p.1 >= dims.1 || p.2 >= dims.2 {
                    return error::fail(
                        Kind::VoxelOutside {
                            data: d.id,
                            at_x: p.0,
                            at_y: p.1,
                            at_z: p.2,
                            dim_x: dims.0,
                            dim_y: dims.1,
                            dim_z: dims.2,
                        },
                    );
                }
                if let Some(prop) = vs[v].property_id {
                    if !known.contains(&prop) {
                        return error::fail(Kind::VoxelUnknownProperty { data: d.id, property: prop });
                    }
                }
                v += 1;
            }
            if let Some(sp) = g.spacing {
                if float_bits::f64_le(sp.0, ZERO_BITS) || float_bits::f64_le(sp.1, ZERO_BITS)
                    || float_bits::f64_le(sp.2, ZERO_BITS) {
                    return error::fail(
                        Kind::VoxelSpacing { data: d.id, step_x: sp.0, step_y: sp.1, step_z: sp.2 },
                    );
                }
            }
            Ok(())
        },
    }
}

/// Checks the volumetric resources of the model.
pub fn validate_volumetric_extension(model: &Model) -> (r: Result<(), Error>)
    ensures
        error::reports(r, volumetric_finding(*model)),
{
    let has_resources = model.resources.volumetric_data.len() > 0
        || model.resources.volumetric_property_groups.len() > 0;
    if has_resources && !declares_volumetric_extension(model) {
        return error::fail(Kind::VolumetricNotDeclared);
    }
    let known = property_group_set(model);
    let ds = &model.resources.volumetric_data;
    let ghost n = ds@.len() as int;
    let mut i: usize = 0;
    while i < ds.len()
        invariant
            i <= ds@.len(),
            n == ds@.len(),
            ds@ == model.resources.volumetric_data@,
            !((model.resources.volumetric_data@.len() > 0
                || model.resources.volumetric_property_groups@.len() > 0) && !declares_volumetric(
                *model,
            )),
            forall|x: usize| #[trigger] known@.contains(x) <==> property_group_ids(*model).contains(x),
            error::first(n, data_check(*model)) == error::first_from(n, data_check(*model), i as int),
        decreases ds@.len() - i,
    {
        let r = check_data(model, &known, &ds[i]);
        if r.is_err() {
            return r;
        }
        i += 1;
    }
    let gs = &model.resources.volumetric_property_groups;
    let ghost ng = gs@.len() as int;
    let mut seen: HashSet<usize> = HashSet::new();
    let mut k: usize = 0;
    while k < gs.len()
        invariant
            k <= gs@.len(),
            ng == gs@.len(),
            gs@ == model.resources.volumetric_property_groups@,
            n == model.resources.volumetric_data@.len(),
            !((model.resources.volumetric_data@.len() > 0
                || model.resources.volumetric_property_groups@.len() > 0) && !declares_volumetric(
                *model,
            )),
            error::first(n, data_check(*model)) is None,
            forall|x: usize|
                #[trigger] seen@.contains(x) <==> exists|j: int| 0 <= j < k && #[trigger] property_group_ids(
                    *model,
                )[j] == x,
            error::first(ng, property_group_check(*model)) == error::first_from(
                ng,
                property_group_check(*model),
                k as int,
            ),
        decreases gs@.len() - k,
    {
        let id = gs[k].id;
        if !seen.insert(id) {
            return error::fail(Kind::DuplicateVolumetricPropertyGroup { id });
        }
        proof {
            assert forall|x: usize| #[trigger]
                seen@.contains(x) <==> exists|j: int|
                    0 <= j < k + 1 && #[trigger] property_group_ids(*model)[j] == x by {
                if x == id {
                    assert(property_group_ids(*model)[k as int] == x);
                }
            }
        }
        k += 1;
    }
    Ok(())
}

} // verus!
