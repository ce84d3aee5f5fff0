//! Rules on the resources section as a whole: the order of property
//! resources and objects, and the uniqueness of resource ids.
use crate::error::{self, Error, Kind, PropertyKind, ResourceKind};
use crate::model::Model;
use crate::validator::materials::{
    self, base_ids, color_ids, composite_ids, find_id, find_in, multi_ids, texture_group_ids,
};
use std::collections::HashSet;
use vstd::prelude::*;

verus! {

broadcast use vstd::std_specs::hash::group_hash_axioms;

pub open spec fn texture_ids(m: Model) -> Seq<usize> {
    m.resources.texture2d_resources@.map_values(|t: crate::model::Texture2D| t.id)
}

fn texture_id_list(m: &Model) -> (v: Vec<usize>)
    ensures
        v@ == texture_ids(*m),
{
    let ts = &m.resources.texture2d_resources;
    let mut v: Vec<usize> = Vec::new();
    let mut i: usize = 0;
    while i < ts.len()
        invariant
            i <= ts@.len(),
            ts@ == m.resources.texture2d_resources@,
            v@ == texture_ids(*m).take(i as int),
        decreases ts@.len() - i,
    {
        v.push(ts[i].id);
        proof {
            assert(texture_ids(*m).take(i + 1) =~= texture_ids(*m).take(i as int).push(ts@[i as int].id));
        }
        i += 1;
    }
    proof {
        assert(texture_ids(*m).take(ts@.len() as int) =~= texture_ids(*m));
    }
    v
}

// ---------------------------------------------------------------------------
// Forward references
// ---------------------------------------------------------------------------

/// A texture group references a texture that is defined before it.
pub open spec fn texture_group_order_finding(m: Model, g: crate::model::Texture2DGroup) -> error::Finding {
    match find_id(texture_ids(m), g.texid) {
        Some(i) => if g.parse_order < m.resources.texture2d_resources@[i].parse_order {
            error::found(Kind::TextureGroupForwardReference { group: g.id, texture: g.texid })
        } else {
            None
        },
        None => error::found(Kind::TextureGroupUnknownTexture { group: g.id, texture: g.texid }),
    }
}

pub open spec fn texture_group_order_check(m: Model) -> spec_fn(int) -> error::Finding {
    |i: int| texture_group_order_finding(m, m.resources.texture2d_groups@[i])
}

/// Whether the group of kind `kind` named `pid` stands after multiproperties `mp`.
pub open spec fn forward(m: Model, mp: crate::model::MultiProperties, kind: PropertyKind, pid: usize) -> error::Finding {
    let r = m.resources;
    let later = match kind {
        PropertyKind::Texture2DGroup => match find_id(texture_group_ids(m), pid) {
            Some(i) => mp.parse_order < r.texture2d_groups@[i].parse_order,
            None => false,
        },
        PropertyKind::ColorGroup => match find_id(color_ids(m), pid) {
            Some(i) => mp.parse_order < r.color_groups@[i].parse_order,
            None => false,
        },
        PropertyKind::BaseMaterials => match find_id(base_ids(m), pid) {
            Some(i) => mp.parse_order < r.base_material_groups@[i].parse_order,
            None => false,
        },
        PropertyKind::CompositeMaterials => match find_id(composite_ids(m), pid) {
            Some(i) => mp.parse_order < r.composite_materials@[i].parse_order,
            None => false,
        },
        PropertyKind::MultiProperties => false,
    };
    if later {
        error::found(Kind::MultiForwardReference { multi: mp.id, kind, pid })
    } else {
        None
    }
}

/// The groups that a pid of a multiproperties group names stand before it.
pub open spec fn multi_pid_order_finding(m: Model, mp: crate::model::MultiProperties, pid: usize) -> error::Finding {
    error::either(
        forward(m, mp, PropertyKind::Texture2DGroup, pid),
        error::either(
            forward(m, mp, PropertyKind::ColorGroup, pid),
            error::either(
                forward(m, mp, PropertyKind::BaseMaterials, pid),
                forward(m, mp, PropertyKind::CompositeMaterials, pid),
            ),
        ),
    )
}

pub open spec fn multi_pid_order_check(m: Model, p: int) -> spec_fn(int) -> error::Finding {
    |l: int|
        multi_pid_order_finding(
            m,
            m.resources.multi_properties@[p],
            m.resources.multi_properties@[p].pids@[l],
        )
}

pub open spec fn multi_order_check(m: Model) -> spec_fn(int) -> error::Finding {
    |p: int|
        error::first(
            m.resources.multi_properties@[p].pids@.len() as int,
            multi_pid_order_check(m, p),
        )
}

// ---------------------------------------------------------------------------
// Objects among property resources
// ---------------------------------------------------------------------------

/// The property resources as (kind, id, position), in the order textures,
/// texture groups, color groups, base material groups, composite materials,
/// multiproperties.
pub open spec fn property_orders(m: Model) -> Seq<(ResourceKind, usize, usize)> {
    let r = m.resources;
    r.texture2d_resources@.map_values(
        |t: crate::model::Texture2D| (ResourceKind::Texture2D, t.id, t.parse_order),
    ) + r.texture2d_groups@.map_values(
        |t: crate::model::Texture2DGroup| (ResourceKind::Texture2DGroup, t.id, t.parse_order),
    ) + r.color_groups@.map_values(
        |t: crate::model::ColorGroup| (ResourceKind::ColorGroup, t.id, t.parse_order),
    ) + r.base_material_groups@.map_values(
        |t: crate::model::BaseMaterialGroup| (ResourceKind::BaseMaterials, t.id, t.parse_order),
    ) + r.composite_materials@.map_values(
        |t: crate::model::CompositeMaterials| (ResourceKind::CompositeMaterials, t.id, t.parse_order),
    ) + r.multi_properties@.map_values(
        |t: crate::model::MultiProperties| (ResourceKind::MultiProperties, t.id, t.parse_order),
    )
}

/// The least position in `s` (0 where `s` is empty).
pub open spec fn min_position(s: Seq<(ResourceKind, usize, usize)>) -> usize
    decreases s.len(),
{
    if s.len() == 0 {
        0
    } else if s.len() == 1 || s.last().2 < min_position(s.drop_last()) {
        s.last().2
    } else {
        min_position(s.drop_last())
    }
}

/// The greatest position in `s` (0 where `s` is empty).
pub open spec fn max_position(s: Seq<(ResourceKind, usize, usize)>) -> usize
    decreases s.len(),
{
    if s.len() == 0 {
        0
    } else if s.len() == 1 || s.last().2 > max_position(s.drop_last()) {
        s.last().2
    } else {
        max_position(s.drop_last())
    }
}

/// The index of the first resource of `s` at or after `j` positioned after `x`.
pub open spec fn first_after(s: Seq<(ResourceKind, usize, usize)>, x: usize, j: int) -> Option<int>
    decreases s.len() - j,
{
    if j < 0 || j >= s.len() {
        None
    } else if s[j].2 > x {
        Some(j)
    } else {
        first_after(s, x, j + 1)
    }
}

/// Object `j` must not stand between two property resources.
pub open spec fn intermingle_finding(m: Model, j: int) -> error::Finding {
    let props = property_orders(m);
    let o = m.resources.objects@[j];
    if min_position(props) < o.parse_order && o.parse_order < max_position(props) {
        match first_after(props, o.parse_order, 0) {
            Some(q) => error::found(
                Kind::ObjectAmongPropertyResources {
                    object: o.id,
                    position: o.parse_order,
                    first_kind: props[0].0,
                    first_id: props[0].1,
                    first_position: props[0].2,
                    later_kind: props[q].0,
                    later_id: props[q].1,
                    later_position: props[q].2,
                },
            ),
            None => None,
        }
    } else {
        None
    }
}

pub open spec fn intermingle_check(m: Model) -> spec_fn(int) -> error::Finding {
    |j: int| intermingle_finding(m, j)
}

/// Texture groups and multiproperties reference resources defined before
/// them, and no object stands between two property resources.
pub open spec fn resource_ordering_finding(m: Model) -> error::Finding {
    error::either(
        error::first(m.resources.texture2d_groups@.len() as int, texture_group_order_check(m)),
        error::either(
            error::first(m.resources.multi_properties@.len() as int, multi_order_check(m)),
            if property_orders(m).len() > 0 && m.resources.objects@.len() > 0 {
                error::first(m.resources.objects@.len() as int, intermingle_check(m))
            } else {
                None
            },
        ),
    )
}

fn check_texture_group_orders(m: &Model, tex: &Vec<usize>) -> (r: Result<(), Error>)
    requires
        tex@ == texture_ids(*m),
    ensures
        error::reports(
            r,
            error::first(m.resources.texture2d_groups@.len() as int, texture_group_order_check(*m)),
        ),
{
    let gs = &m.resources.texture2d_groups;
    let ghost n = gs@.len() as int;
    let mut i: usize = 0;
    while i < gs.len()
        invariant
            i <= gs@.len(),
            n == gs@.len(),
            gs@ == m.resources.texture2d_groups@,
            tex@ == texture_ids(*m),
            error::first(n, texture_group_order_check(*m)) == error::first_from(
                n,
                texture_group_order_check(*m),
                i as int,
            ),
        decreases gs@.len() - i,
    {
        let g = &gs[i];
        match find_in(tex, g.texid) {
            Some(t) => {
                if g.parse_order < m.resources.texture2d_resources[t].parse_order {
                    return error::fail(
                        Kind::TextureGroupForwardReference { group: g.id, texture: g.texid },
                    );
                }
            },
            None => {
                return error::fail(Kind::TextureGroupUnknownTexture { group: g.id, texture: g.texid });
            },
        }
        i += 1;
    }
    Ok(())
}

fn check_forward(
    m: &Model,
    ix: &materials::PropertyIds,
    mp: &crate::model::MultiProperties,
    kind: PropertyKind,
    pid: usize,
) -> (r: Result<(), Error>)
    requires
        ix.of(*m),
    ensures
        error::reports(r, forward(*m, *mp, kind, pid)),
{
    let res = &m.resources;
    let later = match kind {
        PropertyKind::Texture2DGroup => match find_in(&ix.textures, pid) {
            Some(i) => mp.parse_order < res.texture2d_groups[i].parse_order,
            None => false,
        },
        PropertyKind::ColorGroup => match find_in(&ix.colors, pid) {
            Some(i) => mp.parse_order < res.color_groups[i].parse_order,
            None => false,
        },
        PropertyKind::BaseMaterials => match find_in(&ix.bases, pid) {
            Some(i) => mp.parse_order < res.base_material_groups[i].parse_order,
            None => false,
        },
        PropertyKind::CompositeMaterials => match find_in(&ix.composites, pid) {
            Some(i) => mp.parse_order < res.composite_materials[i].parse_order,
            None => false,
        },
        PropertyKind::MultiProperties => false,
    };
    if later {
        return error::fail(Kind::MultiForwardReference { multi: mp.id, kind, pid });
    }
    Ok(())
}

fn check_multi_orders(m: &Model, ix: &materials::PropertyIds) -> (r: Result<(), Error>)
    requires
        ix.of(*m),
    ensures
        error::reports(
            r,
            error::first(m.resources.multi_properties@.len() as int, multi_order_check(*m)),
        ),
{
    let mps = &m.resources.multi_properties;
    let ghost n = mps@.len() as int;
    let mut p: usize = 0;
    while p < mps.len()
        invariant
            p <= mps@.len(),
            n == mps@.len(),
            mps@ == m.resources.multi_properties@,
            ix.of(*m),
            error::first(n, multi_order_check(*m)) == error::first_from(
                n,
                multi_order_check(*m),
                p as int,
            ),
        decreases mps@.len() - p,
    {
        let mp = &mps[p];
        let ghost nl = mp.pids@.len() as int;
        let mut l: usize = 0;
        while l < mp.pids.len()
            invariant
                l <= nl,
                p < mps@.len(),
                n == mps@.len(),
                *mp == mps@[p as int],
                nl == mp.pids@.len(),
                mps@ == m.resources.multi_properties@,
                ix.of(*m),
                error::first(n, multi_order_check(*m)) == error::first_from(
                    n,
                    multi_order_check(*m),
                    p as int,
                ),
                error::first(nl, multi_pid_order_check(*m, p as int)) == error::first_from(
                    nl,
                    multi_pid_order_check(*m, p as int),
                    l as int,
                ),
            decreases nl - l,
        {
            let pid = mp.pids[l];
            let r = check_forward(m, ix, mp, PropertyKind::Texture2DGroup, pid);
            if r.is_err() {
                return r;
            }
            let r = check_forward(m, ix, mp, PropertyKind::ColorGroup, pid);
            if r.is_err() {
                return r;
            }
            let r = check_forward(m, ix, mp, PropertyKind::BaseMaterials, pid);
            if r.is_err() {
                return r;
            }
            let r = check_forward(m, ix, mp, PropertyKind::CompositeMaterials, pid);
            if r.is_err() {
                return r;
            }
            l += 1;
        }
        p += 1;
    }
    Ok(())
}

fn push_orders(out: &mut Vec<(ResourceKind, usize, usize)>, items: &Vec<(usize, usize)>, kind: ResourceKind)
    ensures
        final(out)@ == old(out)@ + items@.map_values(|x: (usize, usize)| (kind, x.0, x.1)),
{
    let ghost start = out@;
    let mut i: usize = 0;
    while i < items.len()
        invariant
            i <= items@.len(),
            out@ == start + items@.take(i as int).map_values(|x: (usize, usize)| (kind, x.0, x.1)),
        decreases items@.len() - i,
    {
        out.push((kind, items[i].0, items[i].1));
        proof {
            assert(items@.take(i + 1).map_values(|x: (usize, usize)| (kind, x.0, x.1)) =~= items@.take(
                i as int,
            ).map_values(|x: (usize, usize)| (kind, x.0, x.1)).push((kind, items@[i as int].0, items@[i as int].1)));
        }
        i += 1;
    }
    proof {
        assert(items@.take(items@.len() as int) =~= items@);
    }
}

/// The property resources with their positions.
fn property_order_list(m: &Model) -> (v: Vec<(ResourceKind, usize, usize)>)
    ensures
        v@ == property_orders(*m),
{
    let r = &m.resources;
    let mut v: Vec<(ResourceKind, usize, usize)> = Vec::new();
    let mut t: Vec<(usize, usize)> = Vec::new();
    let mut i: usize = 0;
    while i < r.texture2d_resources.len()
        invariant
            i <= r.texture2d_resources@.len(),
            t@ == r.texture2d_resources@.take(i as int).map_values(|x: crate::model::Texture2D| (x.id, x.parse_order)),
        decreases r.texture2d_resources@.len() - i,
    {
        t.push((r.texture2d_resources[i].id, r.texture2d_resources[i].parse_order));
        proof {
            assert(r.texture2d_resources@.take(i + 1).map_values(|x: crate::model::Texture2D| (x.id, x.parse_order))
                =~= t@);
        }
        i += 1;
    }
    push_orders(&mut v, &t, ResourceKind::Texture2D);
    let mut t: Vec<(usize, usize)> = Vec::new();
    let mut i: usize = 0;
    while i < r.texture2d_groups.len()
        invariant
            i <= r.texture2d_groups@.len(),
            t@ == r.texture2d_groups@.take(i as int).map_values(|x: crate::model::Texture2DGroup| (x.id, x.parse_order)),
        decreases r.texture2d_groups@.len() - i,
    {
        t.push((r.texture2d_groups[i].id, r.texture2d_groups[i].parse_order));
        proof {
            assert(r.texture2d_groups@.take(i + 1).map_values(|x: crate::model::Texture2DGroup| (x.id, x.parse_order))
                =~= t@);
        }
        i += 1;
    }
    push_orders(&mut v, &t, ResourceKind::Texture2DGroup);
    let mut t: Vec<(usize, usize)> = Vec::new();
    let mut i: usize = 0;
    while i < r.color_groups.len()
        invariant
            i <= r.color_groups@.len(),
            t@ == r.color_groups@.take(i as int).map_values(|x: crate::model::ColorGroup| (x.id, x.parse_order)),
        decreases r.color_groups@.len() - i,
    {
        t.push((r.color_groups[i].id, r.color_groups[i].parse_order));
        proof {
            assert(r.color_groups@.take(i + 1).map_values(|x: crate::model::ColorGroup| (x.id, x.parse_order))
                =~= t@);
        }
        i += 1;
    }
    push_orders(&mut v, &t, ResourceKind::ColorGroup);
    let mut t: Vec<(usize, usize)> = Vec::new();
    let mut i: usize = 0;
    while i < r.base_material_groups.len()
        invariant
            i <= r.base_material_groups@.len(),
            t@ == r.base_material_groups@.take(i as int).map_values(|x: crate::model::BaseMaterialGroup| (x.id, x.parse_order)),
        decreases r.base_material_groups@.len() - i,
    {
        t.push((r.base_material_groups[i].id, r.base_material_groups[i].parse_order));
        proof {
            assert(r.base_material_groups@.take(i + 1).map_values(|x: crate::model::BaseMaterialGroup| (x.id, x.parse_order))
                =~= t@);
        }
        i += 1;
    }
    push_orders(&mut v, &t, ResourceKind::BaseMaterials);
    let mut t: Vec<(usize, usize)> = Vec::new();
    let mut i: usize = 0;
    while i < r.composite_materials.len()
        invariant
            i <= r.composite_materials@.len(),
            t@ == r.composite_materials@.take(i as int).map_values(|x: crate::model::CompositeMaterials| (x.id, x.parse_order)),
        decreases r.composite_materials@.len() - i,
    {
        t.push((r.composite_materials[i].id, r.composite_materials[i].parse_order));
        proof {
            assert(r.composite_materials@.take(i + 1).map_values(|x: crate::model::CompositeMaterials| (x.id, x.parse_order))
                =~= t@);
        }
        i += 1;
    }
    push_orders(&mut v, &t, ResourceKind::CompositeMaterials);
    let mut t: Vec<(usize, usize)> = Vec::new();
    let mut i: usize = 0;
    while i < r.multi_properties.len()
        invariant
            i <= r.multi_properties@.len(),
            t@ == r.multi_properties@.take(i as int).map_values(|x: crate::model::MultiProperties| (x.id, x.parse_order)),
        decreases r.multi_properties@.len() - i,
    {
        t.push((r.multi_properties[i].id, r.multi_properties[i].parse_order));
        proof {
            assert(r.multi_properties@.take(i + 1).map_values(|x: crate::model::MultiProperties| (x.id, x.parse_order))
                =~= t@);
        }
        i += 1;
    }
    push_orders(&mut v, &t, ResourceKind::MultiProperties);
    proof {
        assert(r.texture2d_resources@.take(r.texture2d_resources@.len() as int) =~= r.texture2d_resources@);
        assert(r.texture2d_groups@.take(r.texture2d_groups@.len() as int) =~= r.texture2d_groups@);
        assert(r.color_groups@.take(r.color_groups@.len() as int) =~= r.color_groups@);
        assert(r.base_material_groups@.take(r.base_material_groups@.len() as int) =~= r.base_material_groups@);
        assert(r.composite_materials@.take(r.composite_materials@.len() as int) =~= r.composite_materials@);
        assert(r.multi_properties@.take(r.multi_properties@.len() as int) =~= r.multi_properties@);
        assert(v@ =~= property_orders(*m));
    }
    v
}

fn check_intermingling(m: &Model) -> (r: Result<(), Error>)
    ensures
        error::reports(
            r,
            if property_orders(*m).len() > 0 && m.resources.objects@.len() > 0 {
                error::first(m.resources.objects@.len() as int, intermingle_check(*m))
            } else {
                None
            },
        ),
{
    let props = property_order_list(m);
    let objs = &m.resources.objects;
    if props.len() == 0 || objs.len() == 0 {
        return Ok(());
    }
    let mut lo: usize = props[0].2;
    let mut hi: usize = props[0].2;
    let mut i: usize = 1;
    while i < props.len()
        invariant
            1 <= i <= props@.len(),
            lo == min_position(props@.take(i as int)),
            hi == max_position(props@.take(i as int)),
        decreases props@.len() - i,
    {
        proof {
            assert(props@.take(i + 1).drop_last() =~= props@.take(i as int));
            assert(props@.take(1).len() == 1);
        }
        if props[i].2 < lo {
            lo = props[i].2;
        }
        if props[i].2 > hi {
            hi = props[i].2;
        }
        i += 1;
    }
    proof {
        assert(props@.take(props@.len() as int) =~= props@);
        if props@.len() == 1 {
            assert(props@.take(1) =~= props@);
        }
    }
    let ghost n = objs@.len() as int;
    let mut j: usize = 0;
    while j < objs.len()
        invariant
            j <= objs@.len(),
            n == objs@.len(),
            objs@ == m.resources.objects@,
            props@ == property_orders(*m),
            props@.len() > 0,
            lo == min_position(props@),
            hi == max_position(props@),
            error::first(n, intermingle_check(*m)) == error::first_from(
                n,
                intermingle_check(*m),
                j as int,
            ),
        decreases objs@.len() - j,
    {
        let o = &objs[j];
        if lo < o.parse_order && o.parse_order < hi {
            let mut q: usize = 0;
            while q < props.len()
                invariant
                    q <= props@.len(),
                    j < objs@.len(),
                    *o == objs@[j as int],
                    n == objs@.len(),
                    objs@ == m.resources.objects@,
                    props@ == property_orders(*m),
                    props@.len() > 0,
                    lo == min_position(props@),
                    hi == max_position(props@),
                    lo < o.parse_order && o.parse_order < hi,
                    error::first(n, intermingle_check(*m)) == error::first_from(
                        n,
                        intermingle_check(*m),
                        j as int,
                    ),
                    first_after(props@, o.parse_order, 0) == first_after(props@, o.parse_order, q as int),
                decreases props@.len() - q,
            {
                if props[q].2 > o.parse_order {
                    return error::fail(
                        Kind::ObjectAmongPropertyResources {
                            object: o.id,
                            position: o.parse_order,
                            first_kind: props[0].0,
                            first_id: props[0].1,
                            first_position: props[0].2,
                            later_kind: props[q].0,
                            later_id: props[q].1,
                            later_position: props[q].2,
                        },
                    );
                }
                q += 1;
            }
        }
        j += 1;
    }
    Ok(())
}

/// Checks forward references of texture groups and multiproperties, and that
/// objects are not interleaved with property resources.
pub fn validate_resource_ordering(model: &Model) -> (r: Result<(), Error>)
    ensures
        error::reports(r, resource_ordering_finding(*model)),
{
    let tex = texture_id_list(model);
    let r = check_texture_group_orders(model, &tex);
    if r.is_err() {
        return r;
    }
    let ix = materials::property_ids(model);
    let r = check_multi_orders(model, &ix);
    if r.is_err() {
        return r;
    }
    check_intermingling(model)
}


// ---------------------------------------------------------------------------
// Unique resource ids
// ---------------------------------------------------------------------------

/// The property resources as (id, kind), in the order base material groups,
/// color groups, textures, texture groups, composite materials,
/// multiproperties, slice stacks.
pub open spec fn property_resource_ids(m: Model) -> Seq<(usize, ResourceKind)> {
    let r = m.resources;
    base_ids(m).map_values(|id: usize| (id, ResourceKind::BaseMaterials)) + color_ids(m).map_values(
        |id: usize| (id, ResourceKind::ColorGroup),
    ) + texture_ids(m).map_values(|id: usize| (id, ResourceKind::Texture2D))
        + texture_group_ids(m).map_values(|id: usize| (id, ResourceKind::Texture2DGroup))
        + composite_ids(m).map_values(|id: usize| (id, ResourceKind::CompositeMaterials))
        + multi_ids(m).map_values(|id: usize| (id, ResourceKind::MultiProperties))
        + r.slice_stacks@.map_values(|s: crate::model::SliceStack| (s.id, ResourceKind::SliceStack))
}

pub open spec fn object_resource_id_check(m: Model) -> spec_fn(int) -> error::Finding {
    |i: int| {
        let objs = m.resources.objects@;
        if exists|j: int| 0 <= j < i && #[trigger] objs[j].id == objs[i].id {
            error::found(Kind::DuplicateObjectResourceId { id: objs[i].id })
        } else {
            None
        }
    }
}

pub open spec fn property_resource_id_check(m: Model) -> spec_fn(int) -> error::Finding {
    |k: int| {
        let e = property_resource_ids(m);
        if exists|j: int| 0 <= j < k && #[trigger] e[j].0 == e[k].0 {
            error::found(Kind::DuplicatePropertyResourceId { id: e[k].0, resource_kind: e[k].1 })
        } else {
            None
        }
    }
}

/// Object ids are unique among objects, and property resource ids among
/// property resources.
pub open spec fn duplicate_resource_ids_finding(m: Model) -> error::Finding {
    error::either(
        error::first(m.resources.objects@.len() as int, object_resource_id_check(m)),
        error::first(property_resource_ids(m).len() as int, property_resource_id_check(m)),
    )
}

fn push_kind(out: &mut Vec<(usize, ResourceKind)>, ids: &Vec<usize>, kind: ResourceKind)
    ensures
        final(out)@ == old(out)@ + ids@.map_values(|id: usize| (id, kind)),
{
    let ghost start = out@;
    let mut i: usize = 0;
    while i < ids.len()
        invariant
            i <= ids@.len(),
            out@ == start + ids@.take(i as int).map_values(|id: usize| (id, kind)),
        decreases ids@.len() - i,
    {
        out.push((ids[i], kind));
        proof {
            assert(ids@.take(i + 1).map_values(|id: usize| (id, kind)) =~= ids@.take(i as int).map_values(
                |id: usize| (id, kind),
            ).push((ids@[i as int], kind)));
        }
        i += 1;
    }
    proof {
        assert(ids@.take(ids@.len() as int) =~= ids@);
    }
}

fn property_resource_list(m: &Model) -> (v: Vec<(usize, ResourceKind)>)
    ensures
        v@ == property_resource_ids(*m),
{
    let ix = materials::property_ids(m);
    let tex = texture_id_list(m);
    let mut stacks: Vec<usize> = Vec::new();
    let ss = &m.resources.slice_stacks;
    let mut i: usize = 0;
    while i < ss.len()
        invariant
            i <= ss@.len(),
            ss@ == m.resources.slice_stacks@,
            stacks@ == ss@.take(i as int).map_values(|s: crate::model::SliceStack| s.id),
        decreases ss@.len() - i,
    {
        stacks.push(ss[i].id);
        proof {
            assert(ss@.take(i + 1).map_values(|s: crate::model::SliceStack| s.id) =~= stacks@);
        }
        i += 1;
    }
    let mut v: Vec<(usize, ResourceKind)> = Vec::new();
    push_kind(&mut v, &ix.bases, ResourceKind::BaseMaterials);
    push_kind(&mut v, &ix.colors, ResourceKind::ColorGroup);
    push_kind(&mut v, &tex, ResourceKind::Texture2D);
    push_kind(&mut v, &ix.textures, ResourceKind::Texture2DGroup);
    push_kind(&mut v, &ix.composites, ResourceKind::CompositeMaterials);
    push_kind(&mut v, &ix.multis, ResourceKind::MultiProperties);
    push_kind(&mut v, &stacks, ResourceKind::SliceStack);
    proof {
        assert(ss@.take(ss@.len() as int) =~= ss@);
        assert(stacks@.map_values(|id: usize| (id, ResourceKind::SliceStack)) =~= ss@.map_values(
            |s: crate::model::SliceStack| (s.id, ResourceKind::SliceStack),
        ));
        assert(v@ =~= property_resource_ids(*m));
    }
    v
}

/// Checks that ids are unique among objects and among property resources.
pub fn validate_duplicate_resource_ids(model: &Model) -> (r: Result<(), Error>)
    ensures
        error::reports(r, duplicate_resource_ids_finding(*model)),
{
    let objs = &model.resources.objects;
    let ghost n = objs@.len() as int;
    let mut seen: HashSet<usize> = HashSet::new();
    let mut i: usize = 0;
    while i < objs.len()
        invariant
            i <= objs@.len(),
            n == objs@.len(),
            objs@ == model.resources.objects@,
            forall|x: usize|
                #[trigger] seen@.contains(x) <==> exists|j: int| 0 <= j < i && #[trigger] objs@[j].id == x,
            error::first(n, object_resource_id_check(*model)) == error::first_from(
                n,
                object_resource_id_check(*model),
                i as int,
            ),
        decreases objs@.len() - i,
    {
        let id = objs[i].id;
        if !seen.insert(id) {
            return error::fail(Kind::DuplicateObjectResourceId { id });
        }
        proof {
            assert forall|x: usize| #[trigger]
                seen@.contains(x) <==> exists|j: int| 0 <= j < i + 1 && #[trigger] objs@[j].id == x by {
                if x == id {
                    assert(objs@[i as int].id == x);
                }
            }
        }
        i += 1;
    }
    let e = property_resource_list(model);
    let ghost ne = e@.len() as int;
    let mut seen: HashSet<usize> = HashSet::new();
    let mut k: usize = 0;
    while k < e.len()
        invariant
            k <= e@.len(),
            ne == e@.len(),
            e@ == property_resource_ids(*model),
            n == model.resources.objects@.len(),
            error::first(n, object_resource_id_check(*model)) is None,
            forall|x: usize|
                #[trigger] seen@.contains(x) <==> exists|j: int| 0 <= j < k && #[trigger] e@[j].0 == x,
            error::first(ne, property_resource_id_check(*model)) == error::first_from(
                ne,
                property_resource_id_check(*model),
                k as int,
            ),
        decreases e@.len() - k,
    {
        let (id, kind) = e[k];
        if !seen.insert(id) {
            return error::fail(Kind::DuplicatePropertyResourceId { id, resource_kind: kind });
        }
        proof {
            assert forall|x: usize| #[trigger]
                seen@.contains(x) <==> exists|j: int| 0 <= j < k + 1 && #[trigger] e@[j].0 == x by {
                if x == id {
                    assert(e@[k as int].0 == x);
                }
            }
        }
        k += 1;
    }
    Ok(())
}

} // verus!
