//! Material extension rules: property group identifiers, the indices that
//! objects, triangles and multiproperties use into property groups, texture
//! paths and color groups.
use crate::error::{self, Error, Kind, PropAttr, PropertyKind};
use crate::ids;
use crate::model::{Mesh, Model, Object, Triangle};
use std::collections::HashMap;
use vstd::prelude::*;

verus! {

// ---------------------------------------------------------------------------
// Finding property groups by id
// ---------------------------------------------------------------------------

/// The index of the first element of `ids` equal to `id`, at or after `j`.
pub open spec fn find_id_from(ids: Seq<usize>, id: usize, j: int) -> Option<int>
    decreases ids.len() - j,
{
    if j < 0 || j >= ids.len() {
        None
    } else if ids[j] == id {
        Some(j)
    } else {
        find_id_from(ids, id, j + 1)
    }
}

/// The index of the first element of `ids` equal to `id`.
pub open spec fn find_id(ids: Seq<usize>, id: usize) -> Option<int> {
    find_id_from(ids, id, 0)
}

pub proof fn lemma_find_id_from(ids: Seq<usize>, id: usize, j: int)
    requires
        0 <= j,
    ensures
        find_id_from(ids, id, j) matches Some(x) ==> j <= x < ids.len() && ids[x] == id && forall|
            q: int,
        | j <= q < x ==> ids[q] != id,
        find_id_from(ids, id, j) is None ==> forall|q: int| j <= q < ids.len() ==> ids[q] != id,
    decreases ids.len() - j,
{
    if j < ids.len() && ids[j] != id {
        lemma_find_id_from(ids, id, j + 1);
    }
}

/// The index of the first element of `v` equal to `id`.
pub fn find_in(v: &Vec<usize>, id: usize) -> (r: Option<usize>)
    ensures
        match r {
            Some(x) => find_id(v@, id) == Some(x as int) && x < v@.len() && v@[x as int] == id,
            None => find_id(v@, id) is None,
        },
{
    let mut j: usize = 0;
    while j < v.len()
        invariant
            j <= v@.len(),
            find_id(v@, id) == find_id_from(v@, id, j as int),
        decreases v@.len() - j,
    {
        if v[j] == id {
            return Some(j);
        }
        j += 1;
    }
    None
}

pub open spec fn color_ids(m: Model) -> Seq<usize> {
    m.resources.color_groups@.map_values(|g: crate::model::ColorGroup| g.id)
}

pub open spec fn base_ids(m: Model) -> Seq<usize> {
    m.resources.base_material_groups@.map_values(|g: crate::model::BaseMaterialGroup| g.id)
}

pub open spec fn texture_group_ids(m: Model) -> Seq<usize> {
    m.resources.texture2d_groups@.map_values(|g: crate::model::Texture2DGroup| g.id)
}

pub open spec fn multi_ids(m: Model) -> Seq<usize> {
    m.resources.multi_properties@.map_values(|g: crate::model::MultiProperties| g.id)
}

pub open spec fn composite_ids(m: Model) -> Seq<usize> {
    m.resources.composite_materials@.map_values(|g: crate::model::CompositeMaterials| g.id)
}

/// The property group that `pid` names, searched among color groups, base
/// material groups, texture groups, multiproperties (where `with_multi`) and
/// composite materials in that order, with the number of its entries.
pub open spec fn property_lookup(m: Model, pid: usize, with_multi: bool) -> Option<(PropertyKind, usize)> {
    let r = m.resources;
    match find_id(color_ids(m), pid) {
        Some(i) => Some((PropertyKind::ColorGroup, r.color_groups@[i].colors@.len() as usize)),
        None => match find_id(base_ids(m), pid) {
            Some(i) => Some(
                (PropertyKind::BaseMaterials, r.base_material_groups@[i].materials@.len() as usize),
            ),
            None => match find_id(texture_group_ids(m), pid) {
                Some(i) => Some(
                    (PropertyKind::Texture2DGroup, r.texture2d_groups@[i].tex2coords@.len() as usize),
                ),
                None => if with_multi && find_id(multi_ids(m), pid) is Some {
                    Some(
                        (
                            PropertyKind::MultiProperties,
                            r.multi_properties@[find_id(multi_ids(m), pid)->0].multis@.len() as usize,
                        ),
                    )
                } else {
                    match find_id(composite_ids(m), pid) {
                        Some(i) => Some(
                            (
                                PropertyKind::CompositeMaterials,
                                r.composite_materials@[i].composites@.len() as usize,
                            ),
                        ),
                        None => None,
                    }
                },
            },
        },
    }
}

/// The ids of each kind of property group of a model, in document order.
pub struct PropertyIds {
    pub colors: Vec<usize>,
    pub bases: Vec<usize>,
    pub textures: Vec<usize>,
    pub multis: Vec<usize>,
    pub composites: Vec<usize>,
}

impl PropertyIds {
    pub open spec fn of(self, m: Model) -> bool {
        &&& self.colors@ == color_ids(m)
        &&& self.bases@ == base_ids(m)
        &&& self.textures@ == texture_group_ids(m)
        &&& self.multis@ == multi_ids(m)
        &&& self.composites@ == composite_ids(m)
    }
}

/// Collects the ids of the property groups of `m`.
pub fn property_ids(m: &Model) -> (ix: PropertyIds)
    ensures
        ix.of(*m),
{
    let mut colors: Vec<usize> = Vec::new();
    let mut i: usize = 0;
    while i < m.resources.color_groups.len()
        invariant
            i <= m.resources.color_groups@.len(),
            colors@ == color_ids(*m).take(i as int),
        decreases m.resources.color_groups@.len() - i,
    {
        colors.push(m.resources.color_groups[i].id);
        proof {
            assert(color_ids(*m).take(i + 1) =~= color_ids(*m).take(i as int).push(
                m.resources.color_groups@[i as int].id,
            ));
        }
        i += 1;
    }
    let mut bases: Vec<usize> = Vec::new();
    let mut i: usize = 0;
    while i < m.resources.base_material_groups.len()
        invariant
            i <= m.resources.base_material_groups@.len(),
            bases@ == base_ids(*m).take(i as int),
        decreases m.resources.base_material_groups@.len() - i,
    {
        bases.push(m.resources.base_material_groups[i].id);
        proof {
            assert(base_ids(*m).take(i + 1) =~= base_ids(*m).take(i as int).push(
                m.resources.base_material_groups@[i as int].id,
            ));
        }
        i += 1;
    }
    let mut textures: Vec<usize> = Vec::new();
    let mut i: usize = 0;
    while i < m.resources.texture2d_groups.len()
        invariant
            i <= m.resources.texture2d_groups@.len(),
            textures@ == texture_group_ids(*m).take(i as int),
        decreases m.resources.texture2d_groups@.len() - i,
    {
        textures.push(m.resources.texture2d_groups[i].id);
        proof {
            assert(texture_group_ids(*m).take(i + 1) =~= texture_group_ids(*m).take(i as int).push(
                m.resources.texture2d_groups@[i as int].id,
            ));
        }
        i += 1;
    }
    let mut multis: Vec<usize> = Vec::new();
    let mut i: usize = 0;
    while i < m.resources.multi_properties.len()
        invariant
            i <= m.resources.multi_properties@.len(),
            multis@ == multi_ids(*m).take(i as int),
        decreases m.resources.multi_properties@.len() - i,
    {
        multis.push(m.resources.multi_properties[i].id);
        proof {
            assert(multi_ids(*m).take(i + 1) =~= multi_ids(*m).take(i as int).push(
                m.resources.multi_properties@[i as int].id,
            ));
        }
        i += 1;
    }
    let mut composites: Vec<usize> = Vec::new();
    let mut i: usize = 0;
    while i < m.resources.composite_materials.len()
        invariant
            i <= m.resources.composite_materials@.len(),
            composites@ == composite_ids(*m).take(i as int),
        decreases m.resources.composite_materials@.len() - i,
    {
        composites.push(m.resources.composite_materials[i].id);
        proof {
            assert(composite_ids(*m).take(i + 1) =~= composite_ids(*m).take(i as int).push(
                m.resources.composite_materials@[i as int].id,
            ));
        }
        i += 1;
    }
    proof {
        assert(color_ids(*m).take(color_ids(*m).len() as int) =~= color_ids(*m));
        assert(base_ids(*m).take(base_ids(*m).len() as int) =~= base_ids(*m));
        assert(texture_group_ids(*m).take(texture_group_ids(*m).len() as int)
            =~= texture_group_ids(*m));
        assert(multi_ids(*m).take(multi_ids(*m).len() as int) =~= multi_ids(*m));
        assert(composite_ids(*m).take(composite_ids(*m).len() as int) =~= composite_ids(*m));
    }
    PropertyIds { colors, bases, textures, multis, composites }
}

/// Looks up the property group that `pid` names.
pub fn lookup_property(m: &Model, ix: &PropertyIds, pid: usize, with_multi: bool) -> (r: Option<
    (PropertyKind, usize),
>)
    requires
        ix.of(*m),
    ensures
        r == property_lookup(*m, pid, with_multi),
{
    let res = &m.resources;
    match find_in(&ix.colors, pid) {
        Some(i) => {
            return Some((PropertyKind::ColorGroup, res.color_groups[i].colors.len()));
        },
        None => {},
    }
    match find_in(&ix.bases, pid) {
        Some(i) => {
            return Some((PropertyKind::BaseMaterials, res.base_material_groups[i].materials.len()));
        },
        None => {},
    }
    match find_in(&ix.textures, pid) {
        Some(i) => {
            return Some((PropertyKind::Texture2DGroup, res.texture2d_groups[i].tex2coords.len()));
        },
        None => {},
    }
    if with_multi {
        match find_in(&ix.multis, pid) {
            Some(i) => {
                return Some((PropertyKind::MultiProperties, res.multi_properties[i].multis.len()));
            },
            None => {},
        }
    }
    match find_in(&ix.composites, pid) {
        Some(i) => Some((PropertyKind::CompositeMaterials, res.composite_materials[i].composites.len())),
        None => None,
    }
}

// ---------------------------------------------------------------------------
// Property group identifiers
// ---------------------------------------------------------------------------

/// The property groups as (id, kind), in the order they are registered:
/// color groups, base material groups, multiproperties, texture groups,
/// composite materials.
pub open spec fn group_entries(m: Model) -> Seq<(usize, PropertyKind)> {
    color_ids(m).map_values(|id: usize| (id, PropertyKind::ColorGroup)) + base_ids(m).map_values(
        |id: usize| (id, PropertyKind::BaseMaterials),
    ) + multi_ids(m).map_values(|id: usize| (id, PropertyKind::MultiProperties))
        + texture_group_ids(m).map_values(|id: usize| (id, PropertyKind::Texture2DGroup))
        + composite_ids(m).map_values(|id: usize| (id, PropertyKind::CompositeMaterials))
}

pub open spec fn group_entry_ids(m: Model) -> Seq<usize> {
    group_entries(m).map_values(|e: (usize, PropertyKind)| e.0)
}

/// Entry `k` must not repeat the id of an earlier entry.
pub open spec fn group_id_finding(m: Model, k: int) -> error::Finding {
    let e = group_entries(m);
    match find_id(group_entry_ids(m).take(k), e[k].0) {
        Some(j) => error::found(
            Kind::DuplicatePropertyGroupId { id: e[k].0, earlier: e[j].1, later: e[k].1 },
        ),
        None => None,
    }
}

pub open spec fn group_id_check(m: Model) -> spec_fn(int) -> error::Finding {
    |k: int| group_id_finding(m, k)
}

pub open spec fn group_ids_finding(m: Model) -> error::Finding {
    error::first(group_entries(m).len() as int, group_id_check(m))
}

fn push_entries(out: &mut Vec<(usize, PropertyKind)>, ids: &Vec<usize>, kind: PropertyKind)
    ensures
        final(out)@ == old(out)@ + ids@.map_values(|id: usize| (id, kind)),
{
    let ghost start = out@;
    let mut i: usize = 0;
    while i < ids.len()
        invariant
            i <= ids@.len(),
            out@ == start + ids@.take(i as int).map_values(|id: usize| (id, kind)),
        decreases ids@.len() - i,
    {
        out.push((ids[i], kind));
        proof {
            assert(ids@.take(i + 1).map_values(|id: usize| (id, kind)) =~= ids@.take(
                i as int,
            ).map_values(|id: usize| (id, kind)).push((ids@[i as int], kind)));
        }
        i += 1;
    }
    proof {
        assert(ids@.take(ids@.len() as int) =~= ids@);
    }
}

/// The registered property groups, with their ids alone.
fn entries_of(ix: &PropertyIds, m: &Model) -> (r: (Vec<(usize, PropertyKind)>, Vec<usize>))
    requires
        ix.of(*m),
    ensures
        r.0@ == group_entries(*m),
        r.1@ == group_entry_ids(*m),
{
    let mut e: Vec<(usize, PropertyKind)> = Vec::new();
    push_entries(&mut e, &ix.colors, PropertyKind::ColorGroup);
    push_entries(&mut e, &ix.bases, PropertyKind::BaseMaterials);
    push_entries(&mut e, &ix.multis, PropertyKind::MultiProperties);
    push_entries(&mut e, &ix.textures, PropertyKind::Texture2DGroup);
    push_entries(&mut e, &ix.composites, PropertyKind::CompositeMaterials);
    assert(e@ =~= group_entries(*m));
    let mut ids: Vec<usize> = Vec::new();
    let mut i: usize = 0;
    while i < e.len()
        invariant
            i <= e@.len(),
            ids@ == e@.take(i as int).map_values(|x: (usize, PropertyKind)| x.0),
        decreases e@.len() - i,
    {
        ids.push(e[i].0);
        proof {
            assert(e@.take(i + 1).map_values(|x: (usize, PropertyKind)| x.0) =~= e@.take(
                i as int,
            ).map_values(|x: (usize, PropertyKind)| x.0).push(e@[i as int].0));
        }
        i += 1;
    }
    proof {
        assert(e@.take(e@.len() as int) =~= e@);
    }
    (e, ids)
}

/// The first occurrence of `x` among the first `k + 1` elements of `s`: the
/// one among the first `k`, else element `k` where it is `x`.
proof fn lemma_find_id_extend(s: Seq<usize>, k: int, x: usize)
    requires
        0 <= k < s.len(),
    ensures
        find_id(s.take(k + 1), x) == match find_id(s.take(k), x) {
            Some(j) => Some(j),
            None => if s[k] == x {
                Some(k)
            } else {
                None
            },
        },
{
    let a = s.take(k);
    let b = s.take(k + 1);
    lemma_find_id_from(a, x, 0);
    lemma_find_id_from(b, x, 0);
    assert(forall|q: int| 0 <= q < k ==> a[q] == b[q]);
    assert(b[k] == s[k]);
    match find_id(a, x) {
        Some(j) => {
            match find_id(b, x) {
                Some(j2) => {
                    assert(!(j2 < j)) by {
                        if j2 < j {
                            assert(a[j2] == x);
                        }
                    }
                    assert(!(j < j2)) by {
                        if j < j2 {
                            assert(b[j] == x);
                        }
                    }
                },
                None => {
                    assert(b[j] == x);
                },
            }
        },
        None => {
            match find_id(b, x) {
                Some(j2) => {
                    if j2 < k {
                        assert(a[j2] == x);
                    }
                },
                None => {
                    if s[k] == x {
                        assert(b[k] == x);
                    }
                },
            }
        },
    }
}

fn check_group_ids(entries: &Vec<(usize, PropertyKind)>, ids: &Vec<usize>, m: &Model) -> (r: Result<
    (),
    Error,
>)
    requires
        entries@ == group_entries(*m),
        ids@ == group_entry_ids(*m),
    ensures
        error::reports(r, group_ids_finding(*m)),
{
    let ghost n = entries@.len() as int;
    // The ids seen so far, each with the index of its first entry.
    let mut seen: HashMap<usize, usize> = HashMap::new();
    let mut k: usize = 0;
    proof {
        assert forall|x: usize| #[trigger] seen@.contains_key(x) <==> find_id(ids@.take(0), x) is Some by {
            lemma_find_id_from(ids@.take(0), x, 0);
        }
    }
    while k < entries.len()
        invariant
            k <= entries@.len(),
            n == entries@.len(),
            entries@ == group_entries(*m),
            ids@ == group_entry_ids(*m),
            ids@.len() == n,
            forall|x: usize| #[trigger] seen@.contains_key(x) <==> find_id(ids@.take(k as int), x) is Some,
            forall|x: usize|
                #[trigger] seen@.contains_key(x) ==> find_id(ids@.take(k as int), x) == Some(
                    seen@[x] as int,
                ),
            error::first(n, group_id_check(*m)) == error::first_from(
                n,
                group_id_check(*m),
                k as int,
            ),
        decreases entries@.len() - k,
    {
        let (id, kind) = entries[k];
        proof {
            assert(ids@[k as int] == id);
        }
        match seen.get(&id) {
            Some(j) => {
                let j = *j;
                proof {
                    lemma_find_id_from(ids@.take(k as int), id, 0);
                }
                return error::fail(
                    Kind::DuplicatePropertyGroupId { id, earlier: entries[j].1, later: kind },
                );
            },
            None => {},
        }
        let ghost before = seen@;
        seen.insert(id, k);
        proof {
            assert forall|x: usize| #[trigger] seen@.contains_key(x) <==> find_id(ids@.take(k + 1), x) is Some by {
                lemma_find_id_extend(ids@, k as int, x);
                assert(before.contains_key(x) <==> find_id(ids@.take(k as int), x) is Some);
            }
            assert forall|x: usize| #[trigger] seen@.contains_key(x) implies find_id(ids@.take(k + 1), x) == Some(
                seen@[x] as int,
            ) by {
                lemma_find_id_extend(ids@, k as int, x);
                assert(before.contains_key(x) <==> find_id(ids@.take(k as int), x) is Some);
                if x != id {
                    assert(before.contains_key(x));
                }
            }
        }
        k += 1;
    }
    Ok(())
}

// ---------------------------------------------------------------------------
// Multiproperties layers
// ---------------------------------------------------------------------------

/// Layer `l` of multi element `e` of multiproperties `p`: its pindex must fit
/// the property group of the layer.
pub open spec fn layer_finding(m: Model, p: int, e: int, l: int) -> error::Finding {
    let mp = m.resources.multi_properties@[p];
    let pid = mp.pids@[l];
    let pindex = mp.multis@[e].pindices@[l];
    match property_lookup(m, pid, false) {
        Some((kind, n)) => if pindex >= n {
            error::found(
                Kind::MultiPindexOutOfBounds {
                    multi: mp.id,
                    element: e as usize,
                    layer: l as usize,
                    pindex,
                    group_kind: kind,
                    group: pid,
                    count: n,
                },
            )
        } else {
            None
        },
        None => None,
    }
}

/// How many layers of multi element `e` of multiproperties `p` are checked.
pub open spec fn layer_count(m: Model, p: int, e: int) -> int {
    let mp = m.resources.multi_properties@[p];
    if mp.pids@.len() <= mp.multis@[e].pindices@.len() {
        mp.pids@.len() as int
    } else {
        mp.multis@[e].pindices@.len() as int
    }
}

pub open spec fn layer_check(m: Model, p: int, e: int) -> spec_fn(int) -> error::Finding {
    |l: int| layer_finding(m, p, e, l)
}

pub open spec fn element_check(m: Model, p: int) -> spec_fn(int) -> error::Finding {
    |e: int| error::first(layer_count(m, p, e), layer_check(m, p, e))
}

pub open spec fn multi_layer_check(m: Model) -> spec_fn(int) -> error::Finding {
    |p: int|
        error::first(
            m.resources.multi_properties@[p].multis@.len() as int,
            element_check(m, p),
        )
}

pub open spec fn multi_layers_finding(m: Model) -> error::Finding {
    error::first(m.resources.multi_properties@.len() as int, multi_layer_check(m))
}

fn check_layers(m: &Model, ix: &PropertyIds, p: usize, e: usize) -> (r: Result<(), Error>)
    requires
        ix.of(*m),
        p < m.resources.multi_properties@.len(),
        e < m.resources.multi_properties@[p as int].multis@.len(),
    ensures
        error::reports(r, error::first(layer_count(*m, p as int, e as int), layer_check(*m, p as int, e as int))),
{
    let mp = &m.resources.multi_properties[p];
    let pind = &mp.multis[e].pindices;
    let n: usize = if mp.pids.len() <= pind.len() {
        mp.pids.len()
    } else {
        pind.len()
    };
    let mut l: usize = 0;
    while l < n
        invariant
            l <= n,
            ix.of(*m),
            p < m.resources.multi_properties@.len(),
            e < m.resources.multi_properties@[p as int].multis@.len(),
            *mp == m.resources.multi_properties@[p as int],
            pind@ == mp.multis@[e as int].pindices@,
            n == layer_count(*m, p as int, e as int),
            error::first(n as int, layer_check(*m, p as int, e as int)) == error::first_from(
                n as int,
                layer_check(*m, p as int, e as int),
                l as int,
            ),
        decreases n - l,
    {
        let pid = mp.pids[l];
        let pindex = pind[l];
        match lookup_property(m, ix, pid, false) {
            Some((kind, count)) => {
                if pindex >= count {
                    return error::fail(
                        Kind::MultiPindexOutOfBounds {
                            multi: mp.id,
                            element: e,
                            layer: l,
                            pindex,
                            group_kind: kind,
                            group: pid,
                            count,
                        },
                    );
                }
            },
            None => {},
        }
        l += 1;
    }
    Ok(())
}

fn check_multi_layers(m: &Model, ix: &PropertyIds) -> (r: Result<(), Error>)
    requires
        ix.of(*m),
    ensures
        error::reports(r, multi_layers_finding(*m)),
{
    let mps = &m.resources.multi_properties;
    let ghost n = mps@.len() as int;
    let mut p: usize = 0;
    while p < mps.len()
        invariant
            p <= mps@.len(),
            n == mps@.len(),
            mps@ == m.resources.multi_properties@,
            ix.of(*m),
            error::first(n, multi_layer_check(*m)) == error::first_from(
                n,
                multi_layer_check(*m),
                p as int,
            ),
        decreases mps@.len() - p,
    {
        let ghost ne = mps@[p as int].multis@.len() as int;
        let mut e: usize = 0;
        while e < mps[p].multis.len()
            invariant
                e <= ne,
                p < mps@.len(),
                n == mps@.len(),
                error::first(n, multi_layer_check(*m)) == error::first_from(
                    n,
                    multi_layer_check(*m),
                    p as int,
                ),
                ne == mps@[p as int].multis@.len(),
                mps@ == m.resources.multi_properties@,
                ix.of(*m),
                error::first(ne, element_check(*m, p as int)) == error::first_from(
                    ne,
                    element_check(*m, p as int),
                    e as int,
                ),
            decreases ne - e,
        {
            let r = check_layers(m, ix, p, e);
            if r.is_err() {
                return r;
            }
            e += 1;
        }
        p += 1;
    }
    Ok(())
}


// ---------------------------------------------------------------------------
// Object and triangle properties
// ---------------------------------------------------------------------------

pub proof fn lemma_find_id(ids: Seq<usize>, id: usize)
    ensures
        find_id(ids, id) is Some <==> ids.contains(id),
{
    lemma_find_id_from(ids, id, 0);
    if ids.contains(id) {
        let q = choose|q: int| 0 <= q < ids.len() && ids[q] == id;
        assert(ids[q] == id);
    }
}

/// The object's pid names a property group, where the model has any.
pub open spec fn object_pid_finding(m: Model, o: Object) -> error::Finding {
    match o.pid {
        Some(p) => if group_entry_ids(m).len() > 0 && !group_entry_ids(m).contains(p) {
            error::found_ids(
                Kind::ObjectUnknownPropertyGroup { object: o.id, pid: p },
                ids::ascending_ids(group_entry_ids(m).to_set()),
            )
        } else {
            None
        },
        None => None,
    }
}

/// The object's basematerialid names a base material group.
pub open spec fn object_base_material_finding(m: Model, o: Object) -> error::Finding {
    match o.basematerialid {
        Some(b) => if !base_ids(m).contains(b) {
            error::found_ids(
                Kind::ObjectUnknownBaseMaterialGroup { object: o.id, id: b },
                ids::ascending_ids(base_ids(m).to_set()),
            )
        } else {
            None
        },
        None => None,
    }
}

/// The object's pindex fits the property group its pid names.
pub open spec fn object_pindex_finding(m: Model, o: Object) -> error::Finding {
    match o.pid {
        Some(p) => match o.pindex {
            Some(x) => match property_lookup(m, p, true) {
                Some((kind, n)) => if x >= n {
                    error::found(
                        Kind::ObjectPindexOutOfBounds {
                            object: o.id,
                            pindex: x,
                            group_kind: kind,
                            group: p,
                            count: n,
                        },
                    )
                } else {
                    None
                },
                None => None,
            },
            None => None,
        },
        None => None,
    }
}

/// A material attribute of triangle `k` fits a group of `n` entries.
pub open spec fn attr_finding(
    oid: usize,
    k: int,
    attr: PropAttr,
    value: Option<usize>,
    kind: PropertyKind,
    group: usize,
    n: usize,
) -> error::Finding {
    match value {
        Some(v) => if v >= n {
            error::found(
                Kind::TrianglePropertyOutOfBounds {
                    object: oid,
                    triangle: k as usize,
                    attr,
                    value: v,
                    group_kind: kind,
                    group,
                    count: n,
                },
            )
        } else {
            None
        },
        None => None,
    }
}

/// The pindex, p1, p2 and p3 of triangle `k` of object `o` fit the property
/// group that the triangle's pid, or else the object's, names.
pub open spec fn triangle_material_finding(m: Model, o: Object, k: int, t: Triangle) -> error::Finding {
    let pid = if t.pid is Some {
        t.pid
    } else {
        o.pid
    };
    match pid {
        Some(p) => match property_lookup(m, p, true) {
            Some((kind, n)) => error::either(
                attr_finding(o.id, k, PropAttr::Pindex, t.pindex, kind, p, n),
                error::either(
                    attr_finding(o.id, k, PropAttr::P1, t.p1, kind, p, n),
                    error::either(
                        attr_finding(o.id, k, PropAttr::P2, t.p2, kind, p, n),
                        attr_finding(o.id, k, PropAttr::P3, t.p3, kind, p, n),
                    ),
                ),
            ),
            None => None,
        },
        None => None,
    }
}

pub open spec fn triangle_material_check(m: Model, o: Object, mesh: Mesh) -> spec_fn(int) -> error::Finding {
    |k: int| triangle_material_finding(m, o, k, mesh.triangles@[k])
}

pub open spec fn object_material_finding(m: Model, o: Object) -> error::Finding {
    error::either(
        object_pid_finding(m, o),
        error::either(
            object_base_material_finding(m, o),
            error::either(
                object_pindex_finding(m, o),
                match o.mesh {
                    Some(mesh) => error::first(
                        mesh.triangles@.len() as int,
                        triangle_material_check(m, o, mesh),
                    ),
                    None => None,
                },
            ),
        ),
    )
}

pub open spec fn object_material_check(m: Model) -> spec_fn(int) -> error::Finding {
    |i: int| object_material_finding(m, m.resources.objects@[i])
}

/// Property group ids are unique across group kinds; multiproperties,
/// objects and triangles use indices that fit the groups they name.
pub open spec fn material_references_finding(m: Model) -> error::Finding {
    error::either(
        group_ids_finding(m),
        error::either(
            multi_layers_finding(m),
            error::first(m.resources.objects@.len() as int, object_material_check(m)),
        ),
    )
}

fn check_attr(
    oid: usize,
    k: usize,
    attr: PropAttr,
    value: Option<usize>,
    kind: PropertyKind,
    group: usize,
    n: usize,
) -> (r: Result<(), Error>)
    ensures
        error::reports(r, attr_finding(oid, k as int, attr, value, kind, group, n)),
{
    match value {
        Some(v) => {
            if v >= n {
                return error::fail(
                    Kind::TrianglePropertyOutOfBounds {
                        object: oid,
                        triangle: k,
                        attr,
                        value: v,
                        group_kind: kind,
                        group,
                        count: n,
                    },
                );
            }
            Ok(())
        },
        None => Ok(()),
    }
}

fn check_triangle_material(m: &Model, ix: &PropertyIds, o: &Object, k: usize, t: &Triangle) -> (r:
    Result<(), Error>)
    requires
        ix.of(*m),
    ensures
        error::reports(r, triangle_material_finding(*m, *o, k as int, *t)),
{
    let pid = if t.pid.is_some() {
        t.pid
    } else {
        o.pid
    };
    match pid {
        Some(p) => match lookup_property(m, ix, p, true) {
            Some((kind, n)) => {
                let r = check_attr(o.id, k, PropAttr::Pindex, t.pindex, kind, p, n);
                if r.is_err() {
                    return r;
                }
                let r = check_attr(o.id, k, PropAttr::P1, t.p1, kind, p, n);
                if r.is_err() {
                    return r;
                }
                let r = check_attr(o.id, k, PropAttr::P2, t.p2, kind, p, n);
                if r.is_err() {
                    return r;
                }
                check_attr(o.id, k, PropAttr::P3, t.p3, kind, p, n)
            },
            None => Ok(()),
        },
        None => Ok(()),
    }
}

fn check_object_materials(m: &Model, ix: &PropertyIds, entry_ids: &Vec<usize>, o: &Object) -> (r:
    Result<(), Error>)
    requires
        ix.of(*m),
        entry_ids@ == group_entry_ids(*m),
    ensures
        error::reports(r, object_material_finding(*m, *o)),
{
    if let Some(p) = o.pid {
        proof {
            lemma_find_id(entry_ids@, p);
        }
        if entry_ids.len() > 0 && find_in(entry_ids, p).is_none() {
            let available = ids::sorted_ids_from_vec(entry_ids);
            return error::fail_ids(Kind::ObjectUnknownPropertyGroup { object: o.id, pid: p }, available);
        }
    }
    if let Some(b) = o.basematerialid {
        proof {
            lemma_find_id(ix.bases@, b);
        }
        if find_in(&ix.bases, b).is_none() {
            let available = ids::sorted_ids_from_vec(&ix.bases);
            return error::fail_ids(
                Kind::ObjectUnknownBaseMaterialGroup { object: o.id, id: b },
                available,
            );
        }
    }
    if let Some(p) = o.pid {
        if let Some(x) = o.pindex {
            match lookup_property(m, ix, p, true) {
                Some((kind, n)) => {
                    if x >= n {
                        return error::fail(
                            Kind::ObjectPindexOutOfBounds {
                                object: o.id,
                                pindex: x,
                                group_kind: kind,
                                group: p,
                                count: n,
                            },
                        );
                    }
                },
                None => {},
            }
        }
    }
    match &o.mesh {
        None => Ok(()),
        Some(mesh) => {
            let tris = &mesh.triangles;
            let ghost n = tris@.len() as int;
            let mut k: usize = 0;
            while k < tris.len()
                invariant
                    k <= tris@.len(),
                    n == tris@.len(),
                    tris@ == mesh.triangles@,
                    ix.of(*m),
                    o.mesh == Some(*mesh),
                    object_pid_finding(*m, *o) is None,
                    object_base_material_finding(*m, *o) is None,
                    object_pindex_finding(*m, *o) is None,
                    error::first(n, triangle_material_check(*m, *o, *mesh)) == error::first_from(
                        n,
                        triangle_material_check(*m, *o, *mesh),
                        k as int,
                    ),
                decreases tris@.len() - k,
            {
                let r = check_triangle_material(m, ix, o, k, &tris[k]);
                if r.is_err() {
                    return r;
                }
                k += 1;
            }
            Ok(())
        },
    }
}

/// Checks property group ids and the property indices of multiproperties,
/// objects and triangles.
pub fn validate_material_references(model: &Model) -> (r: Result<(), Error>)
    ensures
        error::reports(r, material_references_finding(*model)),
{
    let ix = property_ids(model);
    let (entries, entry_ids) = entries_of(&ix, model);
    let r = check_group_ids(&entries, &entry_ids, model);
    if r.is_err() {
        return r;
    }
    let r = check_multi_layers(model, &ix);
    if r.is_err() {
        return r;
    }
    let objs = &model.resources.objects;
    let ghost n = objs@.len() as int;
    let mut i: usize = 0;
    while i < objs.len()
        invariant
            i <= objs@.len(),
            n == objs@.len(),
            objs@ == model.resources.objects@,
            ix.of(*model),
            entry_ids@ == group_entry_ids(*model),
            group_ids_finding(*model) is None,
            multi_layers_finding(*model) is None,
            error::first(n, object_material_check(*model)) == error::first_from(
                n,
                object_material_check(*model),
                i as int,
            ),
        decreases objs@.len() - i,
    {
        let r = check_object_materials(model, &ix, &entry_ids, &objs[i]);
        if r.is_err() {
            return r;
        }
        i += 1;
    }
    Ok(())
}


// ---------------------------------------------------------------------------
// Texture paths and color groups
// ---------------------------------------------------------------------------

/// Every character of `s` is ASCII.
pub open spec fn all_ascii(s: Seq<char>) -> bool {
    forall|i: int| 0 <= i < s.len() ==> (s[i] as u32) < 128
}

/// Whether `s` is made of ASCII characters only.
pub fn is_all_ascii(s: &Vec<char>) -> (r: bool)
    ensures
        r == all_ascii(s@),
{
    let mut i: usize = 0;
    while i < s.len()
        invariant
            i <= s@.len(),
            forall|j: int| 0 <= j < i ==> (s@[j] as u32) < 128,
        decreases s@.len() - i,
    {
        if (s[i] as u32) >= 128 {
            return false;
        }
        i += 1;
    }
    true
}

/// A texture's path is a non-empty ASCII part name without NUL or backslash,
/// and its content type is PNG or JPEG; encrypted parts are exempt.
pub open spec fn texture_finding(m: Model, t: crate::model::Texture2D) -> error::Finding {
    let p = t.path@;
    if crate::validator::structure::is_encrypted_path(m, p) {
        None
    } else if p.len() == 0 {
        error::found(Kind::TexturePathEmpty { texture: t.id })
    } else if crate::text::has_char(p, '\0') {
        error::found_text(Kind::TexturePathNul { texture: t.id }, p)
    } else if crate::text::has_char(p, '\\') {
        error::found_text(Kind::TexturePathBackslash { texture: t.id }, p)
    } else if !all_ascii(p) {
        error::found_text(Kind::TexturePathNonAscii { texture: t.id }, p)
    } else if t.contenttype@ != "image/png"@ && t.contenttype@ != "image/jpeg"@ {
        error::found_text(Kind::TextureContentType { texture: t.id }, t.contenttype@)
    } else {
        None
    }
}

pub open spec fn texture_check(m: Model) -> spec_fn(int) -> error::Finding {
    |i: int| texture_finding(m, m.resources.texture2d_resources@[i])
}

pub open spec fn texture_paths_finding(m: Model) -> error::Finding {
    error::first(m.resources.texture2d_resources@.len() as int, texture_check(m))
}

fn check_texture(m: &Model, t: &crate::model::Texture2D) -> (r: Result<(), Error>)
    ensures
        error::reports(r, texture_finding(*m, *t)),
{
    if crate::validator::structure::is_encrypted(m, &t.path) {
        return Ok(());
    }
    let chars = crate::text::chars_of(t.path.as_str());
    if chars.len() == 0 {
        return error::fail(Kind::TexturePathEmpty { texture: t.id });
    }
    if crate::text::contains_char(&chars, '\0') {
        return error::fail_text(Kind::TexturePathNul { texture: t.id }, t.path.clone());
    }
    if crate::text::contains_char(&chars, '\\') {
        return error::fail_text(Kind::TexturePathBackslash { texture: t.id }, t.path.clone());
    }
    if !is_all_ascii(&chars) {
        return error::fail_text(Kind::TexturePathNonAscii { texture: t.id }, t.path.clone());
    }
    let png = crate::text::same_text(t.contenttype.as_str(), "image/png");
    let jpeg = crate::text::same_text(t.contenttype.as_str(), "image/jpeg");
    if !png && !jpeg {
        return error::fail_text(Kind::TextureContentType { texture: t.id }, t.contenttype.clone());
    }
    Ok(())
}

/// Checks the paths and content types of the textures.
pub fn validate_texture_paths(model: &Model) -> (r: Result<(), Error>)
    ensures
        error::reports(r, texture_paths_finding(*model)),
{
    let ts = &model.resources.texture2d_resources;
    let ghost n = ts@.len() as int;
    let mut i: usize = 0;
    while i < ts.len()
        invariant
            i <= ts@.len(),
            n == ts@.len(),
            ts@ == model.resources.texture2d_resources@,
            error::first(n, texture_check(*model)) == error::first_from(
                n,
                texture_check(*model),
                i as int,
            ),
        decreases ts@.len() - i,
    {
        let r = check_texture(model, &ts[i]);
        if r.is_err() {
            return r;
        }
        i += 1;
    }
    Ok(())
}

pub open spec fn color_group_check(m: Model) -> spec_fn(int) -> error::Finding {
    |i: int|
        if m.resources.color_groups@[i].colors@.len() == 0 {
            error::found(Kind::EmptyColorGroup { group: m.resources.color_groups@[i].id })
        } else {
            None
        }
}

/// Every color group holds a color.
pub open spec fn color_formats_finding(m: Model) -> error::Finding {
    error::first(m.resources.color_groups@.len() as int, color_group_check(m))
}

/// Checks that no color group is empty.
pub fn validate_color_formats(model: &Model) -> (r: Result<(), Error>)
    ensures
        error::reports(r, color_formats_finding(*model)),
{
    let gs = &model.resources.color_groups;
    let ghost n = gs@.len() as int;
    let mut i: usize = 0;
    while i < gs.len()
        invariant
            i <= gs@.len(),
            n == gs@.len(),
            gs@ == model.resources.color_groups@,
            error::first(n, color_group_check(*model)) == error::first_from(
                n,
                color_group_check(*model),
                i as int,
            ),
        decreases gs@.len() - i,
    {
        if gs[i].colors.len() == 0 {
            return error::fail(Kind::EmptyColorGroup { group: gs[i].id });
        }
        i += 1;
    }
    Ok(())
}


// ---------------------------------------------------------------------------
// Multiproperties references
// ---------------------------------------------------------------------------

/// `pid` names a base material, color, texture or composite group.
pub open spec fn layer_group_exists(m: Model, pid: usize) -> bool {
    base_ids(m).contains(pid) || color_ids(m).contains(pid) || texture_group_ids(m).contains(pid)
        || composite_ids(m).contains(pid)
}

/// Entry `idx` of the pids of multiproperties `mp`: it names a group, and a
/// base material group only as the first layer.
pub open spec fn multi_pid_finding(m: Model, mp: crate::model::MultiProperties, idx: int) -> error::Finding {
    let pid = mp.pids@[idx];
    if !layer_group_exists(m, pid) {
        error::found(Kind::MultiPidInvalid { multi: mp.id, pid, index: idx as usize })
    } else if base_ids(m).contains(pid) && idx != 0 {
        error::found(Kind::MultiBaseMaterialNotFirst { multi: mp.id, group: pid, layer: idx as usize })
    } else {
        None
    }
}

pub open spec fn multi_pid_check(m: Model, mp: crate::model::MultiProperties) -> spec_fn(int) -> error::Finding {
    |idx: int| multi_pid_finding(m, mp, idx)
}

/// The color groups among `pids`, each once, in order of first reference.
pub open spec fn color_refs(m: Model, pids: Seq<usize>) -> Seq<usize>
    decreases pids.len(),
{
    if pids.len() == 0 {
        Seq::empty()
    } else {
        let rest = color_refs(m, pids.drop_last());
        if color_ids(m).contains(pids.last()) && !rest.contains(pids.last()) {
            rest.push(pids.last())
        } else {
            rest
        }
    }
}

/// How many times `x` occurs in `s`.
pub open spec fn occurrences(s: Seq<usize>, x: usize) -> nat
    decreases s.len(),
{
    if s.len() == 0 {
        0
    } else {
        occurrences(s.drop_last(), x) + if s.last() == x {
            1nat
        } else {
            0nat
        }
    }
}

/// A multiproperties group's pids name groups, a base material group only
/// first, and one color group at most, once.
pub open spec fn multi_reference_finding(m: Model, mp: crate::model::MultiProperties) -> error::Finding {
    let cs = color_refs(m, mp.pids@);
    error::either(
        error::first(mp.pids@.len() as int, multi_pid_check(m, mp)),
        if cs.len() > 1 {
            error::found_ids(Kind::MultiSeveralColorGroups { multi: mp.id }, cs)
        } else if cs.len() == 1 && occurrences(mp.pids@, cs[0]) > 1 {
            error::found(Kind::MultiColorGroupRepeated { multi: mp.id, group: cs[0] })
        } else {
            None
        },
    )
}

pub open spec fn multi_reference_check(m: Model) -> spec_fn(int) -> error::Finding {
    |p: int| multi_reference_finding(m, m.resources.multi_properties@[p])
}

pub open spec fn multiproperties_references_finding(m: Model) -> error::Finding {
    error::first(m.resources.multi_properties@.len() as int, multi_reference_check(m))
}

pub proof fn lemma_occurrences_le(s: Seq<usize>, x: usize)
    ensures
        occurrences(s, x) <= s.len(),
    decreases s.len(),
{
    if s.len() > 0 {
        lemma_occurrences_le(s.drop_last(), x);
    }
}

fn check_multi_references(m: &Model, ix: &PropertyIds, mp: &crate::model::MultiProperties) -> (r:
    Result<(), Error>)
    requires
        ix.of(*m),
    ensures
        error::reports(r, multi_reference_finding(*m, *mp)),
{
    let pids = &mp.pids;
    let ghost n = pids@.len() as int;
    let mut colors: Vec<usize> = Vec::new();
    let mut counts: Vec<usize> = Vec::new();
    let mut idx: usize = 0;
    while idx < pids.len()
        invariant
            idx <= pids@.len(),
            n == pids@.len(),
            pids@ == mp.pids@,
            ix.of(*m),
            colors@ == color_refs(*m, pids@.take(idx as int)),
            counts@.len() == colors@.len(),
            forall|c: int|
                0 <= c < colors@.len() ==> #[trigger] counts@[c] == occurrences(
                    pids@.take(idx as int),
                    colors@[c],
                ),
            forall|a: int, b: int| 0 <= a < b < colors@.len() ==> colors@[a] != colors@[b],
            forall|c: int| 0 <= c < colors@.len() ==> color_ids(*m).contains(#[trigger] colors@[c]),
            forall|x: usize|
                color_ids(*m).contains(x) && !colors@.contains(x) ==> #[trigger] occurrences(
                    pids@.take(idx as int),
                    x,
                ) == 0,
            error::first(n, multi_pid_check(*m, *mp)) == error::first_from(
                n,
                multi_pid_check(*m, *mp),
                idx as int,
            ),
        decreases pids@.len() - idx,
    {
        let pid = pids[idx];
        proof {
            lemma_find_id(ix.bases@, pid);
            lemma_find_id(ix.colors@, pid);
            lemma_find_id(ix.textures@, pid);
            lemma_find_id(ix.composites@, pid);
        }
        let is_base = find_in(&ix.bases, pid).is_some();
        let is_color = find_in(&ix.colors, pid).is_some();
        let is_texture = find_in(&ix.textures, pid).is_some();
        let is_composite = find_in(&ix.composites, pid).is_some();
        if !(is_base || is_color || is_texture || is_composite) {
            return error::fail(Kind::MultiPidInvalid { multi: mp.id, pid, index: idx });
        }
        if is_base && idx != 0 {
            return error::fail(Kind::MultiBaseMaterialNotFirst { multi: mp.id, group: pid, layer: idx });
        }
        let ghost pre = pids@.take(idx as int);
        let ghost post = pids@.take(idx + 1);
        let ghost old_colors = colors@;
        let ghost old_counts = counts@;
        proof {
            assert(post.drop_last() =~= pre);
            assert(post.last() == pid);
            assert forall|x: usize| #[trigger]
                occurrences(post, x) == occurrences(pre, x) + if x == pid {
                    1nat
                } else {
                    0nat
                } by {}
        }
        if is_color {
            proof {
                lemma_find_id(colors@, pid);
            }
            match find_in(&colors, pid) {
                Some(c) => {
                    proof {
                        lemma_occurrences_le(pre, pid);
                    }
                    let next = counts[c] + 1;
                    counts.set(c, next);
                    proof {
                        assert forall|q: int| 0 <= q < colors@.len() implies #[trigger] counts@[q]
                            == occurrences(post, colors@[q]) by {
                            if q != c {
                                assert(colors@[q] != colors@[c as int]);
                            }
                        }
                    }
                },
                None => {
                    colors.push(pid);
                    counts.push(1);
                    proof {
                        assert(occurrences(pre, pid) == 0);
                        assert forall|q: int| 0 <= q < colors@.len() implies #[trigger] counts@[q]
                            == occurrences(post, colors@[q]) by {
                            if q < old_colors.len() {
                                assert(colors@[q] == old_colors[q]);
                                assert(old_colors[q] != pid) by {
                                    if old_colors[q] == pid {
                                        assert(old_colors.contains(pid));
                                    }
                                }
                            }
                        }
                        assert forall|a: int, b: int| 0 <= a < b < colors@.len() implies colors@[a]
                            != colors@[b] by {
                            if b == old_colors.len() {
                                if colors@[a] == pid {
                                    assert(old_colors[a] == pid);
                                    assert(old_colors.contains(pid));
                                }
                            }
                        }
                        assert forall|x: usize|
                            color_ids(*m).contains(x) && !colors@.contains(x) implies #[trigger] occurrences(
                            post,
                            x,
                        ) == 0 by {
                            if x == pid {
                                assert(colors@[old_colors.len() as int] == pid);
                            }
                            if old_colors.contains(x) {
                                let q = choose|q: int| 0 <= q < old_colors.len() && old_colors[q] == x;
                                assert(colors@[q] == x);
                            }
                        }
                    }
                },
            }
        } else {
            proof {
                assert forall|q: int| 0 <= q < colors@.len() implies #[trigger] counts@[q]
                    == occurrences(post, colors@[q]) by {
                    assert(color_ids(*m).contains(colors@[q]));
                }
            }
        }
        proof {
            assert(colors@ =~= color_refs(*m, post));
        }
        idx += 1;
    }
    proof {
        assert(pids@.take(n) =~= pids@);
    }
    if colors.len() > 1 {
        return error::fail_ids(Kind::MultiSeveralColorGroups { multi: mp.id }, colors);
    }
    if colors.len() == 1 && counts[0] > 1 {
        return error::fail(Kind::MultiColorGroupRepeated { multi: mp.id, group: colors[0] });
    }
    Ok(())
}

/// Checks what the pids of each multiproperties group reference.
pub fn validate_multiproperties_references(model: &Model) -> (r: Result<(), Error>)
    ensures
        error::reports(r, multiproperties_references_finding(*model)),
{
    let ix = property_ids(model);
    let mps = &model.resources.multi_properties;
    let ghost n = mps@.len() as int;
    let mut p: usize = 0;
    while p < mps.len()
        invariant
            p <= mps@.len(),
            n == mps@.len(),
            mps@ == model.resources.multi_properties@,
            ix.of(*model),
            error::first(n, multi_reference_check(*model)) == error::first_from(
                n,
                multi_reference_check(*model),
                p as int,
            ),
        decreases mps@.len() - p,
    {
        let r = check_multi_references(model, &ix, &mps[p]);
        if r.is_err() {
            return r;
        }
        p += 1;
    }
    Ok(())
}


// ---------------------------------------------------------------------------
// Property resource sizes and triangle properties
// ---------------------------------------------------------------------------

/// The number of entries of the property resource `id`, searched among color
/// groups, texture groups, composite materials, base material groups and
/// multiproperties in that order; with the finding where it is empty or absent.
pub open spec fn property_size(m: Model, id: usize) -> (error::Finding, usize) {
    let r = m.resources;
    match find_id(color_ids(m), id) {
        Some(i) => size_or_empty(PropertyKind::ColorGroup, id, r.color_groups@[i].colors@.len()),
        None => match find_id(texture_group_ids(m), id) {
            Some(i) => size_or_empty(
                PropertyKind::Texture2DGroup,
                id,
                r.texture2d_groups@[i].tex2coords@.len(),
            ),
            None => match find_id(composite_ids(m), id) {
                Some(i) => size_or_empty(
                    PropertyKind::CompositeMaterials,
                    id,
                    r.composite_materials@[i].composites@.len(),
                ),
                None => match find_id(base_ids(m), id) {
                    Some(i) => size_or_empty(
                        PropertyKind::BaseMaterials,
                        id,
                        r.base_material_groups@[i].materials@.len(),
                    ),
                    None => match find_id(multi_ids(m), id) {
                        Some(i) => size_or_empty(
                            PropertyKind::MultiProperties,
                            id,
                            r.multi_properties@[i].multis@.len(),
                        ),
                        None => (error::found(Kind::PropertyResourceNotFound { id }), 0),
                    },
                },
            },
        },
    }
}

pub open spec fn size_or_empty(kind: PropertyKind, id: usize, n: nat) -> (error::Finding, usize) {
    if n == 0 {
        (error::found(Kind::EmptyPropertyResource { kind, id }), 0)
    } else {
        (None, n as usize)
    }
}

/// Whether `r` is the size `s.1` where `s.0` finds nothing, else the error `s.0`.
pub open spec fn reports_size(r: Result<usize, Error>, s: (error::Finding, usize)) -> bool {
    match r {
        Ok(n) => s.0 is None && n == s.1,
        Err(e) => s.0 is Some && error::reports(Err(e), s.0),
    }
}

/// The number of entries of the property resource `resource_id`.
pub fn get_property_resource_size(model: &Model, resource_id: usize) -> (r: Result<usize, Error>)
    ensures
        reports_size(r, property_size(*model, resource_id)),
{
    let ix = property_ids(model);
    let res = &model.resources;
    let id = resource_id;
    if let Some(i) = find_in(&ix.colors, id) {
        let n = res.color_groups[i].colors.len();
        if n == 0 {
            return Err(Error::InvalidModel(error::Violation {
                kind: Kind::EmptyPropertyResource { kind: PropertyKind::ColorGroup, id },
                ids: Vec::new(),
                text: String::new(),
            }));
        }
        return Ok(n);
    }
    if let Some(i) = find_in(&ix.textures, id) {
        let n = res.texture2d_groups[i].tex2coords.len();
        if n == 0 {
            return Err(Error::InvalidModel(error::Violation {
                kind: Kind::EmptyPropertyResource { kind: PropertyKind::Texture2DGroup, id },
                ids: Vec::new(),
                text: String::new(),
            }));
        }
        return Ok(n);
    }
    if let Some(i) = find_in(&ix.composites, id) {
        let n = res.composite_materials[i].composites.len();
        if n == 0 {
            return Err(Error::InvalidModel(error::Violation {
                kind: Kind::EmptyPropertyResource { kind: PropertyKind::CompositeMaterials, id },
                ids: Vec::new(),
                text: String::new(),
            }));
        }
        return Ok(n);
    }
    if let Some(i) = find_in(&ix.bases, id) {
        let n = res.base_material_groups[i].materials.len();
        if n == 0 {
            return Err(Error::InvalidModel(error::Violation {
                kind: Kind::EmptyPropertyResource { kind: PropertyKind::BaseMaterials, id },
                ids: Vec::new(),
                text: String::new(),
            }));
        }
        return Ok(n);
    }
    if let Some(i) = find_in(&ix.multis, id) {
        let n = res.multi_properties[i].multis.len();
        if n == 0 {
            return Err(Error::InvalidModel(error::Violation {
                kind: Kind::EmptyPropertyResource { kind: PropertyKind::MultiProperties, id },
                ids: Vec::new(),
                text: String::new(),
            }));
        }
        return Ok(n);
    }
    Err(Error::InvalidModel(error::Violation {
        kind: Kind::PropertyResourceNotFound { id },
        ids: Vec::new(),
        text: String::new(),
    }))
}

/// Whether triangle `t` carries a material of its own.
pub open spec fn has_material(t: Triangle) -> bool {
    t.pid is Some || t.p1 is Some || t.p2 is Some || t.p3 is Some
}

/// Whether triangle `t` carries per-vertex properties.
pub open spec fn has_per_vertex(t: Triangle) -> bool {
    t.p1 is Some || t.p2 is Some || t.p3 is Some
}

/// Without an object pid, triangles must not mix material and no material,
/// and per-vertex properties need a triangle pid.
pub open spec fn triangle_materials_finding(
    object_id: usize,
    object_pid: Option<usize>,
    mesh: Mesh,
    context: Seq<char>,
) -> error::Finding {
    let tris = mesh.triangles@;
    let with = exists|k: int| 0 <= k < tris.len() && has_material(#[trigger] tris[k]);
    let without = exists|k: int| 0 <= k < tris.len() && !has_material(#[trigger] tris[k]);
    if with && without && object_pid is None {
        error::found_text(Kind::MixedTriangleMaterials { object: object_id }, context)
    } else if object_pid is None && exists|k: int|
        0 <= k < tris.len() && has_per_vertex(#[trigger] tris[k]) && tris[k].pid is None {
        error::found_text(Kind::PerVertexWithoutPid { object: object_id }, context)
    } else {
        None
    }
}

/// Checks how the triangles of one object assign materials.
pub fn validate_object_triangle_materials(
    object_id: usize,
    object_pid: Option<usize>,
    mesh: &Mesh,
    context: &str,
) -> (r: Result<(), Error>)
    ensures
        error::reports(r, triangle_materials_finding(object_id, object_pid, *mesh, context@)),
{
    let tris = &mesh.triangles;
    let mut with = false;
    let mut without = false;
    let mut k: usize = 0;
    while k < tris.len()
        invariant
            k <= tris@.len(),
            tris@ == mesh.triangles@,
            with == exists|q: int| 0 <= q < k && has_material(#[trigger] tris@[q]),
            without == exists|q: int| 0 <= q < k && !has_material(#[trigger] tris@[q]),
        decreases tris@.len() - k,
    {
        let t = &tris[k];
        if t.pid.is_some() || t.p1.is_some() || t.p2.is_some() || t.p3.is_some() {
            with = true;
        } else {
            without = true;
        }
        k += 1;
    }
    if with && without && object_pid.is_none() {
        return error::fail_text(
            Kind::MixedTriangleMaterials { object: object_id },
            context.to_owned(),
        );
    }
    let mut k: usize = 0;
    while k < tris.len()
        invariant
            k <= tris@.len(),
            tris@ == mesh.triangles@,
            forall|q: int|
                0 <= q < k ==> !(has_per_vertex(#[trigger] tris@[q]) && tris@[q].pid is None
                    && object_pid is None),
            !((exists|q: int| 0 <= q < tris@.len() && has_material(#[trigger] tris@[q])) && (exists|
                q: int,
            | 0 <= q < tris@.len() && !has_material(#[trigger] tris@[q])) && object_pid is None),
        decreases tris@.len() - k,
    {
        let t = &tris[k];
        if (t.p1.is_some() || t.p2.is_some() || t.p3.is_some()) && t.pid.is_none()
            && object_pid.is_none() {
            assert(has_per_vertex(tris@[k as int]));
            return error::fail_text(
                Kind::PerVertexWithoutPid { object: object_id },
                context.to_owned(),
            );
        }
        k += 1;
    }
    Ok(())
}

/// The context of object `id` in the triangle-material messages.
pub open spec fn object_context(id: usize) -> Seq<char> {
    "Object "@ + crate::text::decimal(id as nat)
}

/// Triangle `t` of object `o`: a pindex into a multiproperties group that its
/// pid names must fit it.
pub open spec fn triangle_multi_finding(m: Model, o: Object, t: Triangle) -> error::Finding {
    match (t.pid, t.pindex) {
        (Some(p), Some(x)) => match find_id(multi_ids(m), p) {
            Some(j) => if x >= m.resources.multi_properties@[j].multis@.len() {
                error::found(
                    Kind::TriangleMultiPindexOutOfBounds {
                        object: o.id,
                        pindex: x,
                        multi: p,
                        count: m.resources.multi_properties@[j].multis@.len() as usize,
                    },
                )
            } else {
                None
            },
            None => None,
        },
        _ => None,
    }
}

pub open spec fn triangle_multi_check(m: Model, o: Object, mesh: Mesh) -> spec_fn(int) -> error::Finding {
    |k: int| triangle_multi_finding(m, o, mesh.triangles@[k])
}

/// An object's pid and pindex name an entry of a non-empty property resource;
/// its triangles assign materials consistently and fit multiproperties groups.
pub open spec fn triangle_properties_object_finding(m: Model, o: Object) -> error::Finding {
    error::either(
        match (o.pid, o.pindex) {
            (Some(p), Some(x)) => {
                let s = property_size(m, p);
                if s.0 is Some {
                    s.0
                } else if x >= s.1 {
                    error::found(
                        Kind::ObjectPindexBeyondResource { object: o.id, pindex: x, resource: p, size: s.1 },
                    )
                } else {
                    None
                }
            },
            _ => None,
        },
        match o.mesh {
            Some(mesh) => error::either(
                triangle_materials_finding(o.id, o.pid, mesh, object_context(o.id)),
                error::first(mesh.triangles@.len() as int, triangle_multi_check(m, o, mesh)),
            ),
            None => None,
        },
    )
}

pub open spec fn triangle_properties_check(m: Model) -> spec_fn(int) -> error::Finding {
    |i: int| triangle_properties_object_finding(m, m.resources.objects@[i])
}

pub open spec fn triangle_properties_finding(m: Model) -> error::Finding {
    error::first(m.resources.objects@.len() as int, triangle_properties_check(m))
}

fn check_triangle_properties_of(m: &Model, ix: &PropertyIds, o: &Object) -> (r: Result<(), Error>)
    requires
        ix.of(*m),
    ensures
        error::reports(r, triangle_properties_object_finding(*m, *o)),
{
    if let (Some(p), Some(x)) = (o.pid, o.pindex) {
        match get_property_resource_size(m, p) {
            Err(e) => {
                return Err(e);
            },
            Ok(size) => {
                if x >= size {
                    return error::fail(
                        Kind::ObjectPindexBeyondResource { object: o.id, pindex: x, resource: p, size },
                    );
                }
            },
        }
    }
    match &o.mesh {
        None => Ok(()),
        Some(mesh) => {
            let mut context = String::new();
            crate::text::push_text(&mut context, "Object ");
            crate::text::push_decimal(&mut context, o.id);
            proof {
                reveal_strlit("Object ");
            }
            let r = validate_object_triangle_materials(o.id, o.pid, mesh, context.as_str());
            if r.is_err() {
                return r;
            }
            let tris = &mesh.triangles;
            let ghost n = tris@.len() as int;
            let mut k: usize = 0;
            while k < tris.len()
                invariant
                    k <= tris@.len(),
                    n == tris@.len(),
                    tris@ == mesh.triangles@,
                    ix.of(*m),
                    o.mesh == Some(*mesh),
                    triangle_materials_finding(o.id, o.pid, *mesh, object_context(o.id)) is None,
                    (o.pid, o.pindex) matches (Some(p), Some(x)) ==> property_size(*m, p).0 is None
                        && x < property_size(*m, p).1,
                    error::first(n, triangle_multi_check(*m, *o, *mesh)) == error::first_from(
                        n,
                        triangle_multi_check(*m, *o, *mesh),
                        k as int,
                    ),
                decreases tris@.len() - k,
            {
                let t = &tris[k];
                if let (Some(p), Some(x)) = (t.pid, t.pindex) {
                    match find_in(&ix.multis, p) {
                        Some(j) => {
                            let count = m.resources.multi_properties[j].multis.len();
                            if x >= count {
                                return error::fail(
                                    Kind::TriangleMultiPindexOutOfBounds {
                                        object: o.id,
                                        pindex: x,
                                        multi: p,
                                        count,
                                    },
                                );
                            }
                        },
                        None => {},
                    }
                }
                k += 1;
            }
            Ok(())
        },
    }
}

/// Checks object pindex bounds and the material assignment of triangles.
pub fn validate_triangle_properties(model: &Model) -> (r: Result<(), Error>)
    ensures
        error::reports(r, triangle_properties_finding(*model)),
{
    let ix = property_ids(model);
    let objs = &model.resources.objects;
    let ghost n = objs@.len() as int;
    let mut i: usize = 0;
    while i < objs.len()
        invariant
            i <= objs@.len(),
            n == objs@.len(),
            objs@ == model.resources.objects@,
            ix.of(*model),
            error::first(n, triangle_properties_check(*model)) == error::first_from(
                n,
                triangle_properties_check(*model),
                i as int,
            ),
        decreases objs@.len() - i,
    {
        let r = check_triangle_properties_of(model, &ix, &objs[i]);
        if r.is_err() {
            return r;
        }
        i += 1;
    }
    Ok(())
}

} // verus!
