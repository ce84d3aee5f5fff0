//! What passing validation means, stated over the model itself.
use crate::error;
use crate::model::{Extension, Mesh, Model};
use crate::validator::displacement::{self, dcount, dedge, DisplacementGeometry};
use crate::validator::materials;
use crate::validator::measures::{self, Measures};
use crate::validator::production;
use crate::validator::resources;
use crate::validator::volumetric;
use crate::validator::structure::{self, edge_count, edge_of, object_ids, objects};
use crate::validator::{
    beams, boolean, consistency_stage_finding, model_finding, slices, structure_stage_finding,
};
use vstd::prelude::*;

verus! {

/// A model passes validation exactly when it passes each check that
/// validation runs.
pub proof fn lemma_valid_model_passes_each_check(m: Model, supported: Seq<Extension>, meas: Measures)
    ensures
        model_finding(m, supported, meas) is None <==> {
            &&& structure::required_structure_finding(m) is None
            &&& structure::object_ids_finding(m) is None
            &&& structure::mesh_geometry_finding(m) is None
            &&& structure::build_references_finding(m) is None
            &&& materials::material_references_finding(m) is None
            &&& structure::required_extensions_finding(m) is None
            &&& boolean::boolean_operations_finding(m) is None
            &&& structure::component_references_finding(m) is None
            &&& production::production_support_finding(m, supported) is None
            &&& displacement::displacement_finding(m, meas.displacement) is None
            &&& slices::slices_finding(m) is None
            &&& slices::slice_extension_finding(m) is None
            &&& beams::beam_lattice_finding(m) is None
            &&& materials::texture_paths_finding(m) is None
            &&& materials::color_formats_finding(m) is None
            &&& production::uuid_formats_finding(m) is None
            &&& production::paths_finding(production::PathRule::Opc, m) is None
            &&& measures::transforms_finding(m, meas) is None
            &&& resources::resource_ordering_finding(m) is None
            &&& resources::duplicate_resource_ids_finding(m) is None
            &&& materials::multiproperties_references_finding(m) is None
            &&& materials::triangle_properties_finding(m) is None
            &&& production::uuids_required_finding(m) is None
            &&& measures::mesh_volumes_finding(m, meas) is None
            &&& structure::component_properties_finding(m) is None
            &&& production::duplicate_uuids_finding(m) is None
        },
{
}

/// Object ids pass their check exactly when every object id is positive and
/// no two objects share an id.
pub proof fn lemma_object_ids_positive_and_unique(m: Model)
    ensures
        structure::object_ids_finding(m) is None <==> {
            &&& forall|i: int| 0 <= i < objects(m).len() ==> (#[trigger] objects(m)[i]).id != 0
            &&& forall|i: int, j: int|
                0 <= i < j < objects(m).len() ==> #[trigger] objects(m)[i].id != #[trigger] objects(
                    m,
                )[j].id
        },
{
    let n = objects(m).len() as int;
    let f = structure::object_id_check(m);
    error::lemma_first_none(n, f);
    if structure::object_ids_finding(m) is None {
        assert forall|i: int| 0 <= i < n implies (#[trigger] objects(m)[i]).id != 0 by {
            assert(f(i) is None);
        }
        assert forall|i: int, j: int| 0 <= i < j < n implies #[trigger] objects(m)[i].id
            != #[trigger] objects(m)[j].id by {
            assert(f(j) is None);
        }
    }
}

/// Build references pass their check exactly when every build item without
/// an external path names an object of the model.
pub proof fn lemma_build_items_reference_objects(m: Model)
    ensures
        structure::build_references_finding(m) is None <==> forall|i: int|
            0 <= i < m.build.items@.len() ==> (#[trigger] m.build.items@[i]).production_path is Some
                || object_ids(m).contains(m.build.items@[i].objectid),
{
    let n = m.build.items@.len() as int;
    let f = structure::build_reference_check(m);
    error::lemma_first_none(n, f);
    if structure::build_references_finding(m) is None {
        assert forall|i: int| 0 <= i < n implies (#[trigger] m.build.items@[i]).production_path is Some
            || object_ids(m).contains(m.build.items@[i].objectid) by {
            assert(f(i) is None);
        }
    } else {
        let k = choose|k: int| 0 <= k < n && !(#[trigger] f(k) is None);
        assert(!(m.build.items@[k].production_path is Some || object_ids(m).contains(
            m.build.items@[k].objectid,
        )));
    }
}

/// The triangles of a mesh pass their check exactly when each has three
/// distinct vertex indices below the number of vertices.
pub proof fn lemma_triangles_in_range_and_distinct(oid: usize, mesh: Mesh)
    requires
        mesh.vertices@.len() <= usize::MAX,
    ensures
        error::first(mesh.triangles@.len() as int, structure::triangle_check(oid, mesh)) is None
            <==> forall|k: int|
            0 <= k < mesh.triangles@.len() ==> {
                let t = #[trigger] mesh.triangles@[k];
                &&& t.v1 < mesh.vertices@.len()
                &&& t.v2 < mesh.vertices@.len()
                &&& t.v3 < mesh.vertices@.len()
                &&& t.v1 != t.v2 && t.v2 != t.v3 && t.v1 != t.v3
            },
{
    let n = mesh.triangles@.len() as int;
    let f = structure::triangle_check(oid, mesh);
    error::lemma_first_none(n, f);
    if error::first(n, f) is None {
        assert forall|k: int| 0 <= k < n implies {
            let t = #[trigger] mesh.triangles@[k];
            &&& t.v1 < mesh.vertices@.len()
            &&& t.v2 < mesh.vertices@.len()
            &&& t.v3 < mesh.vertices@.len()
            &&& t.v1 != t.v2 && t.v2 != t.v3 && t.v1 != t.v3
        } by {
            assert(f(k) is None);
        }
    } else {
        let k = choose|k: int| 0 <= k < n && !(#[trigger] f(k) is None);
        assert(f(k) is Some);
    }
}

/// A mesh passes the manifold check exactly when no edge of it is shared by
/// more than two triangles.
pub proof fn lemma_manifold_edges_shared_at_most_twice(oid: usize, mesh: Mesh)
    ensures
        structure::manifold_finding(oid, mesh) is None <==> forall|k: int, e: int|
            0 <= k < mesh.triangles@.len() && 0 <= e < 3 ==> edge_count(
                mesh.triangles@,
                #[trigger] edge_of(mesh.triangles@[k], e),
            ) <= 2,
{
    let tris = mesh.triangles@;
    let n = tris.len() as int;
    let f = structure::manifold_check(oid, mesh);
    error::lemma_first_none(n, f);
    if structure::manifold_finding(oid, mesh) is None {
        assert forall|k: int, e: int| 0 <= k < n && 0 <= e < 3 implies edge_count(
            tris,
            #[trigger] edge_of(tris[k], e),
        ) <= 2 by {
            assert(f(k) is None);
            assert(structure::edge_finding(oid, tris, k, e) is None);
        }
    } else {
        let k = choose|k: int| 0 <= k < n && !(#[trigger] f(k) is None);
        if structure::edge_finding(oid, tris, k, 0) is Some {
            assert(edge_count(tris, edge_of(tris[k], 0)) > 2);
        } else if structure::edge_finding(oid, tris, k, 1) is Some {
            assert(edge_count(tris, edge_of(tris[k], 1)) > 2);
        } else {
            assert(edge_count(tris, edge_of(tris[k], 2)) > 2);
        }
    }
}

/// Production UUIDs pass the duplicate check exactly when no two of them are equal.
pub proof fn lemma_uuids_unique(m: Model)
    ensures
        production::duplicate_uuids_finding(m) is None <==> forall|j: int, k: int|
            0 <= j < k < production::uuid_sites(m).len() ==> (#[trigger] production::uuid_sites(m)[j]).1
                != (#[trigger] production::uuid_sites(m)[k]).1,
{
    let s = production::uuid_sites(m);
    let f = production::duplicate_uuid_check(m);
    error::lemma_first_none(s.len() as int, f);
    if production::duplicate_uuids_finding(m) is None {
        assert forall|j: int, k: int| 0 <= j < k < s.len() implies (#[trigger] s[j]).1 != (
        #[trigger] s[k]).1 by {
            assert(f(k) is None);
        }
    } else {
        let k = choose|k: int| 0 <= k < s.len() && !(#[trigger] f(k) is None);
        let j = choose|j: int| 0 <= j < k && #[trigger] s[j].1 == s[k].1;
        assert(s[j].1 == s[k].1);
    }
}

/// Resource ids pass the duplicate check exactly when objects have distinct
/// ids and property resources have distinct ids.
pub proof fn lemma_resource_ids_unique(m: Model)
    ensures
        resources::duplicate_resource_ids_finding(m) is None <==> {
            &&& forall|i: int, j: int|
                0 <= i < j < objects(m).len() ==> #[trigger] objects(m)[i].id != #[trigger] objects(
                    m,
                )[j].id
            &&& forall|i: int, j: int|
                0 <= i < j < resources::property_resource_ids(m).len() ==> (
                #[trigger] resources::property_resource_ids(m)[i]).0 != (
                #[trigger] resources::property_resource_ids(m)[j]).0
        },
{
    let objs = objects(m);
    let props = resources::property_resource_ids(m);
    let f = resources::object_resource_id_check(m);
    let g = resources::property_resource_id_check(m);
    error::lemma_first_none(objs.len() as int, f);
    error::lemma_first_none(props.len() as int, g);
    if error::first(objs.len() as int, f) is None {
        assert forall|i: int, j: int| 0 <= i < j < objs.len() implies #[trigger] objs[i].id
            != #[trigger] objs[j].id by {
            assert(f(j) is None);
        }
    } else {
        let k = choose|k: int| 0 <= k < objs.len() && !(#[trigger] f(k) is None);
        let j = choose|j: int| 0 <= j < k && #[trigger] objs[j].id == objs[k].id;
        assert(objs[j].id == objs[k].id);
    }
    if error::first(props.len() as int, g) is None {
        assert forall|i: int, j: int| 0 <= i < j < props.len() implies (#[trigger] props[i]).0 != (
        #[trigger] props[j]).0 by {
            assert(g(j) is None);
        }
    } else {
        let k = choose|k: int| 0 <= k < props.len() && !(#[trigger] g(k) is None);
        let j = choose|j: int| 0 <= j < k && #[trigger] props[j].0 == props[k].0;
        assert(props[j].0 == props[k].0);
    }
}

/// Among the edges up to edge `e` of triangle `k` that join `a` and `b`, the
/// earliest: no edge before it joins them.
proof fn lemma_first_occurrence(
    tris: Seq<crate::model::DisplacementTriangle>,
    k: int,
    e: int,
    a: usize,
    b: usize,
) -> (r: (int, int))
    requires
        0 <= k < tris.len(),
        0 <= e < 3,
        displacement::endpoints_match(dedge(tris[k], e), a, b),
    ensures
        0 <= r.0 < tris.len(),
        0 <= r.1 < 3,
        displacement::endpoints_match(dedge(tris[r.0], r.1), a, b),
        !displacement::occurs_before(tris, r.0, r.1, a, b),
    decreases k, e,
{
    if displacement::occurs_before(tris, k, e, a, b) {
        let (k2, e2) = choose|k2: int, e2: int|
            0 <= k2 < tris.len() && 0 <= e2 < 3 && (k2 < k || (k2 == k && e2 < e))
                && #[trigger] displacement::endpoints_match(dedge(tris[k2], e2), a, b);
        lemma_first_occurrence(tris, k2, e2, a, b)
    } else {
        (k, e)
    }
}

proof fn lemma_occurs_before_symmetric(
    tris: Seq<crate::model::DisplacementTriangle>,
    k: int,
    e: int,
    a: usize,
    b: usize,
)
    ensures
        displacement::occurs_before(tris, k, e, a, b) <==> displacement::occurs_before(
            tris,
            k,
            e,
            b,
            a,
        ),
{
    if displacement::occurs_before(tris, k, e, a, b) {
        let (k2, e2) = choose|k2: int, e2: int|
            0 <= k2 < tris.len() && 0 <= e2 < 3 && (k2 < k || (k2 == k && e2 < e))
                && #[trigger] displacement::endpoints_match(dedge(tris[k2], e2), a, b);
        assert(displacement::endpoints_match(dedge(tris[k2], e2), b, a));
    }
    if displacement::occurs_before(tris, k, e, b, a) {
        let (k2, e2) = choose|k2: int, e2: int|
            0 <= k2 < tris.len() && 0 <= e2 < 3 && (k2 < k || (k2 == k && e2 < e))
                && #[trigger] displacement::endpoints_match(dedge(tris[k2], e2), b, a);
        assert(displacement::endpoints_match(dedge(tris[k2], e2), a, b));
    }
}

/// A displacement mesh passes the orientation check exactly when each of its
/// edges is traversed once in its direction and once in the other: the mesh
/// is closed and its triangles are consistently wound.
pub proof fn lemma_displacement_edges_once_each_way(
    oid: usize,
    tris: Seq<crate::model::DisplacementTriangle>,
)
    ensures
        displacement::orientation_finding(oid, tris) is None <==> forall|k: int, e: int|
            0 <= k < tris.len() && 0 <= e < 3 ==> {
                let d = #[trigger] dedge(tris[k], e);
                dcount(tris, d) == 1 && dcount(tris, (d.1, d.0)) == 1
            },
{
    let n = tris.len() as int;
    let f = displacement::orientation_check(oid, tris);
    error::lemma_first_none(n, f);
    if displacement::orientation_finding(oid, tris) is None {
        assert forall|k: int, e: int| 0 <= k < n && 0 <= e < 3 implies {
            let d = #[trigger] dedge(tris[k], e);
            dcount(tris, d) == 1 && dcount(tris, (d.1, d.0)) == 1
        } by {
            let d = dedge(tris[k], e);
            assert(displacement::endpoints_match(d, d.0, d.1));
            let (k0, e0) = lemma_first_occurrence(tris, k, e, d.0, d.1);
            let d0 = dedge(tris[k0], e0);
            assert(f(k0) is None);
            assert(displacement::directed_edge_finding(oid, tris, k0, e0) is None);
            lemma_occurs_before_symmetric(tris, k0, e0, d.0, d.1);
            assert(!displacement::occurs_before(tris, k0, e0, d0.0, d0.1));
            assert(displacement::edge_class_finding(oid, tris, d0) is None);
        }
    } else {
        let k = choose|k: int| 0 <= k < n && !(#[trigger] f(k) is None);
        if displacement::directed_edge_finding(oid, tris, k, 0) is Some {
            assert(dedge(tris[k], 0) == dedge(tris[k], 0));
        } else if displacement::directed_edge_finding(oid, tris, k, 1) is Some {
            assert(dedge(tris[k], 1) == dedge(tris[k], 1));
        } else {
            assert(dedge(tris[k], 2) == dedge(tris[k], 2));
        }
    }
}

/// Object `a` has a component, in the model itself, that places object `b`;
/// `a` is the first object with that id.
pub open spec fn component_link(objs: Seq<crate::model::Object>, a: usize, b: usize) -> bool {
    match structure::find_object(objs, a) {
        Some(oi) => exists|k: int|
            0 <= k < objs[oi].components@.len() && !structure::has_external_path(
                #[trigger] objs[oi].components@[k],
            ) && objs[oi].components@[k].objectid == b,
        None => false,
    }
}

/// Each id of `path` has a component link to the next.
pub open spec fn linked_path(objs: Seq<crate::model::Object>, path: Seq<usize>) -> bool {
    forall|j: int| 0 <= j < path.len() - 1 ==> component_link(objs, #[trigger] path[j], path[j + 1])
}

/// A cycle of component links: at least two ids, the last the same as the first.
pub open spec fn is_component_cycle(objs: Seq<crate::model::Object>, c: Seq<usize>) -> bool {
    c.len() >= 2 && c[0] == c[c.len() - 1] && linked_path(objs, c)
}

proof fn lemma_position_from(s: Seq<usize>, x: usize, j: int)
    requires
        0 <= j,
        exists|q: int| j <= q < s.len() && s[q] == x,
    ensures
        j <= structure::position_from(s, x, j) < s.len(),
        s[structure::position_from(s, x, j)] == x,
    decreases s.len() - j,
{
    if j < s.len() && s[j] != x {
        lemma_position_from(s, x, j + 1);
    }
}

proof fn lemma_dfs_reports_cycles(
    objs: Seq<crate::model::Object>,
    id: usize,
    path: Seq<usize>,
    visited: Set<usize>,
)
    requires
        linked_path(objs, path),
        path.len() > 0 ==> component_link(objs, path[path.len() - 1], id),
    ensures
        structure::dfs(objs, id, path, visited).0 matches Some(c) ==> is_component_cycle(objs, c),
    decreases structure::unvisited(objs, path), 0int, 0int,
{
    if path.contains(id) {
        let q = choose|q: int| 0 <= q < path.len() && path[q] == id;
        lemma_position_from(path, id, 0);
        let pos = structure::position_from(path, id, 0);
        let c = path.subrange(pos, path.len() as int).push(id);
        assert forall|j: int| 0 <= j < c.len() - 1 implies component_link(
            objs,
            #[trigger] c[j],
            c[j + 1],
        ) by {
            if j < c.len() - 2 {
                assert(c[j] == path[pos + j]);
                assert(c[j + 1] == path[pos + j + 1]);
            } else {
                assert(c[j] == path[path.len() - 1]);
                assert(c[j + 1] == id);
            }
        }
        assert(c[0] == path[pos]);
    } else if !visited.contains(id) {
        match structure::find_object(objs, id) {
            None => {},
            Some(oi) => {
                structure::lemma_find_object_from(objs, id, 0);
                structure::lemma_unvisited_push(objs, path, id, oi);
                let p1 = path.push(id);
                assert forall|j: int| 0 <= j < p1.len() - 1 implies component_link(
                    objs,
                    #[trigger] p1[j],
                    p1[j + 1],
                ) by {
                    if j < path.len() - 1 {
                        assert(p1[j] == path[j] && p1[j + 1] == path[j + 1]);
                    } else {
                        assert(p1[j] == path[path.len() - 1] && p1[j + 1] == id);
                    }
                }
                lemma_dfs_components_report_cycles(objs, oi, 0, p1, visited.insert(id));
            },
        }
    }
}

proof fn lemma_dfs_components_report_cycles(
    objs: Seq<crate::model::Object>,
    oi: int,
    k: int,
    path: Seq<usize>,
    visited: Set<usize>,
)
    requires
        0 <= oi < objs.len(),
        path.len() > 0,
        structure::find_object(objs, path[path.len() - 1]) == Some(oi),
        linked_path(objs, path),
    ensures
        structure::dfs_components(objs, oi, k, path, visited).0 matches Some(c) ==> is_component_cycle(
            objs,
            c,
        ),
    decreases structure::unvisited(objs, path), 1int, objs[oi].components@.len() - k,
{
    let comps = objs[oi].components@;
    if 0 <= k < comps.len() {
        if !structure::has_external_path(comps[k]) {
            assert(component_link(objs, path[path.len() - 1], comps[k].objectid));
            lemma_dfs_reports_cycles(objs, comps[k].objectid, path, visited);
        }
        lemma_dfs_components_report_cycles(objs, oi, k + 1, path, visited);
    }
}

/// A circular reference that component validation reports is a real cycle:
/// each listed object places the next through a component of the model, and
/// the list ends where it starts.
pub proof fn lemma_reported_cycle_is_real(m: Model, i: int)
    requires
        0 <= i < objects(m).len(),
        structure::cycle_finding(m, i) is Some,
    ensures
        is_component_cycle(objects(m), (structure::cycle_finding(m, i)->0).1),
{
    lemma_dfs_reports_cycles(objects(m), objects(m)[i].id, Seq::empty(), Set::empty());
}

/// Where `visited` holds exactly the ids on `path` and a chain of component
/// links leads from `id` back to an id on `path`, the search from `id` finds
/// a cycle.
proof fn lemma_dfs_finds_cycles(
    objs: Seq<crate::model::Object>,
    id: usize,
    path: Seq<usize>,
    visited: Set<usize>,
    w: Seq<usize>,
)
    requires
        forall|x: usize| #[trigger] visited.contains(x) <==> path.contains(x),
        w.len() >= 1,
        w[0] == id,
        linked_path(objs, w),
        path.contains(w[w.len() - 1]),
    ensures
        structure::dfs(objs, id, path, visited).0 is Some,
    decreases structure::unvisited(objs, path), 0int, 0int,
{
    if !path.contains(id) {
        assert(w.len() >= 2);
        assert(component_link(objs, w[0], w[1]));
        let oi = structure::find_object(objs, id)->0;
        structure::lemma_find_object_from(objs, id, 0);
        structure::lemma_unvisited_push(objs, path, id, oi);
        let k0 = choose|k: int|
            0 <= k < objs[oi].components@.len() && !structure::has_external_path(
                #[trigger] objs[oi].components@[k],
            ) && objs[oi].components@[k].objectid == w[1];
        let p1 = path.push(id);
        let v1 = visited.insert(id);
        assert forall|x: usize| #[trigger] v1.contains(x) <==> p1.contains(x) by {
            if path.contains(x) {
                let q = choose|q: int| 0 <= q < path.len() && path[q] == x;
                assert(p1[q] == x);
            }
            if p1.contains(x) && x != id {
                let q = choose|q: int| 0 <= q < p1.len() && p1[q] == x;
                assert(path[q] == x);
            }
            if x == id {
                assert(p1[path.len() as int] == x);
            }
        }
        let w1 = w.drop_first();
        assert forall|j: int| 0 <= j < w1.len() - 1 implies component_link(
            objs,
            #[trigger] w1[j],
            w1[j + 1],
        ) by {
            assert(w1[j] == w[j + 1] && w1[j + 1] == w[j + 2]);
        }
        let q = choose|q: int| 0 <= q < path.len() && path[q] == w[w.len() - 1];
        assert(p1[q] == w1[w1.len() - 1]);
        lemma_dfs_components_find_cycles(objs, oi, 0, p1, v1, k0, w1);
    }
}

proof fn lemma_dfs_components_find_cycles(
    objs: Seq<crate::model::Object>,
    oi: int,
    k: int,
    path: Seq<usize>,
    visited: Set<usize>,
    k0: int,
    w: Seq<usize>,
)
    requires
        0 <= oi < objs.len(),
        0 <= k <= k0 < objs[oi].components@.len(),
        !structure::has_external_path(objs[oi].components@[k0]),
        objs[oi].components@[k0].objectid == w[0],
        forall|x: usize| #[trigger] visited.contains(x) <==> path.contains(x),
        w.len() >= 1,
        linked_path(objs, w),
        path.contains(w[w.len() - 1]),
    ensures
        structure::dfs_components(objs, oi, k, path, visited).0 is Some,
    decreases structure::unvisited(objs, path), 1int, objs[oi].components@.len() - k,
{
    let comps = objs[oi].components@;
    if k == k0 {
        lemma_dfs_finds_cycles(objs, w[0], path, visited, w);
    } else if structure::has_external_path(comps[k]) {
        lemma_dfs_components_find_cycles(objs, oi, k + 1, path, visited, k0, w);
    } else if structure::dfs(objs, comps[k].objectid, path, visited).0 is None {
        lemma_dfs_components_find_cycles(objs, oi, k + 1, path, visited, k0, w);
    }
}

/// The search from the first id of a component cycle finds a cycle.
proof fn lemma_cycle_found(objs: Seq<crate::model::Object>, c: Seq<usize>)
    requires
        is_component_cycle(objs, c),
    ensures
        structure::dfs(objs, c[0], Seq::empty(), Set::empty()).0 is Some,
{
    assert(component_link(objs, c[0], c[1]));
    let oi = structure::find_object(objs, c[0])->0;
    structure::lemma_find_object_from(objs, c[0], 0);
    let k0 = choose|k: int|
        0 <= k < objs[oi].components@.len() && !structure::has_external_path(
            #[trigger] objs[oi].components@[k],
        ) && objs[oi].components@[k].objectid == c[1];
    let p1 = Seq::<usize>::empty().push(c[0]);
    let v1 = Set::<usize>::empty().insert(c[0]);
    assert forall|x: usize| #[trigger] v1.contains(x) <==> p1.contains(x) by {
        if x == c[0] {
            assert(p1[0] == x);
        }
    }
    let w = c.drop_first();
    assert forall|j: int| 0 <= j < w.len() - 1 implies component_link(
        objs,
        #[trigger] w[j],
        w[j + 1],
    ) by {
        assert(w[j] == c[j + 1] && w[j + 1] == c[j + 2]);
    }
    assert(p1[0] == w[w.len() - 1]);
    lemma_dfs_components_find_cycles(objs, oi, 0, p1, v1, k0, w);
}

/// A model that passes component validation has no component cycle: no
/// chain of component references leads from an object back to itself.
pub proof fn lemma_components_acyclic(m: Model)
    requires
        structure::component_references_finding(m) is None,
    ensures
        forall|c: Seq<usize>| !is_component_cycle(objects(m), c),
{
    let objs = objects(m);
    let f = structure::cycle_check(m);
    error::lemma_first_none(objs.len() as int, f);
    assert forall|c: Seq<usize>| !is_component_cycle(objs, c) by {
        if is_component_cycle(objs, c) {
            assert(component_link(objs, c[0], c[1]));
            let j = structure::find_object(objs, c[0])->0;
            structure::lemma_find_object_from(objs, c[0], 0);
            assert(f(j) is None);
            lemma_cycle_found(objs, c);
        }
    }
}

/// A model that passes the mesh check has, in every object mesh, vertices
/// wherever it has triangles, triangles with three distinct vertex indices
/// in range, and, with two triangles or more, no edge shared by more than
/// two triangles.
pub proof fn lemma_valid_meshes(m: Model, i: int)
    requires
        structure::mesh_geometry_finding(m) is None,
        0 <= i < objects(m).len(),
        objects(m)[i].mesh is Some,
        objects(m)[i].mesh->0.vertices@.len() <= usize::MAX,
    ensures
        ({
            let mesh = objects(m)[i].mesh->0;
            let tris = mesh.triangles@;
            &&& tris.len() > 0 ==> mesh.vertices@.len() > 0
            &&& forall|k: int|
                0 <= k < tris.len() ==> {
                    let t = #[trigger] tris[k];
                    &&& t.v1 < mesh.vertices@.len()
                    &&& t.v2 < mesh.vertices@.len()
                    &&& t.v3 < mesh.vertices@.len()
                    &&& t.v1 != t.v2 && t.v2 != t.v3 && t.v1 != t.v3
                }
            &&& tris.len() >= 2 ==> forall|k: int, e: int|
                0 <= k < tris.len() && 0 <= e < 3 ==> edge_count(
                    tris,
                    #[trigger] edge_of(tris[k], e),
                ) <= 2
        }),
{
    let o = objects(m)[i];
    let mesh = o.mesh->0;
    error::lemma_first_none(objects(m).len() as int, structure::mesh_geometry_check(m));
    assert(structure::mesh_geometry_check(m)(i) is None);
    assert(structure::mesh_finding(o.id, mesh) is None);
    lemma_triangles_in_range_and_distinct(o.id, mesh);
    if mesh.triangles@.len() >= 2 {
        lemma_manifold_edges_shared_at_most_twice(o.id, mesh);
    }
}

/// A model that passes the component check has components that place objects
/// of the model, except those in encrypted parts or in other model parts.
pub proof fn lemma_components_reference_objects(m: Model)
    requires
        structure::component_references_finding(m) is None,
    ensures
        forall|i: int, k: int|
            0 <= i < objects(m).len() && 0 <= k < objects(m)[i].components@.len() ==> {
                let c = #[trigger] objects(m)[i].components@[k];
                (c.path matches Some(p) && structure::is_encrypted_path(m, p@))
                    || structure::has_external_path(c) || object_ids(m).contains(c.objectid)
            },
{
    let n = objects(m).len() as int;
    let f = structure::component_reference_check(m);
    error::lemma_first_none(n, f);
    assert forall|i: int, k: int|
        0 <= i < n && 0 <= k < objects(m)[i].components@.len() implies {
        let c = #[trigger] objects(m)[i].components@[k];
        (c.path matches Some(p) && structure::is_encrypted_path(m, p@))
            || structure::has_external_path(c) || object_ids(m).contains(c.objectid)
    } by {
        assert(f(i) is None);
        let g = structure::component_reference_in(m, i);
        error::lemma_first_none(objects(m)[i].components@.len() as int, g);
        assert(g(k) is None);
    }
}

/// A component places an object of the model, or points into an encrypted
/// part or into another model part.
pub open spec fn component_placed(m: Model, c: crate::model::Component) -> bool {
    (c.path matches Some(p) && structure::is_encrypted_path(m, p@))
        || structure::has_external_path(c) || object_ids(m).contains(c.objectid)
}

/// A model passes component validation exactly when every component places
/// an object of the model (or points into an encrypted part or another model
/// part) and no chain of component references leads from an object back to
/// itself.
pub proof fn lemma_component_references_meaning(m: Model)
    ensures
        structure::component_references_finding(m) is None <==> {
            &&& forall|i: int, k: int|
                0 <= i < objects(m).len() && 0 <= k < objects(m)[i].components@.len()
                    ==> component_placed(m, #[trigger] objects(m)[i].components@[k])
            &&& forall|c: Seq<usize>| !is_component_cycle(objects(m), c)
        },
{
    let n = objects(m).len() as int;
    let f = structure::component_reference_check(m);
    let g = structure::cycle_check(m);
    error::lemma_first_none(n, f);
    error::lemma_first_none(n, g);
    if structure::component_references_finding(m) is None {
        lemma_components_reference_objects(m);
        lemma_components_acyclic(m);
    }
    if (forall|i: int, k: int|
        0 <= i < objects(m).len() && 0 <= k < objects(m)[i].components@.len()
            ==> component_placed(m, #[trigger] objects(m)[i].components@[k])) && (forall|
        c: Seq<usize>,
    | !is_component_cycle(objects(m), c)) {
        assert forall|i: int| 0 <= i < n implies (#[trigger] f(i)) is None by {
            let h = structure::component_reference_in(m, i);
            error::lemma_first_none(objects(m)[i].components@.len() as int, h);
            assert forall|k: int| 0 <= k < objects(m)[i].components@.len() implies (#[trigger] h(
                k,
            )) is None by {
                assert(component_placed(m, objects(m)[i].components@[k]));
            }
        }
        assert forall|i: int| 0 <= i < n implies (#[trigger] g(i)) is None by {
            if g(i) is Some {
                lemma_reported_cycle_is_real(m, i);
                assert(!is_component_cycle(objects(m), (structure::cycle_finding(m, i)->0).1));
            }
        }
    }
}

/// The triangles of a mesh have three distinct vertex indices in range, and,
/// where there are two triangles or more, no edge is shared by more than two
/// triangles.
pub open spec fn mesh_ok(mesh: Mesh) -> bool {
    let tris = mesh.triangles@;
    &&& forall|k: int|
        0 <= k < tris.len() ==> {
            let t = #[trigger] tris[k];
            &&& t.v1 < mesh.vertices@.len()
            &&& t.v2 < mesh.vertices@.len()
            &&& t.v3 < mesh.vertices@.len()
            &&& t.v1 != t.v2 && t.v2 != t.v3 && t.v1 != t.v3
        }
    &&& tris.len() >= 2 ==> forall|k: int, e: int|
        0 <= k < tris.len() && 0 <= e < 3 ==> edge_count(tris, #[trigger] edge_of(tris[k], e)) <= 2
}

/// A model passes the mesh geometry check exactly when the mesh of each
/// object, where it has one, is sound (see `mesh_ok`).
pub proof fn lemma_mesh_geometry_meaning(m: Model)
    requires
        forall|i: int|
            0 <= i < objects(m).len() ==> ((#[trigger] objects(m)[i]).mesh matches Some(mesh)
                ==> mesh.vertices@.len() <= usize::MAX),
    ensures
        structure::mesh_geometry_finding(m) is None <==> forall|i: int|
            0 <= i < objects(m).len() ==> match (#[trigger] objects(m)[i]).mesh {
                Some(mesh) => mesh_ok(mesh),
                None => true,
            },
{
    let n = objects(m).len() as int;
    let f = structure::mesh_geometry_check(m);
    error::lemma_first_none(n, f);
    assert forall|i: int|
        #![trigger f(i)]
        #![trigger objects(m)[i]]
        0 <= i < n implies f(i) is None <==> match objects(m)[i].mesh {
        Some(mesh) => mesh_ok(mesh),
        None => true,
    } by {
        let o = objects(m)[i];
        if let Some(mesh) = o.mesh {
            lemma_triangles_in_range_and_distinct(o.id, mesh);
            lemma_manifold_edges_shared_at_most_twice(o.id, mesh);
            if mesh_ok(mesh) && mesh.triangles@.len() > 0 {
                assert(mesh.triangles@[0].v1 < mesh.vertices@.len());
            }
        }
    }
}

/// A model that passes the material check has objects whose base material
/// ids name base material groups, and, where it has property groups, whose
/// pids name one of them.
pub proof fn lemma_objects_reference_materials(m: Model)
    requires
        materials::material_references_finding(m) is None,
    ensures
        forall|i: int|
            0 <= i < objects(m).len() ==> {
                let o = #[trigger] objects(m)[i];
                &&& (o.basematerialid matches Some(b) ==> materials::base_ids(m).contains(b))
                &&& (o.pid is Some && materials::group_entry_ids(m).len() > 0
                    ==> materials::group_entry_ids(m).contains(o.pid->0))
            },
{
    let n = objects(m).len() as int;
    let f = materials::object_material_check(m);
    error::lemma_first_none(n, f);
    assert forall|i: int| 0 <= i < n implies {
        let o = #[trigger] objects(m)[i];
        &&& (o.basematerialid matches Some(b) ==> materials::base_ids(m).contains(b))
        &&& (o.pid is Some && materials::group_entry_ids(m).len() > 0
            ==> materials::group_entry_ids(m).contains(o.pid->0))
    } by {
        assert(f(i) is None);
    }
}

/// A search for a component cycle that finds none leaves the search path and
/// the set of ids being explored as it found them.
pub proof fn lemma_search_without_cycle_restores_state(
    objs: Seq<crate::model::Object>,
    id: usize,
    path: Seq<usize>,
    visited: Set<usize>,
)
    ensures
        structure::dfs(objs, id, path, visited).0 is None ==> structure::dfs(objs, id, path, visited).1
            == path && structure::dfs(objs, id, path, visited).2 == visited,
{
}

/// Volumetric property groups pass the duplicate check exactly when no two
/// of them share an id.
pub proof fn lemma_volumetric_property_groups_unique(m: Model)
    ensures
        error::first(
            volumetric::property_group_ids(m).len() as int,
            volumetric::property_group_check(m),
        ) is None <==> forall|i: int, j: int|
            0 <= i < j < volumetric::property_group_ids(m).len() ==> #[trigger] volumetric::property_group_ids(
                m,
            )[i] != #[trigger] volumetric::property_group_ids(m)[j],
{
    let ids = volumetric::property_group_ids(m);
    let f = volumetric::property_group_check(m);
    error::lemma_first_none(ids.len() as int, f);
    if error::first(ids.len() as int, f) is None {
        assert forall|i: int, j: int| 0 <= i < j < ids.len() implies #[trigger] ids[i]
            != #[trigger] ids[j] by {
            assert(f(j) is None);
        }
    } else {
        let k = choose|k: int| 0 <= k < ids.len() && !(#[trigger] f(k) is None);
        let j = choose|j: int| 0 <= j < k && #[trigger] ids[j] == ids[k];
        assert(ids[j] == ids[k]);
    }
}

} // verus!
