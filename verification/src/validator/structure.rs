//! Core rules: the required parts of a model, object identifiers, mesh
//! geometry, build and component references, and assembly properties.
use crate::error::{self, Corner, Error, Kind};
use crate::ids;
use crate::model::{self, Extension, Mesh, Model, Object, Triangle};
use std::collections::HashSet;
use vstd::prelude::*;

verus! {

broadcast use vstd::std_specs::hash::group_hash_axioms;

/// The objects of the model.
pub open spec fn objects(m: Model) -> Seq<Object> {
    m.resources.objects@
}

/// The identifiers of the model's objects.
pub open spec fn object_ids(m: Model) -> Set<usize> {
    Set::new(|x: usize| exists|i: int| 0 <= i < objects(m).len() && #[trigger] objects(m)[i].id == x)
}

// ---------------------------------------------------------------------------
// Required structure
// ---------------------------------------------------------------------------

/// A model needs an object (local, or a build item with an external path), and
/// a build item unless it only carries slice stacks.
pub open spec fn required_structure_finding(m: Model) -> error::Finding {
    let items = m.build.items@;
    let has_local = objects(m).len() > 0 || m.resources.slice_stacks@.len() > 0;
    let has_external = exists|i: int| 0 <= i < items.len() && #[trigger] items[i].production_path is Some;
    if !has_local && !has_external {
        error::found(Kind::NoObjects)
    } else if items.len() == 0 && m.resources.slice_stacks@.len() == 0 {
        error::found(Kind::EmptyBuild)
    } else {
        None
    }
}

/// Checks that the model has an object and a build item.
pub fn validate_required_structure(model: &Model) -> (r: Result<(), Error>)
    ensures
        error::reports(r, required_structure_finding(*model)),
{
    let items = &model.build.items;
    let has_local = model.resources.objects.len() > 0 || model.resources.slice_stacks.len() > 0;
    let mut has_external = false;
    let mut i: usize = 0;
    while i < items.len()
        invariant
            i <= items@.len(),
            has_external == exists|j: int| 0 <= j < i && #[trigger] items@[j].production_path is Some,
        decreases items@.len() - i,
    {
        if items[i].production_path.is_some() {
            has_external = true;
        }
        i += 1;
    }
    if !has_local && !has_external {
        return error::fail(Kind::NoObjects);
    }
    let is_external_file = model.resources.slice_stacks.len() > 0 && (model.resources.objects.len()
        == 0 || items.len() == 0);
    if items.len() == 0 && !is_external_file {
        return error::fail(Kind::EmptyBuild);
    }
    Ok(())
}

// ---------------------------------------------------------------------------
// Object identifiers
// ---------------------------------------------------------------------------

/// Object `i` must have a positive id that no earlier object has.
pub open spec fn object_id_finding(m: Model, i: int) -> error::Finding {
    let objs = objects(m);
    if objs[i].id == 0 {
        error::found(Kind::ZeroObjectId)
    } else if exists|j: int| 0 <= j < i && #[trigger] objs[j].id == objs[i].id {
        error::found(Kind::DuplicateObjectId { id: objs[i].id })
    } else {
        None
    }
}

pub open spec fn object_id_check(m: Model) -> spec_fn(int) -> error::Finding {
    |i: int| object_id_finding(m, i)
}

pub open spec fn object_ids_finding(m: Model) -> error::Finding {
    error::first(objects(m).len() as int, object_id_check(m))
}

/// Checks that object ids are positive and unique.
pub fn validate_object_ids(model: &Model) -> (r: Result<(), Error>)
    ensures
        error::reports(r, object_ids_finding(*model)),
{
    let objs = &model.resources.objects;
    let ghost n = objs@.len() as int;
    let mut seen: HashSet<usize> = HashSet::new();
    let mut i: usize = 0;
    while i < objs.len()
        invariant
            i <= objs@.len(),
            objs@ == objects(*model),
            n == objs@.len(),
            forall|x: usize|
                #[trigger] seen@.contains(x) <==> exists|j: int| 0 <= j < i && #[trigger] objs@[j].id == x,
            error::first(n, object_id_check(*model)) == error::first_from(
                n,
                object_id_check(*model),
                i as int,
            ),
        decreases objs@.len() - i,
    {
        let id = objs[i].id;
        if id == 0 {
            return error::fail(Kind::ZeroObjectId);
        }
        if !seen.insert(id) {
            return error::fail(Kind::DuplicateObjectId { id });
        }
        proof {
            assert forall|x: usize| #[trigger]
                seen@.contains(x) <==> exists|j: int| 0 <= j < i + 1 && #[trigger] objs@[j].id == x by {
                if x == id {
                    assert(objs@[i as int].id == x);
                }
            }
        }
        i += 1;
    }
    Ok(())
}

/// A set of the model's object ids.
pub fn object_id_set(model: &Model) -> (s: HashSet<usize>)
    ensures
        s@ == object_ids(*model),
{
    let objs = &model.resources.objects;
    let mut s: HashSet<usize> = HashSet::new();
    let mut i: usize = 0;
    while i < objs.len()
        invariant
            i <= objs@.len(),
            objs@ == objects(*model),
            forall|x: usize|
                #[trigger] s@.contains(x) <==> exists|j: int| 0 <= j < i && #[trigger] objs@[j].id == x,
        decreases objs@.len() - i,
    {
        let id = objs[i].id;
        s.insert(id);
        proof {
            assert forall|x: usize| #[trigger]
                s@.contains(x) <==> exists|j: int| 0 <= j < i + 1 && #[trigger] objs@[j].id == x by {
                if x == id {
                    assert(objs@[i as int].id == x);
                }
            }
        }
        i += 1;
    }
    assert(s@ =~= object_ids(*model));
    s
}

/// The model's object ids, ascending.
pub fn sorted_object_ids(model: &Model) -> (v: Vec<usize>)
    ensures
        v@ == ids::ascending_ids(object_ids(*model)),
{
    let s = object_id_set(model);
    ids::sorted_ids_from_set(&s)
}

// ---------------------------------------------------------------------------
// Required extensions
// ---------------------------------------------------------------------------

/// The ids of the objects, in order, that have a boolean shape and a pid or pindex.
pub open spec fn boolean_with_material_ids(objs: Seq<Object>) -> Seq<usize>
    decreases objs.len(),
{
    if objs.len() == 0 {
        Seq::empty()
    } else {
        let o = objs.last();
        let rest = boolean_with_material_ids(objs.drop_last());
        if o.boolean_shape is Some && (o.pid is Some || o.pindex is Some) {
            rest.push(o.id)
        } else {
            rest
        }
    }
}

/// Boolean shapes need the Boolean Operations extension declared, and their
/// objects must not carry pid or pindex.
pub open spec fn required_extensions_finding(m: Model) -> error::Finding {
    let objs = objects(m);
    let uses_boolean = exists|i: int| 0 <= i < objs.len() && #[trigger] objs[i].boolean_shape is Some;
    let bad = boolean_with_material_ids(objs);
    if uses_boolean && !model::extension_listed(
        m.required_extensions@,
        Extension::BooleanOperations,
    ) {
        error::found(Kind::BooleanOperationsNotDeclared)
    } else if bad.len() > 0 {
        error::found_ids(Kind::BooleanShapeWithMaterialProperties, bad)
    } else {
        None
    }
}

/// Checks the declarations that boolean shapes need.
pub fn validate_required_extensions(model: &Model) -> (r: Result<(), Error>)
    ensures
        error::reports(r, required_extensions_finding(*model)),
{
    let objs = &model.resources.objects;
    let mut uses_boolean = false;
    let mut bad: Vec<usize> = Vec::new();
    let mut i: usize = 0;
    while i < objs.len()
        invariant
            i <= objs@.len(),
            objs@ == objects(*model),
            uses_boolean == exists|j: int| 0 <= j < i && #[trigger] objs@[j].boolean_shape is Some,
            bad@ == boolean_with_material_ids(objs@.take(i as int)),
        decreases objs@.len() - i,
    {
        let o = &objs[i];
        proof {
            assert(objs@.take(i + 1).drop_last() =~= objs@.take(i as int));
        }
        if o.boolean_shape.is_some() {
            uses_boolean = true;
            if o.pid.is_some() || o.pindex.is_some() {
                bad.push(o.id);
            }
        }
        i += 1;
    }
    proof {
        assert(objs@.take(objs@.len() as int) =~= objs@);
    }
    if uses_boolean {
        if !model::contains_extension(&model.required_extensions, Extension::BooleanOperations) {
            return error::fail(Kind::BooleanOperationsNotDeclared);
        }
    }
    if bad.len() > 0 {
        return error::fail_ids(Kind::BooleanShapeWithMaterialProperties, bad);
    }
    Ok(())
}

// ---------------------------------------------------------------------------
// Assembly properties
// ---------------------------------------------------------------------------

/// An object with components carries no pid or pindex.
pub open spec fn component_property_finding(o: Object) -> error::Finding {
    if o.components@.len() > 0 && o.pid is Some {
        error::found(Kind::AssemblyWithPid { object: o.id })
    } else if o.components@.len() > 0 && o.pindex is Some {
        error::found(Kind::AssemblyWithPindex { object: o.id })
    } else {
        None
    }
}

pub open spec fn component_property_check(m: Model) -> spec_fn(int) -> error::Finding {
    |i: int| component_property_finding(objects(m)[i])
}

pub open spec fn component_properties_finding(m: Model) -> error::Finding {
    error::first(objects(m).len() as int, component_property_check(m))
}

/// Checks that assemblies carry no material properties of their own.
pub fn validate_component_properties(model: &Model) -> (r: Result<(), Error>)
    ensures
        error::reports(r, component_properties_finding(*model)),
{
    let objs = &model.resources.objects;
    let ghost n = objs@.len() as int;
    let mut i: usize = 0;
    while i < objs.len()
        invariant
            i <= objs@.len(),
            objs@ == objects(*model),
            n == objs@.len(),
            error::first(n, component_property_check(*model)) == error::first_from(
                n,
                component_property_check(*model),
                i as int,
            ),
        decreases objs@.len() - i,
    {
        let o = &objs[i];
        if o.components.len() > 0 {
            if o.pid.is_some() {
                return error::fail(Kind::AssemblyWithPid { object: o.id });
            }
            if o.pindex.is_some() {
                return error::fail(Kind::AssemblyWithPindex { object: o.id });
            }
        }
        i += 1;
    }
    Ok(())
}

// ---------------------------------------------------------------------------
// Build references
// ---------------------------------------------------------------------------

/// Build item `i` references an object of the model, unless it has an external path.
pub open spec fn build_reference_finding(m: Model, i: int) -> error::Finding {
    let item = m.build.items@[i];
    if item.production_path is Some || object_ids(m).contains(item.objectid) {
        None
    } else {
        error::found_ids(
            Kind::BuildItemUnknownObject { item: i as usize, objectid: item.objectid },
            ids::ascending_ids(object_ids(m)),
        )
    }
}

pub open spec fn build_reference_check(m: Model) -> spec_fn(int) -> error::Finding {
    |i: int| build_reference_finding(m, i)
}

pub open spec fn build_references_finding(m: Model) -> error::Finding {
    error::first(m.build.items@.len() as int, build_reference_check(m))
}

/// Checks that build items reference existing objects.
pub fn validate_build_references(model: &Model) -> (r: Result<(), Error>)
    ensures
        error::reports(r, build_references_finding(*model)),
{
    let known = object_id_set(model);
    let items = &model.build.items;
    let ghost n = items@.len() as int;
    let mut i: usize = 0;
    while i < items.len()
        invariant
            i <= items@.len(),
            items@ == model.build.items@,
            n == items@.len(),
            known@ == object_ids(*model),
            error::first(n, build_reference_check(*model)) == error::first_from(
                n,
                build_reference_check(*model),
                i as int,
            ),
        decreases items@.len() - i,
    {
        let item = &items[i];
        if item.production_path.is_none() && !known.contains(&item.objectid) {
            let available = ids::sorted_ids_from_set(&known);
            return error::fail_ids(
                Kind::BuildItemUnknownObject { item: i, objectid: item.objectid },
                available,
            );
        }
        i += 1;
    }
    Ok(())
}


// ---------------------------------------------------------------------------
// Mesh geometry
// ---------------------------------------------------------------------------

/// Triangle `k` of object `oid`, in a mesh of `nv` vertices: its indices must be
/// in range and distinct.
pub open spec fn triangle_finding(oid: usize, nv: usize, k: int, t: Triangle) -> error::Finding {
    if t.v1 >= nv {
        error::found(
            Kind::VertexIndexOutOfBounds {
                object: oid,
                triangle: k as usize,
                corner: Corner::First,
                index: t.v1,
                vertex_count: nv,
            },
        )
    } else if t.v2 >= nv {
        error::found(
            Kind::VertexIndexOutOfBounds {
                object: oid,
                triangle: k as usize,
                corner: Corner::Second,
                index: t.v2,
                vertex_count: nv,
            },
        )
    } else if t.v3 >= nv {
        error::found(
            Kind::VertexIndexOutOfBounds {
                object: oid,
                triangle: k as usize,
                corner: Corner::Third,
                index: t.v3,
                vertex_count: nv,
            },
        )
    } else if t.v1 == t.v2 || t.v2 == t.v3 || t.v1 == t.v3 {
        error::found(
            Kind::DegenerateTriangle { object: oid, triangle: k as usize, v1: t.v1, v2: t.v2, v3: t.v3 },
        )
    } else {
        None
    }
}

pub open spec fn triangle_check(oid: usize, mesh: Mesh) -> spec_fn(int) -> error::Finding {
    |k: int| triangle_finding(oid, mesh.vertices@.len() as usize, k, mesh.triangles@[k])
}

/// The mesh of object `oid`: triangles need vertices, each triangle must be
/// valid, and a mesh of two or more triangles must be manifold.
pub open spec fn mesh_finding(oid: usize, mesh: Mesh) -> error::Finding {
    let tris = mesh.triangles@;
    if tris.len() > 0 && mesh.vertices@.len() == 0 {
        error::found(Kind::TrianglesWithoutVertices { object: oid, triangles: tris.len() as usize })
    } else {
        error::either(
            error::first(tris.len() as int, triangle_check(oid, mesh)),
            if tris.len() >= 2 {
                manifold_finding(oid, mesh)
            } else {
                None
            },
        )
    }
}

pub open spec fn object_mesh_finding(o: Object) -> error::Finding {
    match o.mesh {
        Some(mesh) => mesh_finding(o.id, mesh),
        None => None,
    }
}

pub open spec fn mesh_geometry_check(m: Model) -> spec_fn(int) -> error::Finding {
    |i: int| object_mesh_finding(objects(m)[i])
}

pub open spec fn mesh_geometry_finding(m: Model) -> error::Finding {
    error::first(objects(m).len() as int, mesh_geometry_check(m))
}

fn check_triangles(oid: usize, mesh: &Mesh) -> (r: Result<(), Error>)
    ensures
        error::reports(r, error::first(mesh.triangles@.len() as int, triangle_check(oid, *mesh))),
{
    let tris = &mesh.triangles;
    let nv = mesh.vertices.len();
    let ghost n = tris@.len() as int;
    let mut k: usize = 0;
    while k < tris.len()
        invariant
            k <= tris@.len(),
            tris@ == mesh.triangles@,
            nv == mesh.vertices@.len(),
            n == tris@.len(),
            error::first(n, triangle_check(oid, *mesh)) == error::first_from(
                n,
                triangle_check(oid, *mesh),
                k as int,
            ),
        decreases tris@.len() - k,
    {
        let t = &tris[k];
        if t.v1 >= nv {
            return error::fail(
                Kind::VertexIndexOutOfBounds {
                    object: oid,
                    triangle: k,
                    corner: Corner::First,
                    index: t.v1,
                    vertex_count: nv,
                },
            );
        }
        if t.v2 >= nv {
            return error::fail(
                Kind::VertexIndexOutOfBounds {
                    object: oid,
                    triangle: k,
                    corner: Corner::Second,
                    index: t.v2,
                    vertex_count: nv,
                },
            );
        }
        if t.v3 >= nv {
            return error::fail(
                Kind::VertexIndexOutOfBounds {
                    object: oid,
                    triangle: k,
                    corner: Corner::Third,
                    index: t.v3,
                    vertex_count: nv,
                },
            );
        }
        if t.v1 == t.v2 || t.v2 == t.v3 || t.v1 == t.v3 {
            return error::fail(
                Kind::DegenerateTriangle { object: oid, triangle: k, v1: t.v1, v2: t.v2, v3: t.v3 },
            );
        }
        k += 1;
    }
    Ok(())
}

fn check_object_mesh(o: &Object) -> (r: Result<(), Error>)
    ensures
        error::reports(r, object_mesh_finding(*o)),
{
    match &o.mesh {
        None => Ok(()),
        Some(mesh) => {
            if mesh.triangles.len() > 0 && mesh.vertices.len() == 0 {
                return error::fail(
                    Kind::TrianglesWithoutVertices { object: o.id, triangles: mesh.triangles.len() },
                );
            }
            let r = check_triangles(o.id, mesh);
            if r.is_err() {
                return r;
            }
            if mesh.triangles.len() >= 2 {
                validate_mesh_manifold(o.id, mesh)
            } else {
                Ok(())
            }
        },
    }
}

/// Checks the meshes of all objects: vertex data, triangle indices and
/// manifold edges.
pub fn validate_mesh_geometry(model: &Model) -> (r: Result<(), Error>)
    ensures
        error::reports(r, mesh_geometry_finding(*model)),
{
    let objs = &model.resources.objects;
    let ghost n = objs@.len() as int;
    let mut i: usize = 0;
    while i < objs.len()
        invariant
            i <= objs@.len(),
            objs@ == objects(*model),
            n == objs@.len(),
            error::first(n, mesh_geometry_check(*model)) == error::first_from(
                n,
                mesh_geometry_check(*model),
                i as int,
            ),
        decreases objs@.len() - i,
    {
        let r = check_object_mesh(&objs[i]);
        if r.is_err() {
            return r;
        }
        i += 1;
    }
    Ok(())
}

// ---------------------------------------------------------------------------
// Manifold edges
// ---------------------------------------------------------------------------

/// Edge `e` (0: v1-v2, 1: v2-v3, 2: v3-v1) of `t`, lower index first.
pub open spec fn edge_of(t: Triangle, e: int) -> (usize, usize) {
    let (a, b) = if e == 0 {
        (t.v1, t.v2)
    } else if e == 1 {
        (t.v2, t.v3)
    } else {
        (t.v3, t.v1)
    };
    if a <= b {
        (a, b)
    } else {
        (b, a)
    }
}

/// How many of the three edges of `t` are `edge`.
pub open spec fn edge_uses(t: Triangle, edge: (usize, usize)) -> nat {
    (if edge_of(t, 0) == edge {
        1nat
    } else {
        0nat
    }) + (if edge_of(t, 1) == edge {
        1nat
    } else {
        0nat
    }) + (if edge_of(t, 2) == edge {
        1nat
    } else {
        0nat
    })
}

/// How many times `edge` occurs among the edges of `tris`.
pub open spec fn edge_count(tris: Seq<Triangle>, edge: (usize, usize)) -> nat
    decreases tris.len(),
{
    if tris.len() == 0 {
        0
    } else {
        edge_count(tris.drop_last(), edge) + edge_uses(tris.last(), edge)
    }
}

/// `n`, or the largest `usize` where `n` is larger.
pub open spec fn capped(n: nat) -> usize {
    if n <= usize::MAX {
        n as usize
    } else {
        usize::MAX
    }
}

/// Edge `e` of triangle `k` is shared by at most two triangles.
pub open spec fn edge_finding(oid: usize, tris: Seq<Triangle>, k: int, e: int) -> error::Finding {
    let edge = edge_of(tris[k], e);
    let c = edge_count(tris, edge);
    if c > 2 {
        error::found(Kind::NonManifoldEdge { object: oid, low: edge.0, high: edge.1, count: capped(c) })
    } else {
        None
    }
}

pub open spec fn manifold_check(oid: usize, mesh: Mesh) -> spec_fn(int) -> error::Finding {
    |k: int|
        error::either(
            edge_finding(oid, mesh.triangles@, k, 0),
            error::either(
                edge_finding(oid, mesh.triangles@, k, 1),
                edge_finding(oid, mesh.triangles@, k, 2),
            ),
        )
}

/// The first edge, in triangle order, that more than two triangles share.
pub open spec fn manifold_finding(oid: usize, mesh: Mesh) -> error::Finding {
    error::first(mesh.triangles@.len() as int, manifold_check(oid, mesh))
}

/// The key under which the edge `(a, b)` is counted.
pub open spec fn edge_key(a: usize, b: usize) -> u128 {
    (a as int * 0x1_0000_0000_0000_0000int + b as int) as u128
}

pub proof fn lemma_edge_key_injective(a: usize, b: usize, c: usize, d: usize)
    requires
        edge_key(a, b) == edge_key(c, d),
    ensures
        a == c && b == d,
{
    let x = a as int * 0x1_0000_0000_0000_0000int + b as int;
    let y = c as int * 0x1_0000_0000_0000_0000int + d as int;
    assert(0 <= x < 0x1_0000_0000_0000_0000_0000_0000_0000_0000int);
    assert(0 <= y < 0x1_0000_0000_0000_0000_0000_0000_0000_0000int);
    assert(x == y);
    assert(a == c && b == d) by (nonlinear_arith)
        requires
            x == a as int * 0x1_0000_0000_0000_0000int + b as int,
            y == c as int * 0x1_0000_0000_0000_0000int + d as int,
            x == y,
            0 <= b < 0x1_0000_0000_0000_0000int,
            0 <= d < 0x1_0000_0000_0000_0000int,
            0 <= a,
            0 <= c,
    ;
}

pub fn key_of(edge: (usize, usize)) -> (k: u128)
    ensures
        k == edge_key(edge.0, edge.1),
{
    (edge.0 as u128) * 0x1_0000_0000_0000_0000u128 + (edge.1 as u128)
}

/// The counter of `(a, b)` in `counts`: its value, or 0 where absent.
pub open spec fn counter(counts: Map<u128, usize>, a: usize, b: usize) -> usize {
    if counts.contains_key(edge_key(a, b)) {
        counts[edge_key(a, b)]
    } else {
        0
    }
}

/// The counters of `counts` are the capped edge counts of `tris`.
pub open spec fn counts_edges(counts: Map<u128, usize>, tris: Seq<Triangle>) -> bool {
    forall|a: usize, b: usize| #[trigger] counter(counts, a, b) == capped(edge_count(tris, (a, b)))
}

pub fn counter_of(counts: &std::collections::HashMap<u128, usize>, edge: (usize, usize)) -> (c: usize)
    ensures
        c == counter(counts@, edge.0, edge.1),
{
    match counts.get(&key_of(edge)) {
        Some(c) => *c,
        None => 0,
    }
}

pub fn bump(counts: &mut std::collections::HashMap<u128, usize>, edge: (usize, usize))
    ensures
        forall|a: usize, b: usize| #[trigger]
            counter(final(counts)@, a, b) == if (a, b) == edge {
                if counter(old(counts)@, a, b) == usize::MAX {
                    usize::MAX
                } else {
                    (counter(old(counts)@, a, b) + 1) as usize
                }
            } else {
                counter(old(counts)@, a, b)
            },
{
    let c = counter_of(counts, edge);
    let next = if c == usize::MAX {
        c
    } else {
        c + 1
    };
    counts.insert(key_of(edge), next);
    proof {
        assert forall|a: usize, b: usize| (a, b) != edge implies counter(counts@, a, b) == counter(
            old(counts)@,
            a,
            b,
        ) by {
            if edge_key(a, b) == edge_key(edge.0, edge.1) {
                lemma_edge_key_injective(a, b, edge.0, edge.1);
            }
        }
    }
}

fn edge_at(t: &Triangle, e: usize) -> (r: (usize, usize))
    requires
        e < 3,
    ensures
        r == edge_of(*t, e as int),
{
    let (a, b) = if e == 0 {
        (t.v1, t.v2)
    } else if e == 1 {
        (t.v2, t.v3)
    } else {
        (t.v3, t.v1)
    };
    if a <= b {
        (a, b)
    } else {
        (b, a)
    }
}

/// Counts the edges of all triangles.
fn count_edges(tris: &Vec<Triangle>) -> (counts: std::collections::HashMap<u128, usize>)
    ensures
        counts_edges(counts@, tris@),
{
    let mut counts: std::collections::HashMap<u128, usize> = std::collections::HashMap::new();
    let mut k: usize = 0;
    while k < tris.len()
        invariant
            k <= tris@.len(),
            counts_edges(counts@, tris@.take(k as int)),
        decreases tris@.len() - k,
    {
        let t = &tris[k];
        let ghost before = counts@;
        let e0 = edge_at(t, 0);
        let e1 = edge_at(t, 1);
        let e2 = edge_at(t, 2);
        bump(&mut counts, e0);
        bump(&mut counts, e1);
        bump(&mut counts, e2);
        proof {
            let pre = tris@.take(k as int);
            let post = tris@.take(k + 1);
            assert(post.drop_last() =~= pre);
            assert(post.last() == *t);
            assert forall|a: usize, b: usize| #[trigger]
                counter(counts@, a, b) == capped(edge_count(post, (a, b))) by {
                assert(counter(before, a, b) == capped(edge_count(pre, (a, b))));
            }
        }
        k += 1;
    }
    proof {
        assert(tris@.take(tris@.len() as int) =~= tris@);
    }
    counts
}

/// Checks that no edge of the mesh is shared by more than two triangles.
pub fn validate_mesh_manifold(object_id: usize, mesh: &Mesh) -> (r: Result<(), Error>)
    ensures
        error::reports(r, manifold_finding(object_id, *mesh)),
{
    let tris = &mesh.triangles;
    let counts = count_edges(tris);
    let ghost n = tris@.len() as int;
    let mut k: usize = 0;
    while k < tris.len()
        invariant
            k <= tris@.len(),
            tris@ == mesh.triangles@,
            n == tris@.len(),
            counts_edges(counts@, tris@),
            error::first(n, manifold_check(object_id, *mesh)) == error::first_from(
                n,
                manifold_check(object_id, *mesh),
                k as int,
            ),
        decreases tris@.len() - k,
    {
        let t = &tris[k];
        let mut e: usize = 0;
        while e < 3
            invariant
                e <= 3,
                k < tris@.len(),
                *t == tris@[k as int],
                tris@ == mesh.triangles@,
                n == tris@.len(),
                error::first(n, manifold_check(object_id, *mesh)) == error::first_from(
                    n,
                    manifold_check(object_id, *mesh),
                    k as int,
                ),
                counts_edges(counts@, tris@),
                forall|f: int| 0 <= f < e ==> edge_finding(object_id, tris@, k as int, f) is None,
            decreases 3 - e,
        {
            let edge = edge_at(t, e);
            let c = counter_of(&counts, edge);
            assert(c == capped(edge_count(tris@, edge)));
            if c > 2 {
                return error::fail(
                    Kind::NonManifoldEdge { object: object_id, low: edge.0, high: edge.1, count: c },
                );
            }
            e += 1;
        }
        k += 1;
    }
    Ok(())
}


// ---------------------------------------------------------------------------
// Component references
// ---------------------------------------------------------------------------

/// Whether `p` is the path of an encrypted part of the package.
pub open spec fn is_encrypted_path(m: Model, p: Seq<char>) -> bool {
    match m.secure_content {
        Some(sc) => exists|k: int|
            0 <= k < sc.encrypted_files@.len() && #[trigger] sc.encrypted_files@[k]@ == p,
        None => false,
    }
}

/// Whether the component references an object in another model part.
pub open spec fn has_external_path(c: model::Component) -> bool {
    c.production matches Some(p) && p.path is Some
}

/// Component `c` of object `o` references an object of the model, unless it
/// points into an encrypted part or into another model part.
pub open spec fn component_reference_finding(m: Model, o: Object, c: model::Component) -> error::Finding {
    if (c.path matches Some(p) && is_encrypted_path(m, p@)) || has_external_path(c)
        || object_ids(m).contains(c.objectid) {
        None
    } else {
        error::found_ids(
            Kind::ComponentUnknownObject { object: o.id, objectid: c.objectid },
            ids::ascending_ids(object_ids(m)),
        )
    }
}

pub open spec fn component_reference_in(m: Model, i: int) -> spec_fn(int) -> error::Finding {
    |k: int| component_reference_finding(m, objects(m)[i], objects(m)[i].components@[k])
}

pub open spec fn component_reference_check(m: Model) -> spec_fn(int) -> error::Finding {
    |i: int| error::first(objects(m)[i].components@.len() as int, component_reference_in(m, i))
}

/// The first index of `x` in `s` at or after `j` (`s.len()` where there is none).
pub open spec fn position_from(s: Seq<usize>, x: usize, j: int) -> int
    decreases s.len() - j,
{
    if j >= s.len() {
        s.len() as int
    } else if s[j] == x {
        j
    } else {
        position_from(s, x, j + 1)
    }
}

/// The index of the first object with id `id` at or after `j`.
pub open spec fn find_object_from(objs: Seq<Object>, id: usize, j: int) -> Option<int>
    decreases objs.len() - j,
{
    if j < 0 || j >= objs.len() {
        None
    } else if objs[j].id == id {
        Some(j)
    } else {
        find_object_from(objs, id, j + 1)
    }
}

/// The index of the first object with id `id`.
pub open spec fn find_object(objs: Seq<Object>, id: usize) -> Option<int> {
    find_object_from(objs, id, 0)
}

pub proof fn lemma_find_object_from(objs: Seq<Object>, id: usize, j: int)
    ensures
        find_object_from(objs, id, j) matches Some(oi) ==> 0 <= oi < objs.len() && objs[oi].id == id,
    decreases objs.len() - j,
{
    if 0 <= j < objs.len() && objs[j].id != id {
        lemma_find_object_from(objs, id, j + 1);
    }
}

/// How many objects have an id that is not on `path`.
pub open spec fn unvisited(objs: Seq<Object>, path: Seq<usize>) -> nat
    decreases objs.len(),
{
    if objs.len() == 0 {
        0
    } else {
        unvisited(objs.drop_last(), path) + if path.contains(objs.last().id) {
            0nat
        } else {
            1nat
        }
    }
}

pub proof fn lemma_unvisited_push(objs: Seq<Object>, path: Seq<usize>, id: usize, oi: int)
    requires
        0 <= oi < objs.len(),
        objs[oi].id == id,
        !path.contains(id),
    ensures
        unvisited(objs, path.push(id)) < unvisited(objs, path),
    decreases objs.len(),
{
    let p1 = path.push(id);
    assert(p1.contains(id)) by {
        assert(p1[path.len() as int] == id);
    }
    let o = objs.last();
    assert(path.contains(o.id) ==> p1.contains(o.id)) by {
        if path.contains(o.id) {
            let q = choose|q: int| 0 <= q < path.len() && path[q] == o.id;
            assert(p1[q] == o.id);
        }
    }
    if oi < objs.len() - 1 {
        lemma_unvisited_push(objs.drop_last(), path, id, oi);
    } else {
        lemma_unvisited_le(objs.drop_last(), path, id);
    }
}

pub proof fn lemma_unvisited_le(objs: Seq<Object>, path: Seq<usize>, id: usize)
    ensures
        unvisited(objs, path.push(id)) <= unvisited(objs, path),
    decreases objs.len(),
{
    if objs.len() > 0 {
        let p1 = path.push(id);
        let o = objs.last();
        if path.contains(o.id) {
            let q = choose|q: int| 0 <= q < path.len() && path[q] == o.id;
            assert(p1[q] == o.id);
        }
        lemma_unvisited_le(objs.drop_last(), path, id);
    }
}

/// What a depth-first search for a component cycle from object `id` gives: the
/// cycle found (the ids from the first visit of the repeated id, then that id
/// again), and the search path and visited set it leaves.
pub open spec fn dfs(objs: Seq<Object>, id: usize, path: Seq<usize>, visited: Set<usize>) -> (
    Option<Seq<usize>>,
    Seq<usize>,
    Set<usize>,
)
    decreases unvisited(objs, path), 0int, 0int,
{
    if path.contains(id) {
        (Some(path.subrange(position_from(path, id, 0), path.len() as int).push(id)), path, visited)
    } else if visited.contains(id) {
        (None, path, visited)
    } else {
        match find_object(objs, id) {
            None => (None, path, visited),
            Some(oi) => {
                proof {
                    lemma_find_object_from(objs, id, 0);
                    lemma_unvisited_push(objs, path, id, oi);
                }
                let r = dfs_components(objs, oi, 0, path.push(id), visited.insert(id));
                if r.0 is Some {
                    r
                } else {
                    (None, path, visited)
                }
            },
        }
    }
}

/// The search over the components of object `oi` from the `k`-th on.
pub open spec fn dfs_components(
    objs: Seq<Object>,
    oi: int,
    k: int,
    path: Seq<usize>,
    visited: Set<usize>,
) -> (Option<Seq<usize>>, Seq<usize>, Set<usize>)
    decreases unvisited(objs, path), 1int, objs[oi].components@.len() - k,
{
    let comps = objs[oi].components@;
    if k < 0 || k >= comps.len() {
        (None, path, visited)
    } else if has_external_path(comps[k]) {
        dfs_components(objs, oi, k + 1, path, visited)
    } else {
        let r = dfs(objs, comps[k].objectid, path, visited);
        if r.0 is Some {
            r
        } else {
            dfs_components(objs, oi, k + 1, path, visited)
        }
    }
}

/// The objects with components must not reach themselves through them.
pub open spec fn cycle_finding(m: Model, i: int) -> error::Finding {
    let o = objects(m)[i];
    if o.components@.len() > 0 {
        match dfs(objects(m), o.id, Seq::empty(), Set::empty()).0 {
            Some(c) => error::found_ids(Kind::CircularComponents, c),
            None => None,
        }
    } else {
        None
    }
}

pub open spec fn cycle_check(m: Model) -> spec_fn(int) -> error::Finding {
    |i: int| cycle_finding(m, i)
}

/// Components reference objects of the model, and no assembly contains itself.
pub open spec fn component_references_finding(m: Model) -> error::Finding {
    error::either(
        error::first(objects(m).len() as int, component_reference_check(m)),
        error::first(objects(m).len() as int, cycle_check(m)),
    )
}

/// Whether `r` is what the search `res` gives.
pub open spec fn search_outcome(
    r: Result<Option<Vec<usize>>, Error>,
    res: (Option<Seq<usize>>, Seq<usize>, Set<usize>),
) -> bool {
    match r {
        Ok(Some(c)) => res.0 == Some(c@),
        Ok(None) => res.0 is None,
        Err(_) => false,
    }
}

/// The index of the first object with id `id`.
pub fn find_object_index(objs: &Vec<Object>, id: usize) -> (r: Option<usize>)
    ensures
        match r {
            Some(x) => find_object(objs@, id) == Some(x as int) && x < objs@.len() && objs@[x as int].id
                == id,
            None => find_object(objs@, id) is None,
        },
{
    let mut j: usize = 0;
    while j < objs.len()
        invariant
            j <= objs@.len(),
            find_object(objs@, id) == find_object_from(objs@, id, j as int),
        decreases objs@.len() - j,
    {
        if objs[j].id == id {
            return Some(j);
        }
        j += 1;
    }
    None
}

/// Searches depth-first for a cycle of component references from `object_id`,
/// with `path` the ids on the way here and `visited` the ids being explored.
pub fn detect_circular_components(
    object_id: usize,
    model: &Model,
    visited: &mut HashSet<usize>,
    path: &mut Vec<usize>,
) -> (r: Result<Option<Vec<usize>>, Error>)
    ensures
        search_outcome(r, dfs(objects(*model), object_id, old(path)@, old(visited)@)),
        final(path)@ == dfs(objects(*model), object_id, old(path)@, old(visited)@).1,
        final(visited)@ == dfs(objects(*model), object_id, old(path)@, old(visited)@).2,
    decreases unvisited(objects(*model), old(path)@),
{
    let ghost objs_s = objects(*model);
    let ghost path0 = path@;
    let ghost visited0 = visited@;
    let mut p: usize = 0;
    while p < path.len()
        invariant
            p <= path@.len(),
            path@ == path0,
            position_from(path0, object_id, 0) == position_from(path0, object_id, p as int),
            forall|q: int| 0 <= q < p ==> path0[q] != object_id,
        decreases path@.len() - p,
    {
        if path[p] == object_id {
            let mut cycle: Vec<usize> = Vec::new();
            let mut q: usize = p;
            while q < path.len()
                invariant
                    p <= q <= path@.len(),
                    path@ == path0,
                    cycle@ == path0.subrange(p as int, q as int),
                decreases path@.len() - q,
            {
                cycle.push(path[q]);
                proof {
                    assert(path0.subrange(p as int, q + 1) =~= path0.subrange(p as int, q as int).push(
                        path0[q as int],
                    ));
                }
                q += 1;
            }
            cycle.push(object_id);
            proof {
                assert(path0.contains(object_id)) by {
                    assert(path0[p as int] == object_id);
                }
            }
            return Ok(Some(cycle));
        }
        p += 1;
    }
    proof {
        assert(!path0.contains(object_id));
    }
    if visited.contains(&object_id) {
        return Ok(None);
    }
    visited.insert(object_id);
    path.push(object_id);
    let ghost path1 = path@;
    let ghost visited1 = visited@;
    let objs = &model.resources.objects;
    let found = find_object_index(objs, object_id);
    if let Some(oi) = found {
        proof {
            lemma_unvisited_push(objs_s, path0, object_id, oi as int);
        }
        let comps = &objs[oi].components;
        let mut k: usize = 0;
        while k < comps.len()
            invariant
                k <= comps@.len(),
                comps@ == objs_s[oi as int].components@,
                objs@ == objs_s,
                oi < objs_s.len(),
                objs_s == objects(*model),
                path@ == path1,
                visited@ == visited1,
                path1 == path0.push(object_id),
                path0 == old(path)@,
                visited0 == old(visited)@,
                visited1 == visited0.insert(object_id),
                !path0.contains(object_id),
                !visited0.contains(object_id),
                find_object(objs_s, object_id) == Some(oi as int),
                unvisited(objs_s, path1) < unvisited(objs_s, path0),
                dfs_components(objs_s, oi as int, 0, path1, visited1) == dfs_components(
                    objs_s,
                    oi as int,
                    k as int,
                    path1,
                    visited1,
                ),
            decreases comps@.len() - k,
        {
            let c = &comps[k];
            let external = match &c.production {
                Some(info) => info.path.is_some(),
                None => false,
            };
            if !external {
                assert(unvisited(objects(*model), path@) < unvisited(objects(*model), path0));
                let sub = detect_circular_components(c.objectid, model, visited, path);
                match sub {
                    Ok(Some(cycle)) => {
                        return Ok(Some(cycle));
                    },
                    _ => {},
                }
            }
            k += 1;
        }
    }
    path.pop();
    visited.remove(&object_id);
    proof {
        assert(path@ =~= path0);
        assert(visited@ =~= visited0);
    }
    Ok(None)
}

/// Whether `p` names an encrypted part of the package.
pub fn is_encrypted(model: &Model, p: &String) -> (r: bool)
    ensures
        r == is_encrypted_path(*model, p@),
{
    match &model.secure_content {
        None => false,
        Some(sc) => {
            let files = &sc.encrypted_files;
            let mut k: usize = 0;
            while k < files.len()
                invariant
                    k <= files@.len(),
                    files@ == sc.encrypted_files@,
                    model.secure_content == Some(*sc),
                    forall|q: int| 0 <= q < k ==> files@[q]@ != p@,
                decreases files@.len() - k,
            {
                if crate::text::same_text(files[k].as_str(), p.as_str()) {
                    assert(sc.encrypted_files@[k as int]@ == p@);
                    assert(model.secure_content matches Some(x) && x == *sc);
                    assert(is_encrypted_path(*model, p@));
                    return true;
                }
                k += 1;
            }
            false
        },
    }
}

fn check_component_references_of(model: &Model, i: usize, known: &HashSet<usize>) -> (r: Result<
    (),
    Error,
>)
    requires
        i < objects(*model).len(),
        known@ == object_ids(*model),
    ensures
        error::reports(
            r,
            error::first(
                objects(*model)[i as int].components@.len() as int,
                component_reference_in(*model, i as int),
            ),
        ),
{
    let o = &model.resources.objects[i];
    let comps = &o.components;
    let ghost n = comps@.len() as int;
    let mut k: usize = 0;
    while k < comps.len()
        invariant
            k <= comps@.len(),
            i < objects(*model).len(),
            *o == objects(*model)[i as int],
            comps@ == o.components@,
            n == comps@.len(),
            known@ == object_ids(*model),
            error::first(n, component_reference_in(*model, i as int)) == error::first_from(
                n,
                component_reference_in(*model, i as int),
                k as int,
            ),
        decreases comps@.len() - k,
    {
        let c = &comps[k];
        let encrypted = match &c.path {
            Some(p) => is_encrypted(model, p),
            None => false,
        };
        let external = match &c.production {
            Some(info) => info.path.is_some(),
            None => false,
        };
        if !encrypted && !external && !known.contains(&c.objectid) {
            let available = ids::sorted_ids_from_set(known);
            return error::fail_ids(
                Kind::ComponentUnknownObject { object: o.id, objectid: c.objectid },
                available,
            );
        }
        k += 1;
    }
    Ok(())
}

/// Checks that components reference existing objects and that no assembly
/// contains itself.
pub fn validate_component_references(model: &Model) -> (r: Result<(), Error>)
    ensures
        error::reports(r, component_references_finding(*model)),
{
    let known = object_id_set(model);
    let objs = &model.resources.objects;
    let ghost n = objs@.len() as int;
    let mut i: usize = 0;
    while i < objs.len()
        invariant
            i <= objs@.len(),
            objs@ == objects(*model),
            n == objs@.len(),
            known@ == object_ids(*model),
            error::first(n, component_reference_check(*model)) == error::first_from(
                n,
                component_reference_check(*model),
                i as int,
            ),
        decreases objs@.len() - i,
    {
        let r = check_component_references_of(model, i, &known);
        if r.is_err() {
            return r;
        }
        i += 1;
    }
    let mut i: usize = 0;
    while i < objs.len()
        invariant
            i <= objs@.len(),
            objs@ == objects(*model),
            n == objs@.len(),
            error::first(n, component_reference_check(*model)) is None,
            error::first(n, cycle_check(*model)) == error::first_from(
                n,
                cycle_check(*model),
                i as int,
            ),
        decreases objs@.len() - i,
    {
        let o = &objs[i];
        if o.components.len() > 0 {
            let mut visited: HashSet<usize> = HashSet::new();
            let mut path: Vec<usize> = Vec::new();
            proof {
                assert(path@ =~= Seq::<usize>::empty());
            }
            let found = detect_circular_components(o.id, model, &mut visited, &mut path);
            match found {
                Ok(Some(cycle)) => {
                    return error::fail_ids(Kind::CircularComponents, cycle);
                },
                _ => {},
            }
        }
        i += 1;
    }
    Ok(())
}

} // verus!
