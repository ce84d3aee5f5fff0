//! What the checks' reports say: the words of some messages, and what
//! passing a check means in both directions.
use crate::error::{self, message, Error, Kind};
use crate::float_bits;
use crate::model::{self, Extension, Mesh, Model, Object, ObjectType, Triangle};
use crate::validator::boolean::{self, defines_shape, named_object};
use crate::validator::materials::{has_material, has_per_vertex, property_size};
use crate::validator::slices;
use crate::validator::beams::{self, lattice_group};
use crate::validator::production::{self, PathRule};
use crate::validator::measures::{self, measures_fit, Measures, DETERMINANT_EPSILON, NEGATIVE_EPSILON};
use crate::validator::beams::lattice_resource;
use crate::model::{BeamSet, DisplacementTriangle, Slice};
use crate::validator::structure::{self, boolean_with_material_ids, objects};
use crate::text;
use crate::validator::displacement::{
    self, corner_normal_of, declares_displacement, geometry_fits, uses_displacement,
    DisplacementGeometry, AREA_EPSILON, NORMAL_LENGTH_EPSILON, VOLUME_EPSILON,
};
use crate::validator::materials::{
    self, base_ids, color_ids, composite_ids, find_id, multi_ids, texture_group_ids,
};
use vstd::prelude::*;

verus! {

proof fn lemma_substring_at(s: Seq<char>, t: Seq<char>, i: int)
    requires
        0 <= i,
        i + t.len() <= s.len(),
        s.subrange(i, i + t.len()) =~= t,
    ensures
        text::has_substring(s, t),
{
}

/// A first finding is one of the findings.
proof fn lemma_first_from_some(n: int, f: spec_fn(int) -> error::Finding, start: int)
    requires
        error::first_from(n, f, start) is Some,
    ensures
        exists|k: int| start <= k < n && error::first_from(n, f, start) == #[trigger] f(k),
    decreases n - start,
{
    if start < n && f(start) is None {
        lemma_first_from_some(n, f, start + 1);
    }
}

/// The text of an error, as `Error::to_string` gives it.
pub open spec fn error_text(e: Error) -> Seq<char> {
    match e {
        Error::InvalidModel(v) => "Invalid model: "@ + message(v),
    }
}

/// Where property group ids repeat, material reference validation fails, and
/// its message speaks of a duplicate resource ID.
pub proof fn lemma_duplicate_group_id_message(m: Model, r: Result<(), Error>)
    requires
        materials::group_ids_finding(m) is Some,
        error::reports(r, materials::material_references_finding(m)),
    ensures
        r matches Err(e) && text::has_substring(error_text(e), "Duplicate resource ID"@),
{
    reveal_strlit("Invalid model: ");
    reveal_strlit("Duplicate resource ID: ");
    reveal_strlit("Duplicate resource ID");
    let f = materials::group_id_check(m);
    lemma_first_from_some(materials::group_entries(m).len() as int, f, 0);
    let k = choose|k: int|
        0 <= k < materials::group_entries(m).len() && materials::group_ids_finding(m) == #[trigger] f(k);
    assert(f(k) is Some);
    let e = r->Err_0;
    let Error::InvalidModel(v) = e;
    assert(error_text(e).subrange(15, 36) =~= "Duplicate resource ID"@);
    lemma_substring_at(error_text(e), "Duplicate resource ID"@, 15);
}

/// Where a model holds displacement elements without declaring the
/// extension, displacement validation fails, and its message says that the
/// extension is not declared.
pub proof fn lemma_displacement_not_declared_message(
    m: Model,
    geo: DisplacementGeometry,
    r: Result<(), Error>,
)
    requires
        uses_displacement(m),
        !declares_displacement(m),
        error::reports(r, displacement::displacement_finding(m, geo)),
    ensures
        r matches Err(e) && text::has_substring(error_text(e), "not declared"@),
{
    reveal_strlit("Invalid model: ");
    reveal_strlit("not declared");
    reveal_strlit("Model contains displacement extension elements (displacement2d, normvectorgroup, disp2dgroup, or displacementmesh) but displacement extension is not declared in requiredextensions attribute.\nPer 3MF Displacement Extension spec, files using displacement elements MUST declare the displacement extension as a required extension in the <model> element's requiredextensions attribute.\nAdd 'd' to requiredextensions and declare xmlns:d=\"http://schemas.microsoft.com/3dmanufacturing/displacement/2022/07\".");
    let e = r->Err_0;
    let s = error_text(e);
    assert(s.subrange(160int, 172int) =~= "not declared"@);
    lemma_substring_at(s, "not declared"@, 160int);
}

/// A model without displacement elements passes the displacement checks.
pub proof fn lemma_no_displacement_elements_pass(m: Model, geo: DisplacementGeometry)
    requires
        !uses_displacement(m),
    ensures
        displacement::displacement_finding(m, geo) is None,
{
    let no = m.resources.objects@.len() as int;
    let f = displacement::disp_object_check(m, geo);
    error::lemma_first_none(no, f);
    assert forall|i: int| 0 <= i < no implies (#[trigger] f(i)) is None by {
        assert(m.resources.objects@[i].displacement_mesh is None);
    }
}

/// Where no property group has the id, its size is refused, with a message
/// that says the resource is not found.
pub proof fn lemma_missing_property_resource_message(m: Model, id: usize, r: Result<usize, Error>)
    requires
        !color_ids(m).contains(id),
        !texture_group_ids(m).contains(id),
        !composite_ids(m).contains(id),
        !base_ids(m).contains(id),
        !multi_ids(m).contains(id),
        materials::reports_size(r, materials::property_size(m, id)),
    ensures
        r matches Err(e) && text::has_substring(error_text(e), "not found"@),
{
    materials::lemma_find_id(color_ids(m), id);
    materials::lemma_find_id(texture_group_ids(m), id);
    materials::lemma_find_id(composite_ids(m), id);
    materials::lemma_find_id(base_ids(m), id);
    materials::lemma_find_id(multi_ids(m), id);
    reveal_strlit("Invalid model: ");
    reveal_strlit("Property resource ");
    reveal_strlit("not found");
    reveal_strlit(" not found or is not a valid property resource type");
    let e = r->Err_0;
    let s = error_text(e);
    let d = text::decimal(id as nat);
    let at: int = 34int + d.len();
    assert(s.subrange(at, at + 9) =~= "not found"@);
    lemma_substring_at(s, "not found"@, at);
}

/// Without an object pid, the triangles all carry a material or none does;
/// and a triangle with per-vertex properties has a pid of its own or the
/// object's.
pub open spec fn triangle_materials_ok(object_pid: Option<usize>, mesh: Mesh) -> bool {
    let tris = mesh.triangles@;
    &&& object_pid is Some || (forall|k: int| 0 <= k < tris.len() ==> has_material(#[trigger] tris[k]))
        || (forall|k: int| 0 <= k < tris.len() ==> !has_material(#[trigger] tris[k]))
    &&& forall|k: int|
        0 <= k < tris.len() && has_per_vertex(#[trigger] tris[k]) ==> tris[k].pid is Some
            || object_pid is Some
}

/// The triangle material check passes exactly when the triangles assign
/// materials consistently (see `triangle_materials_ok`); the object id and
/// the context only enter the message.
pub proof fn lemma_triangle_materials_meaning(
    object_id: usize,
    object_pid: Option<usize>,
    mesh: Mesh,
    context: Seq<char>,
)
    ensures
        materials::triangle_materials_finding(object_id, object_pid, mesh, context) is None
            <==> triangle_materials_ok(object_pid, mesh),
{
}

/// The pindex of object `o` names an entry of a non-empty property resource
/// that its pid names; its triangles assign materials consistently; each
/// triangle pindex into a multiproperties group fits it.
pub open spec fn object_properties_ok(m: Model, o: Object) -> bool {
    &&& match (o.pid, o.pindex) {
        (Some(p), Some(x)) => property_size(m, p).0 is None && x < property_size(m, p).1,
        _ => true,
    }
    &&& match o.mesh {
        Some(mesh) => {
            &&& triangle_materials_ok(o.pid, mesh)
            &&& forall|k: int|
                0 <= k < mesh.triangles@.len() ==> match (#[trigger] mesh.triangles@[k]).pid {
                    Some(p) => match mesh.triangles@[k].pindex {
                        Some(x) => match find_id(multi_ids(m), p) {
                            Some(j) => x < m.resources.multi_properties@[j].multis@.len(),
                            None => true,
                        },
                        None => true,
                    },
                    None => true,
                }
        },
        None => true,
    }
}

/// A model passes the triangle property checks exactly when each object
/// passes them (see `object_properties_ok`).
pub proof fn lemma_triangle_properties_meaning(m: Model)
    ensures
        materials::triangle_properties_finding(m) is None <==> forall|i: int|
            0 <= i < m.resources.objects@.len() ==> object_properties_ok(
                m,
                #[trigger] m.resources.objects@[i],
            ),
{
    let n = m.resources.objects@.len() as int;
    let f = materials::triangle_properties_check(m);
    error::lemma_first_none(n, f);
    assert forall|i: int|
        #![trigger f(i)]
        #![trigger m.resources.objects@[i]]
        0 <= i < n implies f(i) is None <==> object_properties_ok(m, m.resources.objects@[i]) by {
        let o = m.resources.objects@[i];
        if let Some(mesh) = o.mesh {
            let g = materials::triangle_multi_check(m, o, mesh);
            error::lemma_first_none(mesh.triangles@.len() as int, g);
            if f(i) is None {
                assert forall|k: int| 0 <= k < mesh.triangles@.len() implies match (
                #[trigger] mesh.triangles@[k]).pid {
                    Some(p) => match mesh.triangles@[k].pindex {
                        Some(x) => match find_id(multi_ids(m), p) {
                            Some(j) => x < m.resources.multi_properties@[j].multis@.len(),
                            None => true,
                        },
                        None => true,
                    },
                    None => true,
                } by {
                    assert(g(k) is None);
                }
            }
            if object_properties_ok(m, o) {
                assert forall|k: int| 0 <= k < mesh.triangles@.len() implies (#[trigger] g(k)) is None by {
                    assert(mesh.triangles@[k] == mesh.triangles@[k]);
                }
            }
        }
    }
}

/// The base of boolean shape `bs` of object `i`: external, or the object its
/// id names (the last with that id) comes earlier, is a model object, and
/// defines a shape.
pub open spec fn boolean_base_ok(m: Model, i: int, bs: model::BooleanShape) -> bool {
    bs.path is Some || match named_object(m, bs.objectid) {
        Some(b) => b < i && m.resources.objects@[b].object_type == ObjectType::Model && defines_shape(
            m.resources.objects@[b],
        ),
        None => false,
    }
}

/// An operand of a boolean shape of object `i`: external, or the object its
/// id names comes earlier and is a model object with a mesh, without a
/// boolean shape, components or shapes of other extensions.
pub open spec fn boolean_operand_ok(m: Model, i: int, r: model::BooleanRef) -> bool {
    r.path is Some || match named_object(m, r.objectid) {
        Some(b) => {
            let op = m.resources.objects@[b];
            &&& b < i
            &&& op.object_type == ObjectType::Model
            &&& op.mesh is Some
            &&& op.boolean_shape is None
            &&& op.components@.len() == 0
            &&& !op.has_extension_shapes
        },
        None => false,
    }
}

/// Object `i`, where it has a boolean shape, is a model object without
/// components or mesh, with at least one operand, and a valid base and
/// operands.
pub open spec fn boolean_object_ok(m: Model, i: int) -> bool {
    let o = m.resources.objects@[i];
    match o.boolean_shape {
        Some(bs) => {
            &&& o.object_type == ObjectType::Model
            &&& o.components@.len() == 0
            &&& o.mesh is None
            &&& bs.operands@.len() > 0
            &&& boolean_base_ok(m, i, bs)
            &&& forall|k: int| 0 <= k < bs.operands@.len() ==> boolean_operand_ok(m, i, #[trigger] bs.operands@[k])
        },
        None => true,
    }
}

/// A model passes the boolean operation checks exactly when each object with
/// a boolean shape is valid (see `boolean_object_ok`).
pub proof fn lemma_boolean_operations_meaning(m: Model)
    ensures
        boolean::boolean_operations_finding(m) is None <==> forall|i: int|
            0 <= i < m.resources.objects@.len() ==> #[trigger] boolean_object_ok(m, i),
{
    let n = m.resources.objects@.len() as int;
    let f = boolean::boolean_object_check(m);
    error::lemma_first_none(n, f);
    assert forall|i: int|
        #![trigger f(i)]
        #![trigger boolean_object_ok(m, i)]
        0 <= i < n implies f(i) is None <==> boolean_object_ok(m, i) by {
        let o = m.resources.objects@[i];
        if let Some(bs) = o.boolean_shape {
            let g = boolean::operand_check(m, i, o, bs);
            error::lemma_first_none(bs.operands@.len() as int, g);
            assert forall|k: int|
                #![trigger g(k)]
                #![trigger bs.operands@[k]]
                0 <= k < bs.operands@.len() implies g(k) is None <==> boolean_operand_ok(m, i, bs.operands@[k]) by {}
        }
    }
}

/// Boolean shapes need the Boolean Operations extension declared, and no
/// object with a boolean shape has a pid or pindex.
pub open spec fn boolean_declarations_ok(m: Model) -> bool {
    let objs = objects(m);
    &&& (exists|i: int| 0 <= i < objs.len() && #[trigger] objs[i].boolean_shape is Some)
        ==> model::extension_listed(m.required_extensions@, Extension::BooleanOperations)
    &&& forall|i: int|
        0 <= i < objs.len() && (#[trigger] objs[i]).boolean_shape is Some ==> objs[i].pid is None
            && objs[i].pindex is None
}

proof fn lemma_boolean_with_material_none(objs: Seq<Object>)
    ensures
        boolean_with_material_ids(objs).len() == 0 <==> forall|i: int|
            0 <= i < objs.len() ==> !((#[trigger] objs[i]).boolean_shape is Some && (objs[i].pid is Some
                || objs[i].pindex is Some)),
    decreases objs.len(),
{
    if objs.len() > 0 {
        let r = objs.drop_last();
        lemma_boolean_with_material_none(r);
        let bad = |o: Object| o.boolean_shape is Some && (o.pid is Some || o.pindex is Some);
        assert forall|i: int| 0 <= i < r.len() implies #[trigger] r[i] == objs[i] by {}
        if forall|i: int| 0 <= i < objs.len() ==> !bad(#[trigger] objs[i]) {
            assert forall|i: int| 0 <= i < r.len() implies !bad(#[trigger] r[i]) by {
                assert(r[i] == objs[i]);
                assert(!bad(objs[i]));
            }
            assert(!bad(objs[objs.len() - 1]));
        }
        if boolean_with_material_ids(objs).len() == 0 {
            assert forall|i: int| 0 <= i < objs.len() implies !bad(#[trigger] objs[i]) by {
                if i < r.len() {
                    assert(r[i] == objs[i]);
                    assert(!bad(r[i]));
                }
            }
        }
    }
}

/// A model passes the required extension check exactly when its boolean
/// shapes are declared and carry no material properties (see
/// `boolean_declarations_ok`).
pub proof fn lemma_required_extensions_meaning(m: Model)
    ensures
        structure::required_extensions_finding(m) is None <==> boolean_declarations_ok(m),
{
    lemma_boolean_with_material_none(objects(m));
}

/// The slices of each stack rise: each top lies at or above the stack's
/// bottom and strictly above the previous top; and each slice is valid by
/// itself.
pub open spec fn slice_stacks_ok(m: Model) -> bool {
    forall|s: int, k: int|
        #![trigger m.resources.slice_stacks@[s].slices@[k]]
        0 <= s < m.resources.slice_stacks@.len() && 0 <= k
            < m.resources.slice_stacks@[s].slices@.len() ==> {
            let st = m.resources.slice_stacks@[s];
            let sl = st.slices@[k];
            &&& !float_bits::spec_lt(sl.ztop, st.zbottom)
            &&& k > 0 ==> !float_bits::spec_le(sl.ztop, st.slices@[k - 1].ztop)
            &&& slices::slice_finding(st.id, k, sl) is None
        }
}

/// A model passes the slice checks exactly when its slice stacks rise and
/// each slice is valid (see `slice_stacks_ok`).
pub proof fn lemma_slices_meaning(m: Model)
    ensures
        slices::slices_finding(m) is None <==> slice_stacks_ok(m),
{
    let n = m.resources.slice_stacks@.len() as int;
    let f = slices::stack_check(m);
    error::lemma_first_none(n, f);
    if slices::slices_finding(m) is None {
        assert forall|s: int, k: int|
            #![trigger m.resources.slice_stacks@[s].slices@[k]]
            0 <= s < n && 0 <= k < m.resources.slice_stacks@[s].slices@.len() implies {
            let st = m.resources.slice_stacks@[s];
            let sl = st.slices@[k];
            &&& !float_bits::spec_lt(sl.ztop, st.zbottom)
            &&& k > 0 ==> !float_bits::spec_le(sl.ztop, st.slices@[k - 1].ztop)
            &&& slices::slice_finding(st.id, k, sl) is None
        } by {
            assert(f(s) is None);
            let g = slices::stack_slice_check(m, s);
            error::lemma_first_none(m.resources.slice_stacks@[s].slices@.len() as int, g);
            assert(g(k) is None);
        }
    }
    if slice_stacks_ok(m) {
        assert forall|s: int| 0 <= s < n implies (#[trigger] f(s)) is None by {
            let g = slices::stack_slice_check(m, s);
            error::lemma_first_none(m.resources.slice_stacks@[s].slices@.len() as int, g);
            assert forall|k: int| 0 <= k < m.resources.slice_stacks@[s].slices@.len() implies (
            #[trigger] g(k)) is None by {
                assert(m.resources.slice_stacks@[s].slices@[k] == m.resources.slice_stacks@[s].slices@[k]);
            }
        }
    }
}

/// `d`, where it holds an index, is below `n`.
pub open spec fn slot_fits(d: Option<usize>, n: nat) -> bool {
    match d {
        Some(x) => x < n,
        None => true,
    }
}

/// Each coordinate index of displacement triangle `tri` that is present is
/// below the number of coordinates of the group its `did` names (the first
/// group with that id), and that group exists.
pub open spec fn triangle_coords_fit(m: Model, tri: DisplacementTriangle) -> bool {
    match tri.did {
        Some(g) => match find_id(displacement::disp_group_ids(m), g) {
            Some(gi) => {
                let n = m.resources.disp2d_groups@[gi].coords@.len();
                slot_fits(tri.d1, n) && slot_fits(tri.d2, n) && slot_fits(tri.d3, n)
            },
            None => false,
        },
        None => true,
    }
}

/// Where displacement validation passes, every triangle of every
/// displacement mesh that names a coordinate group has coordinate indices
/// strictly below that group's number of coordinates.
pub proof fn lemma_displacement_coordinates_in_range(
    m: Model,
    geo: DisplacementGeometry,
    r: Result<(), Error>,
)
    requires
        error::reports(r, displacement::displacement_finding(m, geo)),
        r is Ok,
        forall|g: int|
            0 <= g < m.resources.disp2d_groups@.len() ==> (#[trigger] m.resources.disp2d_groups@[g]).coords@.len()
                <= usize::MAX,
    ensures
        forall|i: int, t: int|
            #![trigger m.resources.objects@[i].displacement_mesh->0.triangles@[t]]
            0 <= i < m.resources.objects@.len() && m.resources.objects@[i].displacement_mesh is Some
                && 0 <= t < m.resources.objects@[i].displacement_mesh->0.triangles@.len()
                ==> triangle_coords_fit(
                m,
                m.resources.objects@[i].displacement_mesh->0.triangles@[t],
            ),
{
    let no = m.resources.objects@.len() as int;
    let f = displacement::disp_object_check(m, geo);
    error::lemma_first_none(no, f);
    assert forall|i: int, t: int|
        #![trigger m.resources.objects@[i].displacement_mesh->0.triangles@[t]]
        0 <= i < no && m.resources.objects@[i].displacement_mesh is Some && 0 <= t
            < m.resources.objects@[i].displacement_mesh->0.triangles@.len() implies triangle_coords_fit(
        m,
        m.resources.objects@[i].displacement_mesh->0.triangles@[t],
    ) by {
        let o = m.resources.objects@[i];
        let dm = o.displacement_mesh->0;
        assert(f(i) is None);
        let ft = displacement::disp_triangle_check(m, geo, i, o.id, dm);
        error::lemma_first_none(dm.triangles@.len() as int, ft);
        assert(ft(t) is None);
        let tri = dm.triangles@[t];
        if let Some(g) = tri.did {
            if let Some(gi) = find_id(displacement::disp_group_ids(m), g) {
                materials::lemma_find_id_from(displacement::disp_group_ids(m), g, 0);
                assert(m.resources.disp2d_groups@[gi].coords@.len() <= usize::MAX);
            }
        }
    }
}

/// Where beam lattice validation passes, the p1 and p2 of each beam fit the
/// color or base material group that the beam's own pid names; a beam
/// without a pid of its own is held to the group of the lattice's pid.
pub proof fn lemma_beam_properties_follow_own_pid(m: Model, r: Result<(), Error>)
    requires
        error::reports(r, beams::beam_lattice_finding(m)),
        r is Ok,
    ensures
        forall|i: int, b: int|
            #![trigger m.resources.objects@[i].mesh->0.beamset->0.beams@[b]]
            0 <= i < m.resources.objects@.len() && m.resources.objects@[i].mesh is Some
                && m.resources.objects@[i].mesh->0.beamset is Some && 0 <= b
                < m.resources.objects@[i].mesh->0.beamset->0.beams@.len() ==> {
                let bs = m.resources.objects@[i].mesh->0.beamset->0;
                let beam = bs.beams@[b];
                &&& (beam.property_id matches Some(p) ==> (lattice_group(m, p) matches Some((_, n))
                    ==> (beam.p1 matches Some(x) ==> (x as usize) < n) && (beam.p2 matches Some(x) ==> (x as usize) < n)))
                &&& (beam.property_id is None && bs.property_id is Some ==> (lattice_group(
                    m,
                    bs.property_id->0,
                ) matches Some((_, n)) ==> (beam.p1 matches Some(x) ==> (x as usize) < n) && (beam.p2 matches Some(x) ==> (x as usize) < n)))
            },
{
    let no = m.resources.objects@.len() as int;
    let f = beams::object_lattice_check(m);
    error::lemma_first_none(no, f);
    assert forall|i: int, b: int|
        #![trigger m.resources.objects@[i].mesh->0.beamset->0.beams@[b]]
        0 <= i < no && m.resources.objects@[i].mesh is Some
            && m.resources.objects@[i].mesh->0.beamset is Some && 0 <= b
            < m.resources.objects@[i].mesh->0.beamset->0.beams@.len() implies {
        let bs = m.resources.objects@[i].mesh->0.beamset->0;
        let beam = bs.beams@[b];
        &&& (beam.property_id matches Some(p) ==> (lattice_group(m, p) matches Some((_, n))
            ==> (beam.p1 matches Some(x) ==> (x as usize) < n) && (beam.p2 matches Some(x) ==> (x as usize) < n)))
        &&& (beam.property_id is None && bs.property_id is Some ==> (lattice_group(
            m,
            bs.property_id->0,
        ) matches Some((_, n)) ==> (beam.p1 matches Some(x) ==> (x as usize) < n) && (beam.p2 matches Some(x) ==> (x as usize) < n)))
    } by {
        let o = m.resources.objects@[i];
        let mesh = o.mesh->0;
        let bs = mesh.beamset->0;
        assert(f(i) is None);
        let fb = beams::beam_property_check(m, o.id, bs);
        error::lemma_first_none(bs.beams@.len() as int, fb);
        assert(fb(b) is None);
    }
}

/// Where a slice passes validation, every one of its polygons (not only the
/// first) starts at a vertex of the slice, has two segments at least, each
/// ending at a vertex of the slice and not at the previous segment's vertex,
/// and closes at its start vertex.
pub proof fn lemma_every_slice_polygon_valid(stack: usize, k: int, slice: Slice, r: Result<(), Error>)
    requires
        error::reports(r, slices::slice_finding(stack, k, slice)),
        r is Ok,
        slice.vertices@.len() <= usize::MAX,
    ensures
        forall|p: int|
            0 <= p < slice.polygons@.len() ==> {
                let poly = #[trigger] slice.polygons@[p];
                let segs = poly.segments@;
                &&& poly.startv < slice.vertices@.len()
                &&& segs.len() >= 2
                &&& forall|g: int| 0 <= g < segs.len() ==> (#[trigger] segs[g]).v2 < slice.vertices@.len()
                &&& forall|g: int| 0 < g < segs.len() ==> (#[trigger] segs[g]).v2 != segs[g - 1].v2
                &&& segs[segs.len() - 1].v2 == poly.startv
            },
{
    let np = slice.polygons@.len() as int;
    if np > 0 {
        let f = slices::polygon_check(stack, k, slice);
        error::lemma_first_none(np, f);
        assert forall|p: int| 0 <= p < np implies {
            let poly = #[trigger] slice.polygons@[p];
            let segs = poly.segments@;
            &&& poly.startv < slice.vertices@.len()
            &&& segs.len() >= 2
            &&& forall|g: int| 0 <= g < segs.len() ==> (#[trigger] segs[g]).v2 < slice.vertices@.len()
            &&& forall|g: int| 0 < g < segs.len() ==> (#[trigger] segs[g]).v2 != segs[g - 1].v2
            &&& segs[segs.len() - 1].v2 == poly.startv
        } by {
            assert(f(p) is None);
            let poly = slice.polygons@[p];
            let segs = poly.segments@;
            let fs = slices::segment_check(stack, k, slice, p);
            error::lemma_first_none(segs.len() as int, fs);
            assert forall|g: int| 0 <= g < segs.len() implies (#[trigger] segs[g]).v2 < slice.vertices@.len() by {
                assert(fs(g) is None);
            }
            assert forall|g: int| 0 < g < segs.len() implies (#[trigger] segs[g]).v2 != segs[g - 1].v2 by {
                assert(fs(g) is None);
            }
        }
    }
}

/// Where the model requires the production extension and the required-UUID
/// check passes, the build (when it has items), every build item and every
/// object carry a UUID; an object's production information without a UUID
/// does not count.
pub proof fn lemma_required_uuids_present(m: Model, r: Result<(), Error>)
    requires
        model::extension_listed(m.required_extensions@, Extension::Production),
        error::reports(r, production::uuids_required_finding(m)),
        r is Ok,
    ensures
        m.build.items@.len() > 0 ==> m.build.production_uuid is Some,
        forall|k: int| 0 <= k < m.build.items@.len() ==> (#[trigger] m.build.items@[k]).production_uuid is Some,
        forall|i: int|
            0 <= i < m.resources.objects@.len() ==> (#[trigger] m.resources.objects@[i]).production is Some
                && m.resources.objects@[i].production->0.uuid is Some,
{
    let fi = production::item_uuid_check(m);
    let fo = production::object_uuid_check(m);
    error::lemma_first_none(m.build.items@.len() as int, fi);
    error::lemma_first_none(m.resources.objects@.len() as int, fo);
    assert forall|k: int| 0 <= k < m.build.items@.len() implies (#[trigger] m.build.items@[k]).production_uuid is Some by {
        assert(fi(k) is None);
    }
    assert forall|i: int| 0 <= i < m.resources.objects@.len() implies (#[trigger] m.resources.objects@[i]).production is Some
        && m.resources.objects@[i].production->0.uuid is Some by {
        assert(fo(i) is None);
    }
}

/// Where beam lattice validation passes, the pid of each lattice and of each
/// ball names an object or property group, and a lattice's or ball's pindex
/// fits the color or base material group its pid names.
pub proof fn lemma_lattice_and_ball_properties(m: Model, r: Result<(), Error>)
    requires
        error::reports(r, beams::beam_lattice_finding(m)),
        r is Ok,
    ensures
        forall|i: int|
            0 <= i < m.resources.objects@.len() && (#[trigger] m.resources.objects@[i]).mesh is Some
                && m.resources.objects@[i].mesh->0.beamset is Some ==> {
                let bs = m.resources.objects@[i].mesh->0.beamset->0;
                bs.property_id matches Some(p) ==> lattice_resource(m, p as usize) && (
                bs.property_index matches Some(x) ==> (lattice_group(m, p) matches Some((_, n)) ==> (x as usize) < n))
            },
        forall|i: int, k: int|
            #![trigger m.resources.objects@[i].mesh->0.beamset->0.balls@[k]]
            0 <= i < m.resources.objects@.len() && m.resources.objects@[i].mesh is Some
                && m.resources.objects@[i].mesh->0.beamset is Some && 0 <= k
                < m.resources.objects@[i].mesh->0.beamset->0.balls@.len() ==> {
                let ball = m.resources.objects@[i].mesh->0.beamset->0.balls@[k];
                ball.property_id matches Some(p) ==> lattice_resource(m, p as usize) && (
                ball.property_index matches Some(x) ==> (lattice_group(m, p) matches Some((_, n)) ==> (x as usize) < n))
            },
{
    let no = m.resources.objects@.len() as int;
    let f = beams::object_lattice_check(m);
    error::lemma_first_none(no, f);
    assert forall|i: int|
        0 <= i < no && (#[trigger] m.resources.objects@[i]).mesh is Some
            && m.resources.objects@[i].mesh->0.beamset is Some implies {
        let bs = m.resources.objects@[i].mesh->0.beamset->0;
        bs.property_id matches Some(p) ==> lattice_resource(m, p as usize) && (
        bs.property_index matches Some(x) ==> (lattice_group(m, p) matches Some((_, n)) ==> (x as usize) < n))
    } by {
        assert(f(i) is None);
    }
    assert forall|i: int, k: int|
        #![trigger m.resources.objects@[i].mesh->0.beamset->0.balls@[k]]
        0 <= i < no && m.resources.objects@[i].mesh is Some
            && m.resources.objects@[i].mesh->0.beamset is Some && 0 <= k
            < m.resources.objects@[i].mesh->0.beamset->0.balls@.len() implies {
        let ball = m.resources.objects@[i].mesh->0.beamset->0.balls@[k];
        ball.property_id matches Some(p) ==> lattice_resource(m, p as usize) && (
        ball.property_index matches Some(x) ==> (lattice_group(m, p) matches Some((_, n)) ==> (x as usize) < n))
    } by {
        let o = m.resources.objects@[i];
        let mesh = o.mesh->0;
        let bs = mesh.beamset->0;
        assert(f(i) is None);
        let fb = beams::ball_check(m, o.id, mesh.vertices@.len() as usize, bs);
        error::lemma_first_none(bs.balls@.len() as int, fb);
        assert(fb(k) is None);
    }
}

/// Where the transform check passes on measures that fit the model, the
/// transform of each build item that does not place a sliced object has a
/// determinant that is neither within `1e-10` of zero nor negative.
pub proof fn lemma_transforms_not_singular_or_mirrored(m: Model, meas: Measures, r: Result<(), Error>)
    requires
        measures_fit(m, meas),
        error::reports(r, measures::transforms_finding(m, meas)),
        r is Ok,
    ensures
        forall|k: int|
            0 <= k < m.build.items@.len() && (#[trigger] m.build.items@[k]).transform is Some
                && !measures::is_sliced_id(m, m.build.items@[k].objectid) ==> {
                let det = meas.determinants@[k];
                &&& !(float_bits::spec_lt(det, DETERMINANT_EPSILON) && float_bits::spec_lt(
                    measures::NEGATIVE_EPSILON,
                    det,
                ))
                &&& !float_bits::spec_lt(det, float_bits::ZERO_BITS)
            },
{
    let f = measures::item_transform_check(m, meas);
    error::lemma_first_none(m.build.items@.len() as int, f);
    assert forall|k: int|
        0 <= k < m.build.items@.len() && (#[trigger] m.build.items@[k]).transform is Some
            && !measures::is_sliced_id(m, m.build.items@[k].objectid) implies {
        let det = meas.determinants@[k];
        &&& !(float_bits::spec_lt(det, DETERMINANT_EPSILON) && float_bits::spec_lt(
            measures::NEGATIVE_EPSILON,
            det,
        ))
        &&& !float_bits::spec_lt(det, float_bits::ZERO_BITS)
    } by {
        assert(f(k) is None);
    }
}

/// Where the mesh volume check passes on measures that fit the model, each
/// object with a mesh and no slice stack has a signed volume of at least
/// `-1e-10`.
pub proof fn lemma_mesh_volumes_not_negative(m: Model, meas: Measures, r: Result<(), Error>)
    requires
        measures_fit(m, meas),
        error::reports(r, measures::mesh_volumes_finding(m, meas)),
        r is Ok,
    ensures
        forall|i: int|
            0 <= i < m.resources.objects@.len() && (#[trigger] m.resources.objects@[i]).mesh is Some
                && m.resources.objects@[i].slicestackid is None ==> !float_bits::spec_lt(
                meas.mesh_volumes@[i],
                NEGATIVE_EPSILON,
            ),
{
    let f = measures::mesh_volume_check(m, meas);
    error::lemma_first_none(m.resources.objects@.len() as int, f);
    assert forall|i: int|
        0 <= i < m.resources.objects@.len() && (#[trigger] m.resources.objects@[i]).mesh is Some
            && m.resources.objects@[i].slicestackid is None implies !float_bits::spec_lt(
        meas.mesh_volumes@[i],
        NEGATIVE_EPSILON,
    ) by {
        assert(f(i) is None);
    }
}

/// The measured facts of displacement triangle `t` of the displacement mesh
/// of object `i`: its vertices are in range and distinct, its doubled area
/// is not below `1e-20` in square, and each of its corners that selects a
/// normal vector makes a scalar product above `1e-10` with its normal.
pub open spec fn disp_triangle_measures_ok(m: Model, geo: DisplacementGeometry, i: int, t: int) -> bool {
    let dm = m.resources.objects@[i].displacement_mesh->0;
    let tri = dm.triangles@[t];
    let nv = dm.vertices@.len();
    let dots = geo.meshes@[i].dots@[t];
    &&& tri.v1 < nv && tri.v2 < nv && tri.v3 < nv
    &&& tri.v1 != tri.v2 && tri.v2 != tri.v3 && tri.v1 != tri.v3
    &&& !float_bits::spec_lt(geo.meshes@[i].areas@[t], AREA_EPSILON)
    &&& corner_normal_of(m, tri.did, tri.d1) is Some ==> !float_bits::spec_le(dots.0, VOLUME_EPSILON)
    &&& corner_normal_of(m, tri.did, tri.d2) is Some ==> !float_bits::spec_le(dots.1, VOLUME_EPSILON)
    &&& corner_normal_of(m, tri.did, tri.d3) is Some ==> !float_bits::spec_le(dots.2, VOLUME_EPSILON)
}

/// Where displacement validation passes on measures that fit the model:
/// every normal vector has a squared length of at least `1e-6`; every
/// displacement mesh has a volume of at least `1e-10` and no pair of close
/// vertices; and each of its triangles meets `disp_triangle_measures_ok`.
pub proof fn lemma_displacement_measures(m: Model, geo: DisplacementGeometry, r: Result<(), Error>)
    requires
        geometry_fits(m, geo),
        error::reports(r, displacement::displacement_finding(m, geo)),
        r is Ok,
    ensures
        forall|g: int, v: int|
            #![trigger geo.normal_lengths@[g]@[v]]
            0 <= g < m.resources.norm_vector_groups@.len() && 0 <= v
                < m.resources.norm_vector_groups@[g].vectors@.len() ==> !float_bits::spec_lt(
                geo.normal_lengths@[g]@[v],
                NORMAL_LENGTH_EPSILON,
            ),
        forall|i: int|
            0 <= i < m.resources.objects@.len() && (#[trigger] m.resources.objects@[i]).displacement_mesh
                is Some ==> {
                &&& !float_bits::spec_lt(geo.meshes@[i].volume, VOLUME_EPSILON)
                &&& geo.meshes@[i].close_vertices is Some ==> (geo.meshes@[i].close_vertices->0).0
                    >= m.resources.objects@[i].displacement_mesh->0.vertices@.len()
            },
        forall|i: int, t: int|
            #![trigger m.resources.objects@[i].displacement_mesh->0.triangles@[t]]
            0 <= i < m.resources.objects@.len() && m.resources.objects@[i].displacement_mesh is Some
                && 0 <= t < m.resources.objects@[i].displacement_mesh->0.triangles@.len()
                ==> disp_triangle_measures_ok(m, geo, i, t),
{
    let ng = m.resources.norm_vector_groups@.len() as int;
    let fnm = displacement::normal_group_check(m, geo);
    error::lemma_first_none(ng, fnm);
    assert forall|g: int, v: int|
        #![trigger geo.normal_lengths@[g]@[v]]
        0 <= g < ng && 0 <= v < m.resources.norm_vector_groups@[g].vectors@.len() implies !float_bits::spec_lt(
        geo.normal_lengths@[g]@[v],
        NORMAL_LENGTH_EPSILON,
    ) by {
        assert(fnm(g) is None);
        let fv = displacement::vector_check(m, geo, g);
        error::lemma_first_none(m.resources.norm_vector_groups@[g].vectors@.len() as int, fv);
        assert(fv(v) is None);
        assert(geo.normal_lengths@[g]@.len() == m.resources.norm_vector_groups@[g].vectors@.len());
    }
    let no = m.resources.objects@.len() as int;
    let f = displacement::disp_object_check(m, geo);
    error::lemma_first_none(no, f);
    assert forall|i: int|
        0 <= i < no && (#[trigger] m.resources.objects@[i]).displacement_mesh is Some implies {
        &&& !float_bits::spec_lt(geo.meshes@[i].volume, VOLUME_EPSILON)
        &&& geo.meshes@[i].close_vertices is Some ==> (geo.meshes@[i].close_vertices->0).0
            >= m.resources.objects@[i].displacement_mesh->0.vertices@.len()
    } by {
        assert(f(i) is None);
    }
    assert forall|i: int, t: int|
        #![trigger m.resources.objects@[i].displacement_mesh->0.triangles@[t]]
        0 <= i < no && m.resources.objects@[i].displacement_mesh is Some && 0 <= t
            < m.resources.objects@[i].displacement_mesh->0.triangles@.len() implies disp_triangle_measures_ok(
        m,
        geo,
        i,
        t,
    ) by {
        let o = m.resources.objects@[i];
        let dm = o.displacement_mesh->0;
        assert(f(i) is None);
        let ft = displacement::disp_triangle_check(m, geo, i, o.id, dm);
        error::lemma_first_none(dm.triangles@.len() as int, ft);
        assert(ft(t) is None);
        assert(geo.meshes@[i].areas@.len() == dm.triangles@.len());
        assert(geo.meshes@[i].dots@.len() == dm.triangles@.len());
    }
}

/// A model passes the structure check exactly when it has an object, a slice
/// stack or a build item with an external path; and a build item unless it
/// carries slice stacks.
pub proof fn lemma_required_structure_meaning(m: Model)
    ensures
        structure::required_structure_finding(m) is None <==> {
            &&& objects(m).len() > 0 || m.resources.slice_stacks@.len() > 0 || exists|i: int|
                0 <= i < m.build.items@.len() && (#[trigger] m.build.items@[i]).production_path is Some
            &&& m.build.items@.len() > 0 || m.resources.slice_stacks@.len() > 0
        },
{
}

/// A model passes the assembly property check exactly when no object with
/// components has a pid or a pindex.
pub proof fn lemma_component_properties_meaning(m: Model)
    ensures
        structure::component_properties_finding(m) is None <==> forall|i: int|
            0 <= i < objects(m).len() && (#[trigger] objects(m)[i]).components@.len() > 0
                ==> objects(m)[i].pid is None && objects(m)[i].pindex is None,
{
    let f = structure::component_property_check(m);
    error::lemma_first_none(objects(m).len() as int, f);
    assert forall|i: int|
        #![trigger f(i)]
        #![trigger objects(m)[i]]
        0 <= i < objects(m).len() implies f(i) is None <==> (objects(m)[i].components@.len() > 0
        ==> objects(m)[i].pid is None && objects(m)[i].pindex is None) by {}
}

/// A model passes the color check exactly when every color group holds a
/// color.
pub proof fn lemma_color_groups_meaning(m: Model)
    ensures
        materials::color_formats_finding(m) is None <==> forall|i: int|
            0 <= i < m.resources.color_groups@.len() ==> (#[trigger] m.resources.color_groups@[i]).colors@.len()
                > 0,
{
    let f = materials::color_group_check(m);
    error::lemma_first_none(m.resources.color_groups@.len() as int, f);
    assert forall|i: int|
        #![trigger f(i)]
        #![trigger m.resources.color_groups@[i]]
        0 <= i < m.resources.color_groups@.len() implies f(i) is None <==> m.resources.color_groups@[i].colors@.len()
        > 0 by {}
}

/// Where the production check under a configuration passes: a model with
/// production attributes declares the extension or the configuration
/// supports it, and every component with a production path has a UUID.
pub proof fn lemma_production_support(m: Model, supported: Seq<Extension>, r: Result<(), Error>)
    requires
        error::reports(r, production::production_support_finding(m, supported)),
        r is Ok,
    ensures
        production::uses_production_attributes(m) ==> model::extension_listed(
            m.required_extensions@,
            Extension::Production,
        ) || model::extension_listed(supported, Extension::Production),
        forall|i: int, k: int|
            #![trigger m.resources.objects@[i].components@[k]]
            0 <= i < m.resources.objects@.len() && 0 <= k < m.resources.objects@[i].components@.len()
                && m.resources.objects@[i].components@[k].production is Some
                && m.resources.objects@[i].components@[k].production->0.path is Some
                ==> m.resources.objects@[i].components@[k].production->0.uuid is Some,
{
    let objs = m.resources.objects@;
    let fo = production::object_path_check(PathRule::FormatWithUuid, m);
    error::lemma_first_none(objs.len() as int, fo);
    assert forall|i: int, k: int|
        #![trigger m.resources.objects@[i].components@[k]]
        0 <= i < objs.len() && 0 <= k < objs[i].components@.len()
            && objs[i].components@[k].production is Some
            && objs[i].components@[k].production->0.path is Some implies objs[i].components@[k].production->0.uuid is Some by {
        assert(fo(i) is None);
        let fc = production::component_path_check(PathRule::FormatWithUuid, objs[i]);
        error::lemma_first_none(objs[i].components@.len() as int, fc);
        assert(fc(k) is None);
    }
}

/// Where beam lattice validation passes: each beam's pid names an object or
/// property group; a lattice with a pid sits on an object with a pid; and a
/// lattice whose beams or balls carry properties has a pid of its own or on
/// its object.
pub proof fn lemma_beam_pids_and_defaults(m: Model, r: Result<(), Error>)
    requires
        error::reports(r, beams::beam_lattice_finding(m)),
        r is Ok,
    ensures
        forall|i: int|
            0 <= i < m.resources.objects@.len() && (#[trigger] m.resources.objects@[i]).mesh is Some
                && m.resources.objects@[i].mesh->0.beamset is Some ==> {
                let o = m.resources.objects@[i];
                let bs = o.mesh->0.beamset->0;
                &&& bs.property_id is Some ==> o.pid is Some
                &&& beams::has_assigned_properties(bs) ==> bs.property_id is Some || o.pid is Some
                &&& forall|b: int|
                    0 <= b < bs.beams@.len() && (#[trigger] bs.beams@[b]).property_id is Some
                        ==> lattice_resource(m, bs.beams@[b].property_id->0 as usize)
            },
{
    let no = m.resources.objects@.len() as int;
    let f = beams::object_lattice_check(m);
    error::lemma_first_none(no, f);
    assert forall|i: int|
        0 <= i < no && (#[trigger] m.resources.objects@[i]).mesh is Some
            && m.resources.objects@[i].mesh->0.beamset is Some implies {
        let o = m.resources.objects@[i];
        let bs = o.mesh->0.beamset->0;
        &&& bs.property_id is Some ==> o.pid is Some
        &&& beams::has_assigned_properties(bs) ==> bs.property_id is Some || o.pid is Some
        &&& forall|b: int|
            0 <= b < bs.beams@.len() && (#[trigger] bs.beams@[b]).property_id is Some
                ==> lattice_resource(m, bs.beams@[b].property_id->0 as usize)
    } by {
        let o = m.resources.objects@[i];
        let mesh = o.mesh->0;
        let bs = mesh.beamset->0;
        assert(f(i) is None);
        let fb = beams::beam_check(m, o.id, mesh.vertices@.len() as usize, bs);
        error::lemma_first_none(bs.beams@.len() as int, fb);
        assert forall|b: int|
            0 <= b < bs.beams@.len() && (#[trigger] bs.beams@[b]).property_id is Some implies lattice_resource(
            m,
            bs.beams@[b].property_id->0 as usize,
        ) by {
            assert(fb(b) is None);
        }
    }
}

} // verus!
