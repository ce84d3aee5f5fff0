//! What passing the checks of the extensions means, stated over the model
//! itself.
use crate::error;
use crate::model::{
    BeamSet, Disp2DGroup, Displacement2D, Mesh, Model, MultiProperties, Object, ObjectType,
    Triangle, VolumetricData,
};
use crate::validator::beams::{self, beam_pair, is_beam_end, lattice_resource};
use crate::validator::displacement::{
    self, declares_displacement, encrypted_part, lowered, map_ids, normal_group_ids,
    uses_displacement, DisplacementGeometry,
};
use crate::validator::materials::{
    self, all_ascii, base_ids, color_ids, color_refs, find_id, group_entry_ids, layer_count,
    composite_ids, layer_group_exists, occurrences, property_lookup, texture_group_ids,
};
use crate::error::ResourceKind;
use crate::validator::resources::{
    self, first_after, max_position, min_position, property_orders, texture_ids,
};
use crate::validator::production::{self, filename_start, uuid_sites, PathRule};
use crate::validator::slices::{self, is_sliced};
use crate::validator::structure::{find_object, is_encrypted_path};
use crate::float_bits::{self, ONE_BITS, ZERO_BITS};
use crate::model::{Extension, Transform};
use crate::text;
use crate::validator::volumetric::{self, data_check, property_group_check, property_group_ids};
use vstd::prelude::*;

verus! {

/// The voxel grid of `d`, where it has one, has non-zero dimensions, and each
/// of its voxels lies inside it and references an existing volumetric
/// property group of `m`.
pub open spec fn voxels_inside(m: Model, d: VolumetricData) -> bool {
    match d.voxels {
        Some(g) => {
            &&& g.dimensions.0 > 0 && g.dimensions.1 > 0 && g.dimensions.2 > 0
            &&& forall|v: int|
                0 <= v < g.voxels@.len() ==> {
                    let vx = #[trigger] g.voxels@[v];
                    &&& vx.position.0 < g.dimensions.0
                    &&& vx.position.1 < g.dimensions.1
                    &&& vx.position.2 < g.dimensions.2
                    &&& (vx.property_id matches Some(p) ==> property_group_ids(m).contains(p))
                }
        },
        None => true,
    }
}

/// A model that passes the volumetric checks declares the volumetric
/// extension where it has volumetric resources; its voxel grids hold their
/// voxels (see `voxels_inside`); no two volumetric property groups share an
/// id.
pub proof fn lemma_volumetric_declared_and_voxels_inside(m: Model)
    requires
        volumetric::volumetric_finding(m) is None,
    ensures
        m.resources.volumetric_data@.len() > 0 || m.resources.volumetric_property_groups@.len() > 0
            ==> volumetric::declares_volumetric(m),
        forall|i: int|
            0 <= i < m.resources.volumetric_data@.len() ==> voxels_inside(
                m,
                #[trigger] m.resources.volumetric_data@[i],
            ),
        forall|j: int, k: int|
            0 <= j < k < property_group_ids(m).len() ==> #[trigger] property_group_ids(m)[j]
                != #[trigger] property_group_ids(m)[k],
{
    let nd = m.resources.volumetric_data@.len() as int;
    let ng = property_group_ids(m).len() as int;
    error::lemma_first_none(nd, data_check(m));
    error::lemma_first_none(ng, property_group_check(m));
    assert forall|i: int| 0 <= i < nd implies voxels_inside(
        m,
        #[trigger] m.resources.volumetric_data@[i],
    ) by {
        let d = m.resources.volumetric_data@[i];
        assert(data_check(m)(i) is None);
        if let Some(g) = d.voxels {
            let f = volumetric::voxel_check(m, d);
            error::lemma_first_none(g.voxels@.len() as int, f);
            assert forall|v: int| 0 <= v < g.voxels@.len() implies {
                let vx = #[trigger] g.voxels@[v];
                &&& vx.position.0 < g.dimensions.0
                &&& vx.position.1 < g.dimensions.1
                &&& vx.position.2 < g.dimensions.2
                &&& (vx.property_id matches Some(p) ==> property_group_ids(m).contains(p))
            } by {
                assert(f(v) is None);
            }
        }
    }
    assert forall|j: int, k: int| 0 <= j < k < ng implies #[trigger] property_group_ids(m)[j]
        != #[trigger] property_group_ids(m)[k] by {
        assert(property_group_check(m)(k) is None);
    }
}

/// The shape of the beam lattice `bs` of the mesh of object `o`: `o` is a
/// model or solid support; each beam joins two distinct vertices of the mesh;
/// no two beams join the same pair; beam and ball references are in range;
/// each ball sits at a vertex of the mesh that ends a beam.
pub open spec fn lattice_shape_ok(o: Object, mesh: Mesh, bs: BeamSet) -> bool {
    let nv = mesh.vertices@.len() as usize;
    &&& o.object_type == ObjectType::Model || o.object_type == ObjectType::SolidSupport
    &&& forall|b: int|
        0 <= b < bs.beams@.len() ==> {
            let beam = #[trigger] bs.beams@[b];
            beam.v1 < nv && beam.v2 < nv && beam.v1 != beam.v2
        }
    &&& forall|j: int, b: int|
        #![trigger bs.beams@[j], bs.beams@[b]]
        0 <= j < b < bs.beams@.len() ==> beam_pair(bs.beams@[j].v1, bs.beams@[j].v2) != beam_pair(
            bs.beams@[b].v1,
            bs.beams@[b].v2,
        )
    &&& forall|k: int|
        0 <= k < bs.beam_set_refs@.len() ==> #[trigger] bs.beam_set_refs@[k] < bs.beams@.len()
    &&& forall|k: int|
        0 <= k < bs.ball_set_refs@.len() ==> #[trigger] bs.ball_set_refs@[k] < bs.balls@.len()
    &&& forall|k: int|
        0 <= k < bs.balls@.len() ==> {
            let ball = #[trigger] bs.balls@[k];
            ball.vindex < nv && is_beam_end(bs, ball.vindex)
        }
}

/// A clipping or representation mesh `id` of the lattice of object `i`
/// (whose id is `oid`): it names an object or property group other than the
/// object itself, and the first object with that id comes earlier, is not
/// made of components alone, and has no lattice of its own.
pub open spec fn lattice_mesh_ok(m: Model, i: int, oid: usize, id: Option<u32>) -> bool {
    match id {
        None => true,
        Some(c) => {
            &&& lattice_resource(m, c as usize)
            &&& c as usize != oid
            &&& match find_object(m.resources.objects@, c as usize) {
                Some(q) => {
                    let t = m.resources.objects@[q];
                    &&& q < i
                    &&& !(t.mesh is None && t.components@.len() > 0)
                    &&& !(t.mesh matches Some(tm) && tm.beamset is Some)
                },
                None => true,
            }
        },
    }
}

/// The clipping mode is none, inside or outside, with a clipping mesh unless
/// it is none; the ball mode is none, all or mixed, with a ball radius unless
/// it is none.
pub open spec fn lattice_modes_ok(bs: BeamSet) -> bool {
    &&& (bs.clipping_mode matches Some(mode) ==> (mode@ == "none"@ || mode@ == "inside"@ || mode@
        == "outside"@) && (mode@ != "none"@ ==> bs.clipping_mesh_id is Some))
    &&& (bs.ball_mode matches Some(mode) ==> (mode@ == "none"@ || mode@ == "all"@ || mode@
        == "mixed"@) && (mode@ != "none"@ ==> bs.ball_radius is Some))
}

/// The beam lattice of object `i`, where it has one, is well shaped, its
/// clipping and representation meshes are acceptable and its modes are valid.
pub open spec fn object_lattice_ok(m: Model, i: int) -> bool {
    let o = m.resources.objects@[i];
    match o.mesh {
        Some(mesh) => match mesh.beamset {
            Some(bs) => {
                &&& lattice_shape_ok(o, mesh, bs)
                &&& lattice_mesh_ok(m, i, o.id, bs.clipping_mesh_id)
                &&& lattice_mesh_ok(m, i, o.id, bs.representation_mesh_id)
                &&& lattice_modes_ok(bs)
            },
            None => true,
        },
        None => true,
    }
}

/// A model that passes the beam lattice checks has, on each object with a
/// lattice, a well shaped lattice with acceptable clipping and
/// representation meshes and valid modes (see `object_lattice_ok`).
pub proof fn lemma_beam_lattices_well_formed(m: Model)
    requires
        beams::beam_lattice_finding(m) is None,
    ensures
        forall|i: int| 0 <= i < m.resources.objects@.len() ==> #[trigger] object_lattice_ok(m, i),
{
    let n = m.resources.objects@.len() as int;
    error::lemma_first_none(n, beams::object_lattice_check(m));
    assert forall|i: int| 0 <= i < n implies #[trigger] object_lattice_ok(m, i) by {
        assert(beams::object_lattice_check(m)(i) is None);
        let o = m.resources.objects@[i];
        if let Some(mesh) = o.mesh {
            if let Some(bs) = mesh.beamset {
                lemma_lattice_ok(m, i, o, mesh, bs);
            }
        }
    }
}

proof fn lemma_lattice_ok(m: Model, i: int, o: Object, mesh: Mesh, bs: BeamSet)
    requires
        beams::lattice_finding(m, i, o, mesh, bs) is None,
    ensures
        lattice_shape_ok(o, mesh, bs),
        lattice_mesh_ok(m, i, o.id, bs.clipping_mesh_id),
        lattice_mesh_ok(m, i, o.id, bs.representation_mesh_id),
        lattice_modes_ok(bs),
{
    let nv = mesh.vertices@.len() as usize;
    let f1 = beams::beam_check(m, o.id, nv, bs);
    let f2 = beams::duplicate_beam_check(o.id, bs);
    let f3 = beams::beam_ref_check(o.id, bs);
    let f4 = beams::ball_ref_check(o.id, bs);
    let f5 = beams::ball_check(m, o.id, nv, bs);
    error::lemma_first_none(bs.beams@.len() as int, f1);
    error::lemma_first_none(bs.beams@.len() as int, f2);
    error::lemma_first_none(bs.beam_set_refs@.len() as int, f3);
    error::lemma_first_none(bs.ball_set_refs@.len() as int, f4);
    error::lemma_first_none(bs.balls@.len() as int, f5);
    assert forall|b: int| 0 <= b < bs.beams@.len() implies {
        let beam = #[trigger] bs.beams@[b];
        beam.v1 < nv && beam.v2 < nv && beam.v1 != beam.v2
    } by {
        assert(f1(b) is None);
    }
    assert forall|j: int, b: int| #![trigger bs.beams@[j], bs.beams@[b]]
        0 <= j < b < bs.beams@.len() implies beam_pair(bs.beams@[j].v1, bs.beams@[j].v2)
        != beam_pair(bs.beams@[b].v1, bs.beams@[b].v2) by {
        assert(f2(b) is None);
    }
    assert forall|k: int| 0 <= k < bs.beam_set_refs@.len() implies #[trigger] bs.beam_set_refs@[k]
        < bs.beams@.len() by {
        assert(f3(k) is None);
    }
    assert forall|k: int| 0 <= k < bs.ball_set_refs@.len() implies #[trigger] bs.ball_set_refs@[k]
        < bs.balls@.len() by {
        assert(f4(k) is None);
    }
    assert forall|k: int| 0 <= k < bs.balls@.len() implies {
        let ball = #[trigger] bs.balls@[k];
        ball.vindex < nv && is_beam_end(bs, ball.vindex)
    } by {
        assert(f5(k) is None);
    }
}

/// A displacement texture path is ASCII, lies in `/3D/Textures/` in any case
/// unless it names an encrypted part, and ends in `.png` in any case.
pub open spec fn map_path_ok(m: Model, d: Displacement2D) -> bool {
    let p = d.path@;
    &&& all_ascii(p)
    &&& encrypted_part(m, p) || text::starts_with(lowered(p), "/3d/textures/"@)
    &&& text::ends_with(lowered(p), ".png"@)
}

/// A displacement coordinate group names an existing displacement texture and
/// normal vector group, and each of its coordinates selects a vector of the
/// first normal vector group with that id.
pub open spec fn disp_group_ok(m: Model, g: Disp2DGroup) -> bool {
    &&& find_id(map_ids(m), g.dispid) is Some
    &&& find_id(normal_group_ids(m), g.nid) is Some
    &&& forall|c: int|
        0 <= c < g.coords@.len() ==> (#[trigger] g.coords@[c]).n < m.resources.norm_vector_groups@[find_id(
            normal_group_ids(m),
            g.nid,
        )->0].vectors@.len() as usize
}

/// A model that passes the displacement checks declares the extension where
/// it uses displacement elements; its displacement texture paths are
/// acceptable; its coordinate groups reference what exists; each
/// displacement mesh has at least four triangles.
pub proof fn lemma_displacement_paths_groups_and_meshes(m: Model, geo: DisplacementGeometry)
    requires
        displacement::displacement_finding(m, geo) is None,
    ensures
        uses_displacement(m) ==> declares_displacement(m),
        forall|i: int|
            0 <= i < m.resources.displacement_maps@.len() ==> map_path_ok(
                m,
                #[trigger] m.resources.displacement_maps@[i],
            ),
        forall|i: int|
            0 <= i < m.resources.disp2d_groups@.len() ==> disp_group_ok(
                m,
                #[trigger] m.resources.disp2d_groups@[i],
            ),
        forall|i: int|
            0 <= i < m.resources.objects@.len() ==> ((#[trigger] m.resources.objects@[i]).displacement_mesh
                matches Some(dm) ==> dm.triangles@.len() >= 4),
{
    let f1 = displacement::map_path_check(m);
    let f2 = displacement::group_check(m);
    let f3 = displacement::disp_object_check(m, geo);
    error::lemma_first_none(m.resources.displacement_maps@.len() as int, f1);
    error::lemma_first_none(m.resources.disp2d_groups@.len() as int, f2);
    error::lemma_first_none(m.resources.objects@.len() as int, f3);
    assert forall|i: int| 0 <= i < m.resources.displacement_maps@.len() implies map_path_ok(
        m,
        #[trigger] m.resources.displacement_maps@[i],
    ) by {
        assert(f1(i) is None);
    }
    assert forall|i: int| 0 <= i < m.resources.disp2d_groups@.len() implies disp_group_ok(
        m,
        #[trigger] m.resources.disp2d_groups@[i],
    ) by {
        assert(f2(i) is None);
        let g = m.resources.disp2d_groups@[i];
        let q = find_id(normal_group_ids(m), g.nid);
        if q is Some {
            let count = m.resources.norm_vector_groups@[q->0].vectors@.len() as usize;
            let fc = displacement::coord_check(g, count);
            error::lemma_first_none(g.coords@.len() as int, fc);
            assert forall|c: int| 0 <= c < g.coords@.len() implies (#[trigger] g.coords@[c]).n < count by {
                assert(fc(c) is None);
            }
        }
    }
    assert forall|i: int| 0 <= i < m.resources.objects@.len() implies ((
    #[trigger] m.resources.objects@[i]).displacement_mesh matches Some(dm) ==> dm.triangles@.len()
        >= 4) by {
        assert(f3(i) is None);
    }
}

/// `v`, where it holds an index, is below `n`.
pub open spec fn index_fits(v: Option<usize>, n: usize) -> bool {
    match v {
        Some(x) => x < n,
        None => true,
    }
}

/// The pindex, p1, p2 and p3 of triangle `t` of object `o` fit the property
/// group that the triangle's pid, or else the object's, names (the first
/// group with that id among color, base material, texture, multiproperties
/// and composite groups).
pub open spec fn triangle_indices_fit(m: Model, o: Object, t: Triangle) -> bool {
    let pid = if t.pid is Some {
        t.pid
    } else {
        o.pid
    };
    match pid {
        Some(p) => match property_lookup(m, p, true) {
            Some((_, n)) => index_fits(t.pindex, n) && index_fits(t.p1, n) && index_fits(t.p2, n)
                && index_fits(t.p3, n),
            None => true,
        },
        None => true,
    }
}

/// The pindex of object `o` fits the property group its pid names, and so do
/// the indices of each triangle of its mesh.
pub open spec fn object_indices_fit(m: Model, o: Object) -> bool {
    &&& match o.pid {
        Some(p) => match property_lookup(m, p, true) {
            Some((_, n)) => index_fits(o.pindex, n),
            None => true,
        },
        None => true,
    }
    &&& match o.mesh {
        Some(mesh) => forall|k: int|
            0 <= k < mesh.triangles@.len() ==> triangle_indices_fit(m, o, #[trigger] mesh.triangles@[k]),
        None => true,
    }
}

/// Each checked layer `l` of each multi element `e` of multiproperties `p`
/// holds an index that fits the group that layer names.
pub open spec fn multi_indices_fit(m: Model, p: int) -> bool {
    let mp = m.resources.multi_properties@[p];
    forall|e: int, l: int|
        #![trigger mp.multis@[e].pindices@[l]]
        0 <= e < mp.multis@.len() && 0 <= l < layer_count(m, p, e) ==> match property_lookup(
            m,
            mp.pids@[l],
            false,
        ) {
            Some((_, n)) => mp.multis@[e].pindices@[l] < n,
            None => true,
        }
}

/// A model that passes the material reference checks has pairwise distinct
/// property group ids, and every property index of its objects, triangles and
/// multiproperties layers fits the group it refers to.  Duplicate group ids
/// are what the check reports first.
pub proof fn lemma_material_references(m: Model)
    ensures
        materials::group_ids_finding(m) is None <==> forall|j: int, k: int|
            0 <= j < k < group_entry_ids(m).len() ==> #[trigger] group_entry_ids(m)[j]
                != #[trigger] group_entry_ids(m)[k],
        materials::group_ids_finding(m) is Some ==> materials::material_references_finding(m)
            == materials::group_ids_finding(m),
        materials::material_references_finding(m) is None ==> {
            &&& forall|i: int|
                0 <= i < m.resources.objects@.len() ==> object_indices_fit(
                    m,
                    #[trigger] m.resources.objects@[i],
                )
            &&& forall|p: int|
                0 <= p < m.resources.multi_properties@.len() ==> #[trigger] multi_indices_fit(m, p)
        },
{
    let ids = group_entry_ids(m);
    let n = ids.len() as int;
    let fg = materials::group_id_check(m);
    assert(materials::group_entries(m).len() == n);
    error::lemma_first_none(n, fg);
    if materials::group_ids_finding(m) is None {
        assert forall|j: int, k: int| 0 <= j < k < n implies #[trigger] ids[j] != #[trigger] ids[k] by {
            assert(fg(k) is None);
            assert(ids.take(k)[j] == ids[j]);
            materials::lemma_find_id(ids.take(k), materials::group_entries(m)[k].0);
        }
    } else {
        let k = choose|k: int| 0 <= k < n && !(#[trigger] fg(k) is None);
        let x = materials::group_entries(m)[k].0;
        materials::lemma_find_id_from(ids.take(k), x, 0);
        let j = find_id(ids.take(k), x)->0;
        assert(ids[j] == ids[k]);
    }
    if materials::material_references_finding(m) is None {
        let no = m.resources.objects@.len() as int;
        let fo = materials::object_material_check(m);
        error::lemma_first_none(no, fo);
        assert forall|i: int| 0 <= i < no implies object_indices_fit(
            m,
            #[trigger] m.resources.objects@[i],
        ) by {
            let o = m.resources.objects@[i];
            assert(fo(i) is None);
            if let Some(mesh) = o.mesh {
                let ft = materials::triangle_material_check(m, o, mesh);
                error::lemma_first_none(mesh.triangles@.len() as int, ft);
                assert forall|k: int| 0 <= k < mesh.triangles@.len() implies triangle_indices_fit(
                    m,
                    o,
                    #[trigger] mesh.triangles@[k],
                ) by {
                    assert(ft(k) is None);
                }
            }
        }
        let np = m.resources.multi_properties@.len() as int;
        let fp = materials::multi_layer_check(m);
        error::lemma_first_none(np, fp);
        assert forall|p: int| 0 <= p < np implies #[trigger] multi_indices_fit(m, p) by {
            let mp = m.resources.multi_properties@[p];
            assert(fp(p) is None);
            let fe = materials::element_check(m, p);
            error::lemma_first_none(mp.multis@.len() as int, fe);
            assert forall|e: int, l: int|
                #![trigger mp.multis@[e].pindices@[l]]
                0 <= e < mp.multis@.len() && 0 <= l < layer_count(m, p, e) implies match property_lookup(
                m,
                mp.pids@[l],
                false,
            ) {
                Some((_, n)) => mp.multis@[e].pindices@[l] < n,
                None => true,
            } by {
                assert(fe(e) is None);
                let fl = materials::layer_check(m, p, e);
                error::lemma_first_none(layer_count(m, p, e), fl);
                assert(fl(l) is None);
            }
        }
    }
}

proof fn lemma_color_refs_contains(m: Model, pids: Seq<usize>, l: int)
    requires
        0 <= l < pids.len(),
        color_ids(m).contains(pids[l]),
    ensures
        color_refs(m, pids).contains(pids[l]),
    decreases pids.len(),
{
    let rest = color_refs(m, pids.drop_last());
    if l == pids.len() - 1 {
        if rest.contains(pids.last()) {
            let q = choose|q: int| 0 <= q < rest.len() && rest[q] == pids.last();
            assert(color_refs(m, pids)[q] == pids[l]);
        } else {
            assert(color_refs(m, pids)[rest.len() as int] == pids[l]);
        }
    } else {
        lemma_color_refs_contains(m, pids.drop_last(), l);
        assert(pids.drop_last()[l] == pids[l]);
        let q = choose|q: int| 0 <= q < rest.len() && rest[q] == pids[l];
        assert(color_refs(m, pids)[q] == pids[l]);
    }
}

proof fn lemma_occurs_once(s: Seq<usize>, x: usize, a: int)
    requires
        0 <= a < s.len(),
        s[a] == x,
    ensures
        occurrences(s, x) >= 1,
    decreases s.len(),
{
    if a < s.len() - 1 {
        assert(s.drop_last()[a] == x);
        lemma_occurs_once(s.drop_last(), x, a);
    }
}

proof fn lemma_occurs_twice(s: Seq<usize>, x: usize, a: int, b: int)
    requires
        0 <= a < b < s.len(),
        s[a] == x,
        s[b] == x,
    ensures
        occurrences(s, x) >= 2,
    decreases s.len(),
{
    assert(s.drop_last()[a] == x);
    if b == s.len() - 1 {
        lemma_occurs_once(s.drop_last(), x, a);
    } else {
        assert(s.drop_last()[b] == x);
        lemma_occurs_twice(s.drop_last(), x, a, b);
    }
}

/// The layers of multiproperties `mp`: each names a base material, color,
/// texture or composite group; a base material group only as the first
/// layer; and at most one layer names a color group.
pub open spec fn multi_layers_ok(m: Model, mp: MultiProperties) -> bool {
    &&& forall|l: int|
        0 <= l < mp.pids@.len() ==> layer_group_exists(m, #[trigger] mp.pids@[l]) && (base_ids(
            m,
        ).contains(mp.pids@[l]) ==> l == 0)
    &&& forall|a: int, b: int|
        0 <= a < b < mp.pids@.len() ==> !(color_ids(m).contains(#[trigger] mp.pids@[a])
            && color_ids(m).contains(#[trigger] mp.pids@[b]))
}

proof fn lemma_color_refs_shape(m: Model, pids: Seq<usize>)
    ensures
        forall|q: int|
            0 <= q < color_refs(m, pids).len() ==> color_ids(m).contains(
                #[trigger] color_refs(m, pids)[q],
            ) && pids.contains(color_refs(m, pids)[q]),
        forall|a: int, b: int|
            0 <= a < b < color_refs(m, pids).len() ==> #[trigger] color_refs(m, pids)[a]
                != #[trigger] color_refs(m, pids)[b],
    decreases pids.len(),
{
    if pids.len() > 0 {
        let rest = color_refs(m, pids.drop_last());
        lemma_color_refs_shape(m, pids.drop_last());
        let cs = color_refs(m, pids);
        assert forall|q: int| 0 <= q < cs.len() implies color_ids(m).contains(#[trigger] cs[q])
            && pids.contains(cs[q]) by {
            if q < rest.len() {
                assert(cs[q] == rest[q]);
                let l = choose|l: int| 0 <= l < pids.drop_last().len() && pids.drop_last()[l] == rest[q];
                assert(pids[l] == cs[q]);
            } else {
                assert(pids[pids.len() - 1] == cs[q]);
            }
        }
        assert forall|a: int, b: int| 0 <= a < b < cs.len() implies #[trigger] cs[a] != #[trigger] cs[b] by {
            if b >= rest.len() {
                assert(cs[a] == rest[a]);
                if cs[a] == cs[b] {
                    assert(rest.contains(pids.last()));
                }
            } else {
                assert(cs[a] == rest[a] && cs[b] == rest[b]);
            }
        }
    }
}

proof fn lemma_occurs_somewhere(s: Seq<usize>, x: usize)
    requires
        occurrences(s, x) >= 1,
    ensures
        exists|a: int| 0 <= a < s.len() && s[a] == x,
    decreases s.len(),
{
    if s.last() != x {
        lemma_occurs_somewhere(s.drop_last(), x);
        let a = choose|a: int| 0 <= a < s.drop_last().len() && s.drop_last()[a] == x;
        assert(s[a] == x);
    } else {
        assert(s[s.len() - 1] == x);
    }
}

proof fn lemma_occurs_at_two(s: Seq<usize>, x: usize)
    requires
        occurrences(s, x) >= 2,
    ensures
        exists|a: int, b: int| 0 <= a < b < s.len() && s[a] == x && s[b] == x,
    decreases s.len(),
{
    let r = s.drop_last();
    if s.last() == x {
        lemma_occurs_somewhere(r, x);
        let a = choose|a: int| 0 <= a < r.len() && r[a] == x;
        assert(s[a] == x && s[s.len() - 1] == x);
    } else {
        lemma_occurs_at_two(r, x);
        let (a, b) = choose|a: int, b: int| 0 <= a < b < r.len() && r[a] == x && r[b] == x;
        assert(s[a] == x && s[b] == x);
    }
}

/// A model passes the multiproperties reference checks exactly when, in each
/// multiproperties group, the layers name existing groups, a base material
/// group only first, and at most one layer names a color group.
pub proof fn lemma_multiproperties_layers(m: Model)
    ensures
        materials::multiproperties_references_finding(m) is None <==> forall|p: int|
            0 <= p < m.resources.multi_properties@.len() ==> multi_layers_ok(
                m,
                #[trigger] m.resources.multi_properties@[p],
            ),
{
    let np = m.resources.multi_properties@.len() as int;
    let fp = materials::multi_reference_check(m);
    error::lemma_first_none(np, fp);
    assert forall|p: int|
        #![trigger fp(p)]
        #![trigger m.resources.multi_properties@[p]]
        0 <= p < np implies fp(p) is None <==> multi_layers_ok(m, m.resources.multi_properties@[p]) by {
        let mp = m.resources.multi_properties@[p];
        let fl = materials::multi_pid_check(m, mp);
        error::lemma_first_none(mp.pids@.len() as int, fl);
        let cs = color_refs(m, mp.pids@);
        if fp(p) is None {
            assert forall|l: int| 0 <= l < mp.pids@.len() implies layer_group_exists(
                m,
                #[trigger] mp.pids@[l],
            ) && (base_ids(m).contains(mp.pids@[l]) ==> l == 0) by {
                assert(fl(l) is None);
            }
            assert forall|a: int, b: int| 0 <= a < b < mp.pids@.len() implies !(color_ids(
                m,
            ).contains(#[trigger] mp.pids@[a]) && color_ids(m).contains(#[trigger] mp.pids@[b])) by {
                if color_ids(m).contains(mp.pids@[a]) && color_ids(m).contains(mp.pids@[b]) {
                    lemma_color_refs_contains(m, mp.pids@, a);
                    lemma_color_refs_contains(m, mp.pids@, b);
                    assert(cs.len() <= 1);
                    lemma_occurs_twice(mp.pids@, cs[0], a, b);
                }
            }
        }
        if multi_layers_ok(m, mp) {
            assert forall|l: int| 0 <= l < mp.pids@.len() implies (#[trigger] fl(l)) is None by {
                assert(layer_group_exists(m, mp.pids@[l]));
            }
            lemma_color_refs_shape(m, mp.pids@);
            if cs.len() > 1 {
                assert(cs[0] != cs[1]);
                let a = choose|a: int| 0 <= a < mp.pids@.len() && mp.pids@[a] == cs[0];
                let b = choose|b: int| 0 <= b < mp.pids@.len() && mp.pids@[b] == cs[1];
                assert(color_ids(m).contains(cs[0]) && color_ids(m).contains(cs[1]));
                if a < b {
                    assert(!(color_ids(m).contains(mp.pids@[a]) && color_ids(m).contains(mp.pids@[b])));
                } else {
                    assert(!(color_ids(m).contains(mp.pids@[b]) && color_ids(m).contains(mp.pids@[a])));
                }
            }
            if cs.len() == 1 && occurrences(mp.pids@, cs[0]) > 1 {
                lemma_occurs_at_two(mp.pids@, cs[0]);
                let (a, b) = choose|a: int, b: int|
                    0 <= a < b < mp.pids@.len() && mp.pids@[a] == cs[0] && mp.pids@[b] == cs[0];
                assert(color_ids(m).contains(cs[0]));
                assert(!(color_ids(m).contains(mp.pids@[a]) && color_ids(m).contains(mp.pids@[b])));
            }
        }
    }
}

/// Each group that `pid` names (the first with that id among texture, color,
/// base material and composite groups, each kind by itself) is defined no
/// later than multiproperties `mp`.
pub open spec fn defined_before(m: Model, mp: MultiProperties, pid: usize) -> bool {
    let r = m.resources;
    &&& (find_id(texture_group_ids(m), pid) matches Some(i) ==> r.texture2d_groups@[i].parse_order
        <= mp.parse_order)
    &&& (find_id(color_ids(m), pid) matches Some(i) ==> r.color_groups@[i].parse_order
        <= mp.parse_order)
    &&& (find_id(base_ids(m), pid) matches Some(i) ==> r.base_material_groups@[i].parse_order
        <= mp.parse_order)
    &&& (find_id(composite_ids(m), pid) matches Some(i) ==> r.composite_materials@[i].parse_order
        <= mp.parse_order)
}

proof fn lemma_max_attained(s: Seq<(ResourceKind, usize, usize)>)
    requires
        s.len() > 0,
    ensures
        exists|k: int| 0 <= k < s.len() && #[trigger] s[k].2 == max_position(s),
    decreases s.len(),
{
    if s.len() == 1 || s.last().2 > max_position(s.drop_last()) {
        assert(s[s.len() - 1].2 == max_position(s));
    } else {
        lemma_max_attained(s.drop_last());
        let k = choose|k: int| 0 <= k < s.drop_last().len() && #[trigger] s.drop_last()[k].2
            == max_position(s.drop_last());
        assert(s[k].2 == max_position(s));
    }
}

proof fn lemma_first_after_none(s: Seq<(ResourceKind, usize, usize)>, x: usize, j: int)
    requires
        0 <= j,
        first_after(s, x, j) is None,
    ensures
        forall|k: int| j <= k < s.len() ==> #[trigger] s[k].2 <= x,
    decreases s.len() - j,
{
    if j < s.len() {
        lemma_first_after_none(s, x, j + 1);
    }
}

/// A model that passes the resource order checks has each texture group
/// after the texture it names, each multiproperties group after the groups
/// its layers name, and no object between the first and the last property
/// resource.
pub proof fn lemma_resources_in_order(m: Model)
    requires
        resources::resource_ordering_finding(m) is None,
    ensures
        forall|i: int|
            0 <= i < m.resources.texture2d_groups@.len() ==> {
                let g = #[trigger] m.resources.texture2d_groups@[i];
                match find_id(texture_ids(m), g.texid) {
                    Some(t) => m.resources.texture2d_resources@[t].parse_order <= g.parse_order,
                    None => false,
                }
            },
        forall|p: int, l: int|
            0 <= p < m.resources.multi_properties@.len() && 0 <= l
                < m.resources.multi_properties@[p].pids@.len() ==> defined_before(
                m,
                m.resources.multi_properties@[p],
                #[trigger] m.resources.multi_properties@[p].pids@[l],
            ),
        forall|j: int|
            0 <= j < m.resources.objects@.len() ==> !(min_position(property_orders(m)) < (
            #[trigger] m.resources.objects@[j]).parse_order && m.resources.objects@[j].parse_order
                < max_position(property_orders(m))),
{
    let ft = resources::texture_group_order_check(m);
    let fm = resources::multi_order_check(m);
    let fi = resources::intermingle_check(m);
    let np = m.resources.multi_properties@.len() as int;
    let no = m.resources.objects@.len() as int;
    let props = property_orders(m);
    error::lemma_first_none(m.resources.texture2d_groups@.len() as int, ft);
    error::lemma_first_none(np, fm);
    assert forall|i: int| 0 <= i < m.resources.texture2d_groups@.len() implies {
        let g = #[trigger] m.resources.texture2d_groups@[i];
        match find_id(texture_ids(m), g.texid) {
            Some(t) => m.resources.texture2d_resources@[t].parse_order <= g.parse_order,
            None => false,
        }
    } by {
        assert(ft(i) is None);
    }
    assert forall|p: int, l: int|
        0 <= p < np && 0 <= l < m.resources.multi_properties@[p].pids@.len() implies defined_before(
        m,
        m.resources.multi_properties@[p],
        #[trigger] m.resources.multi_properties@[p].pids@[l],
    ) by {
        assert(fm(p) is None);
        let fl = resources::multi_pid_order_check(m, p);
        error::lemma_first_none(m.resources.multi_properties@[p].pids@.len() as int, fl);
        assert(fl(l) is None);
    }
    if props.len() > 0 && no > 0 {
        error::lemma_first_none(no, fi);
        lemma_max_attained(props);
        assert forall|j: int| 0 <= j < no implies !(min_position(props) < (
        #[trigger] m.resources.objects@[j]).parse_order && m.resources.objects@[j].parse_order
            < max_position(props)) by {
            assert(fi(j) is None);
            let x = m.resources.objects@[j].parse_order;
            if min_position(props) < x && x < max_position(props) {
                lemma_first_after_none(props, x, 0);
                let k = choose|k: int| 0 <= k < props.len() && #[trigger] props[k].2 == max_position(props);
                assert(props[k].2 <= x);
            }
        }
    }
}

/// A texture's path, unless it names an encrypted part, is a non-empty
/// ASCII part name without NUL or backslash, and its content type is PNG or
/// JPEG.
pub open spec fn texture_ok(m: Model, t: crate::model::Texture2D) -> bool {
    let p = t.path@;
    is_encrypted_path(m, p) || {
        &&& p.len() > 0
        &&& !text::has_char(p, '\0')
        &&& !text::has_char(p, '\\')
        &&& all_ascii(p)
        &&& t.contenttype@ == "image/png"@ || t.contenttype@ == "image/jpeg"@
    }
}

/// A model that passes the texture path checks has acceptable paths and
/// content types on all its textures (see `texture_ok`).
pub proof fn lemma_texture_paths_and_types(m: Model)
    requires
        materials::texture_paths_finding(m) is None,
    ensures
        forall|i: int|
            0 <= i < m.resources.texture2d_resources@.len() ==> texture_ok(
                m,
                #[trigger] m.resources.texture2d_resources@[i],
            ),
{
    let f = materials::texture_check(m);
    error::lemma_first_none(m.resources.texture2d_resources@.len() as int, f);
    assert forall|i: int| 0 <= i < m.resources.texture2d_resources@.len() implies texture_ok(
        m,
        #[trigger] m.resources.texture2d_resources@[i],
    ) by {
        assert(f(i) is None);
    }
}

/// A UUID of 36 bytes with hyphens at positions 8, 13, 18 and 23 and
/// hexadecimal digits elsewhere.
pub open spec fn uuid_ok(u: Seq<char>) -> bool {
    &&& text::byte_len(u) == 36
    &&& u.len() > 23 && u[8] == '-' && u[13] == '-' && u[18] == '-' && u[23] == '-'
    &&& forall|i: int|
        0 <= i < u.len() && i != 8 && i != 13 && i != 18 && i != 23 ==> text::is_hex_digit(
            #[trigger] u[i],
        )
}

/// A model passes the UUID format checks exactly when its UUIDs are well
/// formed wherever it has them (build, build items, objects, components).
pub proof fn lemma_uuid_formats(m: Model)
    ensures
        production::uuid_formats_finding(m) is None <==> forall|k: int|
            0 <= k < uuid_sites(m).len() ==> uuid_ok((#[trigger] uuid_sites(m)[k]).1),
{
    let f = production::uuid_format_check(m);
    error::lemma_first_none(uuid_sites(m).len() as int, f);
    assert forall|k: int|
        #![trigger f(k)]
        #![trigger uuid_sites(m)[k]]
        0 <= k < uuid_sites(m).len() implies f(k) is None <==> uuid_ok(uuid_sites(m)[k].1) by {
        let site = uuid_sites(m)[k].0;
        let u = uuid_sites(m)[k].1;
        let fc = production::uuid_char_check(site, u);
        error::lemma_first_none(u.len() as int, fc);
        if f(k) is None {
            assert forall|i: int| 0 <= i < u.len() && i != 8 && i != 13 && i != 18 && i != 23 implies text::is_hex_digit(
                #[trigger] u[i],
            ) by {
                assert(fc(i) is None);
            }
        }
        if uuid_ok(u) {
            assert forall|i: int| 0 <= i < u.len() implies (#[trigger] fc(i)) is None by {
                if i != 8 && i != 13 && i != 18 && i != 23 {
                    assert(text::is_hex_digit(u[i]));
                }
            }
        }
    }
}

/// Each production path of `m` (of an object, of a component, of a build
/// item) satisfies `ok`.
pub open spec fn all_paths(m: Model, ok: spec_fn(Seq<char>) -> bool) -> bool {
    let objs = m.resources.objects@;
    &&& forall|i: int|
        0 <= i < objs.len() ==> match (#[trigger] objs[i]).production {
            Some(pi) => match pi.path {
                Some(p) => ok(p@),
                None => true,
            },
            None => true,
        }
    &&& forall|i: int, k: int|
        0 <= i < objs.len() && 0 <= k < objs[i].components@.len() ==> match (
        #[trigger] objs[i].components@[k]).production {
            Some(pi) => match pi.path {
                Some(p) => ok(p@),
                None => true,
            },
            None => true,
        }
    &&& forall|k: int|
        0 <= k < m.build.items@.len() ==> match (#[trigger] m.build.items@[k]).production_path {
            Some(p) => ok(p@),
            None => true,
        }
}

proof fn lemma_paths_pass(rule: PathRule, m: Model, ok: spec_fn(Seq<char>) -> bool)
    requires
        production::paths_finding(rule, m) is None,
        forall|site: crate::error::Site, p: Seq<char>|
            #[trigger] production::rule_finding(rule, site, p) is None ==> ok(p),
    ensures
        all_paths(m, ok),
{
    let objs = m.resources.objects@;
    let fo = production::object_path_check(rule, m);
    let fi = production::item_path_check(rule, m);
    error::lemma_first_none(objs.len() as int, fo);
    error::lemma_first_none(m.build.items@.len() as int, fi);
    assert forall|i: int| 0 <= i < objs.len() implies match (#[trigger] objs[i]).production {
        Some(pi) => match pi.path {
            Some(p) => ok(p@),
            None => true,
        },
        None => true,
    } by {
        assert(fo(i) is None);
    }
    assert forall|i: int, k: int| 0 <= i < objs.len() && 0 <= k < objs[i].components@.len() implies match (
    #[trigger] objs[i].components@[k]).production {
        Some(pi) => match pi.path {
            Some(p) => ok(p@),
            None => true,
        },
        None => true,
    } by {
        assert(fo(i) is None);
        let fc = production::component_path_check(rule, objs[i]);
        error::lemma_first_none(objs[i].components@.len() as int, fc);
        assert(fc(k) is None);
    }
    assert forall|k: int| 0 <= k < m.build.items@.len() implies match (
    #[trigger] m.build.items@[k]).production_path {
        Some(p) => ok(p@),
        None => true,
    } by {
        assert(fi(k) is None);
    }
}

proof fn lemma_paths_fail(rule: PathRule, m: Model, ok: spec_fn(Seq<char>) -> bool)
    requires
        rule != PathRule::FormatWithUuid,
        all_paths(m, ok),
        forall|site: crate::error::Site, p: Seq<char>|
            ok(p) ==> (#[trigger] production::rule_finding(rule, site, p)) is None,
    ensures
        production::paths_finding(rule, m) is None,
{
    let objs = m.resources.objects@;
    let fo = production::object_path_check(rule, m);
    let fi = production::item_path_check(rule, m);
    error::lemma_first_none(objs.len() as int, fo);
    error::lemma_first_none(m.build.items@.len() as int, fi);
    assert forall|i: int| 0 <= i < objs.len() implies (#[trigger] fo(i)) is None by {
        let o = objs[i];
        let fc = production::component_path_check(rule, o);
        error::lemma_first_none(o.components@.len() as int, fc);
        assert forall|k: int| 0 <= k < o.components@.len() implies (#[trigger] fc(k)) is None by {
            assert(objs[i].components@[k] == o.components@[k]);
        }
        assert(objs[i] == o);
    }
    assert forall|k: int| 0 <= k < m.build.items@.len() implies (#[trigger] fi(k)) is None by {
        assert(m.build.items@[k] == m.build.items@[k]);
    }
}

/// The form of a production path: absolute, without `..`, not ending in `/`,
/// naming a file whose name does not start with `.`, and ending in `.model`.
pub open spec fn path_form_ok(p: Seq<char>) -> bool {
    &&& p.len() > 0 && p[0] == '/'
    &&& !text::has_substring(p, ".."@)
    &&& p.last() != '/'
    &&& !(filename_start(p) < p.len() && p[filename_start(p)] == '.')
    &&& text::ends_with(p, ".model"@)
}

/// A production path that names none of the package's relationship parts
/// and not its content types part.
pub open spec fn path_outside_package_parts(p: Seq<char>) -> bool {
    &&& !text::starts_with(p, "/_rels/"@)
    &&& p != "/_rels"@
    &&& p != "/[Content_Types].xml"@
}

/// A model passes the production path form check exactly when its
/// production paths are well formed everywhere (see `path_form_ok`).
pub proof fn lemma_production_path_forms(m: Model)
    ensures
        production::paths_finding(PathRule::Format, m) is None <==> all_paths(
            m,
            |p: Seq<char>| path_form_ok(p),
        ),
{
    if production::paths_finding(PathRule::Format, m) is None {
        lemma_paths_pass(PathRule::Format, m, |p: Seq<char>| path_form_ok(p));
    }
    if all_paths(m, |p: Seq<char>| path_form_ok(p)) {
        lemma_paths_fail(PathRule::Format, m, |p: Seq<char>| path_form_ok(p));
    }
}

/// A model passes the package part check exactly when no production path
/// names a relationship part or the content types part.
pub proof fn lemma_production_paths_outside_package_parts(m: Model)
    ensures
        production::paths_finding(PathRule::Opc, m) is None <==> all_paths(
            m,
            |p: Seq<char>| path_outside_package_parts(p),
        ),
{
    reveal(production::opc_finding);
    if production::paths_finding(PathRule::Opc, m) is None {
        lemma_paths_pass(PathRule::Opc, m, |p: Seq<char>| path_outside_package_parts(p));
    }
    if all_paths(m, |p: Seq<char>| path_outside_package_parts(p)) {
        lemma_paths_fail(PathRule::Opc, m, |p: Seq<char>| path_outside_package_parts(p));
    }
}

/// The production check under a configuration refuses every model that the
/// plain production check refuses: it checks the same path forms (and more).
pub proof fn lemma_config_check_refuses_what_plain_refuses(m: Model, supported: Seq<Extension>)
    ensures
        production::paths_finding(PathRule::Format, m) is Some
            ==> production::production_support_finding(m, supported) is Some,
{
    if production::production_support_finding(m, supported) is None {
        lemma_paths_pass(PathRule::FormatWithUuid, m, |p: Seq<char>| path_form_ok(p));
        let objs = m.resources.objects@;
        let fo = production::object_path_check(PathRule::Format, m);
        let fi = production::item_path_check(PathRule::Format, m);
        error::lemma_first_none(objs.len() as int, fo);
        error::lemma_first_none(m.build.items@.len() as int, fi);
        assert forall|i: int| 0 <= i < objs.len() implies (#[trigger] fo(i)) is None by {
            let o = objs[i];
            let fc = production::component_path_check(PathRule::Format, o);
            error::lemma_first_none(o.components@.len() as int, fc);
            assert forall|k: int| 0 <= k < o.components@.len() implies (#[trigger] fc(k)) is None by {
                assert(objs[i].components@[k] == o.components@[k]);
            }
        }
        assert forall|k: int| 0 <= k < m.build.items@.len() implies (#[trigger] fi(k)) is None by {
            assert(m.build.items@[k] == m.build.items@[k]);
        }
    }
}

/// A transform that leaves the z axis alone: m02, m12, m20 and m21 are 0.0
/// and m22 is 1.0.
pub open spec fn planar(t: Transform) -> bool {
    &&& float_bits::spec_eq(t@[2], ZERO_BITS)
    &&& float_bits::spec_eq(t@[5], ZERO_BITS)
    &&& float_bits::spec_eq(t@[6], ZERO_BITS)
    &&& float_bits::spec_eq(t@[7], ZERO_BITS)
    &&& float_bits::spec_eq(t@[8], ONE_BITS)
}

/// A model with slice stacks that passes the slice extension checks has no
/// stack that mixes slices and slice references, only references to existing
/// slice stacks, and planar transforms wherever a build item or a component
/// places a sliced object.
pub proof fn lemma_slice_stacks_and_planar_transforms(m: Model)
    requires
        m.resources.slice_stacks@.len() > 0,
        slices::slice_extension_finding(m) is None,
    ensures
        forall|s: int|
            0 <= s < m.resources.slice_stacks@.len() ==> !((#[trigger] m.resources.slice_stacks@[s]).slices@.len()
                > 0 && m.resources.slice_stacks@[s].slice_refs@.len() > 0),
        forall|i: int|
            0 <= i < m.resources.objects@.len() ==> match (#[trigger] m.resources.objects@[i]).slicestackid {
                Some(sid) => slices::slice_stack_ids(m).contains(sid),
                None => true,
            },
        forall|k: int|
            0 <= k < m.build.items@.len() ==> match (#[trigger] m.build.items@[k]).transform {
                Some(t) => is_sliced(m, m.build.items@[k].objectid) ==> planar(t),
                None => true,
            },
        forall|i: int, c: int|
            0 <= i < m.resources.objects@.len() && 0 <= c < m.resources.objects@[i].components@.len()
                ==> match (#[trigger] m.resources.objects@[i].components@[c]).transform {
                Some(t) => is_sliced(m, m.resources.objects@[i].components@[c].objectid) ==> planar(t),
                None => true,
            },
{
    let fs = slices::mixed_stack_check(m);
    let fr = slices::stack_reference_check(m);
    let fi = slices::item_planar_check(m);
    let fo = slices::object_planar_check(m);
    let no = m.resources.objects@.len() as int;
    error::lemma_first_none(m.resources.slice_stacks@.len() as int, fs);
    error::lemma_first_none(no, fr);
    error::lemma_first_none(m.build.items@.len() as int, fi);
    error::lemma_first_none(no, fo);
    assert forall|s: int| 0 <= s < m.resources.slice_stacks@.len() implies !((
    #[trigger] m.resources.slice_stacks@[s]).slices@.len() > 0
        && m.resources.slice_stacks@[s].slice_refs@.len() > 0) by {
        assert(fs(s) is None);
    }
    assert forall|i: int| 0 <= i < no implies match (
    #[trigger] m.resources.objects@[i]).slicestackid {
        Some(sid) => slices::slice_stack_ids(m).contains(sid),
        None => true,
    } by {
        assert(fr(i) is None);
    }
    assert forall|k: int| 0 <= k < m.build.items@.len() implies match (
    #[trigger] m.build.items@[k]).transform {
        Some(t) => is_sliced(m, m.build.items@[k].objectid) ==> planar(t),
        None => true,
    } by {
        if is_sliced(m, m.build.items@[k].objectid) {
            let j = choose|j: int|
                0 <= j < m.resources.objects@.len() && #[trigger] m.resources.objects@[j].id
                    == m.build.items@[k].objectid && m.resources.objects@[j].slicestackid is Some;
            assert(slices::has_sliced_objects(m));
            assert(fi(k) is None);
        }
    }
    assert forall|i: int, c: int|
        0 <= i < no && 0 <= c < m.resources.objects@[i].components@.len() implies match (
    #[trigger] m.resources.objects@[i].components@[c]).transform {
        Some(t) => is_sliced(m, m.resources.objects@[i].components@[c].objectid) ==> planar(t),
        None => true,
    } by {
        if is_sliced(m, m.resources.objects@[i].components@[c].objectid) {
            let j = choose|j: int|
                0 <= j < m.resources.objects@.len() && #[trigger] m.resources.objects@[j].id
                    == m.resources.objects@[i].components@[c].objectid
                    && m.resources.objects@[j].slicestackid is Some;
            assert(slices::has_sliced_objects(m));
            assert(fo(i) is None);
            let fc = slices::component_planar_check(m, i);
            error::lemma_first_none(m.resources.objects@[i].components@.len() as int, fc);
            assert(fc(c) is None);
        }
    }
}

} // verus!
