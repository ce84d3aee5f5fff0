//! Displacement extension rules: the declaration of the extension, the paths
//! of displacement textures, the references of displacement coordinate groups,
//! and the shape of displacement meshes.
//!
//! Several rules of this extension measure geometry (lengths, volumes, areas,
//! scalar products) in binary64 arithmetic.  Those measures are taken by the
//! caller and handed in as a `DisplacementGeometry`; this module compares them
//! with the thresholds of the rules and decides everything else.
use crate::error::{self, Corner, Error, Kind};
use crate::float_bits::{self, ONE_BITS, ZERO_BITS};
use crate::ids;
use crate::model::{self, Disp2DGroup, DisplacementMesh, DisplacementTriangle, Extension, Model};
use crate::text;
use crate::validator::materials::{self, all_ascii, find_id};
use crate::validator::structure::{self, capped, counter, edge_key};
use std::collections::{HashMap, HashSet};
use vstd::prelude::*;

verus! {

broadcast use vstd::std_specs::hash::group_hash_axioms;

/// The bit pattern of `1e-6`, below which a squared normal length is zero.
pub const NORMAL_LENGTH_EPSILON: u64 = 0x3eb0_c6f7_a0b5_ed8du64;

/// The bit pattern of `1e-10`, below which a mesh volume is flat, and at or
/// below which a scalar product points inward.
pub const VOLUME_EPSILON: u64 = 0x3ddb_7cdf_d9d7_bdbbu64;

/// The bit pattern of `1e-20`, below which a squared doubled triangle area is zero.
pub const AREA_EPSILON: u64 = 0x3bc7_9ca1_0c92_4223u64;

/// Measures of one displacement mesh, taken in binary64 arithmetic from its
/// vertices.  Values are bit patterns of `f64`.
#[derive(Debug)]
pub struct MeshGeometry {
    /// The signed volume: the sum, over the triangles whose three vertex
    /// indices are in range, of `v1 . (v2 x v3)`, divided by 6.
    pub volume: u64,
    /// The first pair `(i, j)`, `i < j`, in lexicographic order, of vertices
    /// whose squared distance is below `1e-10`.
    pub close_vertices: Option<(usize, usize)>,
    /// Per triangle, the squared length of `(v2 - v1) x (v3 - v1)`.
    pub areas: Vec<u64>,
    /// Per triangle, the scalar products of `(v2 - v1) x (v3 - v1)` with the
    /// normal vectors that its coordinates `d1`, `d2` and `d3` select, where
    /// they select one.
    pub dots: Vec<(u64, u64, u64)>,
}

/// Measures of the displacement resources of a model.
#[derive(Debug)]
pub struct DisplacementGeometry {
    /// Per normal vector group, in resource order, the squared length of each vector.
    pub normal_lengths: Vec<Vec<u64>>,
    /// Per object, in resource order, the measures of its displacement mesh.
    pub meshes: Vec<MeshGeometry>,
}

/// Whether `geo` holds a measure for each thing of `m` that it measures: a
/// squared length per vector of each normal vector group, and per object a
/// mesh entry, with an area and scalar products per triangle of its
/// displacement mesh.
pub open spec fn geometry_fits(m: Model, geo: DisplacementGeometry) -> bool {
    &&& geo.normal_lengths@.len() == m.resources.norm_vector_groups@.len()
    &&& forall|g: int|
        0 <= g < geo.normal_lengths@.len() ==> (#[trigger] geo.normal_lengths@[g])@.len()
            == m.resources.norm_vector_groups@[g].vectors@.len()
    &&& geo.meshes@.len() == m.resources.objects@.len()
    &&& forall|i: int|
        0 <= i < geo.meshes@.len() ==> match (#[trigger] m.resources.objects@[i]).displacement_mesh {
            Some(dm) => geo.meshes@[i].areas@.len() == dm.triangles@.len()
                && geo.meshes@[i].dots@.len() == dm.triangles@.len(),
            None => true,
        }
}

/// Whether `geo` fits `m` (see `geometry_fits`).
pub fn geometry_matches(m: &Model, geo: &DisplacementGeometry) -> (r: bool)
    ensures
        r == geometry_fits(*m, *geo),
{
    let groups = &m.resources.norm_vector_groups;
    if geo.normal_lengths.len() != groups.len() {
        return false;
    }
    let mut g: usize = 0;
    while g < groups.len()
        invariant
            g <= groups@.len(),
            groups@ == m.resources.norm_vector_groups@,
            geo.normal_lengths@.len() == groups@.len(),
            forall|k: int|
                0 <= k < g ==> (#[trigger] geo.normal_lengths@[k])@.len() == groups@[k].vectors@.len(),
        decreases groups@.len() - g,
    {
        if geo.normal_lengths[g].len() != groups[g].vectors.len() {
            proof {
                assert(geo.normal_lengths@[g as int]@.len() != groups@[g as int].vectors@.len());
            }
            return false;
        }
        g += 1;
    }
    let objs = &m.resources.objects;
    if geo.meshes.len() != objs.len() {
        return false;
    }
    let mut i: usize = 0;
    while i < objs.len()
        invariant
            i <= objs@.len(),
            objs@ == m.resources.objects@,
            geo.meshes@.len() == objs@.len(),
            forall|k: int|
                0 <= k < i ==> match (#[trigger] objs@[k]).displacement_mesh {
                    Some(dm) => geo.meshes@[k].areas@.len() == dm.triangles@.len()
                        && geo.meshes@[k].dots@.len() == dm.triangles@.len(),
                    None => true,
                },
        decreases objs@.len() - i,
    {
        if let Some(dm) = &objs[i].displacement_mesh {
            if geo.meshes[i].areas.len() != dm.triangles.len() || geo.meshes[i].dots.len()
                != dm.triangles.len() {
                proof {
                    let o = objs@[i as int];
                    assert(o.displacement_mesh == Some(*dm));
                }
                return false;
            }
        }
        i += 1;
    }
    true
}

// ---------------------------------------------------------------------------
// Measures, with the value that breaks no rule where one is missing
// ---------------------------------------------------------------------------

/// The squared length of vector `v` of normal vector group `g`.
pub open spec fn normal_length(geo: DisplacementGeometry, g: int, v: int) -> u64 {
    if 0 <= g < geo.normal_lengths@.len() && 0 <= v < geo.normal_lengths@[g]@.len() {
        geo.normal_lengths@[g]@[v]
    } else {
        ONE_BITS
    }
}

/// The volume of the displacement mesh of object `i`.
pub open spec fn volume_of(geo: DisplacementGeometry, i: int) -> u64 {
    if 0 <= i < geo.meshes@.len() {
        geo.meshes@[i].volume
    } else {
        ONE_BITS
    }
}

/// The first pair of close vertices of the displacement mesh of object `i`.
pub open spec fn close_of(geo: DisplacementGeometry, i: int) -> Option<(usize, usize)> {
    if 0 <= i < geo.meshes@.len() {
        geo.meshes@[i].close_vertices
    } else {
        None
    }
}

/// The squared doubled area of triangle `t` of the displacement mesh of object `i`.
pub open spec fn area_of(geo: DisplacementGeometry, i: int, t: int) -> u64 {
    if 0 <= i < geo.meshes@.len() && 0 <= t < geo.meshes@[i].areas@.len() {
        geo.meshes@[i].areas@[t]
    } else {
        ONE_BITS
    }
}

/// The scalar products of triangle `t` of the displacement mesh of object `i`.
pub open spec fn dots_of(geo: DisplacementGeometry, i: int, t: int) -> (u64, u64, u64) {
    if 0 <= i < geo.meshes@.len() && 0 <= t < geo.meshes@[i].dots@.len() {
        geo.meshes@[i].dots@[t]
    } else {
        (ONE_BITS, ONE_BITS, ONE_BITS)
    }
}

fn normal_length_at(geo: &DisplacementGeometry, g: usize, v: usize) -> (r: u64)
    ensures
        r == normal_length(*geo, g as int, v as int),
{
    if g < geo.normal_lengths.len() && v < geo.normal_lengths[g].len() {
        geo.normal_lengths[g][v]
    } else {
        ONE_BITS
    }
}

fn volume_at(geo: &DisplacementGeometry, i: usize) -> (r: u64)
    ensures
        r == volume_of(*geo, i as int),
{
    if i < geo.meshes.len() {
        geo.meshes[i].volume
    } else {
        ONE_BITS
    }
}

fn close_at(geo: &DisplacementGeometry, i: usize) -> (r: Option<(usize, usize)>)
    ensures
        r == close_of(*geo, i as int),
{
    if i < geo.meshes.len() {
        geo.meshes[i].close_vertices
    } else {
        None
    }
}

fn area_at(geo: &DisplacementGeometry, i: usize, t: usize) -> (r: u64)
    ensures
        r == area_of(*geo, i as int, t as int),
{
    if i < geo.meshes.len() && t < geo.meshes[i].areas.len() {
        geo.meshes[i].areas[t]
    } else {
        ONE_BITS
    }
}

fn dots_at(geo: &DisplacementGeometry, i: usize, t: usize) -> (r: (u64, u64, u64))
    ensures
        r == dots_of(*geo, i as int, t as int),
{
    if i < geo.meshes.len() && t < geo.meshes[i].dots.len() {
        geo.meshes[i].dots[t]
    } else {
        (ONE_BITS, ONE_BITS, ONE_BITS)
    }
}

// ---------------------------------------------------------------------------
// Declaration
// ---------------------------------------------------------------------------

/// Whether the namespace `ns` of a custom extension is a displacement one.
pub open spec fn displacement_namespace(ns: Seq<char>) -> bool {
    text::has_substring(ns, "displacement/2022/07"@) || text::has_substring(
        ns,
        "displacement/2023/10"@,
    )
}

/// Whether the model declares the displacement extension, directly or by the
/// namespace of a custom extension.
pub open spec fn declares_displacement(m: Model) -> bool {
    model::extension_listed(m.required_extensions@, Extension::Displacement) || exists|k: int|
        0 <= k < m.required_custom_extensions@.len() && displacement_namespace(
            #[trigger] m.required_custom_extensions@[k]@,
        )
}

/// Whether the model holds any displacement element.
pub open spec fn uses_displacement(m: Model) -> bool {
    m.resources.displacement_maps@.len() > 0 || m.resources.norm_vector_groups@.len() > 0
        || m.resources.disp2d_groups@.len() > 0 || exists|i: int|
        0 <= i < m.resources.objects@.len()
            && (#[trigger] m.resources.objects@[i]).displacement_mesh is Some
}

fn declares_displacement_extension(m: &Model) -> (r: bool)
    ensures
        r == declares_displacement(*m),
{
    if model::contains_extension(&m.required_extensions, Extension::Displacement) {
        return true;
    }
    let first = text::chars_of("displacement/2022/07");
    let second = text::chars_of("displacement/2023/10");
    let custom = &m.required_custom_extensions;
    let mut k: usize = 0;
    while k < custom.len()
        invariant
            k <= custom@.len(),
            custom@ == m.required_custom_extensions@,
            first@ == "displacement/2022/07"@,
            second@ == "displacement/2023/10"@,
            !model::extension_listed(m.required_extensions@, Extension::Displacement),
            forall|q: int| 0 <= q < k ==> !displacement_namespace(#[trigger] custom@[q]@),
        decreases custom@.len() - k,
    {
        let ns = text::chars_of(custom[k].as_str());
        if text::contains_substring(&ns, &first) || text::contains_substring(&ns, &second) {
            assert(displacement_namespace(custom@[k as int]@));
            return true;
        }
        k += 1;
    }
    false
}

fn uses_displacement_elements(m: &Model) -> (r: bool)
    ensures
        r == uses_displacement(*m),
{
    let rs = &m.resources;
    if rs.displacement_maps.len() > 0 || rs.norm_vector_groups.len() > 0
        || rs.disp2d_groups.len() > 0 {
        return true;
    }
    let objs = &rs.objects;
    let mut i: usize = 0;
    while i < objs.len()
        invariant
            i <= objs@.len(),
            objs@ == m.resources.objects@,
            forall|q: int| 0 <= q < i ==> (#[trigger] objs@[q]).displacement_mesh is None,
        decreases objs@.len() - i,
    {
        if objs[i].displacement_mesh.is_some() {
            return true;
        }
        i += 1;
    }
    false
}

// ---------------------------------------------------------------------------
// Texture paths
// ---------------------------------------------------------------------------

/// `s` without its leading slashes.
pub open spec fn strip_slashes(s: Seq<char>) -> Seq<char>
    decreases s.len(),
{
    if s.len() > 0 && s[0] == '/' {
        strip_slashes(s.drop_first())
    } else {
        s
    }
}

/// The ASCII lower case of `c`.
pub open spec fn ascii_lower(c: char) -> char {
    if 'A' <= c <= 'Z' {
        ((c as u8) + 32) as u8 as char
    } else {
        c
    }
}

/// `s` with its ASCII letters in lower case.
pub open spec fn lowered(s: Seq<char>) -> Seq<char> {
    s.map_values(|c: char| ascii_lower(c))
}

/// Whether `p`, without leading slashes, is the path of an encrypted part,
/// also taken without leading slashes.
pub open spec fn encrypted_part(m: Model, p: Seq<char>) -> bool {
    match m.secure_content {
        Some(sc) => exists|k: int|
            0 <= k < sc.encrypted_files@.len() && strip_slashes(#[trigger] sc.encrypted_files@[k]@)
                == strip_slashes(p),
        None => false,
    }
}

/// A displacement texture path is ASCII, lies in `/3D/Textures/` in any case
/// (unless it names an encrypted part), and ends in `.png` in any case.
pub open spec fn map_path_finding(m: Model, d: model::Displacement2D) -> error::Finding {
    let p = d.path@;
    if !all_ascii(p) {
        error::found_text(Kind::DisplacementPathNonAscii { map: d.id }, p)
    } else if !encrypted_part(m, p) && !text::starts_with(lowered(p), "/3d/textures/"@) {
        error::found_text(Kind::DisplacementPathOutsideTextures { map: d.id }, p)
    } else if !text::ends_with(lowered(p), ".png"@) {
        error::found_text(Kind::DisplacementPathNotPng { map: d.id }, p)
    } else {
        None
    }
}

pub open spec fn map_path_check(m: Model) -> spec_fn(int) -> error::Finding {
    |i: int| map_path_finding(m, m.resources.displacement_maps@[i])
}

pub open spec fn map_paths_finding(m: Model) -> error::Finding {
    error::first(m.resources.displacement_maps@.len() as int, map_path_check(m))
}

proof fn lemma_strip_step(s: Seq<char>, i: int)
    requires
        0 <= i < s.len(),
        s[i] == '/',
    ensures
        strip_slashes(s.skip(i)) == strip_slashes(s.skip(i + 1)),
{
    assert(s.skip(i).drop_first() =~= s.skip(i + 1));
}

fn without_leading_slashes(s: &Vec<char>) -> (r: Vec<char>)
    ensures
        r@ == strip_slashes(s@),
{
    let mut i: usize = 0;
    assert(s@.skip(0) =~= s@);
    while i < s.len() && s[i] == '/'
        invariant
            i <= s@.len(),
            strip_slashes(s@) == strip_slashes(s@.skip(i as int)),
        decreases s@.len() - i,
    {
        proof {
            lemma_strip_step(s@, i as int);
        }
        i += 1;
    }
    proof {
        let rest = s@.skip(i as int);
        if rest.len() > 0 {
            assert(rest[0] == s@[i as int]);
        }
        assert(strip_slashes(rest) == rest);
    }
    let mut r: Vec<char> = Vec::new();
    let mut j: usize = i;
    while j < s.len()
        invariant
            i <= j <= s@.len(),
            r@ =~= s@.subrange(i as int, j as int),
        decreases s@.len() - j,
    {
        r.push(s[j]);
        j += 1;
    }
    proof {
        assert(r@ =~= s@.skip(i as int));
    }
    r
}

fn lower_chars(s: &Vec<char>) -> (r: Vec<char>)
    ensures
        r@ == lowered(s@),
{
    let mut r: Vec<char> = Vec::new();
    let mut j: usize = 0;
    while j < s.len()
        invariant
            j <= s@.len(),
            r@ =~= lowered(s@.take(j as int)),
        decreases s@.len() - j,
    {
        let c = s[j];
        let l = if 'A' <= c && c <= 'Z' {
            ((c as u8) + 32) as char
        } else {
            c
        };
        r.push(l);
        j += 1;
        proof {
            assert(lowered(s@.take(j as int)) =~= lowered(s@.take(j - 1)).push(ascii_lower(c)));
        }
    }
    proof {
        assert(s@.take(s@.len() as int) =~= s@);
    }
    r
}

fn is_encrypted_part(m: &Model, p: &Vec<char>) -> (r: bool)
    ensures
        r == encrypted_part(*m, p@),
{
    match &m.secure_content {
        None => false,
        Some(sc) => {
            let target = without_leading_slashes(p);
            let files = &sc.encrypted_files;
            let mut k: usize = 0;
            while k < files.len()
                invariant
                    k <= files@.len(),
                    files@ == sc.encrypted_files@,
                    m.secure_content == Some(*sc),
                    target@ == strip_slashes(p@),
                    forall|q: int| 0 <= q < k ==> strip_slashes(#[trigger] files@[q]@) != strip_slashes(p@),
                decreases files@.len() - k,
            {
                let f = without_leading_slashes(&text::chars_of(files[k].as_str()));
                if text::same_chars(&f, &target) {
                    assert(strip_slashes(sc.encrypted_files@[k as int]@) == strip_slashes(p@));
                    assert(m.secure_content matches Some(x) && x == *sc);
                    assert(encrypted_part(*m, p@));
                    return true;
                }
                k += 1;
            }
            false
        },
    }
}

fn check_map_path(m: &Model, d: &model::Displacement2D) -> (r: Result<(), Error>)
    ensures
        error::reports(r, map_path_finding(*m, *d)),
{
    let chars = text::chars_of(d.path.as_str());
    if !materials::is_all_ascii(&chars) {
        return error::fail_text(Kind::DisplacementPathNonAscii { map: d.id }, d.path.clone());
    }
    let low = lower_chars(&chars);
    let folder = text::chars_of("/3d/textures/");
    if !is_encrypted_part(m, &chars) && !text::begins_with(&low, &folder) {
        return error::fail_text(Kind::DisplacementPathOutsideTextures { map: d.id }, d.path.clone());
    }
    let png = text::chars_of(".png");
    if !text::finishes_with(&low, &png) {
        return error::fail_text(Kind::DisplacementPathNotPng { map: d.id }, d.path.clone());
    }
    Ok(())
}

fn check_map_paths(m: &Model) -> (r: Result<(), Error>)
    ensures
        error::reports(r, map_paths_finding(*m)),
{
    let ds = &m.resources.displacement_maps;
    let ghost n = ds@.len() as int;
    let mut i: usize = 0;
    while i < ds.len()
        invariant
            i <= ds@.len(),
            n == ds@.len(),
            ds@ == m.resources.displacement_maps@,
            error::first(n, map_path_check(*m)) == error::first_from(n, map_path_check(*m), i as int),
        decreases ds@.len() - i,
    {
        let r = check_map_path(m, &ds[i]);
        if r.is_err() {
            return r;
        }
        i += 1;
    }
    Ok(())
}

// ---------------------------------------------------------------------------
// Displacement coordinate groups and normal vectors
// ---------------------------------------------------------------------------

pub open spec fn map_ids(m: Model) -> Seq<usize> {
    m.resources.displacement_maps@.map_values(|d: model::Displacement2D| d.id)
}

pub open spec fn normal_group_ids(m: Model) -> Seq<usize> {
    m.resources.norm_vector_groups@.map_values(|g: model::NormVectorGroup| g.id)
}

pub open spec fn disp_group_ids(m: Model) -> Seq<usize> {
    m.resources.disp2d_groups@.map_values(|g: Disp2DGroup| g.id)
}

/// Coordinate `c` of group `g` selects one of the `count` vectors of its normal group.
pub open spec fn coord_check(g: Disp2DGroup, count: usize) -> spec_fn(int) -> error::Finding {
    |c: int|
        if g.coords@[c].n >= count {
            error::found(
                Kind::Disp2DNormalOutOfRange {
                    group: g.id,
                    coord: c as usize,
                    n: g.coords@[c].n,
                    nid: g.nid,
                    count,
                },
            )
        } else {
            None
        }
}

/// A displacement coordinate group references an existing displacement
/// texture and normal vector group, and its coordinates select vectors of the
/// first normal vector group with that id.
pub open spec fn group_finding(m: Model, g: Disp2DGroup) -> error::Finding {
    if find_id(map_ids(m), g.dispid) is None {
        error::found_ids(
            Kind::Disp2DUnknownMap { group: g.id, dispid: g.dispid },
            ids::ascending_ids(map_ids(m).to_set()),
        )
    } else if find_id(normal_group_ids(m), g.nid) is None {
        error::found_ids(
            Kind::Disp2DUnknownNormals { group: g.id, nid: g.nid },
            ids::ascending_ids(normal_group_ids(m).to_set()),
        )
    } else {
        let ng = m.resources.norm_vector_groups@[find_id(normal_group_ids(m), g.nid)->0];
        error::first(g.coords@.len() as int, coord_check(g, ng.vectors@.len() as usize))
    }
}

pub open spec fn group_check(m: Model) -> spec_fn(int) -> error::Finding {
    |i: int| group_finding(m, m.resources.disp2d_groups@[i])
}

pub open spec fn groups_finding(m: Model) -> error::Finding {
    error::first(m.resources.disp2d_groups@.len() as int, group_check(m))
}

/// Vector `v` of normal vector group `g` has a squared length of at least `1e-6`.
pub open spec fn vector_check(m: Model, geo: DisplacementGeometry, g: int) -> spec_fn(
    int,
) -> error::Finding {
    |v: int|
        {
            let grp = m.resources.norm_vector_groups@[g];
            let nv = grp.vectors@[v];
            if float_bits::spec_lt(normal_length(geo, g, v), NORMAL_LENGTH_EPSILON) {
                error::found(
                    Kind::NormVectorTooShort {
                        group: grp.id,
                        vector: v as usize,
                        x: nv.x,
                        y: nv.y,
                        z: nv.z,
                    },
                )
            } else {
                None
            }
        }
}

pub open spec fn normal_group_check(m: Model, geo: DisplacementGeometry) -> spec_fn(
    int,
) -> error::Finding {
    |g: int|
        error::first(
            m.resources.norm_vector_groups@[g].vectors@.len() as int,
            vector_check(m, geo, g),
        )
}

pub open spec fn normals_finding(m: Model, geo: DisplacementGeometry) -> error::Finding {
    error::first(m.resources.norm_vector_groups@.len() as int, normal_group_check(m, geo))
}

fn map_id_list(m: &Model) -> (v: Vec<usize>)
    ensures
        v@ == map_ids(*m),
{
    let ds = &m.resources.displacement_maps;
    let mut v: Vec<usize> = Vec::new();
    let mut i: usize = 0;
    while i < ds.len()
        invariant
            i <= ds@.len(),
            ds@ == m.resources.displacement_maps@,
            v@ =~= map_ids(*m).take(i as int),
        decreases ds@.len() - i,
    {
        v.push(ds[i].id);
        i += 1;
    }
    proof {
        assert(map_ids(*m).take(ds@.len() as int) =~= map_ids(*m));
    }
    v
}

fn normal_group_id_list(m: &Model) -> (v: Vec<usize>)
    ensures
        v@ == normal_group_ids(*m),
{
    let gs = &m.resources.norm_vector_groups;
    let mut v: Vec<usize> = Vec::new();
    let mut i: usize = 0;
    while i < gs.len()
        invariant
            i <= gs@.len(),
            gs@ == m.resources.norm_vector_groups@,
            v@ =~= normal_group_ids(*m).take(i as int),
        decreases gs@.len() - i,
    {
        v.push(gs[i].id);
        i += 1;
    }
    proof {
        assert(normal_group_ids(*m).take(gs@.len() as int) =~= normal_group_ids(*m));
    }
    v
}

fn disp_group_id_list(m: &Model) -> (v: Vec<usize>)
    ensures
        v@ == disp_group_ids(*m),
{
    let gs = &m.resources.disp2d_groups;
    let mut v: Vec<usize> = Vec::new();
    let mut i: usize = 0;
    while i < gs.len()
        invariant
            i <= gs@.len(),
            gs@ == m.resources.disp2d_groups@,
            v@ =~= disp_group_ids(*m).take(i as int),
        decreases gs@.len() - i,
    {
        v.push(gs[i].id);
        i += 1;
    }
    proof {
        assert(disp_group_ids(*m).take(gs@.len() as int) =~= disp_group_ids(*m));
    }
    v
}

/// The normal vector that coordinate `d` of displacement group `did` selects,
/// as (index of its normal vector group, index of the vector): the first
/// group with id `did`, its coordinate `d`, and the first normal vector group
/// with the group's `nid`; `None` where one of them is missing or out of
/// range.
pub open spec fn corner_normal_of(m: Model, did: Option<usize>, d: Option<usize>) -> Option<(usize, usize)> {
    match (did, d) {
        (Some(g), Some(x)) => match find_id(disp_group_ids(m), g) {
            Some(gi) => {
                let dg = m.resources.disp2d_groups@[gi];
                if x < dg.coords@.len() {
                    match find_id(normal_group_ids(m), dg.nid) {
                        Some(ni) => if dg.coords@[x as int].n
                            < m.resources.norm_vector_groups@[ni].vectors@.len() {
                            Some((ni as usize, dg.coords@[x as int].n))
                        } else {
                            None
                        },
                        None => None,
                    }
                } else {
                    None
                }
            },
            None => None,
        },
        _ => None,
    }
}

/// Finds the normal vector that a triangle corner selects (see
/// `corner_normal_of`), so that its scalar product can be measured.
pub fn corner_normal(m: &Model, did: Option<usize>, d: Option<usize>) -> (r: Option<(usize, usize)>)
    ensures
        r == corner_normal_of(*m, did, d),
{
    let (g, x) = match (did, d) {
        (Some(g), Some(x)) => (g, x),
        _ => {
            return None;
        },
    };
    let groups = disp_group_id_list(m);
    let gi = match materials::find_in(&groups, g) {
        Some(gi) => gi,
        None => {
            return None;
        },
    };
    let dg = &m.resources.disp2d_groups[gi];
    if x >= dg.coords.len() {
        return None;
    }
    let normals = normal_group_id_list(m);
    match materials::find_in(&normals, dg.nid) {
        Some(ni) => {
            let n = dg.coords[x].n;
            if n < m.resources.norm_vector_groups[ni].vectors.len() {
                Some((ni, n))
            } else {
                None
            }
        },
        None => None,
    }
}

fn check_group(m: &Model, maps: &Vec<usize>, normals: &Vec<usize>, g: &Disp2DGroup) -> (r: Result<
    (),
    Error,
>)
    requires
        maps@ == map_ids(*m),
        normals@ == normal_group_ids(*m),
    ensures
        error::reports(r, group_finding(*m, *g)),
{
    if materials::find_in(maps, g.dispid).is_none() {
        return error::fail_ids(
            Kind::Disp2DUnknownMap { group: g.id, dispid: g.dispid },
            ids::sorted_ids_from_vec(maps),
        );
    }
    let ni = match materials::find_in(normals, g.nid) {
        None => {
            return error::fail_ids(
                Kind::Disp2DUnknownNormals { group: g.id, nid: g.nid },
                ids::sorted_ids_from_vec(normals),
            );
        },
        Some(ni) => ni,
    };
    assert(normals@.len() == m.resources.norm_vector_groups@.len());
    let count = m.resources.norm_vector_groups[ni].vectors.len();
    let cs = &g.coords;
    let ghost n = cs@.len() as int;
    let mut c: usize = 0;
    while c < cs.len()
        invariant
            c <= cs@.len(),
            n == cs@.len(),
            cs@ == g.coords@,
            find_id(map_ids(*m), g.dispid) is Some,
            find_id(normal_group_ids(*m), g.nid) == Some(ni as int),
            count == m.resources.norm_vector_groups@[ni as int].vectors@.len(),
            error::first(n, coord_check(*g, count)) == error::first_from(
                n,
                coord_check(*g, count),
                c as int,
            ),
        decreases cs@.len() - c,
    {
        if cs[c].n >= count {
            return error::fail(
                Kind::Disp2DNormalOutOfRange { group: g.id, coord: c, n: cs[c].n, nid: g.nid, count },
            );
        }
        c += 1;
    }
    Ok(())
}

fn check_groups(m: &Model) -> (r: Result<(), Error>)
    ensures
        error::reports(r, groups_finding(*m)),
{
    let maps = map_id_list(m);
    let normals = normal_group_id_list(m);
    let gs = &m.resources.disp2d_groups;
    let ghost n = gs@.len() as int;
    let mut i: usize = 0;
    while i < gs.len()
        invariant
            i <= gs@.len(),
            n == gs@.len(),
            gs@ == m.resources.disp2d_groups@,
            maps@ == map_ids(*m),
            normals@ == normal_group_ids(*m),
            error::first(n, group_check(*m)) == error::first_from(n, group_check(*m), i as int),
        decreases gs@.len() - i,
    {
        let r = check_group(m, &maps, &normals, &gs[i]);
        if r.is_err() {
            return r;
        }
        i += 1;
    }
    Ok(())
}

fn check_normal_group(m: &Model, geo: &DisplacementGeometry, g: usize) -> (r: Result<(), Error>)
    requires
        g < m.resources.norm_vector_groups@.len(),
    ensures
        error::reports(r, normal_group_check(*m, *geo)(g as int)),
{
    let grp = &m.resources.norm_vector_groups[g];
    let vs = &grp.vectors;
    let ghost n = vs@.len() as int;
    let mut v: usize = 0;
    while v < vs.len()
        invariant
            v <= vs@.len(),
            n == vs@.len(),
            g < m.resources.norm_vector_groups@.len(),
            *grp == m.resources.norm_vector_groups@[g as int],
            vs@ == grp.vectors@,
            error::first(n, vector_check(*m, *geo, g as int)) == error::first_from(
                n,
                vector_check(*m, *geo, g as int),
                v as int,
            ),
        decreases vs@.len() - v,
    {
        if float_bits::f64_lt(normal_length_at(geo, g, v), NORMAL_LENGTH_EPSILON) {
            let nv = vs[v];
            return error::fail(
                Kind::NormVectorTooShort { group: grp.id, vector: v, x: nv.x, y: nv.y, z: nv.z },
            );
        }
        v += 1;
    }
    Ok(())
}

fn check_normals(m: &Model, geo: &DisplacementGeometry) -> (r: Result<(), Error>)
    ensures
        error::reports(r, normals_finding(*m, *geo)),
{
    let gs = &m.resources.norm_vector_groups;
    let ghost n = gs@.len() as int;
    let mut g: usize = 0;
    while g < gs.len()
        invariant
            g <= gs@.len(),
            n == gs@.len(),
            gs@ == m.resources.norm_vector_groups@,
            error::first(n, normal_group_check(*m, *geo)) == error::first_from(
                n,
                normal_group_check(*m, *geo),
                g as int,
            ),
        decreases gs@.len() - g,
    {
        let r = check_normal_group(m, geo, g);
        if r.is_err() {
            return r;
        }
        g += 1;
    }
    Ok(())
}

// ---------------------------------------------------------------------------
// Orientation of displacement meshes
// ---------------------------------------------------------------------------

/// Edge `e` (0: v1 to v2, 1: v2 to v3, 2: v3 to v1) of `t`, in the direction
/// in which `t` traverses it.
pub open spec fn dedge(t: DisplacementTriangle, e: int) -> (usize, usize) {
    if e == 0 {
        (t.v1, t.v2)
    } else if e == 1 {
        (t.v2, t.v3)
    } else {
        (t.v3, t.v1)
    }
}

/// How many times `t` traverses `edge` in its direction.
pub open spec fn duses(t: DisplacementTriangle, edge: (usize, usize)) -> nat {
    (if dedge(t, 0) == edge {
        1nat
    } else {
        0nat
    }) + (if dedge(t, 1) == edge {
        1nat
    } else {
        0nat
    }) + (if dedge(t, 2) == edge {
        1nat
    } else {
        0nat
    })
}

/// How many times the triangles of `tris` traverse `edge` in its direction.
pub open spec fn dcount(tris: Seq<DisplacementTriangle>, edge: (usize, usize)) -> nat
    decreases tris.len(),
{
    if tris.len() == 0 {
        0
    } else {
        dcount(tris.drop_last(), edge) + duses(tris.last(), edge)
    }
}

/// Whether `d` joins `a` and `b`, in either direction.
pub open spec fn endpoints_match(d: (usize, usize), a: usize, b: usize) -> bool {
    d == (a, b) || d == (b, a)
}

/// Whether an edge before edge `e` of triangle `k` joins `a` and `b`.
pub open spec fn occurs_before(
    tris: Seq<DisplacementTriangle>,
    k: int,
    e: int,
    a: usize,
    b: usize,
) -> bool {
    exists|k2: int, e2: int|
        0 <= k2 < tris.len() && 0 <= e2 < 3 && (k2 < k || (k2 == k && e2 < e))
            && #[trigger] endpoints_match(dedge(tris[k2], e2), a, b)
}

/// How the triangles traverse the edge `d`: it must be once in its own
/// direction and once in the other.  Once in its own and never in the other
/// is a boundary; once in its own and more in the other is an edge of more
/// than two triangles; more than once in its own is a winding error.
pub open spec fn edge_class_finding(
    oid: usize,
    tris: Seq<DisplacementTriangle>,
    d: (usize, usize),
) -> error::Finding {
    let c = dcount(tris, d);
    let r = dcount(tris, (d.1, d.0));
    if c == 1 {
        if r == 0 {
            error::found(Kind::DisplacementBoundaryEdge { object: oid, from: d.0, to: d.1 })
        } else if r == 1 {
            None
        } else {
            error::found(
                Kind::DisplacementEdgeOverused {
                    object: oid,
                    low: if d.0 <= d.1 {
                        d.0
                    } else {
                        d.1
                    },
                    high: if d.0 <= d.1 {
                        d.1
                    } else {
                        d.0
                    },
                    count: capped(1 + r),
                },
            )
        }
    } else {
        error::found(Kind::DisplacementWinding { object: oid, from: d.0, to: d.1, count: capped(c) })
    }
}

/// Edge `e` of triangle `k` is traversed once in each direction, or its pair
/// of vertices came up at an earlier edge.
pub open spec fn directed_edge_finding(
    oid: usize,
    tris: Seq<DisplacementTriangle>,
    k: int,
    e: int,
) -> error::Finding {
    let d = dedge(tris[k], e);
    if occurs_before(tris, k, e, d.0, d.1) {
        None
    } else {
        edge_class_finding(oid, tris, d)
    }
}

pub open spec fn orientation_check(oid: usize, tris: Seq<DisplacementTriangle>) -> spec_fn(
    int,
) -> error::Finding {
    |k: int|
        error::either(
            directed_edge_finding(oid, tris, k, 0),
            error::either(
                directed_edge_finding(oid, tris, k, 1),
                directed_edge_finding(oid, tris, k, 2),
            ),
        )
}

/// The first edge, in triangle order, that the triangles of the mesh do not
/// traverse exactly once in each direction.
pub open spec fn orientation_finding(oid: usize, tris: Seq<DisplacementTriangle>) -> error::Finding {
    error::first(tris.len() as int, orientation_check(oid, tris))
}

/// The counters of `counts` are the capped directed edge counts of `tris`.
pub open spec fn counts_directed(counts: Map<u128, usize>, tris: Seq<DisplacementTriangle>) -> bool {
    forall|a: usize, b: usize| #[trigger] counter(counts, a, b) == capped(dcount(tris, (a, b)))
}

fn dedge_at(t: &DisplacementTriangle, e: usize) -> (r: (usize, usize))
    requires
        e < 3,
    ensures
        r == dedge(*t, e as int),
{
    if e == 0 {
        (t.v1, t.v2)
    } else if e == 1 {
        (t.v2, t.v3)
    } else {
        (t.v3, t.v1)
    }
}

fn count_directed_edges(tris: &Vec<DisplacementTriangle>) -> (counts: HashMap<u128, usize>)
    ensures
        counts_directed(counts@, tris@),
{
    let mut counts: HashMap<u128, usize> = HashMap::new();
    let mut k: usize = 0;
    while k < tris.len()
        invariant
            k <= tris@.len(),
            counts_directed(counts@, tris@.take(k as int)),
        decreases tris@.len() - k,
    {
        let t = &tris[k];
        let ghost before = counts@;
        structure::bump(&mut counts, dedge_at(t, 0));
        structure::bump(&mut counts, dedge_at(t, 1));
        structure::bump(&mut counts, dedge_at(t, 2));
        proof {
            let pre = tris@.take(k as int);
            let post = tris@.take(k + 1);
            assert(post.drop_last() =~= pre);
            assert(post.last() == *t);
            assert forall|a: usize, b: usize| #[trigger]
                counter(counts@, a, b) == capped(dcount(post, (a, b))) by {
                assert(counter(before, a, b) == capped(dcount(pre, (a, b))));
            }
        }
        k += 1;
    }
    proof {
        assert(tris@.take(tris@.len() as int) =~= tris@);
    }
    counts
}

proof fn lemma_occurs_step(tris: Seq<DisplacementTriangle>, k: int, e: int, a: usize, b: usize)
    requires
        0 <= k < tris.len(),
        0 <= e < 3,
    ensures
        occurs_before(tris, k, e + 1, a, b) <==> (occurs_before(tris, k, e, a, b)
            || endpoints_match(dedge(tris[k], e), a, b)),
{
    if occurs_before(tris, k, e + 1, a, b) {
        let (k2, e2) = choose|k2: int, e2: int|
            0 <= k2 < tris.len() && 0 <= e2 < 3 && (k2 < k || (k2 == k && e2 < e + 1))
                && #[trigger] endpoints_match(dedge(tris[k2], e2), a, b);
        if !(k2 == k && e2 == e) {
            assert(occurs_before(tris, k, e, a, b));
        }
    }
    if occurs_before(tris, k, e, a, b) {
        let (k2, e2) = choose|k2: int, e2: int|
            0 <= k2 < tris.len() && 0 <= e2 < 3 && (k2 < k || (k2 == k && e2 < e))
                && #[trigger] endpoints_match(dedge(tris[k2], e2), a, b);
        assert(occurs_before(tris, k, e + 1, a, b));
    }
    if endpoints_match(dedge(tris[k], e), a, b) {
        assert(occurs_before(tris, k, e + 1, a, b));
    }
}

proof fn lemma_occurs_next(tris: Seq<DisplacementTriangle>, k: int, a: usize, b: usize)
    requires
        0 <= k,
    ensures
        occurs_before(tris, k, 3, a, b) <==> occurs_before(tris, k + 1, 0, a, b),
{
    if occurs_before(tris, k, 3, a, b) {
        let (k2, e2) = choose|k2: int, e2: int|
            0 <= k2 < tris.len() && 0 <= e2 < 3 && (k2 < k || (k2 == k && e2 < 3))
                && #[trigger] endpoints_match(dedge(tris[k2], e2), a, b);
        assert(occurs_before(tris, k + 1, 0, a, b));
    }
    if occurs_before(tris, k + 1, 0, a, b) {
        let (k2, e2) = choose|k2: int, e2: int|
            0 <= k2 < tris.len() && 0 <= e2 < 3 && (k2 < k + 1 || (k2 == k + 1 && e2 < 0))
                && #[trigger] endpoints_match(dedge(tris[k2], e2), a, b);
        assert(occurs_before(tris, k, 3, a, b));
    }
}

fn classify_edge(
    oid: usize,
    tris: &Vec<DisplacementTriangle>,
    counts: &HashMap<u128, usize>,
    d: (usize, usize),
) -> (r: Result<(), Error>)
    requires
        counts_directed(counts@, tris@),
    ensures
        error::reports(r, edge_class_finding(oid, tris@, d)),
{
    let c = structure::counter_of(counts, d);
    let rc = structure::counter_of(counts, (d.1, d.0));
    if c == 1 {
        if rc == 0 {
            error::fail(Kind::DisplacementBoundaryEdge { object: oid, from: d.0, to: d.1 })
        } else if rc == 1 {
            Ok(())
        } else {
            let low = if d.0 <= d.1 {
                d.0
            } else {
                d.1
            };
            let high = if d.0 <= d.1 {
                d.1
            } else {
                d.0
            };
            let count = if rc == usize::MAX {
                rc
            } else {
                rc + 1
            };
            error::fail(Kind::DisplacementEdgeOverused { object: oid, low, high, count })
        }
    } else {
        error::fail(Kind::DisplacementWinding { object: oid, from: d.0, to: d.1, count: c })
    }
}

/// The keys of `seen` are those of the vertex pairs of the edges before edge
/// `e` of triangle `k`.
pub open spec fn seen_pairs(seen: Set<u128>, tris: Seq<DisplacementTriangle>, k: int, e: int) -> bool {
    forall|a: usize, b: usize| #[trigger]
        seen.contains(edge_key(a, b)) <==> occurs_before(tris, k, e, a, b)
}

fn check_orientation(oid: usize, tris: &Vec<DisplacementTriangle>) -> (r: Result<(), Error>)
    ensures
        error::reports(r, orientation_finding(oid, tris@)),
{
    let counts = count_directed_edges(tris);
    let mut seen: HashSet<u128> = HashSet::new();
    let ghost n = tris@.len() as int;
    let mut k: usize = 0;
    while k < tris.len()
        invariant
            k <= tris@.len(),
            n == tris@.len(),
            counts_directed(counts@, tris@),
            seen_pairs(seen@, tris@, k as int, 0),
            error::first(n, orientation_check(oid, tris@)) == error::first_from(
                n,
                orientation_check(oid, tris@),
                k as int,
            ),
        decreases tris@.len() - k,
    {
        let t = &tris[k];
        let mut e: usize = 0;
        while e < 3
            invariant
                e <= 3,
                k < tris@.len(),
                *t == tris@[k as int],
                n == tris@.len(),
                counts_directed(counts@, tris@),
                seen_pairs(seen@, tris@, k as int, e as int),
                error::first(n, orientation_check(oid, tris@)) == error::first_from(
                    n,
                    orientation_check(oid, tris@),
                    k as int,
                ),
                forall|f: int| 0 <= f < e ==> directed_edge_finding(oid, tris@, k as int, f) is None,
            decreases 3 - e,
        {
            let d = dedge_at(t, e);
            if !seen.contains(&structure::key_of(d)) {
                let r = classify_edge(oid, tris, &counts, d);
                if r.is_err() {
                    return r;
                }
            }
            let ghost before = seen@;
            seen.insert(structure::key_of(d));
            seen.insert(structure::key_of((d.1, d.0)));
            proof {
                assert forall|a: usize, b: usize| #[trigger]
                    seen@.contains(edge_key(a, b)) <==> occurs_before(
                        tris@,
                        k as int,
                        e + 1,
                        a,
                        b,
                    ) by {
                    lemma_occurs_step(tris@, k as int, e as int, a, b);
                    assert(before.contains(edge_key(a, b)) <==> occurs_before(
                        tris@,
                        k as int,
                        e as int,
                        a,
                        b,
                    ));
                    if edge_key(a, b) == edge_key(d.0, d.1) {
                        structure::lemma_edge_key_injective(a, b, d.0, d.1);
                    }
                    if edge_key(a, b) == edge_key(d.1, d.0) {
                        structure::lemma_edge_key_injective(a, b, d.1, d.0);
                    }
                }
            }
            e += 1;
        }
        proof {
            assert forall|a: usize, b: usize| #[trigger]
                seen@.contains(edge_key(a, b)) <==> occurs_before(tris@, k + 1, 0, a, b) by {
                lemma_occurs_next(tris@, k as int, a, b);
            }
        }
        k += 1;
    }
    Ok(())
}

// ---------------------------------------------------------------------------
// Triangles of displacement meshes
// ---------------------------------------------------------------------------

/// The displacement coordinate index `d` in `slot` of triangle `t` is below
/// the `count` coordinates of its group.
pub open spec fn coord_slot_finding(
    oid: usize,
    t: int,
    slot: Corner,
    d: Option<usize>,
    did: usize,
    count: usize,
) -> error::Finding {
    match d {
        Some(x) => if x >= count {
            error::found(
                Kind::DisplacementCoordOutOfRange {
                    object: oid,
                    triangle: t as usize,
                    slot,
                    index: x,
                    did,
                    count,
                },
            )
        } else {
            None
        },
        None => None,
    }
}

/// The normal vector that coordinate `d` selects, where it selects one,
/// makes a scalar product `dot` above `1e-10` with the triangle's normal.
pub open spec fn inward_finding(
    oid: usize,
    t: int,
    dg: Disp2DGroup,
    ng: model::NormVectorGroup,
    d: Option<usize>,
    dot: u64,
) -> error::Finding {
    match d {
        Some(x) => if x < dg.coords@.len() && dg.coords@[x as int].n < ng.vectors@.len()
            && float_bits::spec_le(dot, VOLUME_EPSILON) {
            error::found(
                Kind::DisplacementInwardNormal {
                    object: oid,
                    triangle: t as usize,
                    normal: dg.coords@[x as int].n,
                    nid: dg.nid,
                    dot,
                },
            )
        } else {
            None
        },
        None => None,
    }
}

/// The normal vectors of the coordinates of triangle `t` point outward.
pub open spec fn normals_of_triangle_finding(
    m: Model,
    geo: DisplacementGeometry,
    i: int,
    oid: usize,
    t: int,
    tri: DisplacementTriangle,
    dg: Disp2DGroup,
) -> error::Finding {
    match find_id(normal_group_ids(m), dg.nid) {
        None => None,
        Some(ni) => {
            let ng = m.resources.norm_vector_groups@[ni];
            let dots = dots_of(geo, i, t);
            error::either(
                inward_finding(oid, t, dg, ng, tri.d1, dots.0),
                error::either(
                    inward_finding(oid, t, dg, ng, tri.d2, dots.1),
                    inward_finding(oid, t, dg, ng, tri.d3, dots.2),
                ),
            )
        },
    }
}

/// The group `did` of triangle `t` exists; the coordinate indices of the
/// triangle are in range of the first group with that id; and their normal
/// vectors point outward.
pub open spec fn did_finding(
    m: Model,
    geo: DisplacementGeometry,
    i: int,
    oid: usize,
    t: int,
    tri: DisplacementTriangle,
    did: usize,
) -> error::Finding {
    match find_id(disp_group_ids(m), did) {
        None => error::found_ids(
            Kind::DisplacementUnknownGroup { object: oid, triangle: t as usize, did },
            ids::ascending_ids(disp_group_ids(m).to_set()),
        ),
        Some(gi) => {
            let dg = m.resources.disp2d_groups@[gi];
            let count = dg.coords@.len() as usize;
            error::either(
                coord_slot_finding(oid, t, Corner::First, tri.d1, did, count),
                error::either(
                    coord_slot_finding(oid, t, Corner::Second, tri.d2, did, count),
                    error::either(
                        coord_slot_finding(oid, t, Corner::Third, tri.d3, did, count),
                        normals_of_triangle_finding(m, geo, i, oid, t, tri, dg),
                    ),
                ),
            )
        },
    }
}

/// Triangle `t` of the displacement mesh of object `i`: vertex indices in
/// range and distinct, an area that is not zero, and valid coordinates.
pub open spec fn disp_triangle_finding(
    m: Model,
    geo: DisplacementGeometry,
    i: int,
    oid: usize,
    mesh: DisplacementMesh,
    t: int,
) -> error::Finding {
    let tri = mesh.triangles@[t];
    let nv = mesh.vertices@.len();
    if tri.v1 >= nv {
        error::found(
            Kind::DisplacementVertexOutOfRange {
                object: oid,
                triangle: t as usize,
                corner: Corner::First,
                index: tri.v1,
                vertex_count: nv as usize,
            },
        )
    } else if tri.v2 >= nv {
        error::found(
            Kind::DisplacementVertexOutOfRange {
                object: oid,
                triangle: t as usize,
                corner: Corner::Second,
                index: tri.v2,
                vertex_count: nv as usize,
            },
        )
    } else if tri.v3 >= nv {
        error::found(
            Kind::DisplacementVertexOutOfRange {
                object: oid,
                triangle: t as usize,
                corner: Corner::Third,
                index: tri.v3,
                vertex_count: nv as usize,
            },
        )
    } else if tri.v1 == tri.v2 || tri.v2 == tri.v3 || tri.v1 == tri.v3 {
        error::found(
            Kind::DisplacementDegenerateTriangle {
                object: oid,
                triangle: t as usize,
                v1: tri.v1,
                v2: tri.v2,
                v3: tri.v3,
            },
        )
    } else if float_bits::spec_lt(area_of(geo, i, t), AREA_EPSILON) {
        let a = mesh.vertices@[tri.v1 as int];
        let b = mesh.vertices@[tri.v2 as int];
        let c = mesh.vertices@[tri.v3 as int];
        error::found(
            Kind::DisplacementFlatTriangle {
                object: oid,
                triangle: t as usize,
                ax: a.x,
                ay: a.y,
                az: a.z,
                bx: b.x,
                by: b.y,
                bz: b.z,
                cx: c.x,
                cy: c.y,
                cz: c.z,
            },
        )
    } else {
        match tri.did {
            None => None,
            Some(did) => did_finding(m, geo, i, oid, t, tri, did),
        }
    }
}

pub open spec fn disp_triangle_check(
    m: Model,
    geo: DisplacementGeometry,
    i: int,
    oid: usize,
    mesh: DisplacementMesh,
) -> spec_fn(int) -> error::Finding {
    |t: int| disp_triangle_finding(m, geo, i, oid, mesh, t)
}

fn check_slot(oid: usize, t: usize, slot: Corner, d: Option<usize>, did: usize, count: usize) -> (r:
    Result<(), Error>)
    ensures
        error::reports(r, coord_slot_finding(oid, t as int, slot, d, did, count)),
{
    if let Some(x) = d {
        if x >= count {
            return error::fail(
                Kind::DisplacementCoordOutOfRange { object: oid, triangle: t, slot, index: x, did, count },
            );
        }
    }
    Ok(())
}

fn check_inward(
    oid: usize,
    t: usize,
    dg: &Disp2DGroup,
    ng: &model::NormVectorGroup,
    d: Option<usize>,
    dot: u64,
) -> (r: Result<(), Error>)
    ensures
        error::reports(r, inward_finding(oid, t as int, *dg, *ng, d, dot)),
{
    if let Some(x) = d {
        if x < dg.coords.len() && dg.coords[x].n < ng.vectors.len() && float_bits::f64_le(
            dot,
            VOLUME_EPSILON,
        ) {
            return error::fail(
                Kind::DisplacementInwardNormal {
                    object: oid,
                    triangle: t,
                    normal: dg.coords[x].n,
                    nid: dg.nid,
                    dot,
                },
            );
        }
    }
    Ok(())
}

fn check_did(
    m: &Model,
    geo: &DisplacementGeometry,
    i: usize,
    oid: usize,
    t: usize,
    tri: &DisplacementTriangle,
    did: usize,
    groups: &Vec<usize>,
    normals: &Vec<usize>,
) -> (r: Result<(), Error>)
    requires
        groups@ == disp_group_ids(*m),
        normals@ == normal_group_ids(*m),
    ensures
        error::reports(r, did_finding(*m, *geo, i as int, oid, t as int, *tri, did)),
{
    let gi = match materials::find_in(groups, did) {
        None => {
            return error::fail_ids(
                Kind::DisplacementUnknownGroup { object: oid, triangle: t, did },
                ids::sorted_ids_from_vec(groups),
            );
        },
        Some(gi) => gi,
    };
    assert(groups@.len() == m.resources.disp2d_groups@.len());
    let dg = &m.resources.disp2d_groups[gi];
    let count = dg.coords.len();
    let r = check_slot(oid, t, Corner::First, tri.d1, did, count);
    if r.is_err() {
        return r;
    }
    let r = check_slot(oid, t, Corner::Second, tri.d2, did, count);
    if r.is_err() {
        return r;
    }
    let r = check_slot(oid, t, Corner::Third, tri.d3, did, count);
    if r.is_err() {
        return r;
    }
    match materials::find_in(normals, dg.nid) {
        None => Ok(()),
        Some(ni) => {
            assert(normals@.len() == m.resources.norm_vector_groups@.len());
            let ng = &m.resources.norm_vector_groups[ni];
            let dots = dots_at(geo, i, t);
            let r = check_inward(oid, t, dg, ng, tri.d1, dots.0);
            if r.is_err() {
                return r;
            }
            let r = check_inward(oid, t, dg, ng, tri.d2, dots.1);
            if r.is_err() {
                return r;
            }
            check_inward(oid, t, dg, ng, tri.d3, dots.2)
        },
    }
}

fn check_disp_triangle(
    m: &Model,
    geo: &DisplacementGeometry,
    i: usize,
    oid: usize,
    mesh: &DisplacementMesh,
    t: usize,
    groups: &Vec<usize>,
    normals: &Vec<usize>,
) -> (r: Result<(), Error>)
    requires
        t < mesh.triangles@.len(),
        groups@ == disp_group_ids(*m),
        normals@ == normal_group_ids(*m),
    ensures
        error::reports(r, disp_triangle_finding(*m, *geo, i as int, oid, *mesh, t as int)),
{
    let tri = &mesh.triangles[t];
    let nv = mesh.vertices.len();
    if tri.v1 >= nv {
        return error::fail(
            Kind::DisplacementVertexOutOfRange {
                object: oid,
                triangle: t,
                corner: Corner::First,
                index: tri.v1,
                vertex_count: nv,
            },
        );
    }
    if tri.v2 >= nv {
        return error::fail(
            Kind::DisplacementVertexOutOfRange {
                object: oid,
                triangle: t,
                corner: Corner::Second,
                index: tri.v2,
                vertex_count: nv,
            },
        );
    }
    if tri.v3 >= nv {
        return error::fail(
            Kind::DisplacementVertexOutOfRange {
                object: oid,
                triangle: t,
                corner: Corner::Third,
                index: tri.v3,
                vertex_count: nv,
            },
        );
    }
    if tri.v1 == tri.v2 || tri.v2 == tri.v3 || tri.v1 == tri.v3 {
        return error::fail(
            Kind::DisplacementDegenerateTriangle {
                object: oid,
                triangle: t,
                v1: tri.v1,
                v2: tri.v2,
                v3: tri.v3,
            },
        );
    }
    if float_bits::f64_lt(area_at(geo, i, t), AREA_EPSILON) {
        let a = mesh.vertices[tri.v1];
        let b = mesh.vertices[tri.v2];
        let c = mesh.vertices[tri.v3];
        return error::fail(
            Kind::DisplacementFlatTriangle {
                object: oid,
                triangle: t,
                ax: a.x,
                ay: a.y,
                az: a.z,
                bx: b.x,
                by: b.y,
                bz: b.z,
                cx: c.x,
                cy: c.y,
                cz: c.z,
            },
        );
    }
    match tri.did {
        None => Ok(()),
        Some(did) => check_did(m, geo, i, oid, t, tri, did, groups, normals),
    }
}

// ---------------------------------------------------------------------------
// Displacement meshes
// ---------------------------------------------------------------------------

/// The displacement mesh of object `i` has at least four triangles, a volume
/// of at least `1e-10` (a negative one is reported as such), no two vertices
/// closer than the measures say, edges traversed once in each direction, and
/// valid triangles.
pub open spec fn disp_mesh_finding(
    m: Model,
    geo: DisplacementGeometry,
    i: int,
    oid: usize,
    mesh: DisplacementMesh,
) -> error::Finding {
    let n = mesh.triangles@.len();
    let volume = volume_of(geo, i);
    if n < 4 {
        error::found(Kind::DisplacementTooFewTriangles { object: oid, triangles: n as usize })
    } else if float_bits::spec_lt(volume, VOLUME_EPSILON) {
        if float_bits::spec_lt(volume, ZERO_BITS) {
            error::found(Kind::DisplacementNegativeVolume { object: oid, volume })
        } else {
            error::found(Kind::DisplacementFlatVolume { object: oid, volume })
        }
    } else if close_of(geo, i) is Some && (close_of(geo, i)->0).0 < mesh.vertices@.len() {
        let pair = close_of(geo, i)->0;
        let v = mesh.vertices@[pair.0 as int];
        error::found(
            Kind::DisplacementDuplicateVertices {
                object: oid,
                first: pair.0,
                second: pair.1,
                x: v.x,
                y: v.y,
                z: v.z,
            },
        )
    } else {
        error::either(
            orientation_finding(oid, mesh.triangles@),
            error::first(n as int, disp_triangle_check(m, geo, i, oid, mesh)),
        )
    }
}

pub open spec fn disp_object_check(m: Model, geo: DisplacementGeometry) -> spec_fn(
    int,
) -> error::Finding {
    |i: int|
        {
            let o = m.resources.objects@[i];
            match o.displacement_mesh {
                Some(mesh) => disp_mesh_finding(m, geo, i, o.id, mesh),
                None => None,
            }
        }
}

pub open spec fn disp_meshes_finding(m: Model, geo: DisplacementGeometry) -> error::Finding {
    error::first(m.resources.objects@.len() as int, disp_object_check(m, geo))
}

/// Displacement elements need the extension declared; then, in order, the
/// texture paths, the coordinate groups, the normal vectors and the meshes
/// are checked.
pub open spec fn displacement_finding(m: Model, geo: DisplacementGeometry) -> error::Finding {
    if uses_displacement(m) && !declares_displacement(m) {
        error::found(Kind::DisplacementNotDeclared)
    } else {
        error::either(
            map_paths_finding(m),
            error::either(
                groups_finding(m),
                error::either(normals_finding(m, geo), disp_meshes_finding(m, geo)),
            ),
        )
    }
}

fn check_disp_triangles(
    m: &Model,
    geo: &DisplacementGeometry,
    i: usize,
    oid: usize,
    mesh: &DisplacementMesh,
    groups: &Vec<usize>,
    normals: &Vec<usize>,
) -> (r: Result<(), Error>)
    requires
        groups@ == disp_group_ids(*m),
        normals@ == normal_group_ids(*m),
    ensures
        error::reports(
            r,
            error::first(mesh.triangles@.len() as int, disp_triangle_check(*m, *geo, i as int, oid, *mesh)),
        ),
{
    let ghost n = mesh.triangles@.len() as int;
    let mut t: usize = 0;
    while t < mesh.triangles.len()
        invariant
            t <= mesh.triangles@.len(),
            n == mesh.triangles@.len(),
            groups@ == disp_group_ids(*m),
            normals@ == normal_group_ids(*m),
            error::first(n, disp_triangle_check(*m, *geo, i as int, oid, *mesh)) == error::first_from(
                n,
                disp_triangle_check(*m, *geo, i as int, oid, *mesh),
                t as int,
            ),
        decreases mesh.triangles@.len() - t,
    {
        let r = check_disp_triangle(m, geo, i, oid, mesh, t, groups, normals);
        if r.is_err() {
            return r;
        }
        t += 1;
    }
    Ok(())
}

fn check_disp_mesh(
    m: &Model,
    geo: &DisplacementGeometry,
    i: usize,
    oid: usize,
    mesh: &DisplacementMesh,
    groups: &Vec<usize>,
    normals: &Vec<usize>,
) -> (r: Result<(), Error>)
    requires
        groups@ == disp_group_ids(*m),
        normals@ == normal_group_ids(*m),
    ensures
        error::reports(r, disp_mesh_finding(*m, *geo, i as int, oid, *mesh)),
{
    let n = mesh.triangles.len();
    if n < 4 {
        return error::fail(Kind::DisplacementTooFewTriangles { object: oid, triangles: n });
    }
    let volume = volume_at(geo, i);
    if float_bits::f64_lt(volume, VOLUME_EPSILON) {
        if float_bits::f64_lt(volume, ZERO_BITS) {
            return error::fail(Kind::DisplacementNegativeVolume { object: oid, volume });
        }
        return error::fail(Kind::DisplacementFlatVolume { object: oid, volume });
    }
    if let Some(pair) = close_at(geo, i) {
        if pair.0 < mesh.vertices.len() {
            let v = mesh.vertices[pair.0];
            return error::fail(
                Kind::DisplacementDuplicateVertices {
                    object: oid,
                    first: pair.0,
                    second: pair.1,
                    x: v.x,
                    y: v.y,
                    z: v.z,
                },
            );
        }
    }
    let r = check_orientation(oid, &mesh.triangles);
    if r.is_err() {
        return r;
    }
    check_disp_triangles(m, geo, i, oid, mesh, groups, normals)
}

fn check_disp_meshes(m: &Model, geo: &DisplacementGeometry) -> (r: Result<(), Error>)
    ensures
        error::reports(r, disp_meshes_finding(*m, *geo)),
{
    let groups = disp_group_id_list(m);
    let normals = normal_group_id_list(m);
    let objs = &m.resources.objects;
    let ghost n = objs@.len() as int;
    let mut i: usize = 0;
    while i < objs.len()
        invariant
            i <= objs@.len(),
            n == objs@.len(),
            objs@ == m.resources.objects@,
            groups@ == disp_group_ids(*m),
            normals@ == normal_group_ids(*m),
            error::first(n, disp_object_check(*m, *geo)) == error::first_from(
                n,
                disp_object_check(*m, *geo),
                i as int,
            ),
        decreases objs@.len() - i,
    {
        let o = &objs[i];
        if let Some(mesh) = &o.displacement_mesh {
            let r = check_disp_mesh(m, geo, i, o.id, mesh, &groups, &normals);
            if r.is_err() {
                return r;
            }
        }
        i += 1;
    }
    Ok(())
}

/// Checks the displacement resources of the model, with the binary64
/// measures of their geometry in `geometry`.
pub fn validate_displacement_extension(model: &Model, geometry: &DisplacementGeometry) -> (r: Result<
    (),
    Error,
>)
    requires
        geometry_fits(*model, *geometry),
    ensures
        error::reports(r, displacement_finding(*model, *geometry)),
{
    if uses_displacement_elements(model) && !declares_displacement_extension(model) {
        return error::fail(Kind::DisplacementNotDeclared);
    }
    let r = check_map_paths(model);
    if r.is_err() {
        return r;
    }
    let r = check_groups(model);
    if r.is_err() {
        return r;
    }
    let r = check_normals(model, geometry);
    if r.is_err() {
        return r;
    }
    check_disp_meshes(model, geometry)
}

} // verus!
