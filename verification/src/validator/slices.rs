//! Slice extension rules: slice heights, slice polygons, slice stack
//! references and the planar transforms of sliced objects.
use crate::error::{self, Error, Kind, MatrixEntry};
use crate::float_bits::{self, ONE_BITS, ZERO_BITS};
use crate::ids;
use crate::model::{Model, Slice, SlicePolygon, Transform};
use crate::text;
use vstd::prelude::*;

verus! {

// ---------------------------------------------------------------------------
// Slices and their polygons
// ---------------------------------------------------------------------------

/// Segment `g` of polygon `p`: its vertex is in range and differs from the
/// previous segment's.
pub open spec fn segment_finding(stack: usize, k: int, slice: Slice, p: int, g: int) -> error::Finding {
    let poly = slice.polygons@[p];
    let segs = poly.segments@;
    let nv = slice.vertices@.len() as usize;
    if segs[g].v2 >= nv {
        error::found(
            Kind::SliceSegmentOutOfRange {
                stack,
                slice: k as usize,
                ztop: slice.ztop,
                polygon: p as usize,
                segment: g as usize,
                v2: segs[g].v2,
                vertex_count: nv,
            },
        )
    } else if g > 0 && segs[g].v2 == segs[g - 1].v2 {
        error::found(
            Kind::SliceRepeatedVertex {
                stack,
                slice: k as usize,
                ztop: slice.ztop,
                polygon: p as usize,
                segment: g as usize,
                v2: segs[g].v2,
            },
        )
    } else {
        None
    }
}

pub open spec fn segment_check(stack: usize, k: int, slice: Slice, p: int) -> spec_fn(int) -> error::Finding {
    |g: int| segment_finding(stack, k, slice, p, g)
}

/// Polygon `p`: a start vertex in range, two segments at least, valid
/// segments, and closed.
pub open spec fn polygon_finding(stack: usize, k: int, slice: Slice, p: int) -> error::Finding {
    let poly = slice.polygons@[p];
    let segs = poly.segments@;
    let nv = slice.vertices@.len() as usize;
    if poly.startv >= nv {
        error::found(
            Kind::SliceStartvOutOfRange {
                stack,
                slice: k as usize,
                ztop: slice.ztop,
                polygon: p as usize,
                startv: poly.startv,
                vertex_count: nv,
            },
        )
    } else if segs.len() < 2 {
        error::found(
            Kind::SliceTooFewSegments {
                stack,
                slice: k as usize,
                ztop: slice.ztop,
                polygon: p as usize,
                segments: segs.len() as usize,
            },
        )
    } else {
        error::either(
            error::first(segs.len() as int, segment_check(stack, k, slice, p)),
            if segs.last().v2 != poly.startv {
                error::found(
                    Kind::SlicePolygonNotClosed {
                        stack,
                        slice: k as usize,
                        ztop: slice.ztop,
                        polygon: p as usize,
                        last_v2: segs.last().v2,
                        startv: poly.startv,
                    },
                )
            } else {
                None
            },
        )
    }
}

pub open spec fn polygon_check(stack: usize, k: int, slice: Slice) -> spec_fn(int) -> error::Finding {
    |p: int| polygon_finding(stack, k, slice, p)
}

/// Slice `k` of stack `stack`: polygons need vertices, and each polygon must
/// be valid; a slice without polygons is valid.
pub open spec fn slice_finding(stack: usize, k: int, slice: Slice) -> error::Finding {
    if slice.polygons@.len() == 0 {
        None
    } else if slice.vertices@.len() == 0 {
        error::found(
            Kind::SlicePolygonsWithoutVertices {
                stack,
                slice: k as usize,
                ztop: slice.ztop,
                polygons: slice.polygons@.len() as usize,
            },
        )
    } else {
        error::first(slice.polygons@.len() as int, polygon_check(stack, k, slice))
    }
}

fn check_polygon(stack: usize, k: usize, slice: &Slice, p: usize) -> (r: Result<(), Error>)
    requires
        p < slice.polygons@.len(),
        slice.vertices@.len() > 0,
    ensures
        error::reports(r, polygon_finding(stack, k as int, *slice, p as int)),
{
    let poly = &slice.polygons[p];
    let nv = slice.vertices.len();
    if poly.startv >= nv {
        return error::fail(
            Kind::SliceStartvOutOfRange {
                stack,
                slice: k,
                ztop: slice.ztop,
                polygon: p,
                startv: poly.startv,
                vertex_count: nv,
            },
        );
    }
    let segs = &poly.segments;
    if segs.len() < 2 {
        return error::fail(
            Kind::SliceTooFewSegments {
                stack,
                slice: k,
                ztop: slice.ztop,
                polygon: p,
                segments: segs.len(),
            },
        );
    }
    let ghost n = segs@.len() as int;
    let mut g: usize = 0;
    while g < segs.len()
        invariant
            g <= segs@.len(),
            n == segs@.len(),
            p < slice.polygons@.len(),
            *poly == slice.polygons@[p as int],
            segs@ == poly.segments@,
            nv == slice.vertices@.len(),
            poly.startv < nv,
            segs@.len() >= 2,
            error::first(n, segment_check(stack, k as int, *slice, p as int)) == error::first_from(
                n,
                segment_check(stack, k as int, *slice, p as int),
                g as int,
            ),
        decreases segs@.len() - g,
    {
        let v2 = segs[g].v2;
        if v2 >= nv {
            return error::fail(
                Kind::SliceSegmentOutOfRange {
                    stack,
                    slice: k,
                    ztop: slice.ztop,
                    polygon: p,
                    segment: g,
                    v2,
                    vertex_count: nv,
                },
            );
        }
        if g > 0 && v2 == segs[g - 1].v2 {
            return error::fail(
                Kind::SliceRepeatedVertex {
                    stack,
                    slice: k,
                    ztop: slice.ztop,
                    polygon: p,
                    segment: g,
                    v2,
                },
            );
        }
        g += 1;
    }
    let last = segs[segs.len() - 1].v2;
    if last != poly.startv {
        return error::fail(
            Kind::SlicePolygonNotClosed {
                stack,
                slice: k,
                ztop: slice.ztop,
                polygon: p,
                last_v2: last,
                startv: poly.startv,
            },
        );
    }
    Ok(())
}

/// Checks the polygons of one slice.
pub fn validate_slice(slice_stack_id: usize, slice_idx: usize, slice: &Slice) -> (r: Result<
    (),
    Error,
>)
    ensures
        error::reports(r, slice_finding(slice_stack_id, slice_idx as int, *slice)),
{
    if slice.polygons.len() == 0 {
        return Ok(());
    }
    if slice.vertices.len() == 0 {
        return error::fail(
            Kind::SlicePolygonsWithoutVertices {
                stack: slice_stack_id,
                slice: slice_idx,
                ztop: slice.ztop,
                polygons: slice.polygons.len(),
            },
        );
    }
    let ghost n = slice.polygons@.len() as int;
    let mut p: usize = 0;
    while p < slice.polygons.len()
        invariant
            p <= n,
            n == slice.polygons@.len(),
            slice.vertices@.len() > 0,
            error::first(n, polygon_check(slice_stack_id, slice_idx as int, *slice))
                == error::first_from(
                n,
                polygon_check(slice_stack_id, slice_idx as int, *slice),
                p as int,
            ),
        decreases n - p,
    {
        let r = check_polygon(slice_stack_id, slice_idx, slice, p);
        if r.is_err() {
            return r;
        }
        p += 1;
    }
    Ok(())
}

/// Slice `k` of stack `s`: its top lies at or above the stack's bottom and
/// above the previous slice's top, and the slice itself is valid.
pub open spec fn stack_slice_finding(m: Model, s: int, k: int) -> error::Finding {
    let st = m.resources.slice_stacks@[s];
    let sl = st.slices@[k];
    if float_bits::spec_lt(sl.ztop, st.zbottom) {
        error::found(
            Kind::SliceBelowBottom { stack: st.id, slice: k as usize, ztop: sl.ztop, zbottom: st.zbottom },
        )
    } else if k > 0 && float_bits::spec_le(sl.ztop, st.slices@[k - 1].ztop) {
        error::found(
            Kind::SliceNotIncreasing {
                stack: st.id,
                slice: k as usize,
                ztop: sl.ztop,
                previous: st.slices@[k - 1].ztop,
            },
        )
    } else {
        slice_finding(st.id, k, sl)
    }
}

pub open spec fn stack_slice_check(m: Model, s: int) -> spec_fn(int) -> error::Finding {
    |k: int| stack_slice_finding(m, s, k)
}

pub open spec fn stack_check(m: Model) -> spec_fn(int) -> error::Finding {
    |s: int|
        error::first(
            m.resources.slice_stacks@[s].slices@.len() as int,
            stack_slice_check(m, s),
        )
}

pub open spec fn slices_finding(m: Model) -> error::Finding {
    error::first(m.resources.slice_stacks@.len() as int, stack_check(m))
}

fn check_stack(m: &Model, s: usize) -> (r: Result<(), Error>)
    requires
        s < m.resources.slice_stacks@.len(),
    ensures
        error::reports(
            r,
            error::first(
                m.resources.slice_stacks@[s as int].slices@.len() as int,
                stack_slice_check(*m, s as int),
            ),
        ),
{
    let st = &m.resources.slice_stacks[s];
    let slices = &st.slices;
    let ghost n = slices@.len() as int;
    let mut k: usize = 0;
    while k < slices.len()
        invariant
            k <= slices@.len(),
            n == slices@.len(),
            s < m.resources.slice_stacks@.len(),
            *st == m.resources.slice_stacks@[s as int],
            slices@ == st.slices@,
            error::first(n, stack_slice_check(*m, s as int)) == error::first_from(
                n,
                stack_slice_check(*m, s as int),
                k as int,
            ),
        decreases slices@.len() - k,
    {
        let sl = &slices[k];
        if float_bits::f64_lt(sl.ztop, st.zbottom) {
            return error::fail(
                Kind::SliceBelowBottom { stack: st.id, slice: k, ztop: sl.ztop, zbottom: st.zbottom },
            );
        }
        if k > 0 && float_bits::f64_le(sl.ztop, slices[k - 1].ztop) {
            return error::fail(
                Kind::SliceNotIncreasing {
                    stack: st.id,
                    slice: k,
                    ztop: sl.ztop,
                    previous: slices[k - 1].ztop,
                },
            );
        }
        let r = validate_slice(st.id, k, sl);
        if r.is_err() {
            return r;
        }
        k += 1;
    }
    Ok(())
}

/// Checks slice heights and the slices of every slice stack.
pub fn validate_slices(model: &Model) -> (r: Result<(), Error>)
    ensures
        error::reports(r, slices_finding(*model)),
{
    let ghost n = model.resources.slice_stacks@.len() as int;
    let mut s: usize = 0;
    while s < model.resources.slice_stacks.len()
        invariant
            s <= n,
            n == model.resources.slice_stacks@.len(),
            error::first(n, stack_check(*model)) == error::first_from(
                n,
                stack_check(*model),
                s as int,
            ),
        decreases n - s,
    {
        let r = check_stack(model, s);
        if r.is_err() {
            return r;
        }
        s += 1;
    }
    Ok(())
}

// ---------------------------------------------------------------------------
// Slice stack references and planar transforms
// ---------------------------------------------------------------------------

/// A transform of a sliced object leaves the z axis alone: m02, m12, m20 and
/// m21 (entries 2, 5, 6, 7) are 0.0 and m22 (entry 8) is 1.0.
pub open spec fn planar_finding(t: Transform, context: Seq<char>) -> error::Finding {
    if !float_bits::spec_eq(t@[2], ZERO_BITS) {
        error::found_text(Kind::NonPlanarTransform { entry: MatrixEntry::M02, bits: t@[2] }, context)
    } else if !float_bits::spec_eq(t@[5], ZERO_BITS) {
        error::found_text(Kind::NonPlanarTransform { entry: MatrixEntry::M12, bits: t@[5] }, context)
    } else if !float_bits::spec_eq(t@[6], ZERO_BITS) {
        error::found_text(Kind::NonPlanarTransform { entry: MatrixEntry::M20, bits: t@[6] }, context)
    } else if !float_bits::spec_eq(t@[7], ZERO_BITS) {
        error::found_text(Kind::NonPlanarTransform { entry: MatrixEntry::M21, bits: t@[7] }, context)
    } else if !float_bits::spec_eq(t@[8], ONE_BITS) {
        error::found_text(Kind::NonPlanarTransform { entry: MatrixEntry::M22, bits: t@[8] }, context)
    } else {
        None
    }
}

/// Checks that a transform is planar.
pub fn validate_planar_transform(transform: &Transform, context: &str) -> (r: Result<(), Error>)
    ensures
        error::reports(r, planar_finding(*transform, context@)),
{
    if !float_bits::f64_eq(transform[2], ZERO_BITS) {
        return error::fail_text(
            Kind::NonPlanarTransform { entry: MatrixEntry::M02, bits: transform[2] },
            context.to_owned(),
        );
    }
    if !float_bits::f64_eq(transform[5], ZERO_BITS) {
        return error::fail_text(
            Kind::NonPlanarTransform { entry: MatrixEntry::M12, bits: transform[5] },
            context.to_owned(),
        );
    }
    if !float_bits::f64_eq(transform[6], ZERO_BITS) {
        return error::fail_text(
            Kind::NonPlanarTransform { entry: MatrixEntry::M20, bits: transform[6] },
            context.to_owned(),
        );
    }
    if !float_bits::f64_eq(transform[7], ZERO_BITS) {
        return error::fail_text(
            Kind::NonPlanarTransform { entry: MatrixEntry::M21, bits: transform[7] },
            context.to_owned(),
        );
    }
    if !float_bits::f64_eq(transform[8], ONE_BITS) {
        return error::fail_text(
            Kind::NonPlanarTransform { entry: MatrixEntry::M22, bits: transform[8] },
            context.to_owned(),
        );
    }
    Ok(())
}

pub open spec fn slice_stack_ids(m: Model) -> Seq<usize> {
    m.resources.slice_stacks@.map_values(|s: crate::model::SliceStack| s.id)
}

/// Whether an object with id `id` references a slice stack.
pub open spec fn is_sliced(m: Model, id: usize) -> bool {
    exists|i: int|
        0 <= i < m.resources.objects@.len() && #[trigger] m.resources.objects@[i].id == id
            && m.resources.objects@[i].slicestackid is Some
}

/// Whether some object references a slice stack.
pub open spec fn has_sliced_objects(m: Model) -> bool {
    exists|i: int|
        0 <= i < m.resources.objects@.len() && #[trigger] m.resources.objects@[i].slicestackid is Some
}

pub open spec fn build_item_context(objectid: usize) -> Seq<char> {
    "Build Item referencing object "@ + text::decimal(objectid as nat)
}

pub open spec fn component_context(object: usize, objectid: usize) -> Seq<char> {
    "Object "@ + text::decimal(object as nat) + ", Component referencing object "@ + text::decimal(
        objectid as nat,
    )
}

pub open spec fn mixed_stack_check(m: Model) -> spec_fn(int) -> error::Finding {
    |s: int| {
        let st = m.resources.slice_stacks@[s];
        if st.slices@.len() > 0 && st.slice_refs@.len() > 0 {
            error::found(Kind::SliceStackMixed { stack: st.id })
        } else {
            None
        }
    }
}

pub open spec fn stack_reference_check(m: Model) -> spec_fn(int) -> error::Finding {
    |i: int| {
        let o = m.resources.objects@[i];
        match o.slicestackid {
            Some(sid) => if !slice_stack_ids(m).contains(sid) {
                error::found_ids(
                    Kind::ObjectUnknownSliceStack { object: o.id, stack: sid },
                    ids::ascending_ids(slice_stack_ids(m).to_set()),
                )
            } else {
                None
            },
            None => None,
        }
    }
}

pub open spec fn item_planar_check(m: Model) -> spec_fn(int) -> error::Finding {
    |k: int| {
        let item = m.build.items@[k];
        if is_sliced(m, item.objectid) {
            match item.transform {
                Some(t) => planar_finding(t, build_item_context(item.objectid)),
                None => None,
            }
        } else {
            None
        }
    }
}

pub open spec fn component_planar_check(m: Model, i: int) -> spec_fn(int) -> error::Finding {
    |c: int| {
        let o = m.resources.objects@[i];
        let comp = o.components@[c];
        if is_sliced(m, comp.objectid) {
            match comp.transform {
                Some(t) => planar_finding(t, component_context(o.id, comp.objectid)),
                None => None,
            }
        } else {
            None
        }
    }
}

pub open spec fn object_planar_check(m: Model) -> spec_fn(int) -> error::Finding {
    |i: int|
        error::first(
            m.resources.objects@[i].components@.len() as int,
            component_planar_check(m, i),
        )
}

/// Where the model has slice stacks: none mixes slices and slice references,
/// objects reference existing stacks, and transforms applied to sliced
/// objects by build items and components are planar.
pub open spec fn slice_extension_finding(m: Model) -> error::Finding {
    if m.resources.slice_stacks@.len() == 0 {
        None
    } else {
        error::either(
            error::first(m.resources.slice_stacks@.len() as int, mixed_stack_check(m)),
            error::either(
                error::first(m.resources.objects@.len() as int, stack_reference_check(m)),
                if has_sliced_objects(m) {
                    error::either(
                        error::first(m.build.items@.len() as int, item_planar_check(m)),
                        error::first(m.resources.objects@.len() as int, object_planar_check(m)),
                    )
                } else {
                    None
                },
            ),
        )
    }
}

fn references_sliced(m: &Model, id: usize) -> (r: bool)
    ensures
        r == is_sliced(*m, id),
{
    let objs = &m.resources.objects;
    let mut i: usize = 0;
    while i < objs.len()
        invariant
            i <= objs@.len(),
            objs@ == m.resources.objects@,
            forall|j: int| 0 <= j < i ==> !(#[trigger] objs@[j].id == id && objs@[j].slicestackid is Some),
        decreases objs@.len() - i,
    {
        if objs[i].id == id && objs[i].slicestackid.is_some() {
            return true;
        }
        i += 1;
    }
    false
}

fn check_mixed_stacks(m: &Model) -> (r: Result<(), Error>)
    ensures
        error::reports(r, error::first(m.resources.slice_stacks@.len() as int, mixed_stack_check(*m))),
{
    let stacks = &m.resources.slice_stacks;
    let ghost n = stacks@.len() as int;
    let mut s: usize = 0;
    while s < stacks.len()
        invariant
            s <= stacks@.len(),
            n == stacks@.len(),
            stacks@ == m.resources.slice_stacks@,
            error::first(n, mixed_stack_check(*m)) == error::first_from(
                n,
                mixed_stack_check(*m),
                s as int,
            ),
        decreases stacks@.len() - s,
    {
        if stacks[s].slices.len() > 0 && stacks[s].slice_refs.len() > 0 {
            return error::fail(Kind::SliceStackMixed { stack: stacks[s].id });
        }
        s += 1;
    }
    Ok(())
}

fn check_stack_references(m: &Model) -> (r: Result<(), Error>)
    ensures
        error::reports(r, error::first(m.resources.objects@.len() as int, stack_reference_check(*m))),
{
    let stacks = &m.resources.slice_stacks;
    let mut known: Vec<usize> = Vec::new();
    let mut s: usize = 0;
    while s < stacks.len()
        invariant
            s <= stacks@.len(),
            stacks@ == m.resources.slice_stacks@,
            known@ == slice_stack_ids(*m).take(s as int),
        decreases stacks@.len() - s,
    {
        known.push(stacks[s].id);
        proof {
            assert(slice_stack_ids(*m).take(s + 1) =~= slice_stack_ids(*m).take(s as int).push(
                stacks@[s as int].id,
            ));
        }
        s += 1;
    }
    proof {
        assert(slice_stack_ids(*m).take(stacks@.len() as int) =~= slice_stack_ids(*m));
    }
    let objs = &m.resources.objects;
    let ghost n = objs@.len() as int;
    let mut i: usize = 0;
    while i < objs.len()
        invariant
            i <= objs@.len(),
            n == objs@.len(),
            objs@ == m.resources.objects@,
            known@ == slice_stack_ids(*m),
            error::first(n, stack_reference_check(*m)) == error::first_from(
                n,
                stack_reference_check(*m),
                i as int,
            ),
        decreases objs@.len() - i,
    {
        if let Some(sid) = objs[i].slicestackid {
            proof {
                crate::validator::materials::lemma_find_id(known@, sid);
            }
            if crate::validator::materials::find_in(&known, sid).is_none() {
                let available = ids::sorted_ids_from_vec(&known);
                return error::fail_ids(
                    Kind::ObjectUnknownSliceStack { object: objs[i].id, stack: sid },
                    available,
                );
            }
        }
        i += 1;
    }
    Ok(())
}

fn check_item_transforms(m: &Model) -> (r: Result<(), Error>)
    ensures
        error::reports(r, error::first(m.build.items@.len() as int, item_planar_check(*m))),
{
    let items = &m.build.items;
    let ghost n = items@.len() as int;
    let mut k: usize = 0;
    while k < items.len()
        invariant
            k <= items@.len(),
            n == items@.len(),
            items@ == m.build.items@,
            error::first(n, item_planar_check(*m)) == error::first_from(
                n,
                item_planar_check(*m),
                k as int,
            ),
        decreases items@.len() - k,
    {
        let item = &items[k];
        if references_sliced(m, item.objectid) {
            if let Some(t) = &item.transform {
                let mut context = String::new();
                text::push_text(&mut context, "Build Item referencing object ");
                text::push_decimal(&mut context, item.objectid);
                proof {
                    reveal_strlit("Build Item referencing object ");
                }
                let r = validate_planar_transform(t, context.as_str());
                if r.is_err() {
                    return r;
                }
            }
        }
        k += 1;
    }
    Ok(())
}

fn check_component_transforms(m: &Model, i: usize) -> (r: Result<(), Error>)
    requires
        i < m.resources.objects@.len(),
    ensures
        error::reports(
            r,
            error::first(
                m.resources.objects@[i as int].components@.len() as int,
                component_planar_check(*m, i as int),
            ),
        ),
{
    let o = &m.resources.objects[i];
    let comps = &o.components;
    let ghost n = comps@.len() as int;
    let mut c: usize = 0;
    while c < comps.len()
        invariant
            c <= comps@.len(),
            n == comps@.len(),
            i < m.resources.objects@.len(),
            *o == m.resources.objects@[i as int],
            comps@ == o.components@,
            error::first(n, component_planar_check(*m, i as int)) == error::first_from(
                n,
                component_planar_check(*m, i as int),
                c as int,
            ),
        decreases comps@.len() - c,
    {
        let comp = &comps[c];
        if references_sliced(m, comp.objectid) {
            if let Some(t) = &comp.transform {
                let mut context = String::new();
                text::push_text(&mut context, "Object ");
                text::push_decimal(&mut context, o.id);
                text::push_text(&mut context, ", Component referencing object ");
                text::push_decimal(&mut context, comp.objectid);
                proof {
                    reveal_strlit("Object ");
                    reveal_strlit(", Component referencing object ");
                }
                let r = validate_planar_transform(t, context.as_str());
                if r.is_err() {
                    return r;
                }
            }
        }
        c += 1;
    }
    Ok(())
}

fn check_object_transforms(m: &Model) -> (r: Result<(), Error>)
    ensures
        error::reports(r, error::first(m.resources.objects@.len() as int, object_planar_check(*m))),
{
    let ghost n = m.resources.objects@.len() as int;
    let mut i: usize = 0;
    while i < m.resources.objects.len()
        invariant
            i <= n,
            n == m.resources.objects@.len(),
            error::first(n, object_planar_check(*m)) == error::first_from(
                n,
                object_planar_check(*m),
                i as int,
            ),
        decreases n - i,
    {
        let r = check_component_transforms(m, i);
        if r.is_err() {
            return r;
        }
        i += 1;
    }
    Ok(())
}

fn any_sliced(m: &Model) -> (r: bool)
    ensures
        r == has_sliced_objects(*m),
{
    let objs = &m.resources.objects;
    let mut i: usize = 0;
    while i < objs.len()
        invariant
            i <= objs@.len(),
            objs@ == m.resources.objects@,
            forall|j: int| 0 <= j < i ==> #[trigger] objs@[j].slicestackid is None,
        decreases objs@.len() - i,
    {
        if objs[i].slicestackid.is_some() {
            return true;
        }
        i += 1;
    }
    false
}

/// Checks slice stacks, the references to them, and the transforms applied
/// to sliced objects.
pub fn validate_slice_extension(model: &Model) -> (r: Result<(), Error>)
    ensures
        error::reports(r, slice_extension_finding(*model)),
{
    if model.resources.slice_stacks.len() == 0 {
        return Ok(());
    }
    let r = check_mixed_stacks(model);
    if r.is_err() {
        return r;
    }
    let r = check_stack_references(model);
    if r.is_err() {
        return r;
    }
    if !any_sliced(model) {
        return Ok(());
    }
    let r = check_item_transforms(model);
    if r.is_err() {
        return r;
    }
    check_object_transforms(model)
}

} // verus!
