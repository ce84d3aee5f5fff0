//! The errors that validation reports.
//!
//! Each rule of the specification that a model can break has a variant of
//! `Violation`, which carries the identifiers and indices that locate the
//! offending element.  `Error::to_string` renders the human-readable message.
use crate::model::ObjectType;
use crate::text::{push_decimal, push_decimal_list, push_string, push_text};
use vstd::prelude::*;

verus! {

/// Which vertex index of a triangle or beam is meant.
#[derive(Clone, Copy, Debug, PartialEq, Eq, Structural)]
pub enum Corner {
    First,
    Second,
    Third,
}

/// The kind of a property group that a reference resolved to.
#[derive(Clone, Copy, Debug, PartialEq, Eq, Structural)]
pub enum PropertyKind {
    ColorGroup,
    BaseMaterials,
    Texture2DGroup,
    MultiProperties,
    CompositeMaterials,
}

/// A material attribute of a triangle.
#[derive(Clone, Copy, Debug, PartialEq, Eq, Structural)]
pub enum PropAttr {
    Pindex,
    P1,
    P2,
    P3,
}

/// A kind of resource, as the resource-ordering and identifier messages name it.
#[derive(Clone, Copy, Debug, PartialEq, Eq, Structural)]
pub enum ResourceKind {
    Texture2D,
    Texture2DGroup,
    ColorGroup,
    BaseMaterials,
    CompositeMaterials,
    MultiProperties,
    SliceStack,
}

/// Where a production UUID or path stands.
#[derive(Clone, Copy, Debug, PartialEq, Eq, Structural)]
pub enum Site {
    Build,
    BuildItem { item: usize },
    Object { object: usize },
    Component { object: usize, component: usize },
}

/// An element of a transform that a planar transform fixes.
#[derive(Clone, Copy, Debug, PartialEq, Eq, Structural)]
pub enum MatrixEntry {
    M02,
    M12,
    M20,
    M21,
    M22,
}

/// The mesh that a beam lattice references.
#[derive(Clone, Copy, Debug, PartialEq, Eq, Structural)]
pub enum LatticeMesh {
    Clipping,
    Representation,
}

/// A broken rule, with the numbers that locate it in the model.  Decimal
/// quantities are carried as the bit patterns of their `f64` values.
#[derive(Clone, Copy, Debug, PartialEq, Eq, Structural)]
pub enum Kind {
    // --- required structure and object ids ---
    NoObjects,
    EmptyBuild,
    BooleanOperationsNotDeclared,
    /// `ids` lists the offending objects.
    BooleanShapeWithMaterialProperties,
    ZeroObjectId,
    DuplicateObjectId { id: usize },
    // --- mesh geometry ---
    TrianglesWithoutVertices { object: usize, triangles: usize },
    VertexIndexOutOfBounds {
        object: usize,
        triangle: usize,
        corner: Corner,
        index: usize,
        vertex_count: usize,
    },
    DegenerateTriangle { object: usize, triangle: usize, v1: usize, v2: usize, v3: usize },
    NonManifoldEdge { object: usize, low: usize, high: usize, count: usize },
    // --- build and component references ---
    /// `ids` lists the object ids of the model, ascending.
    BuildItemUnknownObject { item: usize, objectid: usize },
    /// `ids` lists the object ids of the model, ascending.
    ComponentUnknownObject { object: usize, objectid: usize },
    /// `ids` is the cycle, its first id repeated at its end.
    CircularComponents,
    AssemblyWithPid { object: usize },
    AssemblyWithPindex { object: usize },
    // --- material references ---
    DuplicatePropertyGroupId { id: usize, earlier: PropertyKind, later: PropertyKind },
    MultiPindexOutOfBounds {
        multi: usize,
        element: usize,
        layer: usize,
        pindex: usize,
        group_kind: PropertyKind,
        group: usize,
        count: usize,
    },
    /// `ids` lists the property group ids of the model, ascending.
    ObjectUnknownPropertyGroup { object: usize, pid: usize },
    /// `ids` lists the base material group ids of the model, ascending.
    ObjectUnknownBaseMaterialGroup { object: usize, id: usize },
    ObjectPindexOutOfBounds {
        object: usize,
        pindex: usize,
        group_kind: PropertyKind,
        group: usize,
        count: usize,
    },
    TrianglePropertyOutOfBounds {
        object: usize,
        triangle: usize,
        attr: PropAttr,
        value: usize,
        group_kind: PropertyKind,
        group: usize,
        count: usize,
    },
    // --- textures and colors ---
    TexturePathEmpty { texture: usize },
    /// `text` is the path.
    TexturePathNul { texture: usize },
    /// `text` is the path.
    TexturePathBackslash { texture: usize },
    /// `text` is the path.
    TexturePathNonAscii { texture: usize },
    /// `text` is the content type.
    TextureContentType { texture: usize },
    EmptyColorGroup { group: usize },
    // --- multiproperties ---
    MultiPidInvalid { multi: usize, pid: usize, index: usize },
    MultiBaseMaterialNotFirst { multi: usize, group: usize, layer: usize },
    /// `ids` lists the color groups referenced, in order of first reference.
    MultiSeveralColorGroups { multi: usize },
    MultiColorGroupRepeated { multi: usize, group: usize },
    // --- property sizes and triangle properties ---
    EmptyPropertyResource { kind: PropertyKind, id: usize },
    PropertyResourceNotFound { id: usize },
    ObjectPindexBeyondResource { object: usize, pindex: usize, resource: usize, size: usize },
    /// `text` is the context (such as `Object 3`).
    MixedTriangleMaterials { object: usize },
    /// `text` is the context (such as `Object 3`).
    PerVertexWithoutPid { object: usize },
    TriangleMultiPindexOutOfBounds { object: usize, pindex: usize, multi: usize, count: usize },
    // --- resource ordering and identifiers ---
    TextureGroupForwardReference { group: usize, texture: usize },
    TextureGroupUnknownTexture { group: usize, texture: usize },
    MultiForwardReference { multi: usize, kind: PropertyKind, pid: usize },
    ObjectAmongPropertyResources {
        object: usize,
        position: usize,
        first_kind: ResourceKind,
        first_id: usize,
        first_position: usize,
        later_kind: ResourceKind,
        later_id: usize,
        later_position: usize,
    },
    DuplicateObjectResourceId { id: usize },
    DuplicatePropertyResourceId { id: usize, resource_kind: ResourceKind },
    // --- UUIDs ---
    /// `text` is the UUID.
    UuidLength { site: Site },
    /// `text` is the UUID.
    UuidHyphens { site: Site },
    /// `text` is the UUID.
    UuidNotHex { site: Site, ch: char, position: usize },
    /// `text` is the UUID.
    DuplicateUuid { site: Site },
    // --- production paths and attributes ---
    /// `text` is the path.
    ProductionPathNotAbsolute { site: Site },
    /// `text` is the path.
    ProductionPathParent { site: Site },
    /// `text` is the path.
    ProductionPathTrailingSlash { site: Site },
    /// `text` is the path.
    ProductionPathHidden { site: Site },
    /// `text` is the path.
    ProductionPathNotModel { site: Site },
    ComponentPathWithoutUuid { object: usize, component: usize },
    ProductionNotDeclared,
    /// `text` is the path.
    ProductionPathRels { site: Site },
    /// `text` is the path.
    ProductionPathContentTypes { site: Site },
    BuildWithoutUuid,
    BuildItemWithoutUuid { item: usize },
    ObjectWithoutUuid { object: usize },
    // --- boolean shapes ---
    BooleanObjectNotModel { object: usize, object_type: ObjectType },
    BooleanWithComponents { object: usize },
    BooleanWithMesh { object: usize },
    BooleanNoOperands { object: usize },
    /// `ids` lists the object ids of the model, ascending.
    BooleanBaseUnknown { object: usize, base: usize },
    BooleanBaseForward { object: usize, base: usize },
    BooleanBaseNotModel { object: usize, base: usize, object_type: ObjectType },
    BooleanBaseNoShape { object: usize, base: usize },
    /// `ids` lists the object ids of the model, ascending.
    BooleanOperandUnknown { object: usize, operand: usize },
    BooleanOperandForward { object: usize, operand: usize },
    BooleanOperandNotModel { object: usize, operand: usize, object_type: ObjectType },
    BooleanOperandNotMesh { object: usize, operand: usize },
    BooleanOperandHasBoolean { object: usize, operand: usize },
    BooleanOperandHasComponents { object: usize, operand: usize },
    BooleanOperandExtensionShapes { object: usize, operand: usize },
    // --- slices ---
    SliceBelowBottom { stack: usize, slice: usize, ztop: u64, zbottom: u64 },
    SliceNotIncreasing { stack: usize, slice: usize, ztop: u64, previous: u64 },
    SlicePolygonsWithoutVertices { stack: usize, slice: usize, ztop: u64, polygons: usize },
    SliceStartvOutOfRange {
        stack: usize,
        slice: usize,
        ztop: u64,
        polygon: usize,
        startv: usize,
        vertex_count: usize,
    },
    SliceTooFewSegments { stack: usize, slice: usize, ztop: u64, polygon: usize, segments: usize },
    SliceSegmentOutOfRange {
        stack: usize,
        slice: usize,
        ztop: u64,
        polygon: usize,
        segment: usize,
        v2: usize,
        vertex_count: usize,
    },
    SliceRepeatedVertex { stack: usize, slice: usize, ztop: u64, polygon: usize, segment: usize, v2: usize },
    SlicePolygonNotClosed {
        stack: usize,
        slice: usize,
        ztop: u64,
        polygon: usize,
        last_v2: usize,
        startv: usize,
    },
    SliceStackMixed { stack: usize },
    /// `ids` lists the slice stack ids of the model, ascending.
    ObjectUnknownSliceStack { object: usize, stack: usize },
    /// `text` is the context (the build item or component).
    NonPlanarTransform { entry: MatrixEntry, bits: u64 },
    // --- volumetric data ---
    VolumetricNotDeclared,
    VolumetricBoundary {
        data: usize,
        min_x: u64,
        min_y: u64,
        min_z: u64,
        max_x: u64,
        max_y: u64,
        max_z: u64,
    },
    VoxelGridEmpty { data: usize, dim_x: usize, dim_y: usize, dim_z: usize },
    VoxelOutside {
        data: usize,
        at_x: usize,
        at_y: usize,
        at_z: usize,
        dim_x: usize,
        dim_y: usize,
        dim_z: usize,
    },
    VoxelUnknownProperty { data: usize, property: usize },
    VoxelSpacing { data: usize, step_x: u64, step_y: u64, step_z: u64 },
    DuplicateVolumetricPropertyGroup { id: usize },
    // --- beam lattices ---
    BeamLatticeObjectType { object: usize, object_type: ObjectType },
    BeamVertexOutOfRange { object: usize, beam: usize, end: PropAttr, index: usize, vertex_count: usize },
    BeamSelfReferencing { object: usize, beam: usize, vertex: usize },
    BeamUnknownProperty { object: usize, beam: usize, pid: usize },
    BeamDuplicate { object: usize, beam: usize, v1: usize, v2: usize },
    LatticePidWithoutObjectPid { object: usize },
    LatticePropertiesWithoutDefault { object: usize },
    BeamSetRefOutOfRange { object: usize, index: usize, count: usize },
    BallSetRefOutOfRange { object: usize, index: usize, count: usize },
    BallVertexOutOfRange { object: usize, ball: usize, vindex: usize, vertex_count: usize },
    BallNotAtBeamEnd { object: usize, ball: usize, vindex: usize },
    BallUnknownProperty { object: usize, ball: usize, pid: usize },
    BallPindexOutOfBounds {
        object: usize,
        ball: usize,
        pindex: usize,
        group_kind: PropertyKind,
        group: usize,
        count: usize,
    },
    LatticeMeshUnknown { object: usize, mesh: LatticeMesh, id: usize },
    LatticeMeshSelf { object: usize, mesh: LatticeMesh },
    LatticeMeshNotEarlier { object: usize, mesh: LatticeMesh, id: usize },
    LatticeMeshComponents { object: usize, mesh: LatticeMesh, id: usize },
    LatticeMeshHasLattice { object: usize, mesh: LatticeMesh, id: usize },
    /// `text` is the clipping mode.
    LatticeClippingModeInvalid { object: usize },
    /// `text` is the clipping mode.
    LatticeClippingModeWithoutMesh { object: usize },
    /// `text` is the ball mode.
    LatticeBallModeInvalid { object: usize },
    /// `text` is the ball mode.
    LatticeBallModeWithoutRadius { object: usize },
    LatticeUnknownProperty { object: usize, pid: usize },
    LatticePindexOutOfBounds {
        object: usize,
        pindex: usize,
        group_kind: PropertyKind,
        group: usize,
        count: usize,
    },
    BeamPropertyOutOfBounds {
        object: usize,
        beam: usize,
        attr: PropAttr,
        value: usize,
        group_kind: PropertyKind,
        group: usize,
        count: usize,
    },
    /// A validation handler of the caller refused the model; `text` is its reason.
    CustomValidationFailed,
    // --- build item transforms and mesh volumes ---
    /// The transform of build item `item` has a determinant `det` of absolute value below `1e-10`.
    TransformSingular {
        item: usize,
        det: u64,
        m00: u64,
        m01: u64,
        m02: u64,
        m10: u64,
        m11: u64,
        m12: u64,
        m20: u64,
        m21: u64,
        m22: u64,
        tx: u64,
        ty: u64,
        tz: u64,
    },
    /// The transform of build item `item` has a negative determinant `det`.
    TransformMirror {
        item: usize,
        det: u64,
        m00: u64,
        m01: u64,
        m02: u64,
        m10: u64,
        m11: u64,
        m12: u64,
        m20: u64,
        m21: u64,
        m22: u64,
        tx: u64,
        ty: u64,
        tz: u64,
    },
    MeshNegativeVolume { object: usize, volume: u64 },
    // --- displacement ---
    DisplacementNotDeclared,
    /// `text` is the path.
    DisplacementPathNonAscii { map: usize },
    /// `text` is the path.
    DisplacementPathOutsideTextures { map: usize },
    /// `text` is the path.
    DisplacementPathNotPng { map: usize },
    /// `ids` lists the displacement map ids, ascending.
    Disp2DUnknownMap { group: usize, dispid: usize },
    /// `ids` lists the normal vector group ids, ascending.
    Disp2DUnknownNormals { group: usize, nid: usize },
    Disp2DNormalOutOfRange { group: usize, coord: usize, n: usize, nid: usize, count: usize },
    NormVectorTooShort { group: usize, vector: usize, x: u64, y: u64, z: u64 },
    DisplacementTooFewTriangles { object: usize, triangles: usize },
    DisplacementNegativeVolume { object: usize, volume: u64 },
    DisplacementFlatVolume { object: usize, volume: u64 },
    DisplacementDuplicateVertices { object: usize, first: usize, second: usize, x: u64, y: u64, z: u64 },
    DisplacementBoundaryEdge { object: usize, from: usize, to: usize },
    DisplacementEdgeOverused { object: usize, low: usize, high: usize, count: usize },
    DisplacementWinding { object: usize, from: usize, to: usize, count: usize },
    DisplacementVertexOutOfRange {
        object: usize,
        triangle: usize,
        corner: Corner,
        index: usize,
        vertex_count: usize,
    },
    DisplacementDegenerateTriangle { object: usize, triangle: usize, v1: usize, v2: usize, v3: usize },
    DisplacementFlatTriangle {
        object: usize,
        triangle: usize,
        ax: u64,
        ay: u64,
        az: u64,
        bx: u64,
        by: u64,
        bz: u64,
        cx: u64,
        cy: u64,
        cz: u64,
    },
    /// `ids` lists the disp2dgroup ids, ascending.
    DisplacementUnknownGroup { object: usize, triangle: usize, did: usize },
    DisplacementCoordOutOfRange {
        object: usize,
        triangle: usize,
        slot: Corner,
        index: usize,
        did: usize,
        count: usize,
    },
    DisplacementInwardNormal { object: usize, triangle: usize, normal: usize, nid: usize, dot: u64 },
}

/// A broken rule: its kind, and the id list and the text (a path, a UUID, an
/// attribute value) that some kinds carry; both are empty for the others.
#[derive(Debug)]
pub struct Violation {
    pub kind: Kind,
    pub ids: Vec<usize>,
    pub text: String,
}

/// What a check finds: nothing, or the kind, id list and text of a violation.
pub type Finding = Option<(Kind, Seq<usize>, Seq<char>)>;

/// A violation of kind `k` with no id list and no text.
pub open spec fn found(k: Kind) -> Finding {
    Some((k, Seq::empty(), Seq::empty()))
}

/// A violation of kind `k` with the id list `ids`.
pub open spec fn found_ids(k: Kind, ids: Seq<usize>) -> Finding {
    Some((k, ids, Seq::empty()))
}

/// A violation of kind `k` with the text `t`.
pub open spec fn found_text(k: Kind, t: Seq<char>) -> Finding {
    Some((k, Seq::empty(), t))
}

/// The first finding of the two, `a` before `b`.
pub open spec fn either(a: Finding, b: Finding) -> Finding {
    if a is Some {
        a
    } else {
        b
    }
}

/// The first finding among `f(start)`, `f(start + 1)`, ..., `f(n - 1)`.
pub open spec fn first_from(n: int, f: spec_fn(int) -> Finding, start: int) -> Finding
    decreases n - start,
{
    if start >= n {
        None
    } else {
        either(f(start), first_from(n, f, start + 1))
    }
}

/// The first finding among `f(0)`, ..., `f(n - 1)`.
pub open spec fn first(n: int, f: spec_fn(int) -> Finding) -> Finding {
    first_from(n, f, 0)
}

/// The findings from `start` on are all absent exactly when each is.
pub proof fn lemma_first_from_none(n: int, f: spec_fn(int) -> Finding, start: int)
    ensures
        first_from(n, f, start) is None <==> forall|k: int| start <= k < n ==> (#[trigger] f(k)) is None,
    decreases n - start,
{
    if start < n {
        lemma_first_from_none(n, f, start + 1);
        if first_from(n, f, start) is None {
            assert forall|k: int| start <= k < n implies (#[trigger] f(k)) is None by {
                if k > start {
                    assert(first_from(n, f, start + 1) is None);
                }
            }
        }
    }
}

/// There is no first finding exactly when every check finds nothing.
pub proof fn lemma_first_none(n: int, f: spec_fn(int) -> Finding)
    ensures
        first(n, f) is None <==> forall|k: int| 0 <= k < n ==> (#[trigger] f(k)) is None,
{
    lemma_first_from_none(n, f, 0);
}

/// Whether the result `r` reports the finding `f`: `Ok` for none, else the
/// violation it describes.
pub open spec fn reports(r: Result<(), Error>, f: Finding) -> bool {
    match f {
        None => r is Ok,
        Some((k, ids, t)) => match r {
            Ok(_) => false,
            Err(Error::InvalidModel(v)) => v.kind == k && v.ids@ == ids && v.text@ == t,
        },
    }
}

/// The error for a violation of kind `k`.
pub fn fail(k: Kind) -> (r: Result<(), Error>)
    ensures
        reports(r, found(k)),
{
    Err(Error::InvalidModel(Violation { kind: k, ids: Vec::new(), text: String::new() }))
}

/// The error for a violation of kind `k` with the id list `ids`.
pub fn fail_ids(k: Kind, ids: Vec<usize>) -> (r: Result<(), Error>)
    ensures
        reports(r, found_ids(k, ids@)),
{
    Err(Error::InvalidModel(Violation { kind: k, ids, text: String::new() }))
}

/// The error for a violation of kind `k` with the text `t`.
pub fn fail_text(k: Kind, t: String) -> (r: Result<(), Error>)
    ensures
        reports(r, found_text(k, t@)),
{
    Err(Error::InvalidModel(Violation { kind: k, ids: Vec::new(), text: t }))
}

/// An error of the library.
#[derive(Debug)]
pub enum Error {
    /// The model breaks a rule of the 3MF specification.
    InvalidModel(Violation),
}

/// `v1=`, `v2=` or `v3=` for the corner `c`.
pub open spec fn corner_text(c: Corner) -> Seq<char> {
    match c {
        Corner::First => "v1="@,
        Corner::Second => "v2="@,
        Corner::Third => "v3="@,
    }
}

/// The message of a failed triangle-index check.
fn push_corner(s: &mut String, c: Corner)
    ensures
        final(s)@ == old(s)@ + corner_text(c),
{
    match c {
        Corner::First => push_text(s, "v1="),
        Corner::Second => push_text(s, "v2="),
        Corner::Third => push_text(s, "v3="),
    }
}

/// `String::push` appends one character.
pub assume_specification[ String::push ](s: &mut String, ch: char)
    ensures
        final(s)@ == old(s)@.push(ch),
;

/// The decimal form of `n - 1`, or of 0 where `n` is 0: the last index of `n` entries.
pub open spec fn last_index_text(n: usize) -> Seq<char> {
    crate::text::decimal((if n > 0 { n - 1 } else { 0 }) as nat)
}

/// Appends the decimal form of `n - 1`, or of 0 where `n` is 0.
fn push_last_index(s: &mut String, n: usize)
    ensures
        final(s)@ == old(s)@ + last_index_text(n),
{
    push_decimal(s, if n > 0 { n - 1 } else { 0 });
}

/// The name under which a property group of kind `k` is registered.
pub open spec fn group_type_text(k: PropertyKind) -> Seq<char> {
    match k {
        PropertyKind::ColorGroup => "colorgroup"@,
        PropertyKind::BaseMaterials => "basematerials"@,
        PropertyKind::MultiProperties => "multiproperties"@,
        PropertyKind::Texture2DGroup => "texture2dgroup"@,
        PropertyKind::CompositeMaterials => "compositematerials"@,
    }
}

/// The name under which a property group was first registered.
fn push_group_type(s: &mut String, k: PropertyKind)
    ensures
        final(s)@ == old(s)@ + group_type_text(k),
{
    match k {
        PropertyKind::ColorGroup => push_text(s, "colorgroup"),
        PropertyKind::BaseMaterials => push_text(s, "basematerials"),
        PropertyKind::MultiProperties => push_text(s, "multiproperties"),
        PropertyKind::Texture2DGroup => push_text(s, "texture2dgroup"),
        PropertyKind::CompositeMaterials => push_text(s, "compositematerials"),
    }
}

/// The noun for a property group of kind `k`.
pub open spec fn group_noun_text(k: PropertyKind) -> Seq<char> {
    match k {
        PropertyKind::ColorGroup => "colorgroup"@,
        PropertyKind::BaseMaterials => "basematerials group"@,
        PropertyKind::MultiProperties => "multiproperties group"@,
        PropertyKind::Texture2DGroup => "texture2dgroup"@,
        PropertyKind::CompositeMaterials => "compositematerials group"@,
    }
}

/// The noun for a property group that repeats an id.
fn push_group_noun(s: &mut String, k: PropertyKind)
    ensures
        final(s)@ == old(s)@ + group_noun_text(k),
{
    match k {
        PropertyKind::ColorGroup => push_text(s, "colorgroup"),
        PropertyKind::BaseMaterials => push_text(s, "basematerials group"),
        PropertyKind::MultiProperties => push_text(s, "multiproperties group"),
        PropertyKind::Texture2DGroup => push_text(s, "texture2dgroup"),
        PropertyKind::CompositeMaterials => push_text(s, "compositematerials group"),
    }
}

/// `<Group> <id> has <count> <items> (valid indices: 0-<count - 1>).` and a new line.
pub open spec fn group_has_text(k: PropertyKind, group: usize, count: usize) -> Seq<char> {
    (match k {
        PropertyKind::ColorGroup => "Color group "@,
        PropertyKind::BaseMaterials => "Base material group "@,
        PropertyKind::MultiProperties => "MultiProperties group "@,
        PropertyKind::Texture2DGroup => "Texture2D group "@,
        PropertyKind::CompositeMaterials => "Composite materials group "@,
    }) + crate::text::decimal(group as nat) + " has "@ + crate::text::decimal(count as nat) + (match k {
        PropertyKind::ColorGroup => " colors"@,
        PropertyKind::BaseMaterials => " materials"@,
        PropertyKind::MultiProperties => " multi elements"@,
        PropertyKind::Texture2DGroup => " texture coordinates"@,
        PropertyKind::CompositeMaterials => " composite elements"@,
    }) + " (valid indices: 0-"@ + last_index_text(count) + ").\n"@
}

/// `<Group> <id> has <count> <items> (valid indices: 0-<count - 1>).`
fn push_group_has(s: &mut String, k: PropertyKind, group: usize, count: usize)
    ensures
        final(s)@ == old(s)@ + group_has_text(k, group, count),
{
    match k {
        PropertyKind::ColorGroup => push_text(s, "Color group "),
        PropertyKind::BaseMaterials => push_text(s, "Base material group "),
        PropertyKind::MultiProperties => push_text(s, "MultiProperties group "),
        PropertyKind::Texture2DGroup => push_text(s, "Texture2D group "),
        PropertyKind::CompositeMaterials => push_text(s, "Composite materials group "),
    }
    push_decimal(s, group);
    push_text(s, " has ");
    push_decimal(s, count);
    match k {
        PropertyKind::ColorGroup => push_text(s, " colors"),
        PropertyKind::BaseMaterials => push_text(s, " materials"),
        PropertyKind::MultiProperties => push_text(s, " multi elements"),
        PropertyKind::Texture2DGroup => push_text(s, " texture coordinates"),
        PropertyKind::CompositeMaterials => push_text(s, " composite elements"),
    }
    push_text(s, " (valid indices: 0-");
    push_last_index(s, count);
    push_text(s, ").\n");
}

/// `the number of <items> in the <group>.`
pub open spec fn group_items_text(k: PropertyKind) -> Seq<char> {
    match k {
        PropertyKind::ColorGroup => "the number of colors in the color group."@,
        PropertyKind::BaseMaterials => "the number of materials in the base material group."@,
        PropertyKind::MultiProperties => "the number of multi elements in the multiproperties group."@,
        PropertyKind::Texture2DGroup => "the number of texture coordinates in the texture2d group."@,
        PropertyKind::CompositeMaterials => "the number of composite elements in the composite materials group."@,
    }
}

/// `the number of <items> in the <group>.`
fn push_group_items(s: &mut String, k: PropertyKind)
    ensures
        final(s)@ == old(s)@ + group_items_text(k),
{
    match k {
        PropertyKind::ColorGroup => push_text(s, "the number of colors in the color group."),
        PropertyKind::BaseMaterials => push_text(
            s,
            "the number of materials in the base material group.",
        ),
        PropertyKind::MultiProperties => push_text(
            s,
            "the number of multi elements in the multiproperties group.",
        ),
        PropertyKind::Texture2DGroup => push_text(
            s,
            "the number of texture coordinates in the texture2d group.",
        ),
        PropertyKind::CompositeMaterials => push_text(
            s,
            "the number of composite elements in the composite materials group.",
        ),
    }
}

/// The name of the material attribute `a`.
pub open spec fn attr_text(a: PropAttr) -> Seq<char> {
    match a {
        PropAttr::Pindex => "pindex"@,
        PropAttr::P1 => "p1"@,
        PropAttr::P2 => "p2"@,
        PropAttr::P3 => "p3"@,
    }
}

fn push_attr(s: &mut String, a: PropAttr)
    ensures
        final(s)@ == old(s)@ + attr_text(a),
{
    match a {
        PropAttr::Pindex => push_text(s, "pindex"),
        PropAttr::P1 => push_text(s, "p1"),
        PropAttr::P2 => push_text(s, "p2"),
        PropAttr::P3 => push_text(s, "p3"),
    }
}

/// The element name of a resource of kind `k`.
pub open spec fn resource_kind_text(k: ResourceKind) -> Seq<char> {
    match k {
        ResourceKind::Texture2D => "Texture2D"@,
        ResourceKind::Texture2DGroup => "Texture2DGroup"@,
        ResourceKind::ColorGroup => "ColorGroup"@,
        ResourceKind::BaseMaterials => "BaseMaterials"@,
        ResourceKind::CompositeMaterials => "CompositeMaterials"@,
        ResourceKind::MultiProperties => "MultiProperties"@,
        ResourceKind::SliceStack => "SliceStack"@,
    }
}

fn push_resource_kind(s: &mut String, k: ResourceKind)
    ensures
        final(s)@ == old(s)@ + resource_kind_text(k),
{
    match k {
        ResourceKind::Texture2D => push_text(s, "Texture2D"),
        ResourceKind::Texture2DGroup => push_text(s, "Texture2DGroup"),
        ResourceKind::ColorGroup => push_text(s, "ColorGroup"),
        ResourceKind::BaseMaterials => push_text(s, "BaseMaterials"),
        ResourceKind::CompositeMaterials => push_text(s, "CompositeMaterials"),
        ResourceKind::MultiProperties => push_text(s, "MultiProperties"),
        ResourceKind::SliceStack => push_text(s, "SliceStack"),
    }
}

/// The context of a check: `Build`, `Build item 2`, `Object 3`,
/// `Object 3, Component 1`; build items are `Build Item` where `capital`.
pub open spec fn site_text(site: Site, capital: bool) -> Seq<char> {
    match site {
        Site::Build => "Build"@,
        Site::BuildItem { item } => (if capital {
            "Build Item "@
        } else {
            "Build item "@
        }) + crate::text::decimal(item as nat),
        Site::Object { object } => "Object "@ + crate::text::decimal(object as nat),
        Site::Component { object, component } => "Object "@ + crate::text::decimal(object as nat)
            + ", Component "@ + crate::text::decimal(component as nat),
    }
}

/// The context of a check: `Build`, `Build item 2`, `Object 3`, ...; build
/// items are `Build Item` where `capital`.
fn push_site(s: &mut String, site: Site, capital: bool)
    ensures
        final(s)@ == old(s)@ + site_text(site, capital),
{
    match site {
        Site::Build => push_text(s, "Build"),
        Site::BuildItem { item } => {
            if capital {
                push_text(s, "Build Item ");
            } else {
                push_text(s, "Build item ");
            }
            push_decimal(s, item);
        },
        Site::Object { object } => {
            push_text(s, "Object ");
            push_decimal(s, object);
        },
        Site::Component { object, component } => {
            push_text(s, "Object ");
            push_decimal(s, object);
            push_text(s, ", Component ");
            push_decimal(s, component);
        },
    }
}

/// The lower-case hexadecimal digit for `d`, below 16.
pub open spec fn hex_char(d: u64) -> char {
    if d < 10 {
        ((48 + d) as u8) as char
    } else {
        ((87 + d) as u8) as char
    }
}

/// The `k` lowest hexadecimal digits of `bits`, most significant first.
pub open spec fn hex_digits(bits: u64, k: nat) -> Seq<char>
    decreases k,
{
    if k == 0 {
        Seq::empty()
    } else {
        seq![hex_char((bits >> (4 * (k - 1)) as u64) & 15u64)] + hex_digits(bits, (k - 1) as nat)
    }
}

/// The bit pattern of a binary64 value, as `0x` and 16 hexadecimal digits.
pub open spec fn bits_text(bits: u64) -> Seq<char> {
    "0x"@ + hex_digits(bits, 16)
}

/// Appends the bit pattern of a binary64 value, as `0x` and 16 hexadecimal digits.
pub fn push_bits(s: &mut String, bits: u64)
    ensures
        final(s)@ == old(s)@ + bits_text(bits),
{
    push_text(s, "0x");
    let ghost start = s@;
    let mut k: u64 = 16;
    while k > 0
        invariant
            k <= 16,
            s@ + hex_digits(bits, k as nat) == start + hex_digits(bits, 16),
        decreases k,
    {
        k -= 1;
        let d = (bits >> (4 * k)) & 15u64;
        assert(((bits >> (4 * k)) & 15u64) <= 15u64) by (bit_vector);
        let c: char = if d < 10 {
            (48u8 + d as u8) as char
        } else {
            (87u8 + (d as u8)) as char
        };
        let ghost before = s@;
        s.push(c);
        proof {
            assert(c == hex_char(d));
            assert(hex_digits(bits, (k + 1) as nat) == seq![c] + hex_digits(bits, k as nat));
            assert(s@ + hex_digits(bits, k as nat) =~= before + hex_digits(bits, (k + 1) as nat));
        }
    }
    proof {
        assert(s@ + hex_digits(bits, 0) =~= s@);
        assert(start + hex_digits(bits, 16) =~= old(s)@ + bits_text(bits));
    }
}

/// `SliceStack <stack>: Slice <slice> (ztop=<z>)`
pub open spec fn slice_head_text(stack: usize, slice: usize, ztop: u64) -> Seq<char> {
    "SliceStack "@ + crate::text::decimal(stack as nat) + ": Slice "@ + crate::text::decimal(
        slice as nat,
    ) + " (ztop="@ + bits_text(ztop) + ")"@
}

/// `SliceStack <stack>: Slice <slice> (ztop=<z>)`
fn push_slice_head(s: &mut String, stack: usize, slice: usize, ztop: u64)
    ensures
        final(s)@ == old(s)@ + slice_head_text(stack, slice, ztop),
{
    push_text(s, "SliceStack ");
    push_decimal(s, stack);
    push_text(s, ": Slice ");
    push_decimal(s, slice);
    push_text(s, " (ztop=");
    push_bits(s, ztop);
    push_text(s, ")");
}

/// `(a, b, c)` in decimal.
pub open spec fn triple_text(t: (usize, usize, usize)) -> Seq<char> {
    "("@ + crate::text::decimal(t.0 as nat) + ", "@ + crate::text::decimal(t.1 as nat) + ", "@
        + crate::text::decimal(t.2 as nat) + ")"@
}

/// `(a, b, c)` in decimal.
fn push_triple(s: &mut String, t: (usize, usize, usize))
    ensures
        final(s)@ == old(s)@ + triple_text(t),
{
    push_text(s, "(");
    push_decimal(s, t.0);
    push_text(s, ", ");
    push_decimal(s, t.1);
    push_text(s, ", ");
    push_decimal(s, t.2);
    push_text(s, ")");
}

/// `(a, b, c)` as bit patterns.
pub open spec fn bits_triple_text(t: (u64, u64, u64)) -> Seq<char> {
    "("@ + bits_text(t.0) + ", "@ + bits_text(t.1) + ", "@ + bits_text(t.2) + ")"@
}

/// `(a, b, c)` as bit patterns.
fn push_bits_triple(s: &mut String, t: (u64, u64, u64))
    ensures
        final(s)@ == old(s)@ + bits_triple_text(t),
{
    push_text(s, "(");
    push_bits(s, t.0);
    push_text(s, ", ");
    push_bits(s, t.1);
    push_text(s, ", ");
    push_bits(s, t.2);
    push_text(s, ")");
}

/// `VolumetricData resource <data>: `
pub open spec fn volumetric_head_text(data: usize) -> Seq<char> {
    "VolumetricData resource "@ + crate::text::decimal(data as nat) + ": "@
}

/// `VolumetricData resource <data>: `
fn push_volumetric_head(s: &mut String, data: usize)
    ensures
        final(s)@ == old(s)@ + volumetric_head_text(data),
{
    push_text(s, "VolumetricData resource ");
    push_decimal(s, data);
    push_text(s, ": ");
}

/// `Color group <g> has <n> colors (valid indices: 0-<n-1>).` or the base
/// material form, for the beam lattice messages.
pub open spec fn lattice_group_text(k: PropertyKind, group: usize, count: usize) -> Seq<char> {
    (match k {
        PropertyKind::BaseMaterials => "Base material group "@,
        _ => "Color group "@,
    }) + crate::text::decimal(group as nat) + " has "@ + crate::text::decimal(count as nat) + (match k {
        PropertyKind::BaseMaterials => " materials (valid indices: 0-"@,
        _ => " colors (valid indices: 0-"@,
    }) + last_index_text(count) + ")."@
}

/// `Color group <g> has <n> colors (valid indices: 0-<n-1>).` or the base
/// material form, for the beam lattice messages.
fn push_lattice_group(s: &mut String, k: PropertyKind, group: usize, count: usize)
    ensures
        final(s)@ == old(s)@ + lattice_group_text(k, group, count),
{
    match k {
        PropertyKind::BaseMaterials => push_text(s, "Base material group "),
        _ => push_text(s, "Color group "),
    }
    push_decimal(s, group);
    push_text(s, " has ");
    push_decimal(s, count);
    match k {
        PropertyKind::BaseMaterials => push_text(s, " materials (valid indices: 0-"),
        _ => push_text(s, " colors (valid indices: 0-"),
    }
    push_last_index(s, count);
    push_text(s, ").");
}

/// The attribute that names the mesh `m` of a beam lattice.
pub open spec fn lattice_mesh_text(m: LatticeMesh) -> Seq<char> {
    match m {
        LatticeMesh::Clipping => "clippingmesh"@,
        LatticeMesh::Representation => "representationmesh"@,
    }
}

fn push_lattice_mesh(s: &mut String, m: LatticeMesh)
    ensures
        final(s)@ == old(s)@ + lattice_mesh_text(m),
{
    match m {
        LatticeMesh::Clipping => push_text(s, "clippingmesh"),
        LatticeMesh::Representation => push_text(s, "representationmesh"),
    }
}

/// `Displacement2D resource <map>: Path '<path>' `
pub open spec fn displacement_path_text(map: usize, path: Seq<char>) -> Seq<char> {
    "Displacement2D resource "@ + crate::text::decimal(map as nat) + ": Path '"@ + path + "' "@
}

/// `Displacement2D resource <map>: Path '<text>' `
fn push_displacement_path(s: &mut String, map: usize, text: &String)
    ensures
        final(s)@ == old(s)@ + displacement_path_text(map, text@),
{
    push_text(s, "Displacement2D resource ");
    push_decimal(s, map);
    push_text(s, ": Path '");
    push_string(s, text);
    push_text(s, "' ");
}

/// `(x, y, z)` of bit patterns, without the parentheses' spacing changed.
fn push_point(s: &mut String, x: u64, y: u64, z: u64)
    ensures
        final(s)@ == old(s)@ + bits_triple_text((x, y, z)),
{
    push_bits_triple(s, (x, y, z));
}

/// The first `k` entries of `e` as bit patterns, separated by spaces.
pub open spec fn entries_text(e: Seq<u64>, k: nat) -> Seq<char>
    decreases k,
{
    if k == 0 {
        Seq::empty()
    } else {
        entries_text(e, (k - 1) as nat) + (if k > 1 {
            " "@
        } else {
            Seq::empty()
        }) + bits_text(e[k - 1])
    }
}

/// `[a b c ...]`: the twelve entries of a transform, separated by spaces.
pub open spec fn matrix_text(e: Seq<u64>) -> Seq<char> {
    "["@ + entries_text(e, 12) + "]"@
}

/// `[a b c ...]`: the twelve entries of a transform, separated by spaces.
fn push_matrix(s: &mut String, entries: [u64; 12])
    ensures
        final(s)@ == old(s)@ + matrix_text(entries@),
{
    push_text(s, "[");
    let ghost start = s@;
    let mut k: usize = 0;
    while k < 12
        invariant
            k <= 12,
            s@ == start + entries_text(entries@, k as nat),
        decreases 12 - k,
    {
        let ghost before = s@;
        if k > 0 {
            push_text(s, " ");
        }
        proof {
            assert(s@ == before + (if k + 1 > 1 {
                " "@
            } else {
                Seq::<char>::empty()
            }));
        }
        push_bits(s, entries[k]);
        k += 1;
    }
    push_text(s, "]");
}

/// The name of an object type, as `Debug` writes it.
pub open spec fn object_type_text(t: ObjectType) -> Seq<char> {
    match t {
        ObjectType::Model => "Model"@,
        ObjectType::Support => "Support"@,
        ObjectType::SolidSupport => "SolidSupport"@,
        ObjectType::Surface => "Surface"@,
        ObjectType::Other => "Other"@,
    }
}

/// The name of an object type, as `Debug` writes it.
fn push_object_type(s: &mut String, t: ObjectType)
    ensures
        final(s)@ == old(s)@ + object_type_text(t),
{
    match t {
        ObjectType::Model => push_text(s, "Model"),
        ObjectType::Support => push_text(s, "Support"),
        ObjectType::SolidSupport => push_text(s, "SolidSupport"),
        ObjectType::Surface => push_text(s, "Surface"),
        ObjectType::Other => push_text(s, "Other"),
    }
}

/// `Object <object>: Boolean <what> <id>`
pub open spec fn boolean_head_text(object: usize, what: Seq<char>, id: usize) -> Seq<char> {
    "Object "@ + crate::text::decimal(object as nat) + ": Boolean "@ + what + " "@
        + crate::text::decimal(id as nat)
}

/// `Object <object>: Boolean <what> <id>`
fn push_boolean_head(s: &mut String, object: usize, what: &str, id: usize)
    ensures
        final(s)@ == old(s)@ + boolean_head_text(object, what@, id),
{
    push_text(s, "Object ");
    push_decimal(s, object);
    push_text(s, ": Boolean ");
    push_text(s, what);
    push_text(s, " ");
    push_decimal(s, id);
}

/// Where a repeated UUID was found: `in build`, `in build item 2`,
/// `on object 3`, `in object 3 component 1`.
pub open spec fn uuid_place_text(site: Site) -> Seq<char> {
    match site {
        Site::Build => "in build"@,
        Site::BuildItem { item } => "in build item "@ + crate::text::decimal(item as nat),
        Site::Object { object } => "on object "@ + crate::text::decimal(object as nat),
        Site::Component { object, component } => "in object "@ + crate::text::decimal(object as nat)
            + " component "@ + crate::text::decimal(component as nat),
    }
}

/// Where a repeated UUID was found: `in build`, `on object 3`, ...
fn push_uuid_place(s: &mut String, site: Site)
    ensures
        final(s)@ == old(s)@ + uuid_place_text(site),
{
    match site {
        Site::Build => push_text(s, "in build"),
        Site::BuildItem { item } => {
            push_text(s, "in build item ");
            push_decimal(s, item);
        },
        Site::Object { object } => {
            push_text(s, "on object ");
            push_decimal(s, object);
        },
        Site::Component { object, component } => {
            push_text(s, "in object ");
            push_decimal(s, object);
            push_text(s, " component ");
            push_decimal(s, component);
        },
    }
}

/// `ids` up to the `n`-th, in decimal, separated by arrows.
pub open spec fn ids_arrow_text(ids: Seq<usize>, n: nat) -> Seq<char>
    decreases n,
{
    if n == 0 {
        Seq::empty()
    } else {
        ids_arrow_text(ids, (n - 1) as nat) + (if n > 1 {
            " \u{2192} "@
        } else {
            Seq::empty()
        }) + crate::text::decimal(ids[n - 1] as nat)
    }
}

/// The message of violation `v`.
pub open spec fn message(v: Violation) -> Seq<char> {
    message_onto(Seq::empty(), v)
}

/// The message of violation `v`, appended to `s0`.
pub open spec fn message_onto(s0: Seq<char>, v: Violation) -> Seq<char> {
    let ids = v.ids@;
    let text = v.text@;
    match v.kind {
        Kind::NoObjects => s0 + "Model must contain at least one object. A valid 3MF file requires either:\n- At least one <object> element within the <resources> section, OR\n- At least one build <item> with a p:path attribute (Production extension) referencing an external file.\nCheck that your 3MF file has proper model content."@,
        Kind::EmptyBuild => s0 + "Build section must contain at least one item. A valid 3MF file requires at least one <item> element within the <build> section. The build section specifies which objects should be printed."@,
        Kind::BooleanOperationsNotDeclared => s0 + "Model uses boolean operations (<booleanshape>) but does not declare the Boolean Operations extension in requiredextensions.\nPer 3MF Boolean Operations spec, you must add 'bo' to the requiredextensions attribute in the <model> element when using boolean operations.\nExample: requiredextensions=\"bo\""@,
        Kind::BooleanShapeWithMaterialProperties => s0 + "Objects "@ + crate::text::decimal_list(ids) + " contain both <booleanshape> and pid/pindex attributes.\nPer 3MF Boolean Operations spec section 2 (Object Resources):\n'producers MUST NOT assign pid or pindex attributes to objects that contain booleanshape.'\nRemove the pid/pindex attributes from these objects or remove the boolean shape."@,
        Kind::ZeroObjectId => s0 + "Object ID must be a positive integer (greater than 0). Per the 3MF specification, object IDs must be positive integers. Found object with ID = 0, which is invalid."@,
        Kind::DuplicateObjectId { id } => s0 + "Duplicate object ID found: "@ + crate::text::decimal((id) as nat) + ". Each object in the resources section must have a unique ID attribute. Check your model for multiple objects with the same ID value."@,
        Kind::TrianglesWithoutVertices { object, triangles } => s0 + "Object "@ + crate::text::decimal((object) as nat) + ": Mesh has "@ + crate::text::decimal((triangles) as nat) + " triangle(s) but no vertices. A mesh with triangles must also have vertex data. Check that the <vertices> element contains <vertex> elements."@,
        Kind::VertexIndexOutOfBounds { object, triangle, corner, index, vertex_count } => s0 + "Object "@ + crate::text::decimal((object) as nat) + ": Triangle "@ + crate::text::decimal((triangle) as nat) + " vertex "@ + corner_text(corner) + crate::text::decimal((index) as nat) + " is out of bounds (mesh has "@ + crate::text::decimal((vertex_count) as nat) + " vertices, valid indices: 0-"@ + crate::text::decimal((if vertex_count > 0 { vertex_count - 1 } else { 0 }) as nat) + "). Vertex indices must reference valid vertices in the mesh. Check that all triangle vertex indices are less than the vertex count."@,
        Kind::DegenerateTriangle { object, triangle, v1, v2, v3 } => s0 + "Object "@ + crate::text::decimal((object) as nat) + ": Triangle "@ + crate::text::decimal((triangle) as nat) + " is degenerate (v1="@ + crate::text::decimal((v1) as nat) + ", v2="@ + crate::text::decimal((v2) as nat) + ", v3="@ + crate::text::decimal((v3) as nat) + "). All three vertices of a triangle must be distinct. Degenerate triangles with repeated vertices are not allowed in 3MF models."@,
        Kind::NonManifoldEdge { object, low, high, count } => s0 + "Object "@ + crate::text::decimal((object) as nat) + ": Non-manifold edge (vertices "@ + crate::text::decimal((low) as nat) + "-"@ + crate::text::decimal((high) as nat) + ") is shared by "@ + crate::text::decimal((count) as nat) + " triangles (maximum 2 allowed). Manifold meshes require each edge to be shared by at most 2 triangles. This is often caused by T-junctions or overlapping faces. Use mesh repair tools to fix non-manifold geometry."@,
        Kind::BuildItemUnknownObject { item, objectid } => s0 + "Build item "@ + crate::text::decimal((item) as nat) + " references non-existent object ID: "@ + crate::text::decimal((objectid) as nat) + ". All build items must reference objects defined in the resources section. Available object IDs: "@ + crate::text::decimal_list(ids),
        Kind::ComponentUnknownObject { object, objectid } => s0 + "Object "@ + crate::text::decimal((object) as nat) + ": Component references non-existent object ID "@ + crate::text::decimal((objectid) as nat) + ".\nAvailable object IDs: "@ + crate::text::decimal_list(ids) + "\nHint: Ensure the referenced object exists in the <resources> section."@,
        Kind::CircularComponents => s0 + "Circular component reference: "@ + ids_arrow_text(ids, ids.len()),
        Kind::AssemblyWithPid { object } => s0 + "Object "@ + crate::text::decimal((object) as nat) + " contains components and cannot have pid attribute"@,
        Kind::AssemblyWithPindex { object } => s0 + "Object "@ + crate::text::decimal((object) as nat) + " contains components and cannot have pindex attribute"@,
        Kind::DuplicatePropertyGroupId { id, earlier, later } => s0 + "Duplicate resource ID: "@ + crate::text::decimal((id) as nat) + ". This ID is used by both a "@ + group_type_text(earlier) + " and a "@ + group_noun_text(later) + ". Each resource must have a unique id attribute. Check your material definitions for duplicate IDs."@,
        Kind::MultiPindexOutOfBounds { multi, element, layer, pindex, group_kind, group, count } => s0 + "MultiProperties group "@ + crate::text::decimal((multi) as nat) + ": Multi element "@ + crate::text::decimal((element) as nat) + " layer "@ + crate::text::decimal((layer) as nat) + " references pindex "@ + crate::text::decimal((pindex) as nat) + " which is out of bounds.\n"@ + group_has_text(group_kind, group, count) + "Hint: Each pindex in a multi element must be less than the number of items in the corresponding property group."@,
        Kind::ObjectUnknownPropertyGroup { object, pid } => s0 + "Object "@ + crate::text::decimal((object) as nat) + " references non-existent property group ID: "@ + crate::text::decimal((pid) as nat) + ".\nAvailable property group IDs: "@ + crate::text::decimal_list(ids) + "\nHint: Check that all referenced property groups are defined in the <resources> section."@,
        Kind::ObjectUnknownBaseMaterialGroup { object, id } => s0 + "Object "@ + crate::text::decimal((object) as nat) + " references non-existent base material group ID: "@ + crate::text::decimal((id) as nat) + ".\nAvailable base material group IDs: "@ + crate::text::decimal_list(ids) + "\nHint: Check that a basematerials group with this ID exists in the <resources> section."@,
        Kind::ObjectPindexOutOfBounds { object, pindex, group_kind, group, count } => s0 + "Object "@ + crate::text::decimal((object) as nat) + ": pindex "@ + crate::text::decimal((pindex) as nat) + " is out of bounds.\n"@ + group_has_text(group_kind, group, count) + "Hint: pindex must be less than "@ + group_items_text(group_kind),
        Kind::TrianglePropertyOutOfBounds {
                object,
                triangle,
                attr,
                value,
                group_kind,
                group,
                count,
            } => s0 + "Object "@ + crate::text::decimal((object) as nat) + ": Triangle "@ + crate::text::decimal((triangle) as nat) + " "@ + attr_text(attr) + " "@ + crate::text::decimal((value) as nat) + " is out of bounds.\n"@ + group_has_text(group_kind, group, count) + "Hint: "@ + attr_text(attr) + " must be less than "@ + group_items_text(group_kind),
        Kind::TexturePathEmpty { texture } => s0 + "Texture2D resource "@ + crate::text::decimal((texture) as nat) + ": Path is empty.\nPer 3MF Material Extension spec, texture path must reference a valid file in the package."@,
        Kind::TexturePathNul { texture } => s0 + "Texture2D resource "@ + crate::text::decimal((texture) as nat) + ": Path '"@ + text + "' contains null bytes.\nPer 3MF Material Extension spec, texture paths must be valid OPC part names."@,
        Kind::TexturePathBackslash { texture } => s0 + "Texture2D resource "@ + crate::text::decimal((texture) as nat) + ": Path '"@ + text + "' contains backslashes.\nPer OPC specification, part names must use forward slashes ('/') as path separators, not backslashes ('\\')."@,
        Kind::TexturePathNonAscii { texture } => s0 + "Texture2D resource "@ + crate::text::decimal((texture) as nat) + ": Path '"@ + text + "' contains non-ASCII characters.\nPer 3MF Material Extension specification, texture paths must contain only ASCII characters.\nHint: Remove Unicode or special characters from the texture path."@,
        Kind::TextureContentType { texture } => s0 + "Texture2D resource "@ + crate::text::decimal((texture) as nat) + ": Invalid contenttype '"@ + text + "'.\nPer 3MF Material Extension spec, texture content type must be 'image/png' or 'image/jpeg'.\nUpdate the contenttype attribute to one of the supported values."@,
        Kind::EmptyColorGroup { group } => s0 + "Color group "@ + crate::text::decimal((group) as nat) + ": Must contain at least one color.\nA color group without colors is invalid."@,
        Kind::MultiPidInvalid { multi, pid, index } => s0 + "MultiProperties "@ + crate::text::decimal((multi) as nat) + ": PID "@ + crate::text::decimal((pid) as nat) + " at index "@ + crate::text::decimal((index) as nat) + " does not reference a valid resource.\nPer 3MF spec, multiproperties pids must reference existing basematerials, colorgroup, texture2dgroup, or compositematerials resources.\nEnsure resource with ID "@ + crate::text::decimal((pid) as nat) + " exists in the <resources> section."@,
        Kind::MultiBaseMaterialNotFirst { multi, group, layer } => s0 + "MultiProperties "@ + crate::text::decimal((multi) as nat) + ": basematerials group "@ + crate::text::decimal((group) as nat) + " referenced at layer "@ + crate::text::decimal((layer) as nat) + ".\nPer 3MF Material Extension spec, basematerials MUST be positioned as the first element (layer 0) in multiproperties pids when included.\nMove the basematerials reference to layer 0."@,
        Kind::MultiSeveralColorGroups { multi } => s0 + "MultiProperties "@ + crate::text::decimal((multi) as nat) + ": References multiple colorgroups "@ + crate::text::decimal_list(ids) + " in pids.\nPer 3MF Material Extension spec, multiproperties pids list MUST NOT contain more than one reference to a colorgroup.\nRemove all but one colorgroup reference from the pids list."@,
        Kind::MultiColorGroupRepeated { multi, group } => s0 + "MultiProperties "@ + crate::text::decimal((multi) as nat) + ": References colorgroup "@ + crate::text::decimal((group) as nat) + " multiple times in pids.\nPer 3MF Material Extension spec, multiproperties cannot reference the same colorgroup more than once in the pids list."@,
        Kind::EmptyPropertyResource { kind, id } => {
                let a1 = s0;
                let a2 = match kind {
                    PropertyKind::ColorGroup => a1 + "ColorGroup "@ + crate::text::decimal((id) as nat) + " has no colors. Per 3MF Materials Extension spec, color groups must contain at least one color element."@,
                    PropertyKind::Texture2DGroup => a1 + "Texture2DGroup "@ + crate::text::decimal((id) as nat) + " has no texture coordinates. Per 3MF Materials Extension spec, texture2dgroup must contain at least one tex2coord element."@,
                    PropertyKind::CompositeMaterials => a1 + "CompositeMaterials "@ + crate::text::decimal((id) as nat) + " has no composite elements. Per 3MF Materials Extension spec, compositematerials must contain at least one composite element."@,
                    PropertyKind::BaseMaterials => a1 + "BaseMaterials "@ + crate::text::decimal((id) as nat) + " has no base material elements. Per 3MF spec, basematerials must contain at least one base element."@,
                    PropertyKind::MultiProperties => a1 + "MultiProperties "@ + crate::text::decimal((id) as nat) + " has no multi elements. Per 3MF Materials Extension spec, multiproperties must contain at least one multi element."@,
                };
                a2
            },
        Kind::PropertyResourceNotFound { id } => s0 + "Property resource "@ + crate::text::decimal((id) as nat) + " not found or is not a valid property resource type"@,
        Kind::ObjectPindexBeyondResource { object, pindex, resource, size } => s0 + "Object "@ + crate::text::decimal((object) as nat) + " has pindex "@ + crate::text::decimal((pindex) as nat) + " which is out of bounds. Property resource "@ + crate::text::decimal((resource) as nat) + " has only "@ + crate::text::decimal((size) as nat) + " elements (valid indices: 0-"@ + last_index_text(size) + ")."@,
        Kind::MixedTriangleMaterials { object } => s0 + text + " has some triangles with material properties and some without. When triangles in an object have mixed material assignment, the object must have a default pid attribute to provide material for triangles without explicit material properties. Add a pid attribute to object "@ + crate::text::decimal((object) as nat) + "."@,
        Kind::PerVertexWithoutPid { object } => s0 + text + " has a triangle with per-vertex material properties (p1/p2/p3) but neither the triangle nor the object has a pid to provide material context.\nPer 3MF Material Extension spec, per-vertex properties require a pid, either on the triangle or as a default on the object.\nAdd a pid attribute to either the triangle or object "@ + crate::text::decimal((object) as nat) + "."@,
        Kind::TriangleMultiPindexOutOfBounds { object, pindex, multi, count } => s0 + "Triangle in object "@ + crate::text::decimal((object) as nat) + " has pindex "@ + crate::text::decimal((pindex) as nat) + " which is out of bounds. MultiProperties resource "@ + crate::text::decimal((multi) as nat) + " has only "@ + crate::text::decimal((count) as nat) + " entries (valid indices: 0-"@ + crate::text::decimal((vstd::wrapping::usize_specs::wrapping_sub(count, 1usize)) as nat) + ")."@,
        Kind::TextureGroupForwardReference { group, texture } => s0 + "Texture2DGroup "@ + crate::text::decimal((group) as nat) + ": Forward reference to texture2d "@ + crate::text::decimal((texture) as nat) + " which appears later in the resources.\nPer 3MF Material Extension spec, texture2d resources must be defined before texture2dgroups that reference them.\nMove the texture2d element before the texture2dgroup element in the resources section."@,
        Kind::TextureGroupUnknownTexture { group, texture } => s0 + "Texture2DGroup "@ + crate::text::decimal((group) as nat) + ": References texture2d with ID "@ + crate::text::decimal((texture) as nat) + " which is not defined.\nPer 3MF spec, texture2d resources must be defined before texture2dgroups that reference them.\nEnsure texture2d with ID "@ + crate::text::decimal((texture) as nat) + " exists in the <resources> section before this texture2dgroup."@,
        Kind::MultiForwardReference { multi, kind, pid } => s0 + "MultiProperties "@ + crate::text::decimal((multi) as nat) + ": Forward reference to "@ + group_noun_text(kind) + " "@ + crate::text::decimal((pid) as nat) + " which appears later in the resources.\nPer 3MF Material Extension spec, property resources must be defined before multiproperties that reference them.\nMove the "@ + group_type_text(kind) + " element before the multiproperties element in the resources section."@,
        Kind::ObjectAmongPropertyResources {
                object,
                position,
                first_kind,
                first_id,
                first_position,
                later_kind,
                later_id,
                later_position,
            } => s0 + "Invalid resource ordering: Object "@ + crate::text::decimal((object) as nat) + " appears between property resources.\nThe object is at position "@ + crate::text::decimal((position) as nat) + ", between "@ + resource_kind_text(first_kind) + " "@ + crate::text::decimal((first_id) as nat) + " (position "@ + crate::text::decimal((first_position) as nat) + ") and "@ + resource_kind_text(later_kind) + " "@ + crate::text::decimal((later_id) as nat) + " (position "@ + crate::text::decimal((later_position) as nat) + ").\nPer 3MF specification, objects must not be intermingled with property resources.\nEither place all objects after all property resources, or all property resources after all objects."@,
        Kind::DuplicateObjectResourceId { id } => s0 + "Duplicate object ID "@ + crate::text::decimal((id) as nat) + ": Multiple objects use the same ID.\nPer 3MF spec, each object must have a unique ID within the objects namespace.\nChange the ID to a unique value."@,
        Kind::DuplicatePropertyResourceId { id, resource_kind } => s0 + "Duplicate property resource ID "@ + crate::text::decimal((id) as nat) + ": "@ + resource_kind_text(resource_kind) + " resource uses an ID that is already in use by another property resource.\nPer 3MF spec, property resource IDs must be unique among all property resources (basematerials, colorgroups, texture2d, texture2dgroups, compositematerials, multiproperties).\nNote: Objects have a separate ID namespace and can reuse property resource IDs."@,
        Kind::UuidLength { site } => s0 + site_text(site, false) + ": Invalid UUID '"@ + text + "' - must be 36 characters in format xxxxxxxx-xxxx-xxxx-xxxx-xxxxxxxxxxxx"@,
        Kind::UuidHyphens { site } => s0 + site_text(site, false) + ": Invalid UUID '"@ + text + "' - hyphens must be at positions 8, 13, 18, and 23"@,
        Kind::UuidNotHex { site, ch, position } => (s0 + site_text(site, false) + ": Invalid UUID '"@ + text + "' - character '"@).push(ch) + "' at position "@ + crate::text::decimal((position) as nat) + " is not a hexadecimal digit"@,
        Kind::DuplicateUuid { site } => s0 + "Duplicate UUID '"@ + text + "' found "@ + uuid_place_text(site),
        Kind::ProductionPathNotAbsolute { site } => s0 + site_text(site, true) + ": Production path '"@ + text + "' must start with / (absolute path required)"@,
        Kind::ProductionPathParent { site } => s0 + site_text(site, true) + ": Production path '"@ + text + "' must not contain .. (parent directory traversal not allowed)"@,
        Kind::ProductionPathTrailingSlash { site } => s0 + site_text(site, true) + ": Production path '"@ + text + "' must not end with / (must reference a file)"@,
        Kind::ProductionPathHidden { site } => s0 + site_text(site, true) + ": Production path '"@ + text + "' references a hidden file (filename cannot start with .)"@,
        Kind::ProductionPathNotModel { site } => s0 + site_text(site, true) + ": Production path '"@ + text + "' must reference a .model file"@,
        Kind::ComponentPathWithoutUuid { object, component } => s0 + "Object "@ + crate::text::decimal((object) as nat) + ", Component "@ + crate::text::decimal((component) as nat) + ": Component has p:path but missing required p:UUID.\nPer 3MF Production Extension spec, components with external references (p:path) must have p:UUID to identify the referenced object.\nAdd p:UUID attribute to the component element."@,
        Kind::ProductionNotDeclared => s0 + "Production extension attributes (p:UUID, p:path) are used but production extension is not declared in requiredextensions.\nPer 3MF Production Extension specification, when using production attributes, you must add 'p' to the requiredextensions attribute in the <model> element.\nExample: requiredextensions=\"p\" or requiredextensions=\"m p\" for materials and production."@,
        Kind::ProductionPathRels { site } => s0 + site_text(site, false) + ": Production path '"@ + text + "' references OPC internal relationships directory.\nProduction paths must not reference package internal files."@,
        Kind::ProductionPathContentTypes { site } => s0 + site_text(site, false) + ": Production path '"@ + text + "' references OPC content types file.\nProduction paths must not reference package internal files."@,
        Kind::BuildWithoutUuid => s0 + "Production extension requires build to have p:UUID attribute when build items are present"@,
        Kind::BuildItemWithoutUuid { item } => s0 + "Production extension requires build item "@ + crate::text::decimal((item) as nat) + " to have p:UUID attribute"@,
        Kind::ObjectWithoutUuid { object } => s0 + "Production extension requires object "@ + crate::text::decimal((object) as nat) + " to have p:UUID attribute"@,
        Kind::BooleanObjectNotModel { object, object_type } => s0 + "Object "@ + crate::text::decimal((object) as nat) + ": Object containing booleanshape must be of type \"model\", but is type \""@ + object_type_text(object_type) + "\".\nObjects with boolean shapes should be model objects, not support, surface, or other types."@,
        Kind::BooleanWithComponents { object } => s0 + "Object "@ + crate::text::decimal((object) as nat) + ": Contains both <booleanshape> and <components>.\nPer 3MF Boolean Operations spec, an object can contain either a mesh, components, or booleanshape, but not multiple of these.\nRemove either the booleanshape or the components from this object."@,
        Kind::BooleanWithMesh { object } => s0 + "Object "@ + crate::text::decimal((object) as nat) + ": Contains both <booleanshape> and <mesh>.\nPer 3MF Boolean Operations spec, an object can contain either a mesh, components, or booleanshape, but not multiple of these.\nRemove either the booleanshape or the mesh from this object."@,
        Kind::BooleanNoOperands { object } => s0 + "Object "@ + crate::text::decimal((object) as nat) + ": Boolean shape has no operands.\nPer 3MF Boolean Operations spec, <booleanshape> must contain one or more <boolean> elements to define the operands.\nAdd at least one <boolean> element inside the <booleanshape>."@,
        Kind::BooleanBaseUnknown { object, base } => s0 + boolean_head_text(object, "shape references non-existent object ID"@, base) + ".\nAvailable object IDs: "@ + crate::text::decimal_list(ids) + "\nHint: Ensure the referenced object exists in the <resources> section."@,
        Kind::BooleanBaseForward { object, base } => s0 + boolean_head_text(object, "shape references object"@, base) + " which is defined after it.\nPer 3MF spec, objects must be defined before they are referenced.\nMove object "@ + crate::text::decimal((base) as nat) + " definition before object "@ + crate::text::decimal((object) as nat) + " in the file."@,
        Kind::BooleanBaseNotModel { object, base, object_type } => s0 + boolean_head_text(object, "shape base object"@, base) + " must be of type \"model\", but is type \""@ + object_type_text(object_type) + "\".\nPer 3MF Boolean Operations spec, only model objects can be used as base objects in boolean operations.\nChange the base object's type attribute to \"model\" or reference a different object."@,
        Kind::BooleanBaseNoShape { object, base } => s0 + boolean_head_text(object, "shape base object"@, base) + " does not define a shape.\nPer 3MF Boolean Operations spec, the base object must define a shape (mesh, displacementmesh, booleanshape, or shapes from other extensions), not just an assembly of components."@,
        Kind::BooleanOperandUnknown { object, operand } => s0 + boolean_head_text(object, "operand references non-existent object ID"@, operand) + ".\nAvailable object IDs: "@ + crate::text::decimal_list(ids) + "\nHint: Ensure the referenced object exists in the <resources> section."@,
        Kind::BooleanOperandForward { object, operand } => s0 + boolean_head_text(object, "operand references object"@, operand) + " which is defined after it.\nPer 3MF spec, objects must be defined before they are referenced.\nMove object "@ + crate::text::decimal((operand) as nat) + " definition before object "@ + crate::text::decimal((object) as nat) + " in the file."@,
        Kind::BooleanOperandNotModel { object, operand, object_type } => s0 + boolean_head_text(object, "operand object"@, operand) + " must be of type \"model\", but is type \""@ + object_type_text(object_type) + "\".\nPer 3MF Boolean Operations spec, only model objects can be used in boolean operations.\nChange the operand object's type attribute to \"model\" or reference a different object."@,
        Kind::BooleanOperandNotMesh { object, operand } => s0 + boolean_head_text(object, "operand object"@, operand) + " must be a triangle mesh.\nPer 3MF Boolean Operations spec, operands must be mesh objects only."@,
        Kind::BooleanOperandHasBoolean { object, operand } => s0 + boolean_head_text(object, "operand object"@, operand) + " has a boolean shape.\nPer 3MF Boolean Operations spec, operands must be simple triangle meshes only."@,
        Kind::BooleanOperandHasComponents { object, operand } => s0 + boolean_head_text(object, "operand object"@, operand) + " has components.\nPer 3MF Boolean Operations spec, operands must be simple triangle meshes only."@,
        Kind::BooleanOperandExtensionShapes { object, operand } => s0 + boolean_head_text(object, "operand object"@, operand) + " contains extension shape elements (e.g., beamlattice).\nPer 3MF Boolean Operations spec, operands MUST be only triangle mesh objects and MUST NOT contain shapes defined in any other extension."@,
        Kind::SliceBelowBottom { stack, slice, ztop, zbottom } => s0 + "SliceStack "@ + crate::text::decimal((stack) as nat) + ": Slice "@ + crate::text::decimal((slice) as nat) + " has ztop="@ + bits_text(ztop) + " which is less than zbottom="@ + bits_text(zbottom) + ".\nPer 3MF Slice Extension spec, each slice's ztop must be >= the slicestack's zbottom."@,
        Kind::SliceNotIncreasing { stack, slice, ztop, previous } => s0 + "SliceStack "@ + crate::text::decimal((stack) as nat) + ": Slice "@ + crate::text::decimal((slice) as nat) + " has ztop="@ + bits_text(ztop) + " which is not greater than the previous slice's ztop="@ + bits_text(previous) + ".\nPer 3MF Slice Extension spec, ztop values must be strictly increasing within a slicestack."@,
        Kind::SlicePolygonsWithoutVertices { stack, slice, ztop, polygons } => s0 + slice_head_text(stack, slice, ztop) + " has "@ + crate::text::decimal((polygons) as nat) + " polygon(s) but no vertices. Per 3MF Slice Extension spec, slices with polygons must have vertex data. Add vertices to the slice."@,
        Kind::SliceStartvOutOfRange { stack, slice, ztop, polygon, startv, vertex_count } => s0 + slice_head_text(stack, slice, ztop) + ", Polygon "@ + crate::text::decimal((polygon) as nat) + " has invalid startv="@ + crate::text::decimal((startv) as nat) + " (slice has "@ + crate::text::decimal((vertex_count) as nat) + " vertices, valid indices: 0-"@ + last_index_text(vertex_count) + "). Vertex indices must reference valid vertices in the slice."@,
        Kind::SliceTooFewSegments { stack, slice, ztop, polygon, segments } => s0 + slice_head_text(stack, slice, ztop) + ", Polygon "@ + crate::text::decimal((polygon) as nat) + " has only "@ + crate::text::decimal((segments) as nat) + " segment(s).\nPer 3MF Slice Extension spec, a polygon must have at least 2 segments to form a valid shape."@,
        Kind::SliceSegmentOutOfRange { stack, slice, ztop, polygon, segment, v2, vertex_count } => s0 + slice_head_text(stack, slice, ztop) + ", Polygon "@ + crate::text::decimal((polygon) as nat) + ", Segment "@ + crate::text::decimal((segment) as nat) + " has invalid v2="@ + crate::text::decimal((v2) as nat) + " (slice has "@ + crate::text::decimal((vertex_count) as nat) + " vertices, valid indices: 0-"@ + last_index_text(vertex_count) + "). Vertex indices must reference valid vertices in the slice."@,
        Kind::SliceRepeatedVertex { stack, slice, ztop, polygon, segment, v2 } => s0 + slice_head_text(stack, slice, ztop) + ", Polygon "@ + crate::text::decimal((polygon) as nat) + ", Segments "@ + last_index_text(segment) + " and "@ + crate::text::decimal((segment) as nat) + " have the same v2="@ + crate::text::decimal((v2) as nat) + ".\nPer 3MF Slice Extension spec, consecutive segments cannot reference the same vertex."@,
        Kind::SlicePolygonNotClosed { stack, slice, ztop, polygon, last_v2, startv } => s0 + slice_head_text(stack, slice, ztop) + ", Polygon "@ + crate::text::decimal((polygon) as nat) + " is not closed.\nLast segment v2="@ + crate::text::decimal((last_v2) as nat) + " does not equal startv="@ + crate::text::decimal((startv) as nat) + ".\nPer 3MF Slice Extension spec, polygons must be closed (last segment must connect back to start vertex)."@,
        Kind::SliceStackMixed { stack } => s0 + "SliceStack "@ + crate::text::decimal((stack) as nat) + ": Contains both <slice> and <sliceref> elements.\nPer 3MF Slice Extension spec, a slicestack MUST contain either <slice> elements or <sliceref> elements, but MUST NOT contain both element types concurrently."@,
        Kind::ObjectUnknownSliceStack { object, stack } => s0 + "Object "@ + crate::text::decimal((object) as nat) + ": References non-existent slicestackid "@ + crate::text::decimal((stack) as nat) + ".\nPer 3MF Slice Extension spec, the slicestackid attribute must reference a valid <slicestack> resource defined in the model.\nAvailable slicestack IDs: "@ + crate::text::decimal_list(ids),
        Kind::NonPlanarTransform { entry, bits } => {
                let a3 = s0 + text + ": Transform is not planar. Matrix element "@;
                let a4 = match entry {
                    MatrixEntry::M02 => a3 + "m02"@,
                    MatrixEntry::M12 => a3 + "m12"@,
                    MatrixEntry::M20 => a3 + "m20"@,
                    MatrixEntry::M21 => a3 + "m21"@,
                    MatrixEntry::M22 => a3 + "m22"@,
                };
                let a5 = a4 + " = "@ + bits_text(bits);
                let a6 = match entry {
                    MatrixEntry::M22 => a5 + " (must be 1.0)"@,
                    _ => a5 + " (must be 0.0)"@,
                };
                a6 + ".\nPer 3MF Slice Extension spec, when an object references a slicestack, transforms must be planar (no Z-axis rotation or shear). Elements m02, m12, m20, m21 must be 0.0 and m22 must be 1.0."@
            },
        Kind::VolumetricNotDeclared => s0 + "Model contains volumetric extension elements (volumetricdata or volumetricpropertygroup) but volumetric extension is not declared in requiredextensions attribute.\nPer 3MF Volumetric Extension spec, files using volumetric elements MUST declare the volumetric extension as a required extension in the <model> element's requiredextensions attribute.\nAdd 'v' to requiredextensions and declare xmlns:v=\"http://schemas.3mf.io/volumetric/2023/02\"."@,
        Kind::VolumetricBoundary { data, min_x, min_y, min_z, max_x, max_y, max_z } => s0 + volumetric_head_text(data) + "Invalid boundary - min coordinates must be less than max coordinates.\nFound min: "@ + bits_triple_text((min_x, min_y, min_z)) + ", max: "@ + bits_triple_text((max_x, max_y, max_z)) + "."@,
        Kind::VoxelGridEmpty { data, dim_x, dim_y, dim_z } => s0 + volumetric_head_text(data) + "Voxel grid dimensions must be greater than zero.\nFound dimensions: "@ + triple_text((dim_x, dim_y, dim_z)) + "."@,
        Kind::VoxelOutside { data, at_x, at_y, at_z, dim_x, dim_y, dim_z } => s0 + volumetric_head_text(data) + "Voxel at position "@ + triple_text((at_x, at_y, at_z)) + " is outside grid dimensions "@ + triple_text((dim_x, dim_y, dim_z)) + "."@,
        Kind::VoxelUnknownProperty { data, property } => s0 + volumetric_head_text(data) + "Voxel references non-existent property group ID "@ + crate::text::decimal((property) as nat) + "."@,
        Kind::VoxelSpacing { data, step_x, step_y, step_z } => s0 + volumetric_head_text(data) + "Voxel spacing must be positive.\nFound spacing: "@ + bits_triple_text((step_x, step_y, step_z)) + "."@,
        Kind::DuplicateVolumetricPropertyGroup { id } => s0 + "Duplicate volumetric property group ID: "@ + crate::text::decimal((id) as nat),
        Kind::BeamLatticeObjectType { object, object_type } => s0 + "Object "@ + crate::text::decimal((object) as nat) + ": BeamLattice can only be added to objects of type 'model' or 'solidsupport'. This object has type '"@ + object_type_text(object_type) + "'. Per the Beam Lattice spec, types like 'support' or 'other' are not allowed."@,
        Kind::BeamVertexOutOfRange { object, beam, end, index, vertex_count } => {
                let a7 = s0 + "Object "@ + crate::text::decimal((object) as nat) + ": Beam "@ + crate::text::decimal((beam) as nat) + " references invalid vertex index "@;
                let a8 = match end {
                    PropAttr::P2 => a7 + "v2="@,
                    _ => a7 + "v1="@,
                };
                a8 + crate::text::decimal((index) as nat) + " (mesh has "@ + crate::text::decimal((vertex_count) as nat) + " vertices). Beam vertex indices must be less than the number of vertices in the mesh."@
            },
        Kind::BeamSelfReferencing { object, beam, vertex } => s0 + "Object "@ + crate::text::decimal((object) as nat) + ": Beam "@ + crate::text::decimal((beam) as nat) + " is self-referencing (v1=v2="@ + crate::text::decimal((vertex) as nat) + "). A beam must connect two different vertices."@,
        Kind::BeamUnknownProperty { object, beam, pid } => s0 + "Object "@ + crate::text::decimal((object) as nat) + ": Beam "@ + crate::text::decimal((beam) as nat) + " references non-existent property group ID "@ + crate::text::decimal((pid) as nat) + ". Property group IDs must reference existing color groups, base material groups, texture groups, composite materials, or multi-property groups."@,
        Kind::BeamDuplicate { object, beam, v1, v2 } => s0 + "Object "@ + crate::text::decimal((object) as nat) + ": Beam "@ + crate::text::decimal((beam) as nat) + " is a duplicate (connects vertices "@ + crate::text::decimal((v1) as nat) + " and "@ + crate::text::decimal((v2) as nat) + "). Each pair of vertices can only be connected by one beam."@,
        Kind::LatticePidWithoutObjectPid { object } => s0 + "Object "@ + crate::text::decimal((object) as nat) + ": BeamLattice specifies pid but object does not have pid attribute. When beamlattice has pid, the object must also specify pid."@,
        Kind::LatticePropertiesWithoutDefault { object } => s0 + "Object "@ + crate::text::decimal((object) as nat) + ": BeamLattice contains beams or balls with property assignments but neither the beamlattice nor the object specifies a default pid. Per the Beam Lattice spec, when beams or balls have assigned properties, the beamlattice or object MUST specify pid and pindex to act as default values."@,
        Kind::BeamSetRefOutOfRange { object, index, count } => s0 + "Object "@ + crate::text::decimal((object) as nat) + ": BeamSet reference index "@ + crate::text::decimal((index) as nat) + " is out of bounds. The beamlattice has "@ + crate::text::decimal((count) as nat) + " beams (valid indices: 0-"@ + last_index_text(count) + ")."@,
        Kind::BallSetRefOutOfRange { object, index, count } => s0 + "Object "@ + crate::text::decimal((object) as nat) + ": BallSet reference index "@ + crate::text::decimal((index) as nat) + " is out of bounds. The beamlattice has "@ + crate::text::decimal((count) as nat) + " balls (valid indices: 0-"@ + last_index_text(count) + ")."@,
        Kind::BallVertexOutOfRange { object, ball, vindex, vertex_count } => s0 + "Object "@ + crate::text::decimal((object) as nat) + ": Ball "@ + crate::text::decimal((ball) as nat) + " references invalid vertex index "@ + crate::text::decimal((vindex) as nat) + " (mesh has "@ + crate::text::decimal((vertex_count) as nat) + " vertices). Ball vertex indices must be less than the number of vertices in the mesh."@,
        Kind::BallNotAtBeamEnd { object, ball, vindex } => s0 + "Object "@ + crate::text::decimal((object) as nat) + ": Ball "@ + crate::text::decimal((ball) as nat) + " at vertex "@ + crate::text::decimal((vindex) as nat) + " is not at a beam endpoint. Balls must be placed at vertices that are endpoints of beams."@,
        Kind::BallUnknownProperty { object, ball, pid } => s0 + "Object "@ + crate::text::decimal((object) as nat) + ": Ball "@ + crate::text::decimal((ball) as nat) + " references non-existent property group ID "@ + crate::text::decimal((pid) as nat) + ". Property group IDs must reference existing color groups, base material groups, texture groups, composite materials, or multi-property groups."@,
        Kind::BallPindexOutOfBounds { object, ball, pindex, group_kind, group, count } => s0 + "Object "@ + crate::text::decimal((object) as nat) + ": Ball "@ + crate::text::decimal((ball) as nat) + " property index "@ + crate::text::decimal((pindex) as nat) + " is out of bounds.\n"@ + lattice_group_text(group_kind, group, count),
        Kind::LatticeMeshUnknown { object, mesh, id } => s0 + "Object "@ + crate::text::decimal((object) as nat) + ": BeamLattice references non-existent "@ + lattice_mesh_text(mesh) + " ID "@ + crate::text::decimal((id) as nat) + ". The "@ + lattice_mesh_text(mesh) + " attribute must reference a valid object resource."@,
        Kind::LatticeMeshSelf { object, mesh } => s0 + "Object "@ + crate::text::decimal((object) as nat) + ": BeamLattice "@ + lattice_mesh_text(mesh) + " references itself. The "@ + lattice_mesh_text(mesh) + " cannot be the same object that contains the beamlattice."@,
        Kind::LatticeMeshNotEarlier { object, mesh, id } => s0 + "Object "@ + crate::text::decimal((object) as nat) + ": BeamLattice "@ + lattice_mesh_text(mesh) + "="@ + crate::text::decimal((id) as nat) + " is not declared earlier in the file. Per the Beam Lattice spec, "@ + lattice_mesh_text(mesh) + " MUST reference an object that appears earlier in the resources section of the 3MF file."@,
        Kind::LatticeMeshComponents { object, mesh, id } => s0 + "Object "@ + crate::text::decimal((object) as nat) + ": BeamLattice "@ + lattice_mesh_text(mesh) + " references object "@ + crate::text::decimal((id) as nat) + " which is a component object (no mesh). The "@ + lattice_mesh_text(mesh) + " must reference an object that contains a mesh."@,
        Kind::LatticeMeshHasLattice { object, mesh, id } => s0 + "Object "@ + crate::text::decimal((object) as nat) + ": BeamLattice "@ + lattice_mesh_text(mesh) + " references object "@ + crate::text::decimal((id) as nat) + " which contains a beamlattice. Per the Beam Lattice spec, "@ + lattice_mesh_text(mesh) + " objects MUST NOT contain a beamlattice."@,
        Kind::LatticeClippingModeInvalid { object } => s0 + "Object "@ + crate::text::decimal((object) as nat) + ": BeamLattice has invalid clippingmode '"@ + text + "'. Valid values are: 'none', 'inside', 'outside'."@,
        Kind::LatticeClippingModeWithoutMesh { object } => s0 + "Object "@ + crate::text::decimal((object) as nat) + ": BeamLattice has clippingmode='"@ + text + "' but no clippingmesh attribute. When clippingmode is specified (other than 'none'), a clippingmesh must be provided."@,
        Kind::LatticeBallModeInvalid { object } => s0 + "Object "@ + crate::text::decimal((object) as nat) + ": BeamLattice has invalid ballmode '"@ + text + "'. Valid values are: 'none', 'all', 'mixed'."@,
        Kind::LatticeBallModeWithoutRadius { object } => s0 + "Object "@ + crate::text::decimal((object) as nat) + ": BeamLattice has ballmode='"@ + text + "' but no ballradius attribute. When ballmode is 'all' or 'mixed', ballradius must be specified."@,
        Kind::LatticeUnknownProperty { object, pid } => s0 + "Object "@ + crate::text::decimal((object) as nat) + ": BeamLattice references non-existent property group ID "@ + crate::text::decimal((pid) as nat) + ". Property group IDs must reference existing color groups, base material groups, texture groups, composite materials, or multi-property groups."@,
        Kind::LatticePindexOutOfBounds { object, pindex, group_kind, group, count } => s0 + "Object "@ + crate::text::decimal((object) as nat) + ": BeamLattice pindex "@ + crate::text::decimal((pindex) as nat) + " is out of bounds.\n"@ + lattice_group_text(group_kind, group, count),
        Kind::BeamPropertyOutOfBounds { object, beam, attr, value, group_kind, group, count } => s0 + "Object "@ + crate::text::decimal((object) as nat) + ": Beam "@ + crate::text::decimal((beam) as nat) + " "@ + attr_text(attr) + " "@ + crate::text::decimal((value) as nat) + " is out of bounds.\n"@ + lattice_group_text(group_kind, group, count),
        Kind::CustomValidationFailed => s0 + "Custom validation failed: "@ + text,
        Kind::TransformSingular { item, det, m00, m01, m02, m10, m11, m12, m20, m21, m22, tx, ty, tz } => s0 + "Build item "@ + crate::text::decimal((item) as nat) + ": Transform matrix has zero determinant ("@ + bits_text(det) + "), indicating a singular (non-invertible) transformation.\nTransform: "@ + matrix_text(seq![m00, m01, m02, m10, m11, m12, m20, m21, m22, tx, ty, tz]) + "\nHint: Check that the transform matrix is valid and non-degenerate."@,
        Kind::TransformMirror { item, det, m00, m01, m02, m10, m11, m12, m20, m21, m22, tx, ty, tz } => s0 + "Build item "@ + crate::text::decimal((item) as nat) + ": Transform matrix has negative determinant ("@ + bits_text(det) + ").\nPer 3MF spec, transforms with negative determinants (mirror transformations) are not allowed as they would invert the object's orientation.\nTransform: "@ + matrix_text(seq![m00, m01, m02, m10, m11, m12, m20, m21, m22, tx, ty, tz]),
        Kind::MeshNegativeVolume { object, volume } => s0 + "Object "@ + crate::text::decimal((object) as nat) + ": Mesh has negative volume ("@ + bits_text(volume) + "), indicating inverted or incorrectly oriented triangles"@,
        Kind::DisplacementNotDeclared => s0 + "Model contains displacement extension elements (displacement2d, normvectorgroup, disp2dgroup, or displacementmesh) but displacement extension is not declared in requiredextensions attribute.\nPer 3MF Displacement Extension spec, files using displacement elements MUST declare the displacement extension as a required extension in the <model> element's requiredextensions attribute.\nAdd 'd' to requiredextensions and declare xmlns:d=\"http://schemas.microsoft.com/3dmanufacturing/displacement/2022/07\"."@,
        Kind::DisplacementPathNonAscii { map } => s0 + displacement_path_text(map, text) + "contains non-ASCII characters.\nPer OPC specification, all 3MF package paths must contain only ASCII characters.\nHint: Remove Unicode or special characters from the displacement texture path."@,
        Kind::DisplacementPathOutsideTextures { map } => s0 + displacement_path_text(map, text) + "is not in /3D/Textures/ directory (case-insensitive).\nPer 3MF Displacement Extension spec 3.1, displacement texture files must be stored in /3D/Textures/ (any case variation like /3D/textures/ is also accepted).\nMove the displacement texture file to the appropriate directory and update the path."@,
        Kind::DisplacementPathNotPng { map } => s0 + displacement_path_text(map, text) + "does not end with .png extension.\nPer 3MF Displacement Extension spec 3.1, displacement textures should be PNG files.\nHint: Ensure the displacement texture file has a .png extension and correct content type."@,
        Kind::Disp2DUnknownMap { group, dispid } => s0 + "Disp2DGroup "@ + crate::text::decimal((group) as nat) + ": References non-existent Displacement2D resource with ID "@ + crate::text::decimal((dispid) as nat) + ".\nAvailable Displacement2D IDs: "@ + crate::text::decimal_list(ids) + "\nHint: Ensure the referenced displacement2d resource exists in the <resources> section."@,
        Kind::Disp2DUnknownNormals { group, nid } => s0 + "Disp2DGroup "@ + crate::text::decimal((group) as nat) + ": References non-existent NormVectorGroup with ID "@ + crate::text::decimal((nid) as nat) + ".\nAvailable NormVectorGroup IDs: "@ + crate::text::decimal_list(ids) + "\nHint: Ensure the referenced normvectorgroup resource exists in the <resources> section."@,
        Kind::Disp2DNormalOutOfRange { group, coord, n, nid, count } => s0 + "Disp2DGroup "@ + crate::text::decimal((group) as nat) + ": Displacement coordinate "@ + crate::text::decimal((coord) as nat) + " references normvector index "@ + crate::text::decimal((n) as nat) + " but NormVectorGroup "@ + crate::text::decimal((nid) as nat) + " only contains "@ + crate::text::decimal((count) as nat) + " normvectors.\nHint: Normvector indices must be in range [0, "@ + last_index_text(count) + "]."@,
        Kind::NormVectorTooShort { group, vector, x, y, z } => s0 + "NormVectorGroup "@ + crate::text::decimal((group) as nat) + ": Normvector "@ + crate::text::decimal((vector) as nat) + " has near-zero length (x="@ + bits_text(x) + ", y="@ + bits_text(y) + ", z="@ + bits_text(z) + "). Normal vectors must have non-zero length."@,
        Kind::DisplacementTooFewTriangles { object, triangles } => s0 + "Object "@ + crate::text::decimal((object) as nat) + ": Displacement mesh has only "@ + crate::text::decimal((triangles) as nat) + " triangles. A valid 3D mesh must have at least 4 triangles to form a closed volume."@,
        Kind::DisplacementNegativeVolume { object, volume } => s0 + "Object "@ + crate::text::decimal((object) as nat) + ": Displacement mesh has negative volume ("@ + bits_text(volume) + "), indicating inverted or incorrectly oriented triangles.\nHint: Check triangle vertex winding order - vertices should be ordered counter-clockwise when viewed from outside."@,
        Kind::DisplacementFlatVolume { object, volume } => s0 + "Object "@ + crate::text::decimal((object) as nat) + ": Displacement mesh has near-zero volume ("@ + bits_text(volume) + "), indicating a degenerate or flat mesh.\nHint: Ensure the mesh encloses a non-zero 3D volume."@,
        Kind::DisplacementDuplicateVertices { object, first, second, x, y, z } => s0 + "Object "@ + crate::text::decimal((object) as nat) + ": Displacement mesh has duplicate vertices at indices "@ + crate::text::decimal((first) as nat) + " and "@ + crate::text::decimal((second) as nat) + " with same position "@ + bits_triple_text((x, y, z)) + ".\nHint: Remove duplicate vertices or merge them properly."@,
        Kind::DisplacementBoundaryEdge { object, from, to } => s0 + "Object "@ + crate::text::decimal((object) as nat) + ": Displacement mesh is non-manifold. Edge from vertex "@ + crate::text::decimal((from) as nat) + " to vertex "@ + crate::text::decimal((to) as nat) + " is only used by one triangle (should be two).\nHint: Ensure the mesh is a closed, watertight surface with no holes or dangling edges."@,
        Kind::DisplacementEdgeOverused { object, low, high, count } => s0 + "Object "@ + crate::text::decimal((object) as nat) + ": Displacement mesh is non-manifold. Edge between vertices "@ + crate::text::decimal((low) as nat) + " and "@ + crate::text::decimal((high) as nat) + " is used by "@ + crate::text::decimal((count) as nat) + " triangles (should be exactly 2).\nHint: Ensure the mesh is a closed, watertight surface with no holes or dangling edges."@,
        Kind::DisplacementWinding { object, from, to, count } => s0 + "Object "@ + crate::text::decimal((object) as nat) + ": Displacement mesh has inconsistent triangle winding.\nEdge from vertex "@ + crate::text::decimal((from) as nat) + " to vertex "@ + crate::text::decimal((to) as nat) + " is traversed "@ + crate::text::decimal((count) as nat) + " times in the same direction.\nThis indicates some triangles have reversed vertex order (normals pointing inward).\nHint: Check triangle vertex winding order - vertices should be ordered counter-clockwise when viewed from outside."@,
        Kind::DisplacementVertexOutOfRange { object, triangle, corner, index, vertex_count } => s0 + "Object "@ + crate::text::decimal((object) as nat) + ": Displacement triangle "@ + crate::text::decimal((triangle) as nat) + " has invalid vertex index "@ + corner_text(corner) + crate::text::decimal((index) as nat) + " (mesh only has "@ + crate::text::decimal((vertex_count) as nat) + " vertices)."@,
        Kind::DisplacementDegenerateTriangle { object, triangle, v1, v2, v3 } => s0 + "Object "@ + crate::text::decimal((object) as nat) + ": Displacement triangle "@ + crate::text::decimal((triangle) as nat) + " is degenerate (v1="@ + crate::text::decimal((v1) as nat) + ", v2="@ + crate::text::decimal((v2) as nat) + ", v3="@ + crate::text::decimal((v3) as nat) + "). All three vertex indices must be distinct."@,
        Kind::DisplacementFlatTriangle { object, triangle, ax, ay, az, bx, by, bz, cx, cy, cz } => s0 + "Object "@ + crate::text::decimal((object) as nat) + ": Displacement triangle "@ + crate::text::decimal((triangle) as nat) + " has zero or near-zero area (vertices are collinear).\nVertices: v1="@ + bits_triple_text((ax, ay, az)) + ", v2="@ + bits_triple_text((bx, by, bz)) + ", v3="@ + bits_triple_text((cx, cy, cz)) + "\nHint: Ensure triangle vertices form a non-degenerate triangle with non-zero area."@,
        Kind::DisplacementUnknownGroup { object, triangle, did } => s0 + "Object "@ + crate::text::decimal((object) as nat) + ": Displacement triangle "@ + crate::text::decimal((triangle) as nat) + " references non-existent Disp2DGroup with ID "@ + crate::text::decimal((did) as nat) + ".\nAvailable Disp2DGroup IDs: "@ + crate::text::decimal_list(ids) + "\nHint: Ensure the referenced disp2dgroup resource exists in the <resources> section."@,
        Kind::DisplacementCoordOutOfRange { object, triangle, slot, index, did, count } => {
                let a9 = s0 + "Object "@ + crate::text::decimal((object) as nat) + ": Displacement triangle "@ + crate::text::decimal((triangle) as nat);
                let a10 = match slot {
                    Corner::First => a9 + " has invalid d1 index "@,
                    Corner::Second => a9 + " has invalid d2 index "@,
                    Corner::Third => a9 + " has invalid d3 index "@,
                };
                a10 + crate::text::decimal((index) as nat) + " (Disp2DGroup "@ + crate::text::decimal((did) as nat) + " only has "@ + crate::text::decimal((count) as nat) + " coordinates).\nHint: Displacement coordinate indices must be in range [0, "@ + last_index_text(count) + "]."@
            },
        Kind::DisplacementInwardNormal { object, triangle, normal, nid, dot } => s0 + "Object "@ + crate::text::decimal((object) as nat) + ": Displacement triangle "@ + crate::text::decimal((triangle) as nat) + " uses normvector "@ + crate::text::decimal((normal) as nat) + " from group "@ + crate::text::decimal((nid) as nat) + " that points inward (scalar product with triangle normal = "@ + bits_text(dot) + " <= 0).\nPer 3MF Displacement spec, normalized displacement vectors MUST point to the outer hemisphere.\nHint: Reverse the normvector direction or fix the triangle vertex order."@,
    }
}

impl Violation {
    /// Appends the message of this violation to `s`, keeping what `s` held.
    pub fn describe(&self, s: &mut String)
        ensures
            final(s)@ == old(s)@ + message(*self),
    {
        let mut m = String::new();
        self.write_message(&mut m);
        push_string(s, &m);
    }

    /// Appends the message of this violation to `s`.
    #[verifier::rlimit(100)]
    #[verifier::spinoff_prover]
    fn write_message(&self, s: &mut String)
        ensures
            final(s)@ == message_onto(old(s)@, *self),
    {
        let ids = &self.ids;
        let text = &self.text;
        match self.kind {
            Kind::NoObjects => {
                push_text(
                    s,
                    "Model must contain at least one object. A valid 3MF file requires either:\n- At least one <object> element within the <resources> section, OR\n- At least one build <item> with a p:path attribute (Production extension) referencing an external file.\nCheck that your 3MF file has proper model content.",
                );
            },
            Kind::EmptyBuild => {
                push_text(
                    s,
                    "Build section must contain at least one item. A valid 3MF file requires at least one <item> element within the <build> section. The build section specifies which objects should be printed.",
                );
            },
            Kind::BooleanOperationsNotDeclared => {
                push_text(
                    s,
                    "Model uses boolean operations (<booleanshape>) but does not declare the Boolean Operations extension in requiredextensions.\nPer 3MF Boolean Operations spec, you must add 'bo' to the requiredextensions attribute in the <model> element when using boolean operations.\nExample: requiredextensions=\"bo\"",
                );
            },
            Kind::BooleanShapeWithMaterialProperties => {
                push_text(s, "Objects ");
                push_decimal_list(s, ids);
                push_text(
                    s,
                    " contain both <booleanshape> and pid/pindex attributes.\nPer 3MF Boolean Operations spec section 2 (Object Resources):\n'producers MUST NOT assign pid or pindex attributes to objects that contain booleanshape.'\nRemove the pid/pindex attributes from these objects or remove the boolean shape.",
                );
            },
            Kind::ZeroObjectId => {
                push_text(
                    s,
                    "Object ID must be a positive integer (greater than 0). Per the 3MF specification, object IDs must be positive integers. Found object with ID = 0, which is invalid.",
                );
            },
            Kind::DuplicateObjectId { id } => {
                push_text(s, "Duplicate object ID found: ");
                push_decimal(s, id);
                push_text(
                    s,
                    ". Each object in the resources section must have a unique ID attribute. Check your model for multiple objects with the same ID value.",
                );
            },
            Kind::TrianglesWithoutVertices { object, triangles } => {
                push_text(s, "Object ");
                push_decimal(s, object);
                push_text(s, ": Mesh has ");
                push_decimal(s, triangles);
                push_text(
                    s,
                    " triangle(s) but no vertices. A mesh with triangles must also have vertex data. Check that the <vertices> element contains <vertex> elements.",
                );
            },
            Kind::VertexIndexOutOfBounds { object, triangle, corner, index, vertex_count } => {
                push_text(s, "Object ");
                push_decimal(s, object);
                push_text(s, ": Triangle ");
                push_decimal(s, triangle);
                push_text(s, " vertex ");
                push_corner(s, corner);
                push_decimal(s, index);
                push_text(s, " is out of bounds (mesh has ");
                push_decimal(s, vertex_count);
                push_text(s, " vertices, valid indices: 0-");
                push_decimal(s, if vertex_count > 0 { vertex_count - 1 } else { 0 });
                push_text(
                    s,
                    "). Vertex indices must reference valid vertices in the mesh. Check that all triangle vertex indices are less than the vertex count.",
                );
            },
            Kind::DegenerateTriangle { object, triangle, v1, v2, v3 } => {
                push_text(s, "Object ");
                push_decimal(s, object);
                push_text(s, ": Triangle ");
                push_decimal(s, triangle);
                push_text(s, " is degenerate (v1=");
                push_decimal(s, v1);
                push_text(s, ", v2=");
                push_decimal(s, v2);
                push_text(s, ", v3=");
                push_decimal(s, v3);
                push_text(
                    s,
                    "). All three vertices of a triangle must be distinct. Degenerate triangles with repeated vertices are not allowed in 3MF models.",
                );
            },
            Kind::NonManifoldEdge { object, low, high, count } => {
                push_text(s, "Object ");
                push_decimal(s, object);
                push_text(s, ": Non-manifold edge (vertices ");
                push_decimal(s, low);
                push_text(s, "-");
                push_decimal(s, high);
                push_text(s, ") is shared by ");
                push_decimal(s, count);
                push_text(
                    s,
                    " triangles (maximum 2 allowed). Manifold meshes require each edge to be shared by at most 2 triangles. This is often caused by T-junctions or overlapping faces. Use mesh repair tools to fix non-manifold geometry.",
                );
            },
            Kind::BuildItemUnknownObject { item, objectid } => {
                push_text(s, "Build item ");
                push_decimal(s, item);
                push_text(s, " references non-existent object ID: ");
                push_decimal(s, objectid);
                push_text(
                    s,
                    ". All build items must reference objects defined in the resources section. Available object IDs: ",
                );
                push_decimal_list(s, ids);
            },
            Kind::ComponentUnknownObject { object, objectid } => {
                push_text(s, "Object ");
                push_decimal(s, object);
                push_text(s, ": Component references non-existent object ID ");
                push_decimal(s, objectid);
                push_text(s, ".\nAvailable object IDs: ");
                push_decimal_list(s, ids);
                push_text(
                    s,
                    "\nHint: Ensure the referenced object exists in the <resources> section.",
                );
            },
            Kind::CircularComponents => {
                push_text(s, "Circular component reference: ");
                let ghost start = s@;
                let mut i: usize = 0;
                while i < ids.len()
                    invariant
                        i <= ids@.len(),
                        ids@ == self.ids@,
                        s@ == start + ids_arrow_text(ids@, i as nat),
                    decreases ids@.len() - i,
                {
                    let ghost before = s@;
                    if i > 0 {
                        push_text(s, " \u{2192} ");
                    }
                    proof {
                        assert(s@ == before + (if i + 1 > 1 {
                            " \u{2192} "@
                        } else {
                            Seq::<char>::empty()
                        }));
                    }
                    push_decimal(s, ids[i]);
                    i += 1;
                }
            },
            Kind::AssemblyWithPid { object } => {
                push_text(s, "Object ");
                push_decimal(s, object);
                push_text(s, " contains components and cannot have pid attribute");
            },
            Kind::AssemblyWithPindex { object } => {
                push_text(s, "Object ");
                push_decimal(s, object);
                push_text(s, " contains components and cannot have pindex attribute");
            },
            Kind::DuplicatePropertyGroupId { id, earlier, later } => {
                push_text(s, "Duplicate resource ID: ");
                push_decimal(s, id);
                push_text(s, ". This ID is used by both a ");
                push_group_type(s, earlier);
                push_text(s, " and a ");
                push_group_noun(s, later);
                push_text(
                    s,
                    ". Each resource must have a unique id attribute. Check your material definitions for duplicate IDs.",
                );
            },
            Kind::MultiPindexOutOfBounds { multi, element, layer, pindex, group_kind, group, count } => {
                push_text(s, "MultiProperties group ");
                push_decimal(s, multi);
                push_text(s, ": Multi element ");
                push_decimal(s, element);
                push_text(s, " layer ");
                push_decimal(s, layer);
                push_text(s, " references pindex ");
                push_decimal(s, pindex);
                push_text(s, " which is out of bounds.\n");
                push_group_has(s, group_kind, group, count);
                push_text(
                    s,
                    "Hint: Each pindex in a multi element must be less than the number of items in the corresponding property group.",
                );
            },
            Kind::ObjectUnknownPropertyGroup { object, pid } => {
                push_text(s, "Object ");
                push_decimal(s, object);
                push_text(s, " references non-existent property group ID: ");
                push_decimal(s, pid);
                push_text(s, ".\nAvailable property group IDs: ");
                push_decimal_list(s, ids);
                push_text(
                    s,
                    "\nHint: Check that all referenced property groups are defined in the <resources> section.",
                );
            },
            Kind::ObjectUnknownBaseMaterialGroup { object, id } => {
                push_text(s, "Object ");
                push_decimal(s, object);
                push_text(s, " references non-existent base material group ID: ");
                push_decimal(s, id);
                push_text(s, ".\nAvailable base material group IDs: ");
                push_decimal_list(s, ids);
                push_text(
                    s,
                    "\nHint: Check that a basematerials group with this ID exists in the <resources> section.",
                );
            },
            Kind::ObjectPindexOutOfBounds { object, pindex, group_kind, group, count } => {
                push_text(s, "Object ");
                push_decimal(s, object);
                push_text(s, ": pindex ");
                push_decimal(s, pindex);
                push_text(s, " is out of bounds.\n");
                push_group_has(s, group_kind, group, count);
                push_text(s, "Hint: pindex must be less than ");
                push_group_items(s, group_kind);
            },
            Kind::TrianglePropertyOutOfBounds {
                object,
                triangle,
                attr,
                value,
                group_kind,
                group,
                count,
            } => {
                push_text(s, "Object ");
                push_decimal(s, object);
                push_text(s, ": Triangle ");
                push_decimal(s, triangle);
                push_text(s, " ");
                push_attr(s, attr);
                push_text(s, " ");
                push_decimal(s, value);
                push_text(s, " is out of bounds.\n");
                push_group_has(s, group_kind, group, count);
                push_text(s, "Hint: ");
                push_attr(s, attr);
                push_text(s, " must be less than ");
                push_group_items(s, group_kind);
            },
            Kind::TexturePathEmpty { texture } => {
                push_text(s, "Texture2D resource ");
                push_decimal(s, texture);
                push_text(
                    s,
                    ": Path is empty.\nPer 3MF Material Extension spec, texture path must reference a valid file in the package.",
                );
            },
            Kind::TexturePathNul { texture } => {
                push_text(s, "Texture2D resource ");
                push_decimal(s, texture);
                push_text(s, ": Path '");
                push_string(s, text);
                push_text(
                    s,
                    "' contains null bytes.\nPer 3MF Material Extension spec, texture paths must be valid OPC part names.",
                );
            },
            Kind::TexturePathBackslash { texture } => {
                push_text(s, "Texture2D resource ");
                push_decimal(s, texture);
                push_text(s, ": Path '");
                push_string(s, text);
                push_text(
                    s,
                    "' contains backslashes.\nPer OPC specification, part names must use forward slashes ('/') as path separators, not backslashes ('\\').",
                );
            },
            Kind::TexturePathNonAscii { texture } => {
                push_text(s, "Texture2D resource ");
                push_decimal(s, texture);
                push_text(s, ": Path '");
                push_string(s, text);
                push_text(
                    s,
                    "' contains non-ASCII characters.\nPer 3MF Material Extension specification, texture paths must contain only ASCII characters.\nHint: Remove Unicode or special characters from the texture path.",
                );
            },
            Kind::TextureContentType { texture } => {
                push_text(s, "Texture2D resource ");
                push_decimal(s, texture);
                push_text(s, ": Invalid contenttype '");
                push_string(s, text);
                push_text(
                    s,
                    "'.\nPer 3MF Material Extension spec, texture content type must be 'image/png' or 'image/jpeg'.\nUpdate the contenttype attribute to one of the supported values.",
                );
            },
            Kind::EmptyColorGroup { group } => {
                push_text(s, "Color group ");
                push_decimal(s, group);
                push_text(
                    s,
                    ": Must contain at least one color.\nA color group without colors is invalid.",
                );
            },
            Kind::MultiPidInvalid { multi, pid, index } => {
                push_text(s, "MultiProperties ");
                push_decimal(s, multi);
                push_text(s, ": PID ");
                push_decimal(s, pid);
                push_text(s, " at index ");
                push_decimal(s, index);
                push_text(
                    s,
                    " does not reference a valid resource.\nPer 3MF spec, multiproperties pids must reference existing basematerials, colorgroup, texture2dgroup, or compositematerials resources.\nEnsure resource with ID ",
                );
                push_decimal(s, pid);
                push_text(s, " exists in the <resources> section.");
            },
            Kind::MultiBaseMaterialNotFirst { multi, group, layer } => {
                push_text(s, "MultiProperties ");
                push_decimal(s, multi);
                push_text(s, ": basematerials group ");
                push_decimal(s, group);
                push_text(s, " referenced at layer ");
                push_decimal(s, layer);
                push_text(
                    s,
                    ".\nPer 3MF Material Extension spec, basematerials MUST be positioned as the first element (layer 0) in multiproperties pids when included.\nMove the basematerials reference to layer 0.",
                );
            },
            Kind::MultiSeveralColorGroups { multi } => {
                push_text(s, "MultiProperties ");
                push_decimal(s, multi);
                push_text(s, ": References multiple colorgroups ");
                push_decimal_list(s, ids);
                push_text(
                    s,
                    " in pids.\nPer 3MF Material Extension spec, multiproperties pids list MUST NOT contain more than one reference to a colorgroup.\nRemove all but one colorgroup reference from the pids list.",
                );
            },
            Kind::MultiColorGroupRepeated { multi, group } => {
                push_text(s, "MultiProperties ");
                push_decimal(s, multi);
                push_text(s, ": References colorgroup ");
                push_decimal(s, group);
                push_text(
                    s,
                    " multiple times in pids.\nPer 3MF Material Extension spec, multiproperties cannot reference the same colorgroup more than once in the pids list.",
                );
            },
            Kind::EmptyPropertyResource { kind, id } => {
                match kind {
                    PropertyKind::ColorGroup => {
                        push_text(s, "ColorGroup ");
                        push_decimal(s, id);
                        push_text(
                            s,
                            " has no colors. Per 3MF Materials Extension spec, color groups must contain at least one color element.",
                        );
                    },
                    PropertyKind::Texture2DGroup => {
                        push_text(s, "Texture2DGroup ");
                        push_decimal(s, id);
                        push_text(
                            s,
                            " has no texture coordinates. Per 3MF Materials Extension spec, texture2dgroup must contain at least one tex2coord element.",
                        );
                    },
                    PropertyKind::CompositeMaterials => {
                        push_text(s, "CompositeMaterials ");
                        push_decimal(s, id);
                        push_text(
                            s,
                            " has no composite elements. Per 3MF Materials Extension spec, compositematerials must contain at least one composite element.",
                        );
                    },
                    PropertyKind::BaseMaterials => {
                        push_text(s, "BaseMaterials ");
                        push_decimal(s, id);
                        push_text(
                            s,
                            " has no base material elements. Per 3MF spec, basematerials must contain at least one base element.",
                        );
                    },
                    PropertyKind::MultiProperties => {
                        push_text(s, "MultiProperties ");
                        push_decimal(s, id);
                        push_text(
                            s,
                            " has no multi elements. Per 3MF Materials Extension spec, multiproperties must contain at least one multi element.",
                        );
                    },
                }
            },
            Kind::PropertyResourceNotFound { id } => {
                push_text(s, "Property resource ");
                push_decimal(s, id);
                push_text(s, " not found or is not a valid property resource type");
            },
            Kind::ObjectPindexBeyondResource { object, pindex, resource, size } => {
                push_text(s, "Object ");
                push_decimal(s, object);
                push_text(s, " has pindex ");
                push_decimal(s, pindex);
                push_text(s, " which is out of bounds. Property resource ");
                push_decimal(s, resource);
                push_text(s, " has only ");
                push_decimal(s, size);
                push_text(s, " elements (valid indices: 0-");
                push_last_index(s, size);
                push_text(s, ").");
            },
            Kind::MixedTriangleMaterials { object } => {
                push_string(s, text);
                push_text(
                    s,
                    " has some triangles with material properties and some without. When triangles in an object have mixed material assignment, the object must have a default pid attribute to provide material for triangles without explicit material properties. Add a pid attribute to object ",
                );
                push_decimal(s, object);
                push_text(s, ".");
            },
            Kind::PerVertexWithoutPid { object } => {
                push_string(s, text);
                push_text(
                    s,
                    " has a triangle with per-vertex material properties (p1/p2/p3) but neither the triangle nor the object has a pid to provide material context.\nPer 3MF Material Extension spec, per-vertex properties require a pid, either on the triangle or as a default on the object.\nAdd a pid attribute to either the triangle or object ",
                );
                push_decimal(s, object);
                push_text(s, ".");
            },
            Kind::TriangleMultiPindexOutOfBounds { object, pindex, multi, count } => {
                push_text(s, "Triangle in object ");
                push_decimal(s, object);
                push_text(s, " has pindex ");
                push_decimal(s, pindex);
                push_text(s, " which is out of bounds. MultiProperties resource ");
                push_decimal(s, multi);
                push_text(s, " has only ");
                push_decimal(s, count);
                push_text(s, " entries (valid indices: 0-");
                push_decimal(s, count.wrapping_sub(1));
                push_text(s, ").");
            },
            Kind::TextureGroupForwardReference { group, texture } => {
                push_text(s, "Texture2DGroup ");
                push_decimal(s, group);
                push_text(s, ": Forward reference to texture2d ");
                push_decimal(s, texture);
                push_text(
                    s,
                    " which appears later in the resources.\nPer 3MF Material Extension spec, texture2d resources must be defined before texture2dgroups that reference them.\nMove the texture2d element before the texture2dgroup element in the resources section.",
                );
            },
            Kind::TextureGroupUnknownTexture { group, texture } => {
                push_text(s, "Texture2DGroup ");
                push_decimal(s, group);
                push_text(s, ": References texture2d with ID ");
                push_decimal(s, texture);
                push_text(
                    s,
                    " which is not defined.\nPer 3MF spec, texture2d resources must be defined before texture2dgroups that reference them.\nEnsure texture2d with ID ",
                );
                push_decimal(s, texture);
                push_text(s, " exists in the <resources> section before this texture2dgroup.");
            },
            Kind::MultiForwardReference { multi, kind, pid } => {
                push_text(s, "MultiProperties ");
                push_decimal(s, multi);
                push_text(s, ": Forward reference to ");
                push_group_noun(s, kind);
                push_text(s, " ");
                push_decimal(s, pid);
                push_text(
                    s,
                    " which appears later in the resources.\nPer 3MF Material Extension spec, property resources must be defined before multiproperties that reference them.\nMove the ",
                );
                push_group_type(s, kind);
                push_text(
                    s,
                    " element before the multiproperties element in the resources section.",
                );
            },
            Kind::ObjectAmongPropertyResources {
                object,
                position,
                first_kind,
                first_id,
                first_position,
                later_kind,
                later_id,
                later_position,
            } => {
                push_text(s, "Invalid resource ordering: Object ");
                push_decimal(s, object);
                push_text(s, " appears between property resources.\nThe object is at position ");
                push_decimal(s, position);
                push_text(s, ", between ");
                push_resource_kind(s, first_kind);
                push_text(s, " ");
                push_decimal(s, first_id);
                push_text(s, " (position ");
                push_decimal(s, first_position);
                push_text(s, ") and ");
                push_resource_kind(s, later_kind);
                push_text(s, " ");
                push_decimal(s, later_id);
                push_text(s, " (position ");
                push_decimal(s, later_position);
                push_text(
                    s,
                    ").\nPer 3MF specification, objects must not be intermingled with property resources.\nEither place all objects after all property resources, or all property resources after all objects.",
                );
            },
            Kind::DuplicateObjectResourceId { id } => {
                push_text(s, "Duplicate object ID ");
                push_decimal(s, id);
                push_text(
                    s,
                    ": Multiple objects use the same ID.\nPer 3MF spec, each object must have a unique ID within the objects namespace.\nChange the ID to a unique value.",
                );
            },
            Kind::DuplicatePropertyResourceId { id, resource_kind } => {
                push_text(s, "Duplicate property resource ID ");
                push_decimal(s, id);
                push_text(s, ": ");
                push_resource_kind(s, resource_kind);
                push_text(
                    s,
                    " resource uses an ID that is already in use by another property resource.\nPer 3MF spec, property resource IDs must be unique among all property resources (basematerials, colorgroups, texture2d, texture2dgroups, compositematerials, multiproperties).\nNote: Objects have a separate ID namespace and can reuse property resource IDs.",
                );
            },
            Kind::UuidLength { site } => {
                push_site(s, site, false);
                push_text(s, ": Invalid UUID '");
                push_string(s, text);
                push_text(
                    s,
                    "' - must be 36 characters in format xxxxxxxx-xxxx-xxxx-xxxx-xxxxxxxxxxxx",
                );
            },
            Kind::UuidHyphens { site } => {
                push_site(s, site, false);
                push_text(s, ": Invalid UUID '");
                push_string(s, text);
                push_text(s, "' - hyphens must be at positions 8, 13, 18, and 23");
            },
            Kind::UuidNotHex { site, ch, position } => {
                push_site(s, site, false);
                push_text(s, ": Invalid UUID '");
                push_string(s, text);
                push_text(s, "' - character '");
                s.push(ch);
                push_text(s, "' at position ");
                push_decimal(s, position);
                push_text(s, " is not a hexadecimal digit");
            },
            Kind::DuplicateUuid { site } => {
                push_text(s, "Duplicate UUID '");
                push_string(s, text);
                push_text(s, "' found ");
                push_uuid_place(s, site);
            },
            Kind::ProductionPathNotAbsolute { site } => {
                push_site(s, site, true);
                push_text(s, ": Production path '");
                push_string(s, text);
                push_text(s, "' must start with / (absolute path required)");
            },
            Kind::ProductionPathParent { site } => {
                push_site(s, site, true);
                push_text(s, ": Production path '");
                push_string(s, text);
                push_text(s, "' must not contain .. (parent directory traversal not allowed)");
            },
            Kind::ProductionPathTrailingSlash { site } => {
                push_site(s, site, true);
                push_text(s, ": Production path '");
                push_string(s, text);
                push_text(s, "' must not end with / (must reference a file)");
            },
            Kind::ProductionPathHidden { site } => {
                push_site(s, site, true);
                push_text(s, ": Production path '");
                push_string(s, text);
                push_text(s, "' references a hidden file (filename cannot start with .)");
            },
            Kind::ProductionPathNotModel { site } => {
                push_site(s, site, true);
                push_text(s, ": Production path '");
                push_string(s, text);
                push_text(s, "' must reference a .model file");
            },
            Kind::ComponentPathWithoutUuid { object, component } => {
                push_text(s, "Object ");
                push_decimal(s, object);
                push_text(s, ", Component ");
                push_decimal(s, component);
                push_text(
                    s,
                    ": Component has p:path but missing required p:UUID.\nPer 3MF Production Extension spec, components with external references (p:path) must have p:UUID to identify the referenced object.\nAdd p:UUID attribute to the component element.",
                );
            },
            Kind::ProductionNotDeclared => {
                push_text(
                    s,
                    "Production extension attributes (p:UUID, p:path) are used but production extension is not declared in requiredextensions.\nPer 3MF Production Extension specification, when using production attributes, you must add 'p' to the requiredextensions attribute in the <model> element.\nExample: requiredextensions=\"p\" or requiredextensions=\"m p\" for materials and production.",
                );
            },
            Kind::ProductionPathRels { site } => {
                push_site(s, site, false);
                push_text(s, ": Production path '");
                push_string(s, text);
                push_text(
                    s,
                    "' references OPC internal relationships directory.\nProduction paths must not reference package internal files.",
                );
            },
            Kind::ProductionPathContentTypes { site } => {
                push_site(s, site, false);
                push_text(s, ": Production path '");
                push_string(s, text);
                push_text(
                    s,
                    "' references OPC content types file.\nProduction paths must not reference package internal files.",
                );
            },
            Kind::BuildWithoutUuid => {
                push_text(
                    s,
                    "Production extension requires build to have p:UUID attribute when build items are present",
                );
            },
            Kind::BuildItemWithoutUuid { item } => {
                push_text(s, "Production extension requires build item ");
                push_decimal(s, item);
                push_text(s, " to have p:UUID attribute");
            },
            Kind::ObjectWithoutUuid { object } => {
                push_text(s, "Production extension requires object ");
                push_decimal(s, object);
                push_text(s, " to have p:UUID attribute");
            },
            Kind::BooleanObjectNotModel { object, object_type } => {
                push_text(s, "Object ");
                push_decimal(s, object);
                push_text(s, ": Object containing booleanshape must be of type \"model\", but is type \"");
                push_object_type(s, object_type);
                push_text(
                    s,
                    "\".\nObjects with boolean shapes should be model objects, not support, surface, or other types.",
                );
            },
            Kind::BooleanWithComponents { object } => {
                push_text(s, "Object ");
                push_decimal(s, object);
                push_text(
                    s,
                    ": Contains both <booleanshape> and <components>.\nPer 3MF Boolean Operations spec, an object can contain either a mesh, components, or booleanshape, but not multiple of these.\nRemove either the booleanshape or the components from this object.",
                );
            },
            Kind::BooleanWithMesh { object } => {
                push_text(s, "Object ");
                push_decimal(s, object);
                push_text(
                    s,
                    ": Contains both <booleanshape> and <mesh>.\nPer 3MF Boolean Operations spec, an object can contain either a mesh, components, or booleanshape, but not multiple of these.\nRemove either the booleanshape or the mesh from this object.",
                );
            },
            Kind::BooleanNoOperands { object } => {
                push_text(s, "Object ");
                push_decimal(s, object);
                push_text(
                    s,
                    ": Boolean shape has no operands.\nPer 3MF Boolean Operations spec, <booleanshape> must contain one or more <boolean> elements to define the operands.\nAdd at least one <boolean> element inside the <booleanshape>.",
                );
            },
            Kind::BooleanBaseUnknown { object, base } => {
                push_boolean_head(s, object, "shape references non-existent object ID", base);
                push_text(s, ".\nAvailable object IDs: ");
                push_decimal_list(s, ids);
                push_text(s, "\nHint: Ensure the referenced object exists in the <resources> section.");
            },
            Kind::BooleanBaseForward { object, base } => {
                push_boolean_head(s, object, "shape references object", base);
                push_text(
                    s,
                    " which is defined after it.\nPer 3MF spec, objects must be defined before they are referenced.\nMove object ",
                );
                push_decimal(s, base);
                push_text(s, " definition before object ");
                push_decimal(s, object);
                push_text(s, " in the file.");
            },
            Kind::BooleanBaseNotModel { object, base, object_type } => {
                push_boolean_head(s, object, "shape base object", base);
                push_text(s, " must be of type \"model\", but is type \"");
                push_object_type(s, object_type);
                push_text(
                    s,
                    "\".\nPer 3MF Boolean Operations spec, only model objects can be used as base objects in boolean operations.\nChange the base object's type attribute to \"model\" or reference a different object.",
                );
            },
            Kind::BooleanBaseNoShape { object, base } => {
                push_boolean_head(s, object, "shape base object", base);
                push_text(
                    s,
                    " does not define a shape.\nPer 3MF Boolean Operations spec, the base object must define a shape (mesh, displacementmesh, booleanshape, or shapes from other extensions), not just an assembly of components.",
                );
            },
            Kind::BooleanOperandUnknown { object, operand } => {
                push_boolean_head(s, object, "operand references non-existent object ID", operand);
                push_text(s, ".\nAvailable object IDs: ");
                push_decimal_list(s, ids);
                push_text(s, "\nHint: Ensure the referenced object exists in the <resources> section.");
            },
            Kind::BooleanOperandForward { object, operand } => {
                push_boolean_head(s, object, "operand references object", operand);
                push_text(
                    s,
                    " which is defined after it.\nPer 3MF spec, objects must be defined before they are referenced.\nMove object ",
                );
                push_decimal(s, operand);
                push_text(s, " definition before object ");
                push_decimal(s, object);
                push_text(s, " in the file.");
            },
            Kind::BooleanOperandNotModel { object, operand, object_type } => {
                push_boolean_head(s, object, "operand object", operand);
                push_text(s, " must be of type \"model\", but is type \"");
                push_object_type(s, object_type);
                push_text(
                    s,
                    "\".\nPer 3MF Boolean Operations spec, only model objects can be used in boolean operations.\nChange the operand object's type attribute to \"model\" or reference a different object.",
                );
            },
            Kind::BooleanOperandNotMesh { object, operand } => {
                push_boolean_head(s, object, "operand object", operand);
                push_text(
                    s,
                    " must be a triangle mesh.\nPer 3MF Boolean Operations spec, operands must be mesh objects only.",
                );
            },
            Kind::BooleanOperandHasBoolean { object, operand } => {
                push_boolean_head(s, object, "operand object", operand);
                push_text(
                    s,
                    " has a boolean shape.\nPer 3MF Boolean Operations spec, operands must be simple triangle meshes only.",
                );
            },
            Kind::BooleanOperandHasComponents { object, operand } => {
                push_boolean_head(s, object, "operand object", operand);
                push_text(
                    s,
                    " has components.\nPer 3MF Boolean Operations spec, operands must be simple triangle meshes only.",
                );
            },
            Kind::BooleanOperandExtensionShapes { object, operand } => {
                push_boolean_head(s, object, "operand object", operand);
                push_text(
                    s,
                    " contains extension shape elements (e.g., beamlattice).\nPer 3MF Boolean Operations spec, operands MUST be only triangle mesh objects and MUST NOT contain shapes defined in any other extension.",
                );
            },
            Kind::SliceBelowBottom { stack, slice, ztop, zbottom } => {
                push_text(s, "SliceStack ");
                push_decimal(s, stack);
                push_text(s, ": Slice ");
                push_decimal(s, slice);
                push_text(s, " has ztop=");
                push_bits(s, ztop);
                push_text(s, " which is less than zbottom=");
                push_bits(s, zbottom);
                push_text(
                    s,
                    ".\nPer 3MF Slice Extension spec, each slice's ztop must be >= the slicestack's zbottom.",
                );
            },
            Kind::SliceNotIncreasing { stack, slice, ztop, previous } => {
                push_text(s, "SliceStack ");
                push_decimal(s, stack);
                push_text(s, ": Slice ");
                push_decimal(s, slice);
                push_text(s, " has ztop=");
                push_bits(s, ztop);
                push_text(s, " which is not greater than the previous slice's ztop=");
                push_bits(s, previous);
                push_text(
                    s,
                    ".\nPer 3MF Slice Extension spec, ztop values must be strictly increasing within a slicestack.",
                );
            },
            Kind::SlicePolygonsWithoutVertices { stack, slice, ztop, polygons } => {
                push_slice_head(s, stack, slice, ztop);
                push_text(s, " has ");
                push_decimal(s, polygons);
                push_text(
                    s,
                    " polygon(s) but no vertices. Per 3MF Slice Extension spec, slices with polygons must have vertex data. Add vertices to the slice.",
                );
            },
            Kind::SliceStartvOutOfRange { stack, slice, ztop, polygon, startv, vertex_count } => {
                push_slice_head(s, stack, slice, ztop);
                push_text(s, ", Polygon ");
                push_decimal(s, polygon);
                push_text(s, " has invalid startv=");
                push_decimal(s, startv);
                push_text(s, " (slice has ");
                push_decimal(s, vertex_count);
                push_text(s, " vertices, valid indices: 0-");
                push_last_index(s, vertex_count);
                push_text(
                    s,
                    "). Vertex indices must reference valid vertices in the slice.",
                );
            },
            Kind::SliceTooFewSegments { stack, slice, ztop, polygon, segments } => {
                push_slice_head(s, stack, slice, ztop);
                push_text(s, ", Polygon ");
                push_decimal(s, polygon);
                push_text(s, " has only ");
                push_decimal(s, segments);
                push_text(
                    s,
                    " segment(s).\nPer 3MF Slice Extension spec, a polygon must have at least 2 segments to form a valid shape.",
                );
            },
            Kind::SliceSegmentOutOfRange { stack, slice, ztop, polygon, segment, v2, vertex_count } => {
                push_slice_head(s, stack, slice, ztop);
                push_text(s, ", Polygon ");
                push_decimal(s, polygon);
                push_text(s, ", Segment ");
                push_decimal(s, segment);
                push_text(s, " has invalid v2=");
                push_decimal(s, v2);
                push_text(s, " (slice has ");
                push_decimal(s, vertex_count);
                push_text(s, " vertices, valid indices: 0-");
                push_last_index(s, vertex_count);
                push_text(
                    s,
                    "). Vertex indices must reference valid vertices in the slice.",
                );
            },
            Kind::SliceRepeatedVertex { stack, slice, ztop, polygon, segment, v2 } => {
                push_slice_head(s, stack, slice, ztop);
                push_text(s, ", Polygon ");
                push_decimal(s, polygon);
                push_text(s, ", Segments ");
                push_last_index(s, segment);
                push_text(s, " and ");
                push_decimal(s, segment);
                push_text(s, " have the same v2=");
                push_decimal(s, v2);
                push_text(
                    s,
                    ".\nPer 3MF Slice Extension spec, consecutive segments cannot reference the same vertex.",
                );
            },
            Kind::SlicePolygonNotClosed { stack, slice, ztop, polygon, last_v2, startv } => {
                push_slice_head(s, stack, slice, ztop);
                push_text(s, ", Polygon ");
                push_decimal(s, polygon);
                push_text(s, " is not closed.\nLast segment v2=");
                push_decimal(s, last_v2);
                push_text(s, " does not equal startv=");
                push_decimal(s, startv);
                push_text(
                    s,
                    ".\nPer 3MF Slice Extension spec, polygons must be closed (last segment must connect back to start vertex).",
                );
            },
            Kind::SliceStackMixed { stack } => {
                push_text(s, "SliceStack ");
                push_decimal(s, stack);
                push_text(
                    s,
                    ": Contains both <slice> and <sliceref> elements.\nPer 3MF Slice Extension spec, a slicestack MUST contain either <slice> elements or <sliceref> elements, but MUST NOT contain both element types concurrently.",
                );
            },
            Kind::ObjectUnknownSliceStack { object, stack } => {
                push_text(s, "Object ");
                push_decimal(s, object);
                push_text(s, ": References non-existent slicestackid ");
                push_decimal(s, stack);
                push_text(
                    s,
                    ".\nPer 3MF Slice Extension spec, the slicestackid attribute must reference a valid <slicestack> resource defined in the model.\nAvailable slicestack IDs: ",
                );
                push_decimal_list(s, ids);
            },
            Kind::NonPlanarTransform { entry, bits } => {
                push_string(s, text);
                push_text(s, ": Transform is not planar. Matrix element ");
                match entry {
                    MatrixEntry::M02 => push_text(s, "m02"),
                    MatrixEntry::M12 => push_text(s, "m12"),
                    MatrixEntry::M20 => push_text(s, "m20"),
                    MatrixEntry::M21 => push_text(s, "m21"),
                    MatrixEntry::M22 => push_text(s, "m22"),
                }
                push_text(s, " = ");
                push_bits(s, bits);
                match entry {
                    MatrixEntry::M22 => push_text(s, " (must be 1.0)"),
                    _ => push_text(s, " (must be 0.0)"),
                }
                push_text(
                    s,
                    ".\nPer 3MF Slice Extension spec, when an object references a slicestack, transforms must be planar (no Z-axis rotation or shear). Elements m02, m12, m20, m21 must be 0.0 and m22 must be 1.0.",
                );
            },
            Kind::VolumetricNotDeclared => {
                push_text(
                    s,
                    "Model contains volumetric extension elements (volumetricdata or volumetricpropertygroup) but volumetric extension is not declared in requiredextensions attribute.\nPer 3MF Volumetric Extension spec, files using volumetric elements MUST declare the volumetric extension as a required extension in the <model> element's requiredextensions attribute.\nAdd 'v' to requiredextensions and declare xmlns:v=\"http://schemas.3mf.io/volumetric/2023/02\".",
                );
            },
            Kind::VolumetricBoundary { data, min_x, min_y, min_z, max_x, max_y, max_z } => {
                push_volumetric_head(s, data);
                push_text(
                    s,
                    "Invalid boundary - min coordinates must be less than max coordinates.\nFound min: ",
                );
                push_bits_triple(s, (min_x, min_y, min_z));
                push_text(s, ", max: ");
                push_bits_triple(s, (max_x, max_y, max_z));
                push_text(s, ".");
            },
            Kind::VoxelGridEmpty { data, dim_x, dim_y, dim_z } => {
                push_volumetric_head(s, data);
                push_text(s, "Voxel grid dimensions must be greater than zero.\nFound dimensions: ");
                push_triple(s, (dim_x, dim_y, dim_z));
                push_text(s, ".");
            },
            Kind::VoxelOutside { data, at_x, at_y, at_z, dim_x, dim_y, dim_z } => {
                push_volumetric_head(s, data);
                push_text(s, "Voxel at position ");
                push_triple(s, (at_x, at_y, at_z));
                push_text(s, " is outside grid dimensions ");
                push_triple(s, (dim_x, dim_y, dim_z));
                push_text(s, ".");
            },
            Kind::VoxelUnknownProperty { data, property } => {
                push_volumetric_head(s, data);
                push_text(s, "Voxel references non-existent property group ID ");
                push_decimal(s, property);
                push_text(s, ".");
            },
            Kind::VoxelSpacing { data, step_x, step_y, step_z } => {
                push_volumetric_head(s, data);
                push_text(s, "Voxel spacing must be positive.\nFound spacing: ");
                push_bits_triple(s, (step_x, step_y, step_z));
                push_text(s, ".");
            },
            Kind::DuplicateVolumetricPropertyGroup { id } => {
                push_text(s, "Duplicate volumetric property group ID: ");
                push_decimal(s, id);
            },
            Kind::BeamLatticeObjectType { object, object_type } => {
                push_text(s, "Object ");
                push_decimal(s, object);
                push_text(
                    s,
                    ": BeamLattice can only be added to objects of type 'model' or 'solidsupport'. This object has type '",
                );
                push_object_type(s, object_type);
                push_text(
                    s,
                    "'. Per the Beam Lattice spec, types like 'support' or 'other' are not allowed.",
                );
            },
            Kind::BeamVertexOutOfRange { object, beam, end, index, vertex_count } => {
                push_text(s, "Object ");
                push_decimal(s, object);
                push_text(s, ": Beam ");
                push_decimal(s, beam);
                push_text(s, " references invalid vertex index ");
                match end {
                    PropAttr::P2 => push_text(s, "v2="),
                    _ => push_text(s, "v1="),
                }
                push_decimal(s, index);
                push_text(s, " (mesh has ");
                push_decimal(s, vertex_count);
                push_text(
                    s,
                    " vertices). Beam vertex indices must be less than the number of vertices in the mesh.",
                );
            },
            Kind::BeamSelfReferencing { object, beam, vertex } => {
                push_text(s, "Object ");
                push_decimal(s, object);
                push_text(s, ": Beam ");
                push_decimal(s, beam);
                push_text(s, " is self-referencing (v1=v2=");
                push_decimal(s, vertex);
                push_text(s, "). A beam must connect two different vertices.");
            },
            Kind::BeamUnknownProperty { object, beam, pid } => {
                push_text(s, "Object ");
                push_decimal(s, object);
                push_text(s, ": Beam ");
                push_decimal(s, beam);
                push_text(s, " references non-existent property group ID ");
                push_decimal(s, pid);
                push_text(
                    s,
                    ". Property group IDs must reference existing color groups, base material groups, texture groups, composite materials, or multi-property groups.",
                );
            },
            Kind::BeamDuplicate { object, beam, v1, v2 } => {
                push_text(s, "Object ");
                push_decimal(s, object);
                push_text(s, ": Beam ");
                push_decimal(s, beam);
                push_text(s, " is a duplicate (connects vertices ");
                push_decimal(s, v1);
                push_text(s, " and ");
                push_decimal(s, v2);
                push_text(s, "). Each pair of vertices can only be connected by one beam.");
            },
            Kind::LatticePidWithoutObjectPid { object } => {
                push_text(s, "Object ");
                push_decimal(s, object);
                push_text(
                    s,
                    ": BeamLattice specifies pid but object does not have pid attribute. When beamlattice has pid, the object must also specify pid.",
                );
            },
            Kind::LatticePropertiesWithoutDefault { object } => {
                push_text(s, "Object ");
                push_decimal(s, object);
                push_text(
                    s,
                    ": BeamLattice contains beams or balls with property assignments but neither the beamlattice nor the object specifies a default pid. Per the Beam Lattice spec, when beams or balls have assigned properties, the beamlattice or object MUST specify pid and pindex to act as default values.",
                );
            },
            Kind::BeamSetRefOutOfRange { object, index, count } => {
                push_text(s, "Object ");
                push_decimal(s, object);
                push_text(s, ": BeamSet reference index ");
                push_decimal(s, index);
                push_text(s, " is out of bounds. The beamlattice has ");
                push_decimal(s, count);
                push_text(s, " beams (valid indices: 0-");
                push_last_index(s, count);
                push_text(s, ").");
            },
            Kind::BallSetRefOutOfRange { object, index, count } => {
                push_text(s, "Object ");
                push_decimal(s, object);
                push_text(s, ": BallSet reference index ");
                push_decimal(s, index);
                push_text(s, " is out of bounds. The beamlattice has ");
                push_decimal(s, count);
                push_text(s, " balls (valid indices: 0-");
                push_last_index(s, count);
                push_text(s, ").");
            },
            Kind::BallVertexOutOfRange { object, ball, vindex, vertex_count } => {
                push_text(s, "Object ");
                push_decimal(s, object);
                push_text(s, ": Ball ");
                push_decimal(s, ball);
                push_text(s, " references invalid vertex index ");
                push_decimal(s, vindex);
                push_text(s, " (mesh has ");
                push_decimal(s, vertex_count);
                push_text(
                    s,
                    " vertices). Ball vertex indices must be less than the number of vertices in the mesh.",
                );
            },
            Kind::BallNotAtBeamEnd { object, ball, vindex } => {
                push_text(s, "Object ");
                push_decimal(s, object);
                push_text(s, ": Ball ");
                push_decimal(s, ball);
                push_text(s, " at vertex ");
                push_decimal(s, vindex);
                push_text(
                    s,
                    " is not at a beam endpoint. Balls must be placed at vertices that are endpoints of beams.",
                );
            },
            Kind::BallUnknownProperty { object, ball, pid } => {
                push_text(s, "Object ");
                push_decimal(s, object);
                push_text(s, ": Ball ");
                push_decimal(s, ball);
                push_text(s, " references non-existent property group ID ");
                push_decimal(s, pid);
                push_text(
                    s,
                    ". Property group IDs must reference existing color groups, base material groups, texture groups, composite materials, or multi-property groups.",
                );
            },
            Kind::BallPindexOutOfBounds { object, ball, pindex, group_kind, group, count } => {
                push_text(s, "Object ");
                push_decimal(s, object);
                push_text(s, ": Ball ");
                push_decimal(s, ball);
                push_text(s, " property index ");
                push_decimal(s, pindex);
                push_text(s, " is out of bounds.\n");
                push_lattice_group(s, group_kind, group, count);
            },
            Kind::LatticeMeshUnknown { object, mesh, id } => {
                push_text(s, "Object ");
                push_decimal(s, object);
                push_text(s, ": BeamLattice references non-existent ");
                push_lattice_mesh(s, mesh);
                push_text(s, " ID ");
                push_decimal(s, id);
                push_text(s, ". The ");
                push_lattice_mesh(s, mesh);
                push_text(s, " attribute must reference a valid object resource.");
            },
            Kind::LatticeMeshSelf { object, mesh } => {
                push_text(s, "Object ");
                push_decimal(s, object);
                push_text(s, ": BeamLattice ");
                push_lattice_mesh(s, mesh);
                push_text(s, " references itself. The ");
                push_lattice_mesh(s, mesh);
                push_text(s, " cannot be the same object that contains the beamlattice.");
            },
            Kind::LatticeMeshNotEarlier { object, mesh, id } => {
                push_text(s, "Object ");
                push_decimal(s, object);
                push_text(s, ": BeamLattice ");
                push_lattice_mesh(s, mesh);
                push_text(s, "=");
                push_decimal(s, id);
                push_text(s, " is not declared earlier in the file. Per the Beam Lattice spec, ");
                push_lattice_mesh(s, mesh);
                push_text(
                    s,
                    " MUST reference an object that appears earlier in the resources section of the 3MF file.",
                );
            },
            Kind::LatticeMeshComponents { object, mesh, id } => {
                push_text(s, "Object ");
                push_decimal(s, object);
                push_text(s, ": BeamLattice ");
                push_lattice_mesh(s, mesh);
                push_text(s, " references object ");
                push_decimal(s, id);
                push_text(s, " which is a component object (no mesh). The ");
                push_lattice_mesh(s, mesh);
                push_text(s, " must reference an object that contains a mesh.");
            },
            Kind::LatticeMeshHasLattice { object, mesh, id } => {
                push_text(s, "Object ");
                push_decimal(s, object);
                push_text(s, ": BeamLattice ");
                push_lattice_mesh(s, mesh);
                push_text(s, " references object ");
                push_decimal(s, id);
                push_text(s, " which contains a beamlattice. Per the Beam Lattice spec, ");
                push_lattice_mesh(s, mesh);
                push_text(s, " objects MUST NOT contain a beamlattice.");
            },
            Kind::LatticeClippingModeInvalid { object } => {
                push_text(s, "Object ");
                push_decimal(s, object);
                push_text(s, ": BeamLattice has invalid clippingmode '");
                push_string(s, text);
                push_text(s, "'. Valid values are: 'none', 'inside', 'outside'.");
            },
            Kind::LatticeClippingModeWithoutMesh { object } => {
                push_text(s, "Object ");
                push_decimal(s, object);
                push_text(s, ": BeamLattice has clippingmode='");
                push_string(s, text);
                push_text(
                    s,
                    "' but no clippingmesh attribute. When clippingmode is specified (other than 'none'), a clippingmesh must be provided.",
                );
            },
            Kind::LatticeBallModeInvalid { object } => {
                push_text(s, "Object ");
                push_decimal(s, object);
                push_text(s, ": BeamLattice has invalid ballmode '");
                push_string(s, text);
                push_text(s, "'. Valid values are: 'none', 'all', 'mixed'.");
            },
            Kind::LatticeBallModeWithoutRadius { object } => {
                push_text(s, "Object ");
                push_decimal(s, object);
                push_text(s, ": BeamLattice has ballmode='");
                push_string(s, text);
                push_text(
                    s,
                    "' but no ballradius attribute. When ballmode is 'all' or 'mixed', ballradius must be specified.",
                );
            },
            Kind::LatticeUnknownProperty { object, pid } => {
                push_text(s, "Object ");
                push_decimal(s, object);
                push_text(s, ": BeamLattice references non-existent property group ID ");
                push_decimal(s, pid);
                push_text(
                    s,
                    ". Property group IDs must reference existing color groups, base material groups, texture groups, composite materials, or multi-property groups.",
                );
            },
            Kind::LatticePindexOutOfBounds { object, pindex, group_kind, group, count } => {
                push_text(s, "Object ");
                push_decimal(s, object);
                push_text(s, ": BeamLattice pindex ");
                push_decimal(s, pindex);
                push_text(s, " is out of bounds.\n");
                push_lattice_group(s, group_kind, group, count);
            },
            Kind::BeamPropertyOutOfBounds { object, beam, attr, value, group_kind, group, count } => {
                push_text(s, "Object ");
                push_decimal(s, object);
                push_text(s, ": Beam ");
                push_decimal(s, beam);
                push_text(s, " ");
                push_attr(s, attr);
                push_text(s, " ");
                push_decimal(s, value);
                push_text(s, " is out of bounds.\n");
                push_lattice_group(s, group_kind, group, count);
            },
            Kind::CustomValidationFailed => {
                push_text(s, "Custom validation failed: ");
                push_string(s, text);
            },
            Kind::TransformSingular { item, det, m00, m01, m02, m10, m11, m12, m20, m21, m22, tx, ty, tz } => {
                push_text(s, "Build item ");
                push_decimal(s, item);
                push_text(s, ": Transform matrix has zero determinant (");
                push_bits(s, det);
                push_text(s, "), indicating a singular (non-invertible) transformation.\nTransform: ");
                let entries = [m00, m01, m02, m10, m11, m12, m20, m21, m22, tx, ty, tz];
                proof {
                    assert(entries@ =~= seq![m00, m01, m02, m10, m11, m12, m20, m21, m22, tx, ty, tz]);
                }
                push_matrix(s, entries);
                push_text(s, "\nHint: Check that the transform matrix is valid and non-degenerate.");
            },
            Kind::TransformMirror { item, det, m00, m01, m02, m10, m11, m12, m20, m21, m22, tx, ty, tz } => {
                push_text(s, "Build item ");
                push_decimal(s, item);
                push_text(s, ": Transform matrix has negative determinant (");
                push_bits(s, det);
                push_text(
                    s,
                    ").\nPer 3MF spec, transforms with negative determinants (mirror transformations) are not allowed as they would invert the object's orientation.\nTransform: ",
                );
                let entries = [m00, m01, m02, m10, m11, m12, m20, m21, m22, tx, ty, tz];
                proof {
                    assert(entries@ =~= seq![m00, m01, m02, m10, m11, m12, m20, m21, m22, tx, ty, tz]);
                }
                push_matrix(s, entries);
            },
            Kind::MeshNegativeVolume { object, volume } => {
                push_text(s, "Object ");
                push_decimal(s, object);
                push_text(s, ": Mesh has negative volume (");
                push_bits(s, volume);
                push_text(s, "), indicating inverted or incorrectly oriented triangles");
            },
            Kind::DisplacementNotDeclared => {
                push_text(
                    s,
                    "Model contains displacement extension elements (displacement2d, normvectorgroup, disp2dgroup, or displacementmesh) but displacement extension is not declared in requiredextensions attribute.\nPer 3MF Displacement Extension spec, files using displacement elements MUST declare the displacement extension as a required extension in the <model> element's requiredextensions attribute.\nAdd 'd' to requiredextensions and declare xmlns:d=\"http://schemas.microsoft.com/3dmanufacturing/displacement/2022/07\".",
                );
            },
            Kind::DisplacementPathNonAscii { map } => {
                push_displacement_path(s, map, text);
                push_text(
                    s,
                    "contains non-ASCII characters.\nPer OPC specification, all 3MF package paths must contain only ASCII characters.\nHint: Remove Unicode or special characters from the displacement texture path.",
                );
            },
            Kind::DisplacementPathOutsideTextures { map } => {
                push_displacement_path(s, map, text);
                push_text(
                    s,
                    "is not in /3D/Textures/ directory (case-insensitive).\nPer 3MF Displacement Extension spec 3.1, displacement texture files must be stored in /3D/Textures/ (any case variation like /3D/textures/ is also accepted).\nMove the displacement texture file to the appropriate directory and update the path.",
                );
            },
            Kind::DisplacementPathNotPng { map } => {
                push_displacement_path(s, map, text);
                push_text(
                    s,
                    "does not end with .png extension.\nPer 3MF Displacement Extension spec 3.1, displacement textures should be PNG files.\nHint: Ensure the displacement texture file has a .png extension and correct content type.",
                );
            },
            Kind::Disp2DUnknownMap { group, dispid } => {
                push_text(s, "Disp2DGroup ");
                push_decimal(s, group);
                push_text(s, ": References non-existent Displacement2D resource with ID ");
                push_decimal(s, dispid);
                push_text(s, ".\nAvailable Displacement2D IDs: ");
                push_decimal_list(s, ids);
                push_text(
                    s,
                    "\nHint: Ensure the referenced displacement2d resource exists in the <resources> section.",
                );
            },
            Kind::Disp2DUnknownNormals { group, nid } => {
                push_text(s, "Disp2DGroup ");
                push_decimal(s, group);
                push_text(s, ": References non-existent NormVectorGroup with ID ");
                push_decimal(s, nid);
                push_text(s, ".\nAvailable NormVectorGroup IDs: ");
                push_decimal_list(s, ids);
                push_text(
                    s,
                    "\nHint: Ensure the referenced normvectorgroup resource exists in the <resources> section.",
                );
            },
            Kind::Disp2DNormalOutOfRange { group, coord, n, nid, count } => {
                push_text(s, "Disp2DGroup ");
                push_decimal(s, group);
                push_text(s, ": Displacement coordinate ");
                push_decimal(s, coord);
                push_text(s, " references normvector index ");
                push_decimal(s, n);
                push_text(s, " but NormVectorGroup ");
                push_decimal(s, nid);
                push_text(s, " only contains ");
                push_decimal(s, count);
                push_text(s, " normvectors.\nHint: Normvector indices must be in range [0, ");
                push_last_index(s, count);
                push_text(s, "].");
            },
            Kind::NormVectorTooShort { group, vector, x, y, z } => {
                push_text(s, "NormVectorGroup ");
                push_decimal(s, group);
                push_text(s, ": Normvector ");
                push_decimal(s, vector);
                push_text(s, " has near-zero length (x=");
                push_bits(s, x);
                push_text(s, ", y=");
                push_bits(s, y);
                push_text(s, ", z=");
                push_bits(s, z);
                push_text(s, "). Normal vectors must have non-zero length.");
            },
            Kind::DisplacementTooFewTriangles { object, triangles } => {
                push_text(s, "Object ");
                push_decimal(s, object);
                push_text(s, ": Displacement mesh has only ");
                push_decimal(s, triangles);
                push_text(
                    s,
                    " triangles. A valid 3D mesh must have at least 4 triangles to form a closed volume.",
                );
            },
            Kind::DisplacementNegativeVolume { object, volume } => {
                push_text(s, "Object ");
                push_decimal(s, object);
                push_text(s, ": Displacement mesh has negative volume (");
                push_bits(s, volume);
                push_text(
                    s,
                    "), indicating inverted or incorrectly oriented triangles.\nHint: Check triangle vertex winding order - vertices should be ordered counter-clockwise when viewed from outside.",
                );
            },
            Kind::DisplacementFlatVolume { object, volume } => {
                push_text(s, "Object ");
                push_decimal(s, object);
                push_text(s, ": Displacement mesh has near-zero volume (");
                push_bits(s, volume);
                push_text(
                    s,
                    "), indicating a degenerate or flat mesh.\nHint: Ensure the mesh encloses a non-zero 3D volume.",
                );
            },
            Kind::DisplacementDuplicateVertices { object, first, second, x, y, z } => {
                push_text(s, "Object ");
                push_decimal(s, object);
                push_text(s, ": Displacement mesh has duplicate vertices at indices ");
                push_decimal(s, first);
                push_text(s, " and ");
                push_decimal(s, second);
                push_text(s, " with same position ");
                push_point(s, x, y, z);
                push_text(s, ".\nHint: Remove duplicate vertices or merge them properly.");
            },
            Kind::DisplacementBoundaryEdge { object, from, to } => {
                push_text(s, "Object ");
                push_decimal(s, object);
                push_text(s, ": Displacement mesh is non-manifold. Edge from vertex ");
                push_decimal(s, from);
                push_text(s, " to vertex ");
                push_decimal(s, to);
                push_text(
                    s,
                    " is only used by one triangle (should be two).\nHint: Ensure the mesh is a closed, watertight surface with no holes or dangling edges.",
                );
            },
            Kind::DisplacementEdgeOverused { object, low, high, count } => {
                push_text(s, "Object ");
                push_decimal(s, object);
                push_text(s, ": Displacement mesh is non-manifold. Edge between vertices ");
                push_decimal(s, low);
                push_text(s, " and ");
                push_decimal(s, high);
                push_text(s, " is used by ");
                push_decimal(s, count);
                push_text(
                    s,
                    " triangles (should be exactly 2).\nHint: Ensure the mesh is a closed, watertight surface with no holes or dangling edges.",
                );
            },
            Kind::DisplacementWinding { object, from, to, count } => {
                push_text(s, "Object ");
                push_decimal(s, object);
                push_text(
                    s,
                    ": Displacement mesh has inconsistent triangle winding.\nEdge from vertex ",
                );
                push_decimal(s, from);
                push_text(s, " to vertex ");
                push_decimal(s, to);
                push_text(s, " is traversed ");
                push_decimal(s, count);
                push_text(
                    s,
                    " times in the same direction.\nThis indicates some triangles have reversed vertex order (normals pointing inward).\nHint: Check triangle vertex winding order - vertices should be ordered counter-clockwise when viewed from outside.",
                );
            },
            Kind::DisplacementVertexOutOfRange { object, triangle, corner, index, vertex_count } => {
                push_text(s, "Object ");
                push_decimal(s, object);
                push_text(s, ": Displacement triangle ");
                push_decimal(s, triangle);
                push_text(s, " has invalid vertex index ");
                push_corner(s, corner);
                push_decimal(s, index);
                push_text(s, " (mesh only has ");
                push_decimal(s, vertex_count);
                push_text(s, " vertices).");
            },
            Kind::DisplacementDegenerateTriangle { object, triangle, v1, v2, v3 } => {
                push_text(s, "Object ");
                push_decimal(s, object);
                push_text(s, ": Displacement triangle ");
                push_decimal(s, triangle);
                push_text(s, " is degenerate (v1=");
                push_decimal(s, v1);
                push_text(s, ", v2=");
                push_decimal(s, v2);
                push_text(s, ", v3=");
                push_decimal(s, v3);
                push_text(s, "). All three vertex indices must be distinct.");
            },
            Kind::DisplacementFlatTriangle { object, triangle, ax, ay, az, bx, by, bz, cx, cy, cz } => {
                push_text(s, "Object ");
                push_decimal(s, object);
                push_text(s, ": Displacement triangle ");
                push_decimal(s, triangle);
                push_text(
                    s,
                    " has zero or near-zero area (vertices are collinear).\nVertices: v1=",
                );
                push_point(s, ax, ay, az);
                push_text(s, ", v2=");
                push_point(s, bx, by, bz);
                push_text(s, ", v3=");
                push_point(s, cx, cy, cz);
                push_text(
                    s,
                    "\nHint: Ensure triangle vertices form a non-degenerate triangle with non-zero area.",
                );
            },
            Kind::DisplacementUnknownGroup { object, triangle, did } => {
                push_text(s, "Object ");
                push_decimal(s, object);
                push_text(s, ": Displacement triangle ");
                push_decimal(s, triangle);
                push_text(s, " references non-existent Disp2DGroup with ID ");
                push_decimal(s, did);
                push_text(s, ".\nAvailable Disp2DGroup IDs: ");
                push_decimal_list(s, ids);
                push_text(
                    s,
                    "\nHint: Ensure the referenced disp2dgroup resource exists in the <resources> section.",
                );
            },
            Kind::DisplacementCoordOutOfRange { object, triangle, slot, index, did, count } => {
                push_text(s, "Object ");
                push_decimal(s, object);
                push_text(s, ": Displacement triangle ");
                push_decimal(s, triangle);
                match slot {
                    Corner::First => push_text(s, " has invalid d1 index "),
                    Corner::Second => push_text(s, " has invalid d2 index "),
                    Corner::Third => push_text(s, " has invalid d3 index "),
                }
                push_decimal(s, index);
                push_text(s, " (Disp2DGroup ");
                push_decimal(s, did);
                push_text(s, " only has ");
                push_decimal(s, count);
                push_text(s, " coordinates).\nHint: Displacement coordinate indices must be in range [0, ");
                push_last_index(s, count);
                push_text(s, "].");
            },
            Kind::DisplacementInwardNormal { object, triangle, normal, nid, dot } => {
                push_text(s, "Object ");
                push_decimal(s, object);
                push_text(s, ": Displacement triangle ");
                push_decimal(s, triangle);
                push_text(s, " uses normvector ");
                push_decimal(s, normal);
                push_text(s, " from group ");
                push_decimal(s, nid);
                push_text(s, " that points inward (scalar product with triangle normal = ");
                push_bits(s, dot);
                push_text(
                    s,
                    " <= 0).\nPer 3MF Displacement spec, normalized displacement vectors MUST point to the outer hemisphere.\nHint: Reverse the normvector direction or fix the triangle vertex order.",
                );
            },
        }
    }
}

impl Error {
    /// The human-readable message of this error: `Invalid model: ` and the
    /// description of the violation.
    pub fn to_string(&self) -> (r: String)
        ensures
            match self {
                Error::InvalidModel(v) => r@ == "Invalid model: "@ + message(*v),
            },
    {
        let mut s = String::new();
        match self {
            Error::InvalidModel(v) => {
                push_text(&mut s, "Invalid model: ");
                proof {
                    assert(s@ =~= "Invalid model: "@);
                }
                v.describe(&mut s);
            },
        }
        s
    }
}

} // verus!
