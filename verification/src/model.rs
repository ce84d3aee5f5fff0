//! The in-memory form of a 3MF model that the validators read.
//!
//! Every quantity that a 3MF document writes as a decimal number (coordinates,
//! transform entries, radii, heights, texture coordinates) is kept here as the
//! IEEE-754 bit pattern of the `f64` that the parser read (`F64Bits`).  The
//! validators in this crate only compare such values; see `float_bits`.
use vstd::prelude::*;
use vstd::string::*;

verus! {

/// Bit pattern of an IEEE-754 binary64 value (as given by `f64::to_bits`).
pub type F64Bits = u64;

/// A row-major 3x4 affine transform: `m00 m01 m02 m10 m11 m12 m20 m21 m22 tx ty tz`.
pub type Transform = [F64Bits; 12];

/// An RGBA color.
pub type Color = (u8, u8, u8, u8);

/// The 3MF extensions a model can declare in `requiredextensions`.
#[derive(Clone, Copy, Debug, PartialEq, Eq, Structural)]
pub enum Extension {
    Core,
    Material,
    Production,
    Slice,
    BeamLattice,
    SecureContent,
    BooleanOperations,
    Displacement,
    Volumetric,
}

/// The `type` attribute of an object.
#[derive(Clone, Copy, Debug, PartialEq, Eq, Structural)]
pub enum ObjectType {
    Model,
    Support,
    SolidSupport,
    Surface,
    Other,
}

/// Operation of a boolean shape.
#[derive(Clone, Copy, Debug, PartialEq, Eq, Structural)]
pub enum BooleanOpType {
    Union,
    Intersection,
    Difference,
}

/// Cap mode of a beam end or of a whole beam lattice.
#[derive(Clone, Copy, Debug, PartialEq, Eq, Structural)]
pub enum BeamCapMode {
    Sphere,
    Hemisphere,
    Butt,
}

/// Blend method of a multiproperties layer.
#[derive(Clone, Copy, Debug, PartialEq, Eq, Structural)]
pub enum BlendMethod {
    Mix,
    Multiply,
}

/// Tile style of a texture axis.
#[derive(Clone, Copy, Debug, PartialEq, Eq, Structural)]
pub enum TileStyle {
    Wrap,
    Mirror,
    Clamp,
    NoTile,
}

/// Texture filter mode.
#[derive(Clone, Copy, Debug, PartialEq, Eq, Structural)]
pub enum FilterMode {
    Auto,
    Linear,
    Nearest,
}

/// A mesh vertex.
#[derive(Clone, Copy, Debug)]
pub struct Vertex {
    pub x: F64Bits,
    pub y: F64Bits,
    pub z: F64Bits,
}

impl Vertex {
    pub fn new(x: F64Bits, y: F64Bits, z: F64Bits) -> (v: Vertex)
        ensures
            v.x == x,
            v.y == y,
            v.z == z,
    {
        Vertex { x, y, z }
    }
}

/// A mesh triangle with its optional material properties.
#[derive(Clone, Copy, Debug)]
pub struct Triangle {
    pub v1: usize,
    pub v2: usize,
    pub v3: usize,
    pub pid: Option<usize>,
    pub pindex: Option<usize>,
    pub p1: Option<usize>,
    pub p2: Option<usize>,
    pub p3: Option<usize>,
}

impl Triangle {
    pub fn new(v1: usize, v2: usize, v3: usize) -> (t: Triangle)
        ensures
            t.v1 == v1,
            t.v2 == v2,
            t.v3 == v3,
            t.pid.is_none(),
            t.pindex.is_none(),
            t.p1.is_none(),
            t.p2.is_none(),
            t.p3.is_none(),
    {
        Triangle { v1, v2, v3, pid: None, pindex: None, p1: None, p2: None, p3: None }
    }
}

/// A beam of a beam lattice.
#[derive(Debug)]
pub struct Beam {
    pub v1: usize,
    pub v2: usize,
    pub r1: Option<F64Bits>,
    pub r2: Option<F64Bits>,
    pub cap1: Option<BeamCapMode>,
    pub cap2: Option<BeamCapMode>,
    pub property_id: Option<u32>,
    pub p1: Option<u32>,
    pub p2: Option<u32>,
}

impl Beam {
    pub fn new(v1: usize, v2: usize) -> (b: Beam)
        ensures
            b.v1 == v1,
            b.v2 == v2,
            b.r1.is_none(),
            b.r2.is_none(),
            b.cap1.is_none(),
            b.cap2.is_none(),
            b.property_id.is_none(),
            b.p1.is_none(),
            b.p2.is_none(),
    {
        Beam {
            v1,
            v2,
            r1: None,
            r2: None,
            cap1: None,
            cap2: None,
            property_id: None,
            p1: None,
            p2: None,
        }
    }

    pub fn with_radii(v1: usize, v2: usize, r1: F64Bits, r2: F64Bits) -> (b: Beam)
        ensures
            b.v1 == v1,
            b.v2 == v2,
            b.r1 == Some(r1),
            b.r2 == Some(r2),
            b.cap1.is_none(),
            b.cap2.is_none(),
            b.property_id.is_none(),
            b.p1.is_none(),
            b.p2.is_none(),
    {
        Beam {
            v1,
            v2,
            r1: Some(r1),
            r2: Some(r2),
            cap1: None,
            cap2: None,
            property_id: None,
            p1: None,
            p2: None,
        }
    }
}

/// A ball of a beam lattice (balls sub-extension).
#[derive(Debug)]
pub struct Ball {
    pub vindex: usize,
    pub radius: Option<F64Bits>,
    pub property_id: Option<u32>,
    pub property_index: Option<u32>,
}

impl Ball {
    pub fn new(vindex: usize) -> (b: Ball)
        ensures
            b.vindex == vindex,
            b.radius.is_none(),
            b.property_id.is_none(),
            b.property_index.is_none(),
    {
        Ball { vindex, radius: None, property_id: None, property_index: None }
    }
}

/// The beam lattice of a mesh.
#[derive(Debug)]
pub struct BeamSet {
    pub radius: F64Bits,
    pub min_length: F64Bits,
    pub cap_mode: BeamCapMode,
    pub beams: Vec<Beam>,
    pub balls: Vec<Ball>,
    pub beam_set_refs: Vec<usize>,
    pub ball_set_refs: Vec<usize>,
    pub property_id: Option<u32>,
    pub property_index: Option<u32>,
    pub clipping_mode: Option<String>,
    pub clipping_mesh_id: Option<u32>,
    pub representation_mesh_id: Option<u32>,
    pub ball_mode: Option<String>,
    pub ball_radius: Option<F64Bits>,
}

impl BeamSet {
    /// An empty lattice with radius 1.0, minimum length 0.0001 and sphere caps.
    pub fn new() -> (b: BeamSet)
        ensures
            b.radius == 0x3FF0_0000_0000_0000u64,
            b.min_length == 0x3F1A_36E2_EB1C_432Du64,
            b.cap_mode == BeamCapMode::Sphere,
            b.beams@.len() == 0,
            b.balls@.len() == 0,
            b.beam_set_refs@.len() == 0,
            b.ball_set_refs@.len() == 0,
            b.property_id.is_none(),
            b.property_index.is_none(),
            b.clipping_mode.is_none(),
            b.clipping_mesh_id.is_none(),
            b.representation_mesh_id.is_none(),
            b.ball_mode.is_none(),
            b.ball_radius.is_none(),
    {
        BeamSet {
            radius: 0x3FF0_0000_0000_0000u64,
            min_length: 0x3F1A_36E2_EB1C_432Du64,
            cap_mode: BeamCapMode::Sphere,
            beams: Vec::new(),
            balls: Vec::new(),
            beam_set_refs: Vec::new(),
            ball_set_refs: Vec::new(),
            property_id: None,
            property_index: None,
            clipping_mode: None,
            clipping_mesh_id: None,
            representation_mesh_id: None,
            ball_mode: None,
            ball_radius: None,
        }
    }
}

/// A triangle mesh, with an optional beam lattice.
#[derive(Debug)]
pub struct Mesh {
    pub vertices: Vec<Vertex>,
    pub triangles: Vec<Triangle>,
    pub beamset: Option<BeamSet>,
}

impl Mesh {
    pub fn new() -> (m: Mesh)
        ensures
            m.vertices@.len() == 0,
            m.triangles@.len() == 0,
            m.beamset.is_none(),
    {
        Mesh { vertices: Vec::new(), triangles: Vec::new(), beamset: None }
    }
}

/// Production extension attributes (`p:UUID`, `p:path`).
#[derive(Debug)]
pub struct ProductionInfo {
    pub uuid: Option<String>,
    pub path: Option<String>,
}

impl ProductionInfo {
    pub fn new() -> (p: ProductionInfo)
        ensures
            p.uuid.is_none(),
            p.path.is_none(),
    {
        ProductionInfo { uuid: None, path: None }
    }
}

/// A component of an assembly object.
#[derive(Debug)]
pub struct Component {
    pub objectid: usize,
    pub transform: Option<Transform>,
    pub path: Option<String>,
    pub production: Option<ProductionInfo>,
}

impl Component {
    pub fn new(objectid: usize) -> (c: Component)
        ensures
            c.objectid == objectid,
            c.transform.is_none(),
            c.path.is_none(),
            c.production.is_none(),
    {
        Component { objectid, transform: None, path: None, production: None }
    }
}

/// An operand of a boolean shape.
#[derive(Debug)]
pub struct BooleanRef {
    pub objectid: usize,
    pub path: Option<String>,
}

impl BooleanRef {
    pub fn new(objectid: usize) -> (r: BooleanRef)
        ensures
            r.objectid == objectid,
            r.path.is_none(),
    {
        BooleanRef { objectid, path: None }
    }
}

/// A boolean shape: a base object combined with operand objects.
#[derive(Debug)]
pub struct BooleanShape {
    pub objectid: usize,
    pub operation: BooleanOpType,
    pub path: Option<String>,
    pub operands: Vec<BooleanRef>,
}

impl BooleanShape {
    pub fn new(objectid: usize, operation: BooleanOpType) -> (s: BooleanShape)
        ensures
            s.objectid == objectid,
            s.operation == operation,
            s.path.is_none(),
            s.operands@.len() == 0,
    {
        BooleanShape { objectid, operation, path: None, operands: Vec::new() }
    }
}

/// A triangle of a displacement mesh.
#[derive(Clone, Copy, Debug)]
pub struct DisplacementTriangle {
    pub v1: usize,
    pub v2: usize,
    pub v3: usize,
    pub did: Option<usize>,
    pub d1: Option<usize>,
    pub d2: Option<usize>,
    pub d3: Option<usize>,
}

impl DisplacementTriangle {
    pub fn new(v1: usize, v2: usize, v3: usize) -> (t: DisplacementTriangle)
        ensures
            t.v1 == v1,
            t.v2 == v2,
            t.v3 == v3,
            t.did.is_none(),
            t.d1.is_none(),
            t.d2.is_none(),
            t.d3.is_none(),
    {
        DisplacementTriangle { v1, v2, v3, did: None, d1: None, d2: None, d3: None }
    }
}

/// A displacement mesh (displacement extension).
#[derive(Debug)]
pub struct DisplacementMesh {
    pub vertices: Vec<Vertex>,
    pub triangles: Vec<DisplacementTriangle>,
}

impl DisplacementMesh {
    pub fn new() -> (m: DisplacementMesh)
        ensures
            m.vertices@.len() == 0,
            m.triangles@.len() == 0,
    {
        DisplacementMesh { vertices: Vec::new(), triangles: Vec::new() }
    }
}

/// A resource object.
#[derive(Debug)]
pub struct Object {
    pub id: usize,
    pub name: Option<String>,
    pub object_type: ObjectType,
    pub mesh: Option<Mesh>,
    pub components: Vec<Component>,
    pub pid: Option<usize>,
    pub pindex: Option<usize>,
    pub basematerialid: Option<usize>,
    pub slicestackid: Option<usize>,
    pub production: Option<ProductionInfo>,
    pub boolean_shape: Option<BooleanShape>,
    pub displacement_mesh: Option<DisplacementMesh>,
    pub has_extension_shapes: bool,
    pub has_thumbnail_attribute: bool,
    pub parse_order: usize,
}

impl Object {
    /// A model-type object with the given id and nothing else.
    pub fn new(id: usize) -> (o: Object)
        ensures
            o.id == id,
            o.name.is_none(),
            o.object_type == ObjectType::Model,
            o.mesh.is_none(),
            o.components@.len() == 0,
            o.pid.is_none(),
            o.pindex.is_none(),
            o.basematerialid.is_none(),
            o.slicestackid.is_none(),
            o.production.is_none(),
            o.boolean_shape.is_none(),
            o.displacement_mesh.is_none(),
            !o.has_extension_shapes,
            !o.has_thumbnail_attribute,
            o.parse_order == 0,
    {
        Object {
            id,
            name: None,
            object_type: ObjectType::Model,
            mesh: None,
            components: Vec::new(),
            pid: None,
            pindex: None,
            basematerialid: None,
            slicestackid: None,
            production: None,
            boolean_shape: None,
            displacement_mesh: None,
            has_extension_shapes: false,
            has_thumbnail_attribute: false,
            parse_order: 0,
        }
    }
}

/// A base material.
#[derive(Debug)]
pub struct BaseMaterial {
    pub name: String,
    pub displaycolor: Color,
}

impl BaseMaterial {
    pub fn new(name: String, displaycolor: Color) -> (m: BaseMaterial)
        ensures
            m.name == name,
            m.displaycolor == displaycolor,
    {
        BaseMaterial { name, displaycolor }
    }
}

/// A `basematerials` property group.
#[derive(Debug)]
pub struct BaseMaterialGroup {
    pub id: usize,
    pub materials: Vec<BaseMaterial>,
    pub parse_order: usize,
}

impl BaseMaterialGroup {
    pub fn new(id: usize) -> (g: BaseMaterialGroup)
        ensures
            g.id == id,
            g.materials@.len() == 0,
            g.parse_order == 0,
    {
        BaseMaterialGroup { id, materials: Vec::new(), parse_order: 0 }
    }
}

/// A `colorgroup` property group.
#[derive(Debug)]
pub struct ColorGroup {
    pub id: usize,
    pub colors: Vec<Color>,
    pub parse_order: usize,
}

impl ColorGroup {
    pub fn new(id: usize) -> (g: ColorGroup)
        ensures
            g.id == id,
            g.colors@.len() == 0,
            g.parse_order == 0,
    {
        ColorGroup { id, colors: Vec::new(), parse_order: 0 }
    }
}

/// A `texture2d` resource.
#[derive(Debug)]
pub struct Texture2D {
    pub id: usize,
    pub path: String,
    pub contenttype: String,
    pub tilestyleu: TileStyle,
    pub tilestylev: TileStyle,
    pub filter: FilterMode,
    pub parse_order: usize,
}

impl Texture2D {
    pub fn new(id: usize, path: String, contenttype: String) -> (t: Texture2D)
        ensures
            t.id == id,
            t.path == path,
            t.contenttype == contenttype,
            t.tilestyleu == TileStyle::Wrap,
            t.tilestylev == TileStyle::Wrap,
            t.filter == FilterMode::Auto,
            t.parse_order == 0,
    {
        Texture2D {
            id,
            path,
            contenttype,
            tilestyleu: TileStyle::Wrap,
            tilestylev: TileStyle::Wrap,
            filter: FilterMode::Auto,
            parse_order: 0,
        }
    }
}

/// A texture coordinate.
#[derive(Clone, Copy, Debug)]
pub struct Tex2Coord {
    pub u: F64Bits,
    pub v: F64Bits,
}

/// A `texture2dgroup` property group.
#[derive(Debug)]
pub struct Texture2DGroup {
    pub id: usize,
    pub texid: usize,
    pub tex2coords: Vec<Tex2Coord>,
    pub parse_order: usize,
}

impl Texture2DGroup {
    pub fn new(id: usize, texid: usize) -> (g: Texture2DGroup)
        ensures
            g.id == id,
            g.texid == texid,
            g.tex2coords@.len() == 0,
            g.parse_order == 0,
    {
        Texture2DGroup { id, texid, tex2coords: Vec::new(), parse_order: 0 }
    }
}

/// A composite of a `compositematerials` group.
#[derive(Debug)]
pub struct Composite {
    pub values: Vec<F64Bits>,
}

/// A `compositematerials` property group.
#[derive(Debug)]
pub struct CompositeMaterials {
    pub id: usize,
    pub matid: usize,
    pub matindices: Vec<usize>,
    pub composites: Vec<Composite>,
    pub parse_order: usize,
}

impl CompositeMaterials {
    pub fn new(id: usize, matid: usize, matindices: Vec<usize>) -> (c: CompositeMaterials)
        ensures
            c.id == id,
            c.matid == matid,
            c.matindices == matindices,
            c.composites@.len() == 0,
            c.parse_order == 0,
    {
        CompositeMaterials { id, matid, matindices, composites: Vec::new(), parse_order: 0 }
    }
}

/// One `multi` element: a property index per layer.
#[derive(Debug)]
pub struct Multi {
    pub pindices: Vec<usize>,
}

impl Multi {
    pub fn new(pindices: Vec<usize>) -> (m: Multi)
        ensures
            m.pindices == pindices,
    {
        Multi { pindices }
    }
}

/// A `multiproperties` property group.
#[derive(Debug)]
pub struct MultiProperties {
    pub id: usize,
    pub pids: Vec<usize>,
    pub blendmethods: Vec<BlendMethod>,
    pub multis: Vec<Multi>,
    pub parse_order: usize,
}

impl MultiProperties {
    pub fn new(id: usize, pids: Vec<usize>) -> (m: MultiProperties)
        ensures
            m.id == id,
            m.pids == pids,
            m.blendmethods@.len() == 0,
            m.multis@.len() == 0,
            m.parse_order == 0,
    {
        MultiProperties { id, pids, blendmethods: Vec::new(), multis: Vec::new(), parse_order: 0 }
    }
}

/// A `displacement2d` texture resource.
#[derive(Debug)]
pub struct Displacement2D {
    pub id: usize,
    pub path: String,
    pub parse_order: usize,
}

impl Displacement2D {
    pub fn new(id: usize, path: String) -> (d: Displacement2D)
        ensures
            d.id == id,
            d.path == path,
            d.parse_order == 0,
    {
        Displacement2D { id, path, parse_order: 0 }
    }
}

/// A displacement direction vector.
#[derive(Clone, Copy, Debug)]
pub struct NormVector {
    pub x: F64Bits,
    pub y: F64Bits,
    pub z: F64Bits,
}

/// A `normvectorgroup` resource.
#[derive(Debug)]
pub struct NormVectorGroup {
    pub id: usize,
    pub vectors: Vec<NormVector>,
}

impl NormVectorGroup {
    pub fn new(id: usize) -> (g: NormVectorGroup)
        ensures
            g.id == id,
            g.vectors@.len() == 0,
    {
        NormVectorGroup { id, vectors: Vec::new() }
    }
}

/// A displacement coordinate of a `disp2dgroup`.
#[derive(Clone, Copy, Debug)]
pub struct Disp2DCoord {
    pub u: F64Bits,
    pub v: F64Bits,
    pub n: usize,
    pub f: F64Bits,
}

/// A `disp2dgroup` resource.
#[derive(Debug)]
pub struct Disp2DGroup {
    pub id: usize,
    pub dispid: usize,
    pub nid: usize,
    pub height: F64Bits,
    pub offset: F64Bits,
    pub coords: Vec<Disp2DCoord>,
}

impl Disp2DGroup {
    pub fn new(id: usize, dispid: usize, nid: usize, height: F64Bits) -> (g: Disp2DGroup)
        ensures
            g.id == id,
            g.dispid == dispid,
            g.nid == nid,
            g.height == height,
            g.offset == 0u64,
            g.coords@.len() == 0,
    {
        Disp2DGroup { id, dispid, nid, height, offset: 0u64, coords: Vec::new() }
    }
}

/// A 2D vertex of a slice.
#[derive(Clone, Copy, Debug)]
pub struct Vertex2D {
    pub x: F64Bits,
    pub y: F64Bits,
}

/// A segment of a slice polygon.
#[derive(Clone, Copy, Debug)]
pub struct SliceSegment {
    pub v2: usize,
}

/// A closed polygon of a slice.
#[derive(Debug)]
pub struct SlicePolygon {
    pub startv: usize,
    pub segments: Vec<SliceSegment>,
}

/// One slice of a slice stack.
#[derive(Debug)]
pub struct Slice {
    pub ztop: F64Bits,
    pub vertices: Vec<Vertex2D>,
    pub polygons: Vec<SlicePolygon>,
}

impl Slice {
    pub fn new(ztop: F64Bits) -> (s: Slice)
        ensures
            s.ztop == ztop,
            s.vertices@.len() == 0,
            s.polygons@.len() == 0,
    {
        Slice { ztop, vertices: Vec::new(), polygons: Vec::new() }
    }
}

/// A reference to a slice stack in another part.
#[derive(Debug)]
pub struct SliceRef {
    pub slicestackid: usize,
    pub slicepath: String,
}

/// A `slicestack` resource.
#[derive(Debug)]
pub struct SliceStack {
    pub id: usize,
    pub zbottom: F64Bits,
    pub slices: Vec<Slice>,
    pub slice_refs: Vec<SliceRef>,
}

impl SliceStack {
    pub fn new(id: usize, zbottom: F64Bits) -> (s: SliceStack)
        ensures
            s.id == id,
            s.zbottom == zbottom,
            s.slices@.len() == 0,
            s.slice_refs@.len() == 0,
    {
        SliceStack { id, zbottom, slices: Vec::new(), slice_refs: Vec::new() }
    }
}

/// Bounding box of volumetric data.
#[derive(Clone, Copy, Debug)]
pub struct VolumetricBoundary {
    pub min: (F64Bits, F64Bits, F64Bits),
    pub max: (F64Bits, F64Bits, F64Bits),
}

impl VolumetricBoundary {
    pub fn new(min: (F64Bits, F64Bits, F64Bits), max: (F64Bits, F64Bits, F64Bits)) -> (b:
        VolumetricBoundary)
        ensures
            b.min == min,
            b.max == max,
    {
        VolumetricBoundary { min, max }
    }
}

/// One voxel of a voxel grid.
#[derive(Clone, Copy, Debug)]
pub struct Voxel {
    pub position: (usize, usize, usize),
    pub property_id: Option<usize>,
}

impl Voxel {
    pub fn new(position: (usize, usize, usize)) -> (v: Voxel)
        ensures
            v.position == position,
            v.property_id.is_none(),
    {
        Voxel { position, property_id: None }
    }
}

/// A voxel grid.
#[derive(Debug)]
pub struct VoxelGrid {
    pub dimensions: (usize, usize, usize),
    pub spacing: Option<(F64Bits, F64Bits, F64Bits)>,
    pub voxels: Vec<Voxel>,
}

impl VoxelGrid {
    pub fn new(dimensions: (usize, usize, usize)) -> (g: VoxelGrid)
        ensures
            g.dimensions == dimensions,
            g.spacing.is_none(),
            g.voxels@.len() == 0,
    {
        VoxelGrid { dimensions, spacing: None, voxels: Vec::new() }
    }
}

/// A `volumetricdata` resource.
#[derive(Debug)]
pub struct VolumetricData {
    pub id: usize,
    pub boundary: Option<VolumetricBoundary>,
    pub voxels: Option<VoxelGrid>,
}

impl VolumetricData {
    pub fn new(id: usize) -> (d: VolumetricData)
        ensures
            d.id == id,
            d.boundary.is_none(),
            d.voxels.is_none(),
    {
        VolumetricData { id, boundary: None, voxels: None }
    }
}

/// A `volumetricpropertygroup` resource.
#[derive(Debug)]
pub struct VolumetricPropertyGroup {
    pub id: usize,
}

impl VolumetricPropertyGroup {
    pub fn new(id: usize) -> (g: VolumetricPropertyGroup)
        ensures
            g.id == id,
    {
        VolumetricPropertyGroup { id }
    }
}

/// The `<resources>` section.
#[derive(Debug)]
pub struct Resources {
    pub objects: Vec<Object>,
    pub base_material_groups: Vec<BaseMaterialGroup>,
    pub color_groups: Vec<ColorGroup>,
    pub texture2d_resources: Vec<Texture2D>,
    pub texture2d_groups: Vec<Texture2DGroup>,
    pub composite_materials: Vec<CompositeMaterials>,
    pub multi_properties: Vec<MultiProperties>,
    pub displacement_maps: Vec<Displacement2D>,
    pub norm_vector_groups: Vec<NormVectorGroup>,
    pub disp2d_groups: Vec<Disp2DGroup>,
    pub slice_stacks: Vec<SliceStack>,
    pub volumetric_data: Vec<VolumetricData>,
    pub volumetric_property_groups: Vec<VolumetricPropertyGroup>,
}

impl Resources {
    pub fn new() -> (r: Resources)
        ensures
            r.objects@.len() == 0,
            r.base_material_groups@.len() == 0,
            r.color_groups@.len() == 0,
            r.texture2d_resources@.len() == 0,
            r.texture2d_groups@.len() == 0,
            r.composite_materials@.len() == 0,
            r.multi_properties@.len() == 0,
            r.displacement_maps@.len() == 0,
            r.norm_vector_groups@.len() == 0,
            r.disp2d_groups@.len() == 0,
            r.slice_stacks@.len() == 0,
            r.volumetric_data@.len() == 0,
            r.volumetric_property_groups@.len() == 0,
    {
        Resources {
            objects: Vec::new(),
            base_material_groups: Vec::new(),
            color_groups: Vec::new(),
            texture2d_resources: Vec::new(),
            texture2d_groups: Vec::new(),
            composite_materials: Vec::new(),
            multi_properties: Vec::new(),
            displacement_maps: Vec::new(),
            norm_vector_groups: Vec::new(),
            disp2d_groups: Vec::new(),
            slice_stacks: Vec::new(),
            volumetric_data: Vec::new(),
            volumetric_property_groups: Vec::new(),
        }
    }
}

/// An item of the `<build>` section.
#[derive(Debug)]
pub struct BuildItem {
    pub objectid: usize,
    pub transform: Option<Transform>,
    pub partnumber: Option<String>,
    pub production_uuid: Option<String>,
    pub production_path: Option<String>,
}

impl BuildItem {
    pub fn new(objectid: usize) -> (b: BuildItem)
        ensures
            b.objectid == objectid,
            b.transform.is_none(),
            b.partnumber.is_none(),
            b.production_uuid.is_none(),
            b.production_path.is_none(),
    {
        BuildItem {
            objectid,
            transform: None,
            partnumber: None,
            production_uuid: None,
            production_path: None,
        }
    }
}

/// The `<build>` section.
#[derive(Debug)]
pub struct Build {
    pub items: Vec<BuildItem>,
    pub production_uuid: Option<String>,
}

impl Build {
    pub fn new() -> (b: Build)
        ensures
            b.items@.len() == 0,
            b.production_uuid.is_none(),
    {
        Build { items: Vec::new(), production_uuid: None }
    }
}

/// A `<metadata>` entry.
#[derive(Debug)]
pub struct MetadataEntry {
    pub name: String,
    pub value: String,
    pub preserve: Option<bool>,
}

impl MetadataEntry {
    pub fn new(name: String, value: String) -> (m: MetadataEntry)
        ensures
            m.name == name,
            m.value == value,
            m.preserve.is_none(),
    {
        MetadataEntry { name, value, preserve: None }
    }
}

/// Secure content information: the package parts that are encrypted.
#[derive(Debug)]
pub struct SecureContentInfo {
    pub encrypted_files: Vec<String>,
}

/// The namespace of the 3MF core specification.
pub open spec fn spec_core_namespace() -> Seq<char> {
    "http://schemas.microsoft.com/3dmanufacturing/core/2015/02"@
}

/// A 3MF model.
#[derive(Debug)]
pub struct Model {
    pub unit: String,
    pub xmlns: String,
    pub required_extensions: Vec<Extension>,
    pub required_custom_extensions: Vec<String>,
    pub metadata: Vec<MetadataEntry>,
    pub resources: Resources,
    pub build: Build,
    pub secure_content: Option<SecureContentInfo>,
}

impl Model {
    /// An empty model in millimeters in the core namespace.
    pub fn new() -> (m: Model)
        ensures
            m.unit@ == "millimeter"@,
            m.xmlns@ == spec_core_namespace(),
            m.required_extensions@.len() == 0,
            m.required_custom_extensions@.len() == 0,
            m.metadata@.len() == 0,
            m.resources.objects@.len() == 0,
            m.resources.base_material_groups@.len() == 0,
            m.resources.color_groups@.len() == 0,
            m.resources.texture2d_resources@.len() == 0,
            m.resources.texture2d_groups@.len() == 0,
            m.resources.composite_materials@.len() == 0,
            m.resources.multi_properties@.len() == 0,
            m.resources.displacement_maps@.len() == 0,
            m.resources.norm_vector_groups@.len() == 0,
            m.resources.disp2d_groups@.len() == 0,
            m.resources.slice_stacks@.len() == 0,
            m.resources.volumetric_data@.len() == 0,
            m.resources.volumetric_property_groups@.len() == 0,
            m.build.items@.len() == 0,
            m.build.production_uuid.is_none(),
            m.secure_content.is_none(),
    {
        Model {
            unit: String::from_str("millimeter"),
            xmlns: String::from_str("http://schemas.microsoft.com/3dmanufacturing/core/2015/02"),
            required_extensions: Vec::new(),
            required_custom_extensions: Vec::new(),
            metadata: Vec::new(),
            resources: Resources::new(),
            build: Build::new(),
            secure_content: None,
        }
    }
}

/// What the parser accepts: the extensions it supports, and the namespaces of
/// custom extensions registered with it.
#[derive(Debug)]
pub struct ParserConfig {
    pub supported_extensions: Vec<Extension>,
    pub custom_extension_namespaces: Vec<String>,
}

/// Whether `ext` occurs in `exts`.
pub open spec fn extension_listed(exts: Seq<Extension>, ext: Extension) -> bool {
    exists|i: int| 0 <= i < exts.len() && exts[i] == ext
}

/// Whether `ext` occurs in `exts`.
pub fn contains_extension(exts: &Vec<Extension>, ext: Extension) -> (r: bool)
    ensures
        r == extension_listed(exts@, ext),
{
    let mut i: usize = 0;
    while i < exts.len()
        invariant
            i <= exts@.len(),
            forall|j: int| 0 <= j < i ==> exts@[j] != ext,
        decreases exts@.len() - i,
    {
        if exts[i] == ext {
            return true;
        }
        i += 1;
    }
    false
}

impl ParserConfig {
    /// A configuration with only the core specification.
    pub fn new() -> (c: ParserConfig)
        ensures
            c.supported_extensions@ == seq![Extension::Core],
            c.custom_extension_namespaces@.len() == 0,
    {
        let mut v = Vec::new();
        v.push(Extension::Core);
        ParserConfig { supported_extensions: v, custom_extension_namespaces: Vec::new() }
    }

    /// A configuration that supports every extension this crate knows.
    pub fn with_all_extensions() -> (c: ParserConfig)
        ensures
            c.supported_extensions@ == seq![
                Extension::Core,
                Extension::Material,
                Extension::Production,
                Extension::Slice,
                Extension::BeamLattice,
                Extension::SecureContent,
                Extension::BooleanOperations,
                Extension::Displacement,
                Extension::Volumetric,
            ],
            c.custom_extension_namespaces@.len() == 0,
    {
        let mut v = Vec::new();
        v.push(Extension::Core);
        v.push(Extension::Material);
        v.push(Extension::Production);
        v.push(Extension::Slice);
        v.push(Extension::BeamLattice);
        v.push(Extension::SecureContent);
        v.push(Extension::BooleanOperations);
        v.push(Extension::Displacement);
        v.push(Extension::Volumetric);
        ParserConfig { supported_extensions: v, custom_extension_namespaces: Vec::new() }
    }

    /// Whether the configuration supports `ext`.
    pub fn supports(&self, ext: &Extension) -> (r: bool)
        ensures
            r == extension_listed(self.supported_extensions@, *ext),
    {
        contains_extension(&self.supported_extensions, *ext)
    }
}

} // verus!
