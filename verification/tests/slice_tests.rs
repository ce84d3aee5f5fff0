use lib3mf::model::{
    BuildItem, Component, Model, Object, Slice, SlicePolygon, SliceRef, SliceSegment, SliceStack,
    Vertex2D,
};
use lib3mf::validator::{
    validate_planar_transform, validate_slice, validate_slice_extension, validate_slices,
};

fn bits(x: f64) -> u64 {
    x.to_bits()
}

fn transform(m: [f64; 12]) -> [u64; 12] {
    let mut t = [0u64; 12];
    for k in 0..12 {
        t[k] = m[k].to_bits();
    }
    t
}

const IDENTITY: [f64; 12] = [1.0, 0.0, 0.0, 0.0, 1.0, 0.0, 0.0, 0.0, 1.0, 0.0, 0.0, 0.0];

/// A square slice at height `z`: four vertices and one closed polygon.
fn square_slice(z: f64) -> Slice {
    let mut slice = Slice::new(bits(z));
    for (x, y) in [(0.0, 0.0), (1.0, 0.0), (1.0, 1.0), (0.0, 1.0)] {
        slice.vertices.push(Vertex2D { x: bits(x), y: bits(y) });
    }
    let mut polygon = SlicePolygon { startv: 0, segments: Vec::new() };
    for v2 in [1, 2, 3, 0] {
        polygon.segments.push(SliceSegment { v2 });
    }
    slice.polygons.push(polygon);
    slice
}

fn message(r: Result<(), lib3mf::error::Error>) -> String {
    r.unwrap_err().to_string()
}

fn sliced_model() -> Model {
    let mut model = Model::new();
    let mut stack = SliceStack::new(5, bits(0.0));
    stack.slices.push(square_slice(0.1));
    stack.slices.push(square_slice(0.2));
    model.resources.slice_stacks.push(stack);
    let mut object = Object::new(1);
    object.slicestackid = Some(5);
    model.resources.objects.push(object);
    model.build.items.push(BuildItem::new(1));
    model
}

#[test]
fn test_slice_square_valid() {
    assert!(validate_slice(5, 0, &square_slice(0.1)).is_ok());
}

#[test]
fn test_slice_without_polygons_valid() {
    assert!(validate_slice(5, 0, &Slice::new(bits(0.1))).is_ok());
}

#[test]
fn test_slice_polygons_without_vertices() {
    let mut slice = square_slice(0.1);
    slice.vertices.clear();
    let msg = message(validate_slice(5, 2, &slice));
    assert!(msg.contains("SliceStack 5: Slice 2 (ztop="));
    assert!(msg.contains("has 1"));
}

#[test]
fn test_slice_startv_out_of_range() {
    let mut slice = square_slice(0.1);
    slice.polygons[0].startv = 9;
    let msg = message(validate_slice(5, 0, &slice));
    assert!(msg.contains("Polygon 0 has invalid startv=9 (slice has 4 vertices, valid indices: 0-3"));
}

#[test]
fn test_slice_too_few_segments() {
    let mut slice = square_slice(0.1);
    slice.polygons[0].segments.truncate(1);
    let msg = message(validate_slice(5, 0, &slice));
    assert!(msg.contains("Polygon 0 has only 1"));
}

#[test]
fn test_slice_segment_out_of_range() {
    let mut slice = square_slice(0.1);
    slice.polygons[0].segments[1].v2 = 7;
    let msg = message(validate_slice(5, 0, &slice));
    assert!(msg.contains("Segment 1 has invalid v2=7"));
}

#[test]
fn test_slice_repeated_vertex() {
    let mut slice = square_slice(0.1);
    slice.polygons[0].segments[2].v2 = 2;
    let msg = message(validate_slice(5, 0, &slice));
    assert!(msg.contains("Segments 1 and 2 have the same v2=2"));
}

#[test]
fn test_slice_polygon_not_closed() {
    let mut slice = square_slice(0.1);
    slice.polygons[0].segments[3].v2 = 1;
    let msg = message(validate_slice(5, 0, &slice));
    assert!(msg.contains("Polygon 0 is not closed.\nLast segment v2=1"));
}

#[test]
fn test_slices_increasing_valid() {
    assert!(validate_slices(&sliced_model()).is_ok());
}

#[test]
fn test_slice_below_bottom() {
    let mut model = sliced_model();
    model.resources.slice_stacks[0].zbottom = bits(0.15);
    let msg = message(validate_slices(&model));
    assert!(msg.contains("SliceStack 5: Slice 0 has ztop="));
    assert!(msg.contains("which is less than zbottom="));
}

#[test]
fn test_slice_not_increasing() {
    let mut model = sliced_model();
    model.resources.slice_stacks[0].slices[1].ztop = bits(0.1);
    let msg = message(validate_slices(&model));
    assert!(msg.contains("Slice 1 has ztop="));
    assert!(msg.contains("which is not greater than the previous slice's ztop="));
}

#[test]
fn test_slice_extension_valid() {
    assert!(validate_slice_extension(&sliced_model()).is_ok());
}

#[test]
fn test_slice_stack_mixing_slices_and_references() {
    let mut model = sliced_model();
    model.resources.slice_stacks[0]
        .slice_refs
        .push(SliceRef { slicestackid: 6, slicepath: "/2D/slices.model".to_string() });
    let msg = message(validate_slice_extension(&model));
    assert!(msg.contains("SliceStack 5: Contains both <slice> and <sliceref> elements"));
}

#[test]
fn test_object_unknown_slice_stack() {
    let mut model = sliced_model();
    model.resources.objects[0].slicestackid = Some(8);
    let msg = message(validate_slice_extension(&model));
    assert!(msg.contains("Object 1: References non-existent slicestackid 8"));
    assert!(msg.contains("Available slicestack IDs: [5]"));
}

#[test]
fn test_sliced_build_item_non_planar_transform() {
    let mut model = sliced_model();
    let mut t = IDENTITY;
    t[2] = 0.5;
    model.build.items[0].transform = Some(transform(t));
    let msg = message(validate_slice_extension(&model));
    assert!(msg.contains("Build Item referencing object 1: Transform is not planar. Matrix element m02"));
}

#[test]
fn test_sliced_component_non_planar_transform() {
    let mut model = sliced_model();
    let mut assembly = Object::new(2);
    let mut component = Component::new(1);
    let mut t = IDENTITY;
    t[8] = 2.0;
    component.transform = Some(transform(t));
    assembly.components.push(component);
    model.resources.objects.push(assembly);
    let msg = message(validate_slice_extension(&model));
    assert!(msg.contains("Object 2, Component referencing object 1: Transform is not planar. Matrix element m22"));
    assert!(msg.contains("(must be 1.0)"));
}

#[test]
fn test_planar_transform_identity() {
    assert!(validate_planar_transform(&transform(IDENTITY), "Build Item").is_ok());
}

#[test]
fn test_planar_transform_rotation_about_z() {
    // A quarter turn about z keeps the z axis.
    let t = [0.0, 1.0, 0.0, -1.0, 0.0, 0.0, 0.0, 0.0, 1.0, 3.0, 4.0, 5.0];
    assert!(validate_planar_transform(&transform(t), "Build Item").is_ok());
}

#[test]
fn test_planar_transform_tilted() {
    let mut t = IDENTITY;
    t[7] = 0.25;
    let msg = message(validate_planar_transform(&transform(t), "Context"));
    assert!(msg.contains("Context: Transform is not planar. Matrix element m21"));
    assert!(msg.contains("(must be 0.0)"));
}

#[test]
fn test_planar_transform_negative_zero_is_zero() {
    let mut t = IDENTITY;
    t[2] = -0.0;
    assert!(validate_planar_transform(&transform(t), "Build Item").is_ok());
}
