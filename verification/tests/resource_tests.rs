use lib3mf::model::{
    BaseMaterial, BaseMaterialGroup, BuildItem, ColorGroup, Composite, CompositeMaterials, Mesh,
    Model, Multi, MultiProperties, Object, SliceStack, Texture2D, Texture2DGroup, Triangle, Vertex,
};
use lib3mf::validator::{
    get_property_resource_size, validate_color_formats, validate_duplicate_resource_ids,
    validate_material_references, validate_multiproperties_references,
    validate_object_triangle_materials, validate_resource_ordering, validate_texture_paths,
    validate_triangle_properties,
};

fn vertex(x: f64, y: f64, z: f64) -> Vertex {
    Vertex::new(x.to_bits(), y.to_bits(), z.to_bits())
}

fn triangle_mesh(triangles: Vec<Triangle>) -> Mesh {
    let mut mesh = Mesh::new();
    mesh.vertices.push(vertex(0.0, 0.0, 0.0));
    mesh.vertices.push(vertex(1.0, 0.0, 0.0));
    mesh.vertices.push(vertex(0.0, 1.0, 0.0));
    mesh.vertices.push(vertex(0.0, 0.0, 1.0));
    mesh.triangles = triangles;
    mesh
}

fn color_group(id: usize, n: usize, order: usize) -> ColorGroup {
    let mut g = ColorGroup::new(id);
    for _ in 0..n {
        g.colors.push((255, 0, 0, 255));
    }
    g.parse_order = order;
    g
}

fn message<T: std::fmt::Debug>(r: Result<T, lib3mf::error::Error>) -> String {
    r.unwrap_err().to_string()
}

fn model_with_mesh_object(pid: Option<usize>, pindex: Option<usize>) -> Model {
    let mut model = Model::new();
    let mut object = Object::new(1);
    object.pid = pid;
    object.pindex = pindex;
    object.mesh = Some(triangle_mesh(vec![Triangle::new(0, 1, 2)]));
    model.resources.objects.push(object);
    model.build.items.push(BuildItem::new(1));
    model
}

#[test]
fn test_texture_group_unknown_texture() {
    let mut model = Model::new();
    model.resources.texture2d_groups.push(Texture2DGroup::new(10, 20));
    let msg = message(validate_resource_ordering(&model));
    assert!(msg.contains("Texture2DGroup 10: References texture2d with ID 20 which is not defined"));
}

#[test]
fn test_texture_defined_before_group_passes() {
    let mut model = Model::new();
    let mut texture = Texture2D::new(20, "/3D/Texture/a.png".to_string(), "image/png".to_string());
    texture.parse_order = 1;
    model.resources.texture2d_resources.push(texture);
    let mut group = Texture2DGroup::new(10, 20);
    group.parse_order = 2;
    model.resources.texture2d_groups.push(group);
    assert!(validate_resource_ordering(&model).is_ok());
}

#[test]
fn test_object_between_property_resources() {
    let mut model = Model::new();
    let mut texture = Texture2D::new(10, "/3D/Texture/a.png".to_string(), "image/png".to_string());
    texture.parse_order = 1;
    model.resources.texture2d_resources.push(texture);
    let mut object = Object::new(1);
    object.parse_order = 2;
    model.resources.objects.push(object);
    model.resources.color_groups.push(color_group(20, 1, 3));
    let msg = message(validate_resource_ordering(&model));
    assert!(msg.contains("Invalid resource ordering: Object 1 appears between property resources."));
    assert!(msg.contains("between Texture2D 10 (position 1) and ColorGroup 20 (position 3)"));
}

#[test]
fn test_objects_after_properties_pass() {
    let mut model = Model::new();
    model.resources.color_groups.push(color_group(20, 1, 1));
    let mut object = Object::new(1);
    object.parse_order = 2;
    model.resources.objects.push(object);
    assert!(validate_resource_ordering(&model).is_ok());
}

#[test]
fn test_duplicate_object_resource_id() {
    let mut model = Model::new();
    model.resources.objects.push(Object::new(3));
    model.resources.objects.push(Object::new(3));
    let msg = message(validate_duplicate_resource_ids(&model));
    assert!(msg.contains("Duplicate object ID 3: Multiple objects use the same ID"));
}

#[test]
fn test_duplicate_property_resource_id() {
    let mut model = Model::new();
    model.resources.color_groups.push(color_group(4, 1, 1));
    model.resources.slice_stacks.push(SliceStack::new(4, 0.0f64.to_bits()));
    let msg = message(validate_duplicate_resource_ids(&model));
    assert!(msg.contains("Duplicate property resource ID 4: SliceStack resource uses an ID"));
}

#[test]
fn test_objects_may_reuse_property_ids() {
    let mut model = Model::new();
    model.resources.color_groups.push(color_group(1, 1, 1));
    model.resources.objects.push(Object::new(1));
    assert!(validate_duplicate_resource_ids(&model).is_ok());
}

#[test]
fn test_duplicate_property_group_id() {
    let mut model = model_with_mesh_object(None, None);
    model.resources.color_groups.push(color_group(5, 1, 1));
    let mut base = BaseMaterialGroup::new(5);
    base.materials.push(BaseMaterial::new("Red".to_string(), (255, 0, 0, 255)));
    model.resources.base_material_groups.push(base);
    let msg = message(validate_material_references(&model));
    assert!(msg.contains("Duplicate resource ID: 5. This ID is used by both a colorgroup and a basematerials group"));
}

#[test]
fn test_object_unknown_property_group_lists_ids() {
    let mut model = model_with_mesh_object(Some(42), None);
    model.resources.color_groups.push(color_group(7, 1, 1));
    model.resources.color_groups.push(color_group(3, 1, 2));
    let msg = message(validate_material_references(&model));
    assert!(msg.contains("Object 1 references non-existent property group ID: 42"));
    assert!(msg.contains("Available property group IDs: [3, 7]"));
}

#[test]
fn test_object_pindex_out_of_bounds() {
    let mut model = model_with_mesh_object(Some(7), Some(2));
    model.resources.color_groups.push(color_group(7, 2, 1));
    let msg = message(validate_material_references(&model));
    assert!(msg.contains("Object 1: pindex 2 is out of bounds."));
}

#[test]
fn test_triangle_property_out_of_bounds() {
    let mut model = model_with_mesh_object(Some(7), Some(0));
    model.resources.color_groups.push(color_group(7, 2, 1));
    let mut t = Triangle::new(0, 1, 2);
    t.p2 = Some(5);
    model.resources.objects[0].mesh.as_mut().unwrap().triangles[0] = t;
    let msg = message(validate_material_references(&model));
    assert!(msg.contains("Object 1: Triangle 0 p2 5 is out of bounds."));
}

#[test]
fn test_multiproperties_pindex_out_of_bounds() {
    let mut model = Model::new();
    model.resources.color_groups.push(color_group(6, 1, 1));
    let mut multi = MultiProperties::new(12, vec![6]);
    multi.multis.push(Multi::new(vec![3]));
    model.resources.multi_properties.push(multi);
    let msg = message(validate_material_references(&model));
    assert!(msg.contains("MultiProperties group 12: Multi element 0 layer 0 references pindex 3 which is out of bounds."));
}

#[test]
fn test_texture_path_with_nul() {
    let mut model = Model::new();
    model.resources.texture2d_resources.push(Texture2D::new(
        10,
        "/3D/Texture/a\0.png".to_string(),
        "image/png".to_string(),
    ));
    let msg = message(validate_texture_paths(&model));
    assert!(msg.contains("Texture2D resource 10: Path '"));
}

#[test]
fn test_texture_path_non_ascii() {
    let mut model = Model::new();
    model.resources.texture2d_resources.push(Texture2D::new(
        10,
        "/3D/Texture/\u{fc}.png".to_string(),
        "image/png".to_string(),
    ));
    let msg = message(validate_texture_paths(&model));
    assert!(msg.contains("Texture2D resource 10: Path '/3D/Texture/\u{fc}.png'"));
}

#[test]
fn test_texture_content_type_invalid() {
    let mut model = Model::new();
    model.resources.texture2d_resources.push(Texture2D::new(
        10,
        "/3D/Texture/a.gif".to_string(),
        "image/gif".to_string(),
    ));
    let msg = message(validate_texture_paths(&model));
    assert!(msg.contains("Texture2D resource 10: Invalid contenttype 'image/gif'"));
}

#[test]
fn test_texture_jpeg_accepted() {
    let mut model = Model::new();
    model.resources.texture2d_resources.push(Texture2D::new(
        10,
        "/3D/Texture/a.jpg".to_string(),
        "image/jpeg".to_string(),
    ));
    assert!(validate_texture_paths(&model).is_ok());
}

#[test]
fn test_empty_color_group() {
    let mut model = Model::new();
    model.resources.color_groups.push(color_group(8, 0, 1));
    let msg = message(validate_color_formats(&model));
    assert!(msg.contains("Color group 8"));
}

#[test]
fn test_multiproperties_unknown_pid() {
    let mut model = Model::new();
    let mut multi = MultiProperties::new(12, vec![99]);
    multi.multis.push(Multi::new(vec![0]));
    model.resources.multi_properties.push(multi);
    let msg = message(validate_multiproperties_references(&model));
    assert!(msg.contains("MultiProperties 12: PID 99 at index 0"));
}

#[test]
fn test_property_resource_size_of_color_group() {
    let mut model = Model::new();
    model.resources.color_groups.push(color_group(8, 3, 1));
    assert_eq!(get_property_resource_size(&model, 8).unwrap(), 3);
}

#[test]
fn test_property_resource_size_of_composites() {
    let mut model = Model::new();
    let mut composite = CompositeMaterials::new(9, 1, vec![0]);
    composite.composites.push(Composite { values: vec![1.0f64.to_bits()] });
    composite.composites.push(Composite { values: vec![0.5f64.to_bits()] });
    model.resources.composite_materials.push(composite);
    assert_eq!(get_property_resource_size(&model, 9).unwrap(), 2);
}

#[test]
fn test_property_resource_size_empty_group() {
    let mut model = Model::new();
    model.resources.color_groups.push(color_group(8, 0, 1));
    let msg = message(get_property_resource_size(&model, 8));
    assert!(msg.contains("ColorGroup 8 has no colors."));
}

#[test]
fn test_property_resource_size_unknown() {
    let model = Model::new();
    let msg = message(get_property_resource_size(&model, 8));
    assert!(msg.contains("Property resource 8 not found or is not a valid property resource type"));
}

#[test]
fn test_object_triangles_mixed_materials() {
    let mut with = Triangle::new(0, 1, 2);
    with.pid = Some(7);
    let without = Triangle::new(0, 1, 3);
    let mesh = triangle_mesh(vec![with, without]);
    let msg = message(validate_object_triangle_materials(1, None, &mesh, "Object 1"));
    assert!(msg.contains("Object 1 has some triangles with material properties and some without."));
}

#[test]
fn test_object_triangles_mixed_with_default_pass() {
    let mut with = Triangle::new(0, 1, 2);
    with.pid = Some(7);
    let without = Triangle::new(0, 1, 3);
    let mesh = triangle_mesh(vec![with, without]);
    assert!(validate_object_triangle_materials(1, Some(7), &mesh, "Object 1").is_ok());
}

#[test]
fn test_triangle_multi_pindex_out_of_bounds() {
    let mut model = model_with_mesh_object(Some(12), Some(0));
    model.resources.color_groups.push(color_group(6, 1, 1));
    let mut multi = MultiProperties::new(12, vec![6]);
    multi.multis.push(Multi::new(vec![0]));
    model.resources.multi_properties.push(multi);
    let mut t = Triangle::new(0, 1, 2);
    t.pid = Some(12);
    t.pindex = Some(4);
    model.resources.objects[0].mesh.as_mut().unwrap().triangles[0] = t;
    let msg = message(validate_triangle_properties(&model));
    assert!(msg.contains("Triangle in object 1 has pindex 4 which is out of bounds. MultiProperties resource 12 has only 1 entries"));
}
