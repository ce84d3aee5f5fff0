use lib3mf::model::{
    BaseMaterial, BaseMaterialGroup, BuildItem, ColorGroup, Component, DisplacementMesh, Mesh,
    Model, Multi, MultiProperties, Object, SliceStack, Tex2Coord, Texture2D, Texture2DGroup,
    Triangle, Vertex,
};
use lib3mf::validator::{
    validate_build_references, validate_component_references, validate_material_references,
    validate_mesh_geometry, validate_mesh_volume, validate_model, validate_multiproperties_references,
    validate_object_ids, validate_resource_ordering, validate_texture_paths,
    validate_transform_matrices, validate_triangle_properties, DisplacementGeometry, Measures,
    MeshGeometry,
};
use lib3mf::model::ParserConfig;
use lib3mf::validator::{
    measures_match, validate_handler_results, validate_model_with_config,
    validate_model_with_handler_results, validate_model_with_handlers,
};
use std::cell::RefCell;

fn bits(x: f64) -> u64 {
    x.to_bits()
}

fn vertex(x: f64, y: f64, z: f64) -> Vertex {
    Vertex::new(x.to_bits(), y.to_bits(), z.to_bits())
}

fn transform(m: [f64; 12]) -> [u64; 12] {
    let mut t = [0u64; 12];
    for k in 0..12 {
        t[k] = m[k].to_bits();
    }
    t
}

fn point(v: &Vertex) -> [f64; 3] {
    [f64::from_bits(v.x), f64::from_bits(v.y), f64::from_bits(v.z)]
}

fn determinant(t: &[u64; 12]) -> f64 {
    let m: Vec<f64> = t.iter().map(|b| f64::from_bits(*b)).collect();
    m[0] * (m[4] * m[8] - m[5] * m[7]) - m[1] * (m[3] * m[8] - m[5] * m[6])
        + m[2] * (m[3] * m[7] - m[4] * m[6])
}

fn signed_volume(vertices: &[Vertex], corners: &[(usize, usize, usize)]) -> f64 {
    let mut volume = 0.0f64;
    for &(a, b, c) in corners {
        if a >= vertices.len() || b >= vertices.len() || c >= vertices.len() {
            continue;
        }
        let p = point(&vertices[a]);
        let q = point(&vertices[b]);
        let r = point(&vertices[c]);
        volume += p[0] * (q[1] * r[2] - q[2] * r[1])
            + q[0] * (r[1] * p[2] - r[2] * p[1])
            + r[0] * (p[1] * q[2] - p[2] * q[1]);
    }
    volume / 6.0
}

fn normal_of(vertices: &[Vertex], a: usize, b: usize, c: usize) -> [f64; 3] {
    let p = point(&vertices[a]);
    let q = point(&vertices[b]);
    let r = point(&vertices[c]);
    let e1 = [q[0] - p[0], q[1] - p[1], q[2] - p[2]];
    let e2 = [r[0] - p[0], r[1] - p[1], r[2] - p[2]];
    [
        e1[1] * e2[2] - e1[2] * e2[1],
        e1[2] * e2[0] - e1[0] * e2[2],
        e1[0] * e2[1] - e1[1] * e2[0],
    ]
}

fn mesh_geometry(model: &Model, mesh: &DisplacementMesh) -> MeshGeometry {
    let corners: Vec<(usize, usize, usize)> =
        mesh.triangles.iter().map(|t| (t.v1, t.v2, t.v3)).collect();
    let volume = signed_volume(&mesh.vertices, &corners);
    let mut close_vertices = None;
    'outer: for i in 0..mesh.vertices.len() {
        for j in (i + 1)..mesh.vertices.len() {
            let p = point(&mesh.vertices[i]);
            let q = point(&mesh.vertices[j]);
            let d = (p[0] - q[0]).powi(2) + (p[1] - q[1]).powi(2) + (p[2] - q[2]).powi(2);
            if d < 1e-10 {
                close_vertices = Some((i, j));
                break 'outer;
            }
        }
    }
    let nv = mesh.vertices.len();
    let mut areas = Vec::new();
    let mut dots = Vec::new();
    for t in &mesh.triangles {
        if t.v1 >= nv || t.v2 >= nv || t.v3 >= nv {
            areas.push(1.0f64.to_bits());
            dots.push((1.0f64.to_bits(), 1.0f64.to_bits(), 1.0f64.to_bits()));
            continue;
        }
        let n = normal_of(&mesh.vertices, t.v1, t.v2, t.v3);
        areas.push((n[0] * n[0] + n[1] * n[1] + n[2] * n[2]).to_bits());
        let dot = |d: Option<usize>| -> u64 {
            let group = t.did.and_then(|did| model.resources.disp2d_groups.iter().find(|g| g.id == did));
            if let (Some(g), Some(k)) = (group, d) {
                if k < g.coords.len() {
                    let normals = model.resources.norm_vector_groups.iter().find(|ng| ng.id == g.nid);
                    if let Some(ng) = normals {
                        let ci = g.coords[k].n;
                        if ci < ng.vectors.len() {
                            let v = &ng.vectors[ci];
                            let value = n[0] * f64::from_bits(v.x)
                                + n[1] * f64::from_bits(v.y)
                                + n[2] * f64::from_bits(v.z);
                            return value.to_bits();
                        }
                    }
                }
            }
            1.0f64.to_bits()
        };
        dots.push((dot(t.d1), dot(t.d2), dot(t.d3)));
    }
    MeshGeometry { volume: volume.to_bits(), close_vertices, areas, dots }
}

fn measures(model: &Model) -> Measures {
    let determinants = model
        .build
        .items
        .iter()
        .map(|item| match &item.transform {
            Some(t) => determinant(t).to_bits(),
            None => 1.0f64.to_bits(),
        })
        .collect();
    let mesh_volumes = model
        .resources
        .objects
        .iter()
        .map(|o| match &o.mesh {
            Some(mesh) => {
                let corners: Vec<(usize, usize, usize)> =
                    mesh.triangles.iter().map(|t| (t.v1, t.v2, t.v3)).collect();
                signed_volume(&mesh.vertices, &corners).to_bits()
            }
            None => 1.0f64.to_bits(),
        })
        .collect();
    let normal_lengths = model
        .resources
        .norm_vector_groups
        .iter()
        .map(|g| {
            g.vectors
                .iter()
                .map(|v| {
                    let (x, y, z) = (f64::from_bits(v.x), f64::from_bits(v.y), f64::from_bits(v.z));
                    (x * x + y * y + z * z).to_bits()
                })
                .collect()
        })
        .collect();
    let meshes = model
        .resources
        .objects
        .iter()
        .map(|o| match &o.displacement_mesh {
            Some(mesh) => mesh_geometry(model, mesh),
            None => MeshGeometry {
                volume: 1.0f64.to_bits(),
                close_vertices: None,
                areas: Vec::new(),
                dots: Vec::new(),
            },
        })
        .collect();
    Measures {
        determinants,
        mesh_volumes,
        displacement: DisplacementGeometry { normal_lengths, meshes },
    }
}

#[test]
fn validator_test_validate_duplicate_object_ids() {
    let mut model = Model::new();
    model.resources.objects.push(Object::new(1));
    model.resources.objects.push(Object::new(1)); // Duplicate!

    let result = validate_object_ids(&model);
    assert!(result.is_err());
    assert!(result
        .unwrap_err()
        .to_string()
        .contains("Duplicate object ID"));
}

#[test]
fn validator_test_validate_zero_object_id() {
    let mut model = Model::new();
    model.resources.objects.push(Object::new(0)); // Invalid!

    let result = validate_object_ids(&model);
    assert!(result.is_err());
    assert!(result.unwrap_err().to_string().contains("positive integer"));
}

#[test]
fn validator_test_validate_degenerate_triangle() {
    let mut model = Model::new();
    let mut object = Object::new(1);
    let mut mesh = Mesh::new();

    // Add vertices
    mesh.vertices.push(vertex(0.0, 0.0, 0.0));
    mesh.vertices.push(vertex(1.0, 0.0, 0.0));
    mesh.vertices.push(vertex(0.0, 1.0, 0.0));

    // Add degenerate triangle (v1 == v2)
    mesh.triangles.push(Triangle::new(0, 0, 2));

    object.mesh = Some(mesh);
    model.resources.objects.push(object);

    let result = validate_mesh_geometry(&model);
    assert!(result.is_err());
    assert!(result.unwrap_err().to_string().contains("degenerate"));
}

#[test]
fn validator_test_validate_vertex_out_of_bounds() {
    let mut model = Model::new();
    let mut object = Object::new(1);
    let mut mesh = Mesh::new();

    // Add only 2 vertices
    mesh.vertices.push(vertex(0.0, 0.0, 0.0));
    mesh.vertices.push(vertex(1.0, 0.0, 0.0));

    // Add triangle with out-of-bounds vertex (v3 = 5, but only have 2 vertices)
    mesh.triangles.push(Triangle::new(0, 1, 5));

    object.mesh = Some(mesh);
    model.resources.objects.push(object);

    let result = validate_mesh_geometry(&model);
    assert!(result.is_err());
    assert!(result.unwrap_err().to_string().contains("out of bounds"));
}

#[test]
fn validator_test_validate_build_item_invalid_reference() {
    let mut model = Model::new();
    model.resources.objects.push(Object::new(1));

    // Build item references non-existent object 99
    model.build.items.push(BuildItem::new(99));

    let result = validate_build_references(&model);
    assert!(result.is_err());
    assert!(result
        .unwrap_err()
        .to_string()
        .contains("non-existent object"));
}

#[test]
fn validator_test_validate_valid_model() {
    let mut model = Model::new();
    let mut object = Object::new(1);
    let mut mesh = Mesh::new();

    // Add valid vertices
    mesh.vertices.push(vertex(0.0, 0.0, 0.0));
    mesh.vertices.push(vertex(1.0, 0.0, 0.0));
    mesh.vertices.push(vertex(0.0, 1.0, 0.0));

    // Add valid triangle
    mesh.triangles.push(Triangle::new(0, 1, 2));

    object.mesh = Some(mesh);
    model.resources.objects.push(object);

    // Add valid build item
    model.build.items.push(BuildItem::new(1));

    let result = validate_model(&model, &measures(&model));
    assert!(result.is_ok());
}

#[test]
fn validator_test_validate_empty_mesh() {
    let mut model = Model::new();
    let mut object = Object::new(1);
    let mut mesh = Mesh::new();

    // Add triangles but no vertices - this should fail
    mesh.triangles.push(Triangle::new(0, 1, 2));

    object.mesh = Some(mesh);
    model.resources.objects.push(object);

    let result = validate_mesh_geometry(&model);
    assert!(result.is_err());
    let err_msg = result.unwrap_err().to_string();
    assert!(
        err_msg.contains("triangle"),
        "Error message should mention triangles"
    );
    assert!(
        err_msg.contains("no vertices"),
        "Error message should mention missing vertices"
    );
}

#[test]
fn validator_test_validate_base_material_reference() {
    let mut model = Model::new();

    // Add a base material group with id=5
    let mut base_group = BaseMaterialGroup::new(5);
    base_group
        .materials
        .push(BaseMaterial::new("Red".to_string(), (255, 0, 0, 255)));
    base_group
        .materials
        .push(BaseMaterial::new("Blue".to_string(), (0, 0, 255, 255)));
    model.resources.base_material_groups.push(base_group);

    // Create an object that references the base material group
    let mut object = Object::new(1);
    object.pid = Some(5);
    object.pindex = Some(0);

    let mut mesh = Mesh::new();
    mesh.vertices.push(vertex(0.0, 0.0, 0.0));
    mesh.vertices.push(vertex(1.0, 0.0, 0.0));
    mesh.vertices.push(vertex(0.5, 1.0, 0.0));
    mesh.triangles.push(Triangle::new(0, 1, 2));

    object.mesh = Some(mesh);
    model.resources.objects.push(object);
    model.build.items.push(BuildItem::new(1));

    // Should pass validation
    let result = validate_model(&model, &measures(&model));
    assert!(result.is_ok());
}

#[test]
fn validator_test_validate_invalid_base_material_reference() {
    let mut model = Model::new();

    // Add a base material group with id=5
    let mut base_group = BaseMaterialGroup::new(5);
    base_group
        .materials
        .push(BaseMaterial::new("Red".to_string(), (255, 0, 0, 255)));
    model.resources.base_material_groups.push(base_group);

    // Create an object that references a non-existent material group id=99
    let mut object = Object::new(1);
    object.pid = Some(99); // Invalid reference!

    let mut mesh = Mesh::new();
    mesh.vertices.push(vertex(0.0, 0.0, 0.0));
    mesh.vertices.push(vertex(1.0, 0.0, 0.0));
    mesh.vertices.push(vertex(0.5, 1.0, 0.0));
    mesh.triangles.push(Triangle::new(0, 1, 2));

    object.mesh = Some(mesh);
    model.resources.objects.push(object);
    model.build.items.push(BuildItem::new(1));

    // Should fail validation
    let result = validate_material_references(&model);
    assert!(result.is_err());
    assert!(result.unwrap_err().to_string().contains("non-existent"));
}

#[test]
fn validator_test_validate_base_material_pindex_out_of_bounds() {
    let mut model = Model::new();

    // Add a base material group with only 1 material
    let mut base_group = BaseMaterialGroup::new(5);
    base_group
        .materials
        .push(BaseMaterial::new("Red".to_string(), (255, 0, 0, 255)));
    model.resources.base_material_groups.push(base_group);

    // Create an object with pindex=5 (out of bounds)
    let mut object = Object::new(1);
    object.pid = Some(5);
    object.pindex = Some(5); // Out of bounds! Only index 0 is valid

    let mut mesh = Mesh::new();
    mesh.vertices.push(vertex(0.0, 0.0, 0.0));
    mesh.vertices.push(vertex(1.0, 0.0, 0.0));
    mesh.vertices.push(vertex(0.5, 1.0, 0.0));
    mesh.triangles.push(Triangle::new(0, 1, 2));

    object.mesh = Some(mesh);
    model.resources.objects.push(object);
    model.build.items.push(BuildItem::new(1));

    // Should fail validation
    let result = validate_material_references(&model);
    assert!(result.is_err());
    assert!(result.unwrap_err().to_string().contains("out of bounds"));
}

#[test]
fn validator_test_validate_basematerialid_valid() {
    let mut model = Model::new();

    // Add a base material group with ID 5
    let mut base_group = BaseMaterialGroup::new(5);
    base_group.materials.push(BaseMaterial::new(
        "Red Plastic".to_string(),
        (255, 0, 0, 255),
    ));
    model.resources.base_material_groups.push(base_group);

    // Create an object that references the base material group via basematerialid
    let mut object = Object::new(1);
    object.basematerialid = Some(5); // Valid reference

    let mut mesh = Mesh::new();
    mesh.vertices.push(vertex(0.0, 0.0, 0.0));
    mesh.vertices.push(vertex(1.0, 0.0, 0.0));
    mesh.vertices.push(vertex(0.5, 1.0, 0.0));
    mesh.triangles.push(Triangle::new(0, 1, 2));

    object.mesh = Some(mesh);
    model.resources.objects.push(object);
    model.build.items.push(BuildItem::new(1));

    // Should pass validation
    let result = validate_material_references(&model);
    assert!(result.is_ok());
}

#[test]
fn validator_test_validate_basematerialid_invalid() {
    let mut model = Model::new();

    // Add a base material group with ID 5
    let mut base_group = BaseMaterialGroup::new(5);
    base_group.materials.push(BaseMaterial::new(
        "Red Plastic".to_string(),
        (255, 0, 0, 255),
    ));
    model.resources.base_material_groups.push(base_group);

    // Create an object that references a non-existent base material group
    let mut object = Object::new(1);
    object.basematerialid = Some(99); // Invalid reference!

    let mut mesh = Mesh::new();
    mesh.vertices.push(vertex(0.0, 0.0, 0.0));
    mesh.vertices.push(vertex(1.0, 0.0, 0.0));
    mesh.vertices.push(vertex(0.5, 1.0, 0.0));
    mesh.triangles.push(Triangle::new(0, 1, 2));

    object.mesh = Some(mesh);
    model.resources.objects.push(object);
    model.build.items.push(BuildItem::new(1));

    // Should fail validation
    let result = validate_material_references(&model);
    assert!(result.is_err());
    assert!(result
        .unwrap_err()
        .to_string()
        .contains("non-existent base material group"));
}

#[test]
fn validator_test_validate_component_reference_invalid() {
    let mut model = Model::new();

    // Create object 1 with a component referencing non-existent object 99
    let mut object1 = Object::new(1);
    object1.components.push(Component::new(99));

    let mut mesh = Mesh::new();
    mesh.vertices.push(vertex(0.0, 0.0, 0.0));
    mesh.vertices.push(vertex(1.0, 0.0, 0.0));
    mesh.vertices.push(vertex(0.5, 1.0, 0.0));
    mesh.triangles.push(Triangle::new(0, 1, 2));
    object1.mesh = Some(mesh);

    model.resources.objects.push(object1);
    model.build.items.push(BuildItem::new(1));

    // Should fail validation
    let result = validate_component_references(&model);
    assert!(result.is_err());
    assert!(result
        .unwrap_err()
        .to_string()
        .contains("non-existent object"));
}

#[test]
fn validator_test_validate_component_circular_dependency() {
    let mut model = Model::new();

    // Create object 1 with component referencing object 2
    let mut object1 = Object::new(1);
    object1.components.push(Component::new(2));

    let mut mesh1 = Mesh::new();
    mesh1.vertices.push(vertex(0.0, 0.0, 0.0));
    mesh1.vertices.push(vertex(1.0, 0.0, 0.0));
    mesh1.vertices.push(vertex(0.5, 1.0, 0.0));
    mesh1.triangles.push(Triangle::new(0, 1, 2));
    object1.mesh = Some(mesh1);

    // Create object 2 with component referencing object 1 (circular!)
    let mut object2 = Object::new(2);
    object2.components.push(Component::new(1));

    let mut mesh2 = Mesh::new();
    mesh2.vertices.push(vertex(0.0, 0.0, 0.0));
    mesh2.vertices.push(vertex(1.0, 0.0, 0.0));
    mesh2.vertices.push(vertex(0.5, 1.0, 0.0));
    mesh2.triangles.push(Triangle::new(0, 1, 2));
    object2.mesh = Some(mesh2);

    model.resources.objects.push(object1);
    model.resources.objects.push(object2);
    model.build.items.push(BuildItem::new(1));

    // Should fail validation
    let result = validate_component_references(&model);
    assert!(result.is_err());
    assert!(result
        .unwrap_err()
        .to_string()
        .contains("Circular component reference"));
}

#[test]
fn validator_test_validate_component_self_reference() {
    let mut model = Model::new();

    // Create object 1 with component referencing itself
    let mut object1 = Object::new(1);
    object1.components.push(Component::new(1));

    let mut mesh = Mesh::new();
    mesh.vertices.push(vertex(0.0, 0.0, 0.0));
    mesh.vertices.push(vertex(1.0, 0.0, 0.0));
    mesh.vertices.push(vertex(0.5, 1.0, 0.0));
    mesh.triangles.push(Triangle::new(0, 1, 2));
    object1.mesh = Some(mesh);

    model.resources.objects.push(object1);
    model.build.items.push(BuildItem::new(1));

    // Should fail validation (self-reference is a circular dependency)
    let result = validate_component_references(&model);
    assert!(result.is_err());
    assert!(result
        .unwrap_err()
        .to_string()
        .contains("Circular component reference"));
}

#[test]
fn validator_test_validate_component_valid() {
    let mut model = Model::new();

    // Create base object 2 (no components)
    let mut object2 = Object::new(2);
    let mut mesh2 = Mesh::new();
    mesh2.vertices.push(vertex(0.0, 0.0, 0.0));
    mesh2.vertices.push(vertex(1.0, 0.0, 0.0));
    mesh2.vertices.push(vertex(0.5, 1.0, 0.0));
    mesh2.triangles.push(Triangle::new(0, 1, 2));
    object2.mesh = Some(mesh2);

    // Create object 1 with component referencing object 2
    let mut object1 = Object::new(1);
    object1.components.push(Component::new(2));

    let mut mesh1 = Mesh::new();
    mesh1.vertices.push(vertex(0.0, 0.0, 0.0));
    mesh1.vertices.push(vertex(1.0, 0.0, 0.0));
    mesh1.vertices.push(vertex(0.5, 1.0, 0.0));
    mesh1.triangles.push(Triangle::new(0, 1, 2));
    object1.mesh = Some(mesh1);

    model.resources.objects.push(object1);
    model.resources.objects.push(object2);
    model.build.items.push(BuildItem::new(1));

    // Should pass validation
    let result = validate_component_references(&model);
    assert!(result.is_ok());
}

#[test]
fn validator_test_validate_multiproperties_reference() {
    let mut model = Model::new();

    // Add a multiproperties group with ID 12
    let mut multi_props = MultiProperties {
        id: 12,
        pids: vec![6, 9],
        blendmethods: vec![],
        multis: vec![],
        parse_order: 0,
    };
    multi_props.multis.push(Multi {
        pindices: vec![0, 0],
    });
    model.resources.multi_properties.push(multi_props);

    // Create an object that references the multiproperties group
    let mut object = Object::new(1);
    object.pid = Some(12); // Should reference the multiproperties group
    object.pindex = Some(0);

    let mut mesh = Mesh::new();
    mesh.vertices.push(vertex(0.0, 0.0, 0.0));
    mesh.vertices.push(vertex(1.0, 0.0, 0.0));
    mesh.vertices.push(vertex(0.5, 1.0, 0.0));
    mesh.triangles.push(Triangle::new(0, 1, 2));

    object.mesh = Some(mesh);
    model.resources.objects.push(object);
    model.build.items.push(BuildItem::new(1));

    // Should pass validation (multiproperties is a valid property group)
    let result = validate_material_references(&model);
    assert!(result.is_ok());
}

#[test]
fn validator_test_validate_texture2d_group_reference() {
    let mut model = Model::new();

    // Add a texture2d group with ID 9
    let mut tex_group = Texture2DGroup::new(9, 4);
    tex_group.tex2coords.push(Tex2Coord { u: bits(0.0), v: bits(0.0) });
    tex_group.tex2coords.push(Tex2Coord { u: bits(1.0), v: bits(1.0) });
    model.resources.texture2d_groups.push(tex_group);

    // Create an object that references the texture2d group
    let mut object = Object::new(1);
    object.pid = Some(9); // Should reference the texture2d group

    let mut mesh = Mesh::new();
    mesh.vertices.push(vertex(0.0, 0.0, 0.0));
    mesh.vertices.push(vertex(1.0, 0.0, 0.0));
    mesh.vertices.push(vertex(0.5, 1.0, 0.0));
    mesh.triangles.push(Triangle::new(0, 1, 2));

    object.mesh = Some(mesh);
    model.resources.objects.push(object);
    model.build.items.push(BuildItem::new(1));

    // Should pass validation (texture2d group is a valid property group)
    let result = validate_material_references(&model);
    assert!(result.is_ok());
}

#[test]
fn validator_test_sliced_object_allows_negative_volume_mesh() {
    let mut model = Model::new();

    // Add a slicestack
    let slice_stack = SliceStack::new(1, bits(0.0));
    model.resources.slice_stacks.push(slice_stack);

    // Create an object with negative volume (inverted mesh) but with slicestackid
    let mut object = Object::new(1);
    object.slicestackid = Some(1); // References the slicestack

    // Create a mesh with inverted triangles (negative volume)
    // This is a simple inverted tetrahedron
    let mut mesh = Mesh::new();
    mesh.vertices.push(vertex(0.0, 0.0, 0.0));
    mesh.vertices.push(vertex(10.0, 0.0, 0.0));
    mesh.vertices.push(vertex(5.0, 10.0, 0.0));
    mesh.vertices.push(vertex(5.0, 5.0, 10.0));

    // Deliberately inverted winding order to create negative volume
    mesh.triangles.push(Triangle::new(0, 2, 1)); // Inverted
    mesh.triangles.push(Triangle::new(0, 3, 2)); // Inverted
    mesh.triangles.push(Triangle::new(0, 1, 3)); // Inverted
    mesh.triangles.push(Triangle::new(1, 2, 3)); // Inverted

    object.mesh = Some(mesh);
    model.resources.objects.push(object);
    model.build.items.push(BuildItem::new(1));

    // Should pass validation because object has slicestackid
    let result = validate_mesh_volume(&model, &measures(&model));
    assert!(
        result.is_ok(),
        "Sliced object should allow negative volume mesh"
    );
}

#[test]
fn validator_test_non_sliced_object_rejects_negative_volume() {
    let mut model = Model::new();

    // Create an object WITHOUT slicestackid
    let mut object = Object::new(1);

    // Create a box mesh with ALL triangles in inverted winding order
    // Based on the standard box from test_files/core/box.3mf but with reversed winding
    let mut mesh = Mesh::new();
    mesh.vertices.push(vertex(0.0, 0.0, 0.0)); // 0
    mesh.vertices.push(vertex(10.0, 0.0, 0.0)); // 1
    mesh.vertices.push(vertex(10.0, 20.0, 0.0)); // 2
    mesh.vertices.push(vertex(0.0, 20.0, 0.0)); // 3
    mesh.vertices.push(vertex(0.0, 0.0, 30.0)); // 4
    mesh.vertices.push(vertex(10.0, 0.0, 30.0)); // 5
    mesh.vertices.push(vertex(10.0, 20.0, 30.0)); // 6
    mesh.vertices.push(vertex(0.0, 20.0, 30.0)); // 7

    // Correct winding from box.3mf:
    // <triangle v1="3" v2="2" v3="1" />
    // For negative volume, swap the first and third vertex indices: v1="1" v2="2" v3="3"
    // All triangles with INVERTED winding (first and third indices swapped)
    mesh.triangles.push(Triangle::new(1, 2, 3)); // Was (3, 2, 1)
    mesh.triangles.push(Triangle::new(3, 0, 1)); // Was (1, 0, 3)
    mesh.triangles.push(Triangle::new(6, 5, 4)); // Was (4, 5, 6)
    mesh.triangles.push(Triangle::new(4, 7, 6)); // Was (6, 7, 4)
    mesh.triangles.push(Triangle::new(5, 1, 0)); // Was (0, 1, 5)
    mesh.triangles.push(Triangle::new(0, 4, 5)); // Was (5, 4, 0)
    mesh.triangles.push(Triangle::new(6, 2, 1)); // Was (1, 2, 6)
    mesh.triangles.push(Triangle::new(1, 5, 6)); // Was (6, 5, 1)
    mesh.triangles.push(Triangle::new(7, 3, 2)); // Was (2, 3, 7)
    mesh.triangles.push(Triangle::new(2, 6, 7)); // Was (7, 6, 2)
    mesh.triangles.push(Triangle::new(4, 0, 3)); // Was (3, 0, 4)
    mesh.triangles.push(Triangle::new(3, 7, 4)); // Was (4, 7, 3)

    object.mesh = Some(mesh);
    model.resources.objects.push(object);
    model.build.items.push(BuildItem::new(1));

    // Should fail validation for non-sliced object
    let result = validate_mesh_volume(&model, &measures(&model));
    assert!(
        result.is_err(),
        "Non-sliced object should reject negative volume mesh"
    );
    assert!(result.unwrap_err().to_string().contains("negative volume"));
}

#[test]
fn validator_test_sliced_object_allows_mirror_transform() {
    let mut model = Model::new();

    // Add a slicestack
    let slice_stack = SliceStack::new(1, bits(0.0));
    model.resources.slice_stacks.push(slice_stack);

    // Create an object with slicestackid
    let mut object = Object::new(1);
    object.slicestackid = Some(1);

    let mut mesh = Mesh::new();
    mesh.vertices.push(vertex(0.0, 0.0, 0.0));
    mesh.vertices.push(vertex(10.0, 0.0, 0.0));
    mesh.vertices.push(vertex(5.0, 10.0, 0.0));
    mesh.triangles.push(Triangle::new(0, 1, 2));

    object.mesh = Some(mesh);
    model.resources.objects.push(object);

    // Add build item with mirror transformation (negative determinant)
    // Transform with -1 scale in X axis (mirror): [-1, 0, 0, 0, 1, 0, 0, 0, 1, 0, 0, 0]
    let mut item = BuildItem::new(1);
    item.transform = Some(transform([-1.0, 0.0, 0.0, 0.0, 1.0, 0.0, 0.0, 0.0, 1.0, 0.0, 0.0, 0.0]));
    model.build.items.push(item);

    // Should pass validation because object has slicestackid
    let result = validate_transform_matrices(&model, &measures(&model));
    assert!(
        result.is_ok(),
        "Sliced object should allow mirror transformation"
    );
}

#[test]
fn validator_test_non_sliced_object_rejects_mirror_transform() {
    let mut model = Model::new();

    // Create an object WITHOUT slicestackid
    let mut object = Object::new(1);

    let mut mesh = Mesh::new();
    mesh.vertices.push(vertex(0.0, 0.0, 0.0));
    mesh.vertices.push(vertex(10.0, 0.0, 0.0));
    mesh.vertices.push(vertex(5.0, 10.0, 0.0));
    mesh.triangles.push(Triangle::new(0, 1, 2));

    object.mesh = Some(mesh);
    model.resources.objects.push(object);

    // Add build item with mirror transformation (negative determinant)
    let mut item = BuildItem::new(1);
    item.transform = Some(transform([-1.0, 0.0, 0.0, 0.0, 1.0, 0.0, 0.0, 0.0, 1.0, 0.0, 0.0, 0.0]));
    model.build.items.push(item);

    // Should fail validation for non-sliced object
    let result = validate_transform_matrices(&model, &measures(&model));
    assert!(
        result.is_err(),
        "Non-sliced object should reject mirror transformation"
    );
    assert!(result
        .unwrap_err()
        .to_string()
        .contains("negative determinant"));
}

#[test]
fn validator_test_multiproperties_duplicate_colorgroup() {
    let mut model = Model::new();

    // Add a colorgroup
    let mut color_group = ColorGroup::new(10);
    color_group.parse_order = 1;
    color_group.colors.push((255, 0, 0, 255)); // Red
    model.resources.color_groups.push(color_group);

    // Add multiproperties that references the same colorgroup twice
    let mut multi = MultiProperties::new(20, vec![10, 10]); // Duplicate reference to colorgroup 10
    multi.parse_order = 2;
    multi.multis.push(Multi::new(vec![0, 0]));
    model.resources.multi_properties.push(multi);

    // Add object and build item for basic structure
    let mut object = Object::new(1);
    let mut mesh = Mesh::new();
    mesh.vertices.push(vertex(0.0, 0.0, 0.0));
    mesh.vertices.push(vertex(1.0, 0.0, 0.0));
    mesh.vertices.push(vertex(0.0, 1.0, 0.0));
    mesh.triangles.push(Triangle::new(0, 1, 2));
    object.mesh = Some(mesh);
    model.resources.objects.push(object);
    model.build.items.push(BuildItem::new(1));

    // Should fail validation (N_XXM_0604_01)
    let result = validate_multiproperties_references(&model);
    assert!(
        result.is_err(),
        "Should reject multiproperties with duplicate colorgroup references"
    );
    let error_msg = result.unwrap_err().to_string();
    assert!(error_msg.contains("colorgroup"));
    assert!(error_msg.contains("multiple times"));
}

#[test]
fn validator_test_multiproperties_basematerials_at_layer_2() {
    let mut model = Model::new();

    // Add a basematerials group
    let mut base_mat = BaseMaterialGroup::new(5);
    base_mat.parse_order = 1;
    base_mat
        .materials
        .push(BaseMaterial::new("Steel".to_string(), (128, 128, 128, 255)));
    model.resources.base_material_groups.push(base_mat);

    // Add colorgroups for layers 0 and 1
    let mut cg1 = ColorGroup::new(6);
    cg1.parse_order = 2;
    cg1.colors.push((255, 0, 0, 255));
    model.resources.color_groups.push(cg1);

    let mut cg2 = ColorGroup::new(7);
    cg2.parse_order = 3;
    cg2.colors.push((0, 255, 0, 255));
    model.resources.color_groups.push(cg2);

    // Add multiproperties with basematerials at layer 2 (index 2) - INVALID
    let mut multi = MultiProperties::new(20, vec![6, 7, 5]); // basematerials at index 2
    multi.parse_order = 4;
    multi.multis.push(Multi::new(vec![0, 0, 0]));
    model.resources.multi_properties.push(multi);

    // Add object and build item for basic structure
    let mut object = Object::new(1);
    let mut mesh = Mesh::new();
    mesh.vertices.push(vertex(0.0, 0.0, 0.0));
    mesh.vertices.push(vertex(1.0, 0.0, 0.0));
    mesh.vertices.push(vertex(0.0, 1.0, 0.0));
    mesh.triangles.push(Triangle::new(0, 1, 2));
    object.mesh = Some(mesh);
    model.resources.objects.push(object);
    model.build.items.push(BuildItem::new(1));

    // Should fail validation (N_XXM_0604_03)
    let result = validate_multiproperties_references(&model);
    assert!(result.is_err(), "Should reject basematerials at layer >= 2");
    let error_msg = result.unwrap_err().to_string();
    assert!(error_msg.contains("basematerials"));
    assert!(error_msg.contains("layer"));
}

#[test]
fn validator_test_multiproperties_basematerials_at_layer_1() {
    // Test case N_XXM_0604_03: basematerials at layer 1 (index 1) should be rejected
    // Per spec, basematerials MUST be at layer 0 if included

    let mut model = Model::new();

    // Add a colorgroup for layer 0
    let mut cg = ColorGroup::new(6);
    cg.parse_order = 1;
    cg.colors.push((255, 0, 0, 255));
    model.resources.color_groups.push(cg);

    // Add a basematerials group
    let mut base_mat = BaseMaterialGroup::new(1);
    base_mat.parse_order = 2;
    base_mat
        .materials
        .push(BaseMaterial::new("Steel".to_string(), (128, 128, 128, 255)));
    model.resources.base_material_groups.push(base_mat);

    // Add multiproperties with basematerials at layer 1 (index 1) - INVALID
    let mut multi = MultiProperties::new(12, vec![6, 1]); // colorgroup at 0, basematerials at 1
    multi.parse_order = 3;
    multi.multis.push(Multi::new(vec![0, 0]));
    model.resources.multi_properties.push(multi);

    // Add object and build item for basic structure
    let mut object = Object::new(1);
    let mut mesh = Mesh::new();
    mesh.vertices.push(vertex(0.0, 0.0, 0.0));
    mesh.vertices.push(vertex(1.0, 0.0, 0.0));
    mesh.vertices.push(vertex(0.0, 1.0, 0.0));
    mesh.triangles.push(Triangle::new(0, 1, 2));
    object.mesh = Some(mesh);
    model.resources.objects.push(object);
    model.build.items.push(BuildItem::new(1));

    // Should fail validation (N_XXM_0604_03)
    let result = validate_multiproperties_references(&model);
    assert!(
        result.is_err(),
        "Should reject basematerials at layer 1 (must be at layer 0)"
    );
    let error_msg = result.unwrap_err().to_string();
    assert!(error_msg.contains("basematerials"));
    assert!(error_msg.contains("layer 1"));
    assert!(error_msg.contains("first element"));
}

#[test]
fn validator_test_multiproperties_two_different_colorgroups() {
    // Test case N_XXM_0604_01: multiple different colorgroups should be rejected
    // Per spec, pids list MUST NOT contain more than one reference to a colorgroup

    let mut model = Model::new();

    // Add two different colorgroups
    let mut cg1 = ColorGroup::new(5);
    cg1.parse_order = 1;
    cg1.colors.push((255, 0, 0, 255));
    model.resources.color_groups.push(cg1);

    let mut cg2 = ColorGroup::new(6);
    cg2.parse_order = 2;
    cg2.colors.push((0, 255, 0, 255));
    model.resources.color_groups.push(cg2);

    // Add multiproperties that references both colorgroups
    let mut multi = MultiProperties::new(12, vec![5, 6]); // Two different colorgroups
    multi.parse_order = 3;
    multi.multis.push(Multi::new(vec![0, 0]));
    model.resources.multi_properties.push(multi);

    // Add object and build item for basic structure
    let mut object = Object::new(1);
    let mut mesh = Mesh::new();
    mesh.vertices.push(vertex(0.0, 0.0, 0.0));
    mesh.vertices.push(vertex(1.0, 0.0, 0.0));
    mesh.vertices.push(vertex(0.0, 1.0, 0.0));
    mesh.triangles.push(Triangle::new(0, 1, 2));
    object.mesh = Some(mesh);
    model.resources.objects.push(object);
    model.build.items.push(BuildItem::new(1));

    // Should fail validation (N_XXM_0604_01)
    let result = validate_multiproperties_references(&model);
    assert!(
        result.is_err(),
        "Should reject multiproperties with multiple different colorgroups"
    );
    let error_msg = result.unwrap_err().to_string();
    assert!(error_msg.contains("multiple colorgroups"));
    assert!(error_msg.contains("[5, 6]") || error_msg.contains("[6, 5]"));
}

#[test]
fn validator_test_triangle_material_without_object_default() {
        let mut model = Model::new();

        // Create object WITHOUT default material (no pid)
        let mut object = Object::new(1);
        let mut mesh = Mesh::new();
        mesh.vertices.push(vertex(0.0, 0.0, 0.0));
        mesh.vertices.push(vertex(1.0, 0.0, 0.0));
        mesh.vertices.push(vertex(0.0, 1.0, 0.0));

        // Triangle with material property but object has no default
        let mut triangle = Triangle::new(0, 1, 2);
        triangle.p1 = Some(0); // Triangle has material property
        mesh.triangles.push(triangle);

        object.mesh = Some(mesh);
        model.resources.objects.push(object);
        model.build.items.push(BuildItem::new(1));

        // Should fail validation (N_XXM_0601_01)
        let result = validate_triangle_properties(&model);
        assert!(
        result.is_err(),
        "Should reject triangle with per-vertex properties when neither triangle nor object has pid"
    );
        let error_msg = result.unwrap_err().to_string();
        assert!(error_msg.contains("per-vertex material properties"));
}

#[test]
fn validator_test_forward_reference_texture2dgroup_to_texture2d() {
    let mut model = Model::new();

    // Add texture2dgroup BEFORE texture2d (forward reference)
    let mut tex_group = Texture2DGroup::new(10, 20);
    tex_group.parse_order = 1; // Earlier in parse order
    model.resources.texture2d_groups.push(tex_group);

    // Add texture2d AFTER texture2dgroup
    let mut texture = Texture2D::new(
        20,
        "/3D/Texture/image.png".to_string(),
        "image/png".to_string(),
    );
    texture.parse_order = 2; // Later in parse order
    model.resources.texture2d_resources.push(texture);

    // Add object and build item for basic structure
    let mut object = Object::new(1);
    let mut mesh = Mesh::new();
    mesh.vertices.push(vertex(0.0, 0.0, 0.0));
    mesh.vertices.push(vertex(1.0, 0.0, 0.0));
    mesh.vertices.push(vertex(0.0, 1.0, 0.0));
    mesh.triangles.push(Triangle::new(0, 1, 2));
    object.mesh = Some(mesh);
    model.resources.objects.push(object);
    model.build.items.push(BuildItem::new(1));

    // Should fail validation (N_XXM_0606_01)
    let result = validate_resource_ordering(&model);
    assert!(
        result.is_err(),
        "Should reject forward reference from texture2dgroup to texture2d"
    );
    let error_msg = result.unwrap_err().to_string();
    assert!(error_msg.contains("Forward reference"));
    assert!(error_msg.contains("texture2d"));
}

#[test]
fn validator_test_forward_reference_multiproperties_to_colorgroup() {
    let mut model = Model::new();

    // Add multiproperties BEFORE colorgroup (forward reference)
    let mut multi = MultiProperties::new(10, vec![20]);
    multi.parse_order = 1; // Earlier in parse order
    multi.multis.push(Multi::new(vec![0]));
    model.resources.multi_properties.push(multi);

    // Add colorgroup AFTER multiproperties
    let mut color_group = ColorGroup::new(20);
    color_group.parse_order = 2; // Later in parse order
    color_group.colors.push((255, 0, 0, 255));
    model.resources.color_groups.push(color_group);

    // Add object and build item for basic structure
    let mut object = Object::new(1);
    let mut mesh = Mesh::new();
    mesh.vertices.push(vertex(0.0, 0.0, 0.0));
    mesh.vertices.push(vertex(1.0, 0.0, 0.0));
    mesh.vertices.push(vertex(0.0, 1.0, 0.0));
    mesh.triangles.push(Triangle::new(0, 1, 2));
    object.mesh = Some(mesh);
    model.resources.objects.push(object);
    model.build.items.push(BuildItem::new(1));

    // Should fail validation (N_XXM_0606_03)
    let result = validate_resource_ordering(&model);
    assert!(
        result.is_err(),
        "Should reject forward reference from multiproperties to colorgroup"
    );
    let error_msg = result.unwrap_err().to_string();
    assert!(error_msg.contains("Forward reference"));
    assert!(error_msg.contains("colorgroup"));
}

#[test]
fn validator_test_texture_path_with_backslash() {
    let mut model = Model::new();

    // Add texture with backslash in path (invalid per OPC spec)
    let mut texture = Texture2D::new(
        10,
        "/3D\\Texture\\image.png".to_string(),
        "image/png".to_string(),
    );
    texture.parse_order = 1;
    model.resources.texture2d_resources.push(texture);

    // Add object and build item for basic structure
    let mut object = Object::new(1);
    let mut mesh = Mesh::new();
    mesh.vertices.push(vertex(0.0, 0.0, 0.0));
    mesh.vertices.push(vertex(1.0, 0.0, 0.0));
    mesh.vertices.push(vertex(0.0, 1.0, 0.0));
    mesh.triangles.push(Triangle::new(0, 1, 2));
    object.mesh = Some(mesh);
    model.resources.objects.push(object);
    model.build.items.push(BuildItem::new(1));

    // Should fail validation (N_XXM_0610_01)
    let result = validate_texture_paths(&model);
    assert!(
        result.is_err(),
        "Should reject texture path with backslashes"
    );
    let error_msg = result.unwrap_err().to_string();
    assert!(error_msg.contains("backslash"));
}

#[test]
fn validator_test_texture_path_empty() {
    let mut model = Model::new();

    // Add texture with empty path
    let mut texture = Texture2D::new(10, "".to_string(), "image/png".to_string());
    texture.parse_order = 1;
    model.resources.texture2d_resources.push(texture);

    // Add object and build item for basic structure
    let mut object = Object::new(1);
    let mut mesh = Mesh::new();
    mesh.vertices.push(vertex(0.0, 0.0, 0.0));
    mesh.vertices.push(vertex(1.0, 0.0, 0.0));
    mesh.vertices.push(vertex(0.0, 1.0, 0.0));
    mesh.triangles.push(Triangle::new(0, 1, 2));
    object.mesh = Some(mesh);
    model.resources.objects.push(object);
    model.build.items.push(BuildItem::new(1));

    // Should fail validation (N_XXM_0610_01)
    let result = validate_texture_paths(&model);
    assert!(result.is_err(), "Should reject empty texture path");
    let error_msg = result.unwrap_err().to_string();
    assert!(error_msg.contains("empty"));
}

#[test]
fn mod_test_validate_duplicate_object_ids() {
    let mut model = Model::new();
    model.resources.objects.push(Object::new(1));
    model.resources.objects.push(Object::new(1)); // Duplicate!

    let result = validate_object_ids(&model);
    assert!(result.is_err());
    assert!(result
        .unwrap_err()
        .to_string()
        .contains("Duplicate object ID"));
}

#[test]
fn mod_test_validate_zero_object_id() {
    let mut model = Model::new();
    model.resources.objects.push(Object::new(0)); // Invalid!

    let result = validate_object_ids(&model);
    assert!(result.is_err());
    assert!(result.unwrap_err().to_string().contains("positive integer"));
}

#[test]
fn mod_test_validate_degenerate_triangle() {
    let mut model = Model::new();
    let mut object = Object::new(1);
    let mut mesh = Mesh::new();

    // Add vertices
    mesh.vertices.push(vertex(0.0, 0.0, 0.0));
    mesh.vertices.push(vertex(1.0, 0.0, 0.0));
    mesh.vertices.push(vertex(0.0, 1.0, 0.0));

    // Add degenerate triangle (v1 == v2)
    mesh.triangles.push(Triangle::new(0, 0, 2));

    object.mesh = Some(mesh);
    model.resources.objects.push(object);

    let result = validate_mesh_geometry(&model);
    assert!(result.is_err());
    assert!(result.unwrap_err().to_string().contains("degenerate"));
}

#[test]
fn mod_test_validate_vertex_out_of_bounds() {
    let mut model = Model::new();
    let mut object = Object::new(1);
    let mut mesh = Mesh::new();

    // Add only 2 vertices
    mesh.vertices.push(vertex(0.0, 0.0, 0.0));
    mesh.vertices.push(vertex(1.0, 0.0, 0.0));

    // Add triangle with out-of-bounds vertex (v3 = 5, but only have 2 vertices)
    mesh.triangles.push(Triangle::new(0, 1, 5));

    object.mesh = Some(mesh);
    model.resources.objects.push(object);

    let result = validate_mesh_geometry(&model);
    assert!(result.is_err());
    assert!(result.unwrap_err().to_string().contains("out of bounds"));
}

#[test]
fn mod_test_validate_build_item_invalid_reference() {
    let mut model = Model::new();
    model.resources.objects.push(Object::new(1));

    // Build item references non-existent object 99
    model.build.items.push(BuildItem::new(99));

    let result = validate_build_references(&model);
    assert!(result.is_err());
    assert!(result
        .unwrap_err()
        .to_string()
        .contains("non-existent object"));
}

#[test]
fn mod_test_validate_valid_model() {
    let mut model = Model::new();
    let mut object = Object::new(1);
    let mut mesh = Mesh::new();

    // Add valid vertices
    mesh.vertices.push(vertex(0.0, 0.0, 0.0));
    mesh.vertices.push(vertex(1.0, 0.0, 0.0));
    mesh.vertices.push(vertex(0.0, 1.0, 0.0));

    // Add valid triangle
    mesh.triangles.push(Triangle::new(0, 1, 2));

    object.mesh = Some(mesh);
    model.resources.objects.push(object);

    // Add valid build item
    model.build.items.push(BuildItem::new(1));

    let result = validate_model(&model, &measures(&model));
    assert!(result.is_ok());
}

#[test]
fn mod_test_validate_empty_mesh() {
    let mut model = Model::new();
    let mut object = Object::new(1);
    let mut mesh = Mesh::new();

    // Add triangles but no vertices - this should fail
    mesh.triangles.push(Triangle::new(0, 1, 2));

    object.mesh = Some(mesh);
    model.resources.objects.push(object);

    let result = validate_mesh_geometry(&model);
    assert!(result.is_err());
    let err_msg = result.unwrap_err().to_string();
    assert!(
        err_msg.contains("triangle"),
        "Error message should mention triangles"
    );
    assert!(
        err_msg.contains("no vertices"),
        "Error message should mention missing vertices"
    );
}

#[test]
fn mod_test_validate_base_material_reference() {
    let mut model = Model::new();

    // Add a base material group with id=5
    let mut base_group = BaseMaterialGroup::new(5);
    base_group
        .materials
        .push(BaseMaterial::new("Red".to_string(), (255, 0, 0, 255)));
    base_group
        .materials
        .push(BaseMaterial::new("Blue".to_string(), (0, 0, 255, 255)));
    model.resources.base_material_groups.push(base_group);

    // Create an object that references the base material group
    let mut object = Object::new(1);
    object.pid = Some(5);
    object.pindex = Some(0);

    let mut mesh = Mesh::new();
    mesh.vertices.push(vertex(0.0, 0.0, 0.0));
    mesh.vertices.push(vertex(1.0, 0.0, 0.0));
    mesh.vertices.push(vertex(0.5, 1.0, 0.0));
    mesh.triangles.push(Triangle::new(0, 1, 2));

    object.mesh = Some(mesh);
    model.resources.objects.push(object);
    model.build.items.push(BuildItem::new(1));

    // Should pass validation
    let result = validate_model(&model, &measures(&model));
    assert!(result.is_ok());
}

#[test]
fn mod_test_validate_invalid_base_material_reference() {
    let mut model = Model::new();

    // Add a base material group with id=5
    let mut base_group = BaseMaterialGroup::new(5);
    base_group
        .materials
        .push(BaseMaterial::new("Red".to_string(), (255, 0, 0, 255)));
    model.resources.base_material_groups.push(base_group);

    // Create an object that references a non-existent material group id=99
    let mut object = Object::new(1);
    object.pid = Some(99); // Invalid reference!

    let mut mesh = Mesh::new();
    mesh.vertices.push(vertex(0.0, 0.0, 0.0));
    mesh.vertices.push(vertex(1.0, 0.0, 0.0));
    mesh.vertices.push(vertex(0.5, 1.0, 0.0));
    mesh.triangles.push(Triangle::new(0, 1, 2));

    object.mesh = Some(mesh);
    model.resources.objects.push(object);
    model.build.items.push(BuildItem::new(1));

    // Should fail validation
    let result = validate_material_references(&model);
    assert!(result.is_err());
    assert!(result.unwrap_err().to_string().contains("non-existent"));
}

#[test]
fn mod_test_validate_base_material_pindex_out_of_bounds() {
    let mut model = Model::new();

    // Add a base material group with only 1 material
    let mut base_group = BaseMaterialGroup::new(5);
    base_group
        .materials
        .push(BaseMaterial::new("Red".to_string(), (255, 0, 0, 255)));
    model.resources.base_material_groups.push(base_group);

    // Create an object with pindex=5 (out of bounds)
    let mut object = Object::new(1);
    object.pid = Some(5);
    object.pindex = Some(5); // Out of bounds! Only index 0 is valid

    let mut mesh = Mesh::new();
    mesh.vertices.push(vertex(0.0, 0.0, 0.0));
    mesh.vertices.push(vertex(1.0, 0.0, 0.0));
    mesh.vertices.push(vertex(0.5, 1.0, 0.0));
    mesh.triangles.push(Triangle::new(0, 1, 2));

    object.mesh = Some(mesh);
    model.resources.objects.push(object);
    model.build.items.push(BuildItem::new(1));

    // Should fail validation
    let result = validate_material_references(&model);
    assert!(result.is_err());
    assert!(result.unwrap_err().to_string().contains("out of bounds"));
}

#[test]
fn mod_test_validate_basematerialid_valid() {
    let mut model = Model::new();

    // Add a base material group with ID 5
    let mut base_group = BaseMaterialGroup::new(5);
    base_group.materials.push(BaseMaterial::new(
        "Red Plastic".to_string(),
        (255, 0, 0, 255),
    ));
    model.resources.base_material_groups.push(base_group);

    // Create an object that references the base material group via basematerialid
    let mut object = Object::new(1);
    object.basematerialid = Some(5); // Valid reference

    let mut mesh = Mesh::new();
    mesh.vertices.push(vertex(0.0, 0.0, 0.0));
    mesh.vertices.push(vertex(1.0, 0.0, 0.0));
    mesh.vertices.push(vertex(0.5, 1.0, 0.0));
    mesh.triangles.push(Triangle::new(0, 1, 2));

    object.mesh = Some(mesh);
    model.resources.objects.push(object);
    model.build.items.push(BuildItem::new(1));

    // Should pass validation
    let result = validate_material_references(&model);
    assert!(result.is_ok());
}

#[test]
fn mod_test_validate_basematerialid_invalid() {
    let mut model = Model::new();

    // Add a base material group with ID 5
    let mut base_group = BaseMaterialGroup::new(5);
    base_group.materials.push(BaseMaterial::new(
        "Red Plastic".to_string(),
        (255, 0, 0, 255),
    ));
    model.resources.base_material_groups.push(base_group);

    // Create an object that references a non-existent base material group
    let mut object = Object::new(1);
    object.basematerialid = Some(99); // Invalid reference!

    let mut mesh = Mesh::new();
    mesh.vertices.push(vertex(0.0, 0.0, 0.0));
    mesh.vertices.push(vertex(1.0, 0.0, 0.0));
    mesh.vertices.push(vertex(0.5, 1.0, 0.0));
    mesh.triangles.push(Triangle::new(0, 1, 2));

    object.mesh = Some(mesh);
    model.resources.objects.push(object);
    model.build.items.push(BuildItem::new(1));

    // Should fail validation
    let result = validate_material_references(&model);
    assert!(result.is_err());
    assert!(result
        .unwrap_err()
        .to_string()
        .contains("non-existent base material group"));
}

#[test]
fn mod_test_validate_component_reference_invalid() {
    let mut model = Model::new();

    // Create object 1 with a component referencing non-existent object 99
    let mut object1 = Object::new(1);
    object1.components.push(Component::new(99));

    let mut mesh = Mesh::new();
    mesh.vertices.push(vertex(0.0, 0.0, 0.0));
    mesh.vertices.push(vertex(1.0, 0.0, 0.0));
    mesh.vertices.push(vertex(0.5, 1.0, 0.0));
    mesh.triangles.push(Triangle::new(0, 1, 2));
    object1.mesh = Some(mesh);

    model.resources.objects.push(object1);
    model.build.items.push(BuildItem::new(1));

    // Should fail validation
    let result = validate_component_references(&model);
    assert!(result.is_err());
    assert!(result
        .unwrap_err()
        .to_string()
        .contains("non-existent object"));
}

#[test]
fn mod_test_validate_component_circular_dependency() {
    let mut model = Model::new();

    // Create object 1 with component referencing object 2
    let mut object1 = Object::new(1);
    object1.components.push(Component::new(2));

    let mut mesh1 = Mesh::new();
    mesh1.vertices.push(vertex(0.0, 0.0, 0.0));
    mesh1.vertices.push(vertex(1.0, 0.0, 0.0));
    mesh1.vertices.push(vertex(0.5, 1.0, 0.0));
    mesh1.triangles.push(Triangle::new(0, 1, 2));
    object1.mesh = Some(mesh1);

    // Create object 2 with component referencing object 1 (circular!)
    let mut object2 = Object::new(2);
    object2.components.push(Component::new(1));

    let mut mesh2 = Mesh::new();
    mesh2.vertices.push(vertex(0.0, 0.0, 0.0));
    mesh2.vertices.push(vertex(1.0, 0.0, 0.0));
    mesh2.vertices.push(vertex(0.5, 1.0, 0.0));
    mesh2.triangles.push(Triangle::new(0, 1, 2));
    object2.mesh = Some(mesh2);

    model.resources.objects.push(object1);
    model.resources.objects.push(object2);
    model.build.items.push(BuildItem::new(1));

    // Should fail validation
    let result = validate_component_references(&model);
    assert!(result.is_err());
    assert!(result
        .unwrap_err()
        .to_string()
        .contains("Circular component reference"));
}

#[test]
fn mod_test_validate_component_self_reference() {
    let mut model = Model::new();

    // Create object 1 with component referencing itself
    let mut object1 = Object::new(1);
    object1.components.push(Component::new(1));

    let mut mesh = Mesh::new();
    mesh.vertices.push(vertex(0.0, 0.0, 0.0));
    mesh.vertices.push(vertex(1.0, 0.0, 0.0));
    mesh.vertices.push(vertex(0.5, 1.0, 0.0));
    mesh.triangles.push(Triangle::new(0, 1, 2));
    object1.mesh = Some(mesh);

    model.resources.objects.push(object1);
    model.build.items.push(BuildItem::new(1));

    // Should fail validation (self-reference is a circular dependency)
    let result = validate_component_references(&model);
    assert!(result.is_err());
    assert!(result
        .unwrap_err()
        .to_string()
        .contains("Circular component reference"));
}

#[test]
fn mod_test_validate_component_valid() {
    let mut model = Model::new();

    // Create base object 2 (no components)
    let mut object2 = Object::new(2);
    let mut mesh2 = Mesh::new();
    mesh2.vertices.push(vertex(0.0, 0.0, 0.0));
    mesh2.vertices.push(vertex(1.0, 0.0, 0.0));
    mesh2.vertices.push(vertex(0.5, 1.0, 0.0));
    mesh2.triangles.push(Triangle::new(0, 1, 2));
    object2.mesh = Some(mesh2);

    // Create object 1 with component referencing object 2
    let mut object1 = Object::new(1);
    object1.components.push(Component::new(2));

    let mut mesh1 = Mesh::new();
    mesh1.vertices.push(vertex(0.0, 0.0, 0.0));
    mesh1.vertices.push(vertex(1.0, 0.0, 0.0));
    mesh1.vertices.push(vertex(0.5, 1.0, 0.0));
    mesh1.triangles.push(Triangle::new(0, 1, 2));
    object1.mesh = Some(mesh1);

    model.resources.objects.push(object1);
    model.resources.objects.push(object2);
    model.build.items.push(BuildItem::new(1));

    // Should pass validation
    let result = validate_component_references(&model);
    assert!(result.is_ok());
}

#[test]
fn mod_test_validate_multiproperties_reference() {
    let mut model = Model::new();

    // Add a multiproperties group with ID 12
    let mut multi_props = MultiProperties {
        id: 12,
        pids: vec![6, 9],
        blendmethods: vec![],
        multis: vec![],
        parse_order: 0,
    };
    multi_props.multis.push(Multi {
        pindices: vec![0, 0],
    });
    model.resources.multi_properties.push(multi_props);

    // Create an object that references the multiproperties group
    let mut object = Object::new(1);
    object.pid = Some(12); // Should reference the multiproperties group
    object.pindex = Some(0);

    let mut mesh = Mesh::new();
    mesh.vertices.push(vertex(0.0, 0.0, 0.0));
    mesh.vertices.push(vertex(1.0, 0.0, 0.0));
    mesh.vertices.push(vertex(0.5, 1.0, 0.0));
    mesh.triangles.push(Triangle::new(0, 1, 2));

    object.mesh = Some(mesh);
    model.resources.objects.push(object);
    model.build.items.push(BuildItem::new(1));

    // Should pass validation (multiproperties is a valid property group)
    let result = validate_material_references(&model);
    assert!(result.is_ok());
}

#[test]
fn mod_test_validate_texture2d_group_reference() {
    let mut model = Model::new();

    // Add a texture2d group with ID 9
    let mut tex_group = Texture2DGroup::new(9, 4);
    tex_group.tex2coords.push(Tex2Coord { u: bits(0.0), v: bits(0.0) });
    tex_group.tex2coords.push(Tex2Coord { u: bits(1.0), v: bits(1.0) });
    model.resources.texture2d_groups.push(tex_group);

    // Create an object that references the texture2d group
    let mut object = Object::new(1);
    object.pid = Some(9); // Should reference the texture2d group

    let mut mesh = Mesh::new();
    mesh.vertices.push(vertex(0.0, 0.0, 0.0));
    mesh.vertices.push(vertex(1.0, 0.0, 0.0));
    mesh.vertices.push(vertex(0.5, 1.0, 0.0));
    mesh.triangles.push(Triangle::new(0, 1, 2));

    object.mesh = Some(mesh);
    model.resources.objects.push(object);
    model.build.items.push(BuildItem::new(1));

    // Should pass validation (texture2d group is a valid property group)
    let result = validate_material_references(&model);
    assert!(result.is_ok());
}

#[test]
fn mod_test_sliced_object_allows_negative_volume_mesh() {
    let mut model = Model::new();

    // Add a slicestack
    let slice_stack = SliceStack::new(1, bits(0.0));
    model.resources.slice_stacks.push(slice_stack);

    // Create an object with negative volume (inverted mesh) but with slicestackid
    let mut object = Object::new(1);
    object.slicestackid = Some(1); // References the slicestack

    // Create a mesh with inverted triangles (negative volume)
    // This is a simple inverted tetrahedron
    let mut mesh = Mesh::new();
    mesh.vertices.push(vertex(0.0, 0.0, 0.0));
    mesh.vertices.push(vertex(10.0, 0.0, 0.0));
    mesh.vertices.push(vertex(5.0, 10.0, 0.0));
    mesh.vertices.push(vertex(5.0, 5.0, 10.0));

    // Deliberately inverted winding order to create negative volume
    mesh.triangles.push(Triangle::new(0, 2, 1)); // Inverted
    mesh.triangles.push(Triangle::new(0, 3, 2)); // Inverted
    mesh.triangles.push(Triangle::new(0, 1, 3)); // Inverted
    mesh.triangles.push(Triangle::new(1, 2, 3)); // Inverted

    object.mesh = Some(mesh);
    model.resources.objects.push(object);
    model.build.items.push(BuildItem::new(1));

    // Should pass validation because object has slicestackid
    let result = validate_mesh_volume(&model, &measures(&model));
    assert!(
        result.is_ok(),
        "Sliced object should allow negative volume mesh"
    );
}

#[test]
fn mod_test_non_sliced_object_rejects_negative_volume() {
    let mut model = Model::new();

    // Create an object WITHOUT slicestackid
    let mut object = Object::new(1);

    // Create a box mesh with ALL triangles in inverted winding order
    // Based on the standard box from test_files/core/box.3mf but with reversed winding
    let mut mesh = Mesh::new();
    mesh.vertices.push(vertex(0.0, 0.0, 0.0)); // 0
    mesh.vertices.push(vertex(10.0, 0.0, 0.0)); // 1
    mesh.vertices.push(vertex(10.0, 20.0, 0.0)); // 2
    mesh.vertices.push(vertex(0.0, 20.0, 0.0)); // 3
    mesh.vertices.push(vertex(0.0, 0.0, 30.0)); // 4
    mesh.vertices.push(vertex(10.0, 0.0, 30.0)); // 5
    mesh.vertices.push(vertex(10.0, 20.0, 30.0)); // 6
    mesh.vertices.push(vertex(0.0, 20.0, 30.0)); // 7

    // Correct winding from box.3mf:
    // <triangle v1="3" v2="2" v3="1" />
    // For negative volume, swap the first and third vertex indices: v1="1" v2="2" v3="3"
    // All triangles with INVERTED winding (first and third indices swapped)
    mesh.triangles.push(Triangle::new(1, 2, 3)); // Was (3, 2, 1)
    mesh.triangles.push(Triangle::new(3, 0, 1)); // Was (1, 0, 3)
    mesh.triangles.push(Triangle::new(6, 5, 4)); // Was (4, 5, 6)
    mesh.triangles.push(Triangle::new(4, 7, 6)); // Was (6, 7, 4)
    mesh.triangles.push(Triangle::new(5, 1, 0)); // Was (0, 1, 5)
    mesh.triangles.push(Triangle::new(0, 4, 5)); // Was (5, 4, 0)
    mesh.triangles.push(Triangle::new(6, 2, 1)); // Was (1, 2, 6)
    mesh.triangles.push(Triangle::new(1, 5, 6)); // Was (6, 5, 1)
    mesh.triangles.push(Triangle::new(7, 3, 2)); // Was (2, 3, 7)
    mesh.triangles.push(Triangle::new(2, 6, 7)); // Was (7, 6, 2)
    mesh.triangles.push(Triangle::new(4, 0, 3)); // Was (3, 0, 4)
    mesh.triangles.push(Triangle::new(3, 7, 4)); // Was (4, 7, 3)

    object.mesh = Some(mesh);
    model.resources.objects.push(object);
    model.build.items.push(BuildItem::new(1));

    // Should fail validation for non-sliced object
    let result = validate_mesh_volume(&model, &measures(&model));
    assert!(
        result.is_err(),
        "Non-sliced object should reject negative volume mesh"
    );
    assert!(result.unwrap_err().to_string().contains("negative volume"));
}

#[test]
fn mod_test_sliced_object_allows_mirror_transform() {
    let mut model = Model::new();

    // Add a slicestack
    let slice_stack = SliceStack::new(1, bits(0.0));
    model.resources.slice_stacks.push(slice_stack);

    // Create an object with slicestackid
    let mut object = Object::new(1);
    object.slicestackid = Some(1);

    let mut mesh = Mesh::new();
    mesh.vertices.push(vertex(0.0, 0.0, 0.0));
    mesh.vertices.push(vertex(10.0, 0.0, 0.0));
    mesh.vertices.push(vertex(5.0, 10.0, 0.0));
    mesh.triangles.push(Triangle::new(0, 1, 2));

    object.mesh = Some(mesh);
    model.resources.objects.push(object);

    // Add build item with mirror transformation (negative determinant)
    // Transform with -1 scale in X axis (mirror): [-1, 0, 0, 0, 1, 0, 0, 0, 1, 0, 0, 0]
    let mut item = BuildItem::new(1);
    item.transform = Some(transform([-1.0, 0.0, 0.0, 0.0, 1.0, 0.0, 0.0, 0.0, 1.0, 0.0, 0.0, 0.0]));
    model.build.items.push(item);

    // Should pass validation because object has slicestackid
    let result = validate_transform_matrices(&model, &measures(&model));
    assert!(
        result.is_ok(),
        "Sliced object should allow mirror transformation"
    );
}

#[test]
fn mod_test_non_sliced_object_rejects_mirror_transform() {
    let mut model = Model::new();

    // Create an object WITHOUT slicestackid
    let mut object = Object::new(1);

    let mut mesh = Mesh::new();
    mesh.vertices.push(vertex(0.0, 0.0, 0.0));
    mesh.vertices.push(vertex(10.0, 0.0, 0.0));
    mesh.vertices.push(vertex(5.0, 10.0, 0.0));
    mesh.triangles.push(Triangle::new(0, 1, 2));

    object.mesh = Some(mesh);
    model.resources.objects.push(object);

    // Add build item with mirror transformation (negative determinant)
    let mut item = BuildItem::new(1);
    item.transform = Some(transform([-1.0, 0.0, 0.0, 0.0, 1.0, 0.0, 0.0, 0.0, 1.0, 0.0, 0.0, 0.0]));
    model.build.items.push(item);

    // Should fail validation for non-sliced object
    let result = validate_transform_matrices(&model, &measures(&model));
    assert!(
        result.is_err(),
        "Non-sliced object should reject mirror transformation"
    );
    assert!(result
        .unwrap_err()
        .to_string()
        .contains("negative determinant"));
}

#[test]
fn mod_test_multiproperties_duplicate_colorgroup() {
    let mut model = Model::new();

    // Add a colorgroup
    let mut color_group = ColorGroup::new(10);
    color_group.parse_order = 1;
    color_group.colors.push((255, 0, 0, 255)); // Red
    model.resources.color_groups.push(color_group);

    // Add multiproperties that references the same colorgroup twice
    let mut multi = MultiProperties::new(20, vec![10, 10]); // Duplicate reference to colorgroup 10
    multi.parse_order = 2;
    multi.multis.push(Multi::new(vec![0, 0]));
    model.resources.multi_properties.push(multi);

    // Add object and build item for basic structure
    let mut object = Object::new(1);
    let mut mesh = Mesh::new();
    mesh.vertices.push(vertex(0.0, 0.0, 0.0));
    mesh.vertices.push(vertex(1.0, 0.0, 0.0));
    mesh.vertices.push(vertex(0.0, 1.0, 0.0));
    mesh.triangles.push(Triangle::new(0, 1, 2));
    object.mesh = Some(mesh);
    model.resources.objects.push(object);
    model.build.items.push(BuildItem::new(1));

    // Should fail validation (N_XXM_0604_01)
    let result = validate_multiproperties_references(&model);
    assert!(
        result.is_err(),
        "Should reject multiproperties with duplicate colorgroup references"
    );
    let error_msg = result.unwrap_err().to_string();
    assert!(error_msg.contains("colorgroup"));
    assert!(error_msg.contains("multiple times"));
}

#[test]
fn mod_test_multiproperties_basematerials_at_layer_2() {
    let mut model = Model::new();

    // Add a basematerials group
    let mut base_mat = BaseMaterialGroup::new(5);
    base_mat.parse_order = 1;
    base_mat
        .materials
        .push(BaseMaterial::new("Steel".to_string(), (128, 128, 128, 255)));
    model.resources.base_material_groups.push(base_mat);

    // Add colorgroups for layers 0 and 1
    let mut cg1 = ColorGroup::new(6);
    cg1.parse_order = 2;
    cg1.colors.push((255, 0, 0, 255));
    model.resources.color_groups.push(cg1);

    let mut cg2 = ColorGroup::new(7);
    cg2.parse_order = 3;
    cg2.colors.push((0, 255, 0, 255));
    model.resources.color_groups.push(cg2);

    // Add multiproperties with basematerials at layer 2 (index 2) - INVALID
    let mut multi = MultiProperties::new(20, vec![6, 7, 5]); // basematerials at index 2
    multi.parse_order = 4;
    multi.multis.push(Multi::new(vec![0, 0, 0]));
    model.resources.multi_properties.push(multi);

    // Add object and build item for basic structure
    let mut object = Object::new(1);
    let mut mesh = Mesh::new();
    mesh.vertices.push(vertex(0.0, 0.0, 0.0));
    mesh.vertices.push(vertex(1.0, 0.0, 0.0));
    mesh.vertices.push(vertex(0.0, 1.0, 0.0));
    mesh.triangles.push(Triangle::new(0, 1, 2));
    object.mesh = Some(mesh);
    model.resources.objects.push(object);
    model.build.items.push(BuildItem::new(1));

    // Should fail validation (N_XXM_0604_03)
    let result = validate_multiproperties_references(&model);
    assert!(result.is_err(), "Should reject basematerials at layer >= 2");
    let error_msg = result.unwrap_err().to_string();
    assert!(error_msg.contains("basematerials"));
    assert!(error_msg.contains("layer"));
}

#[test]
fn mod_test_multiproperties_basematerials_at_layer_1() {
    // Test case N_XXM_0604_03: basematerials at layer 1 (index 1) should be rejected
    // Per spec, basematerials MUST be at layer 0 if included

    let mut model = Model::new();

    // Add a colorgroup for layer 0
    let mut cg = ColorGroup::new(6);
    cg.parse_order = 1;
    cg.colors.push((255, 0, 0, 255));
    model.resources.color_groups.push(cg);

    // Add a basematerials group
    let mut base_mat = BaseMaterialGroup::new(1);
    base_mat.parse_order = 2;
    base_mat
        .materials
        .push(BaseMaterial::new("Steel".to_string(), (128, 128, 128, 255)));
    model.resources.base_material_groups.push(base_mat);

    // Add multiproperties with basematerials at layer 1 (index 1) - INVALID
    let mut multi = MultiProperties::new(12, vec![6, 1]); // colorgroup at 0, basematerials at 1
    multi.parse_order = 3;
    multi.multis.push(Multi::new(vec![0, 0]));
    model.resources.multi_properties.push(multi);

    // Add object and build item for basic structure
    let mut object = Object::new(1);
    let mut mesh = Mesh::new();
    mesh.vertices.push(vertex(0.0, 0.0, 0.0));
    mesh.vertices.push(vertex(1.0, 0.0, 0.0));
    mesh.vertices.push(vertex(0.0, 1.0, 0.0));
    mesh.triangles.push(Triangle::new(0, 1, 2));
    object.mesh = Some(mesh);
    model.resources.objects.push(object);
    model.build.items.push(BuildItem::new(1));

    // Should fail validation (N_XXM_0604_03)
    let result = validate_multiproperties_references(&model);
    assert!(
        result.is_err(),
        "Should reject basematerials at layer 1 (must be at layer 0)"
    );
    let error_msg = result.unwrap_err().to_string();
    assert!(error_msg.contains("basematerials"));
    assert!(error_msg.contains("layer 1"));
    assert!(error_msg.contains("first element"));
}

#[test]
fn mod_test_multiproperties_two_different_colorgroups() {
    // Test case N_XXM_0604_01: multiple different colorgroups should be rejected
    // Per spec, pids list MUST NOT contain more than one reference to a colorgroup

    let mut model = Model::new();

    // Add two different colorgroups
    let mut cg1 = ColorGroup::new(5);
    cg1.parse_order = 1;
    cg1.colors.push((255, 0, 0, 255));
    model.resources.color_groups.push(cg1);

    let mut cg2 = ColorGroup::new(6);
    cg2.parse_order = 2;
    cg2.colors.push((0, 255, 0, 255));
    model.resources.color_groups.push(cg2);

    // Add multiproperties that references both colorgroups
    let mut multi = MultiProperties::new(12, vec![5, 6]); // Two different colorgroups
    multi.parse_order = 3;
    multi.multis.push(Multi::new(vec![0, 0]));
    model.resources.multi_properties.push(multi);

    // Add object and build item for basic structure
    let mut object = Object::new(1);
    let mut mesh = Mesh::new();
    mesh.vertices.push(vertex(0.0, 0.0, 0.0));
    mesh.vertices.push(vertex(1.0, 0.0, 0.0));
    mesh.vertices.push(vertex(0.0, 1.0, 0.0));
    mesh.triangles.push(Triangle::new(0, 1, 2));
    object.mesh = Some(mesh);
    model.resources.objects.push(object);
    model.build.items.push(BuildItem::new(1));

    // Should fail validation (N_XXM_0604_01)
    let result = validate_multiproperties_references(&model);
    assert!(
        result.is_err(),
        "Should reject multiproperties with multiple different colorgroups"
    );
    let error_msg = result.unwrap_err().to_string();
    assert!(error_msg.contains("multiple colorgroups"));
    assert!(error_msg.contains("[5, 6]") || error_msg.contains("[6, 5]"));
}

#[test]
fn mod_test_triangle_material_without_object_default() {
        let mut model = Model::new();

        // Create object WITHOUT default material (no pid)
        let mut object = Object::new(1);
        let mut mesh = Mesh::new();
        mesh.vertices.push(vertex(0.0, 0.0, 0.0));
        mesh.vertices.push(vertex(1.0, 0.0, 0.0));
        mesh.vertices.push(vertex(0.0, 1.0, 0.0));

        // Triangle with material property but object has no default
        let mut triangle = Triangle::new(0, 1, 2);
        triangle.p1 = Some(0); // Triangle has material property
        mesh.triangles.push(triangle);

        object.mesh = Some(mesh);
        model.resources.objects.push(object);
        model.build.items.push(BuildItem::new(1));

        // Should fail validation (N_XXM_0601_01)
        let result = validate_triangle_properties(&model);
        assert!(
        result.is_err(),
        "Should reject triangle with per-vertex properties when neither triangle nor object has pid"
    );
        let error_msg = result.unwrap_err().to_string();
        assert!(error_msg.contains("per-vertex material properties"));
}

#[test]
fn mod_test_forward_reference_texture2dgroup_to_texture2d() {
    let mut model = Model::new();

    // Add texture2dgroup BEFORE texture2d (forward reference)
    let mut tex_group = Texture2DGroup::new(10, 20);
    tex_group.parse_order = 1; // Earlier in parse order
    model.resources.texture2d_groups.push(tex_group);

    // Add texture2d AFTER texture2dgroup
    let mut texture = Texture2D::new(
        20,
        "/3D/Texture/image.png".to_string(),
        "image/png".to_string(),
    );
    texture.parse_order = 2; // Later in parse order
    model.resources.texture2d_resources.push(texture);

    // Add object and build item for basic structure
    let mut object = Object::new(1);
    let mut mesh = Mesh::new();
    mesh.vertices.push(vertex(0.0, 0.0, 0.0));
    mesh.vertices.push(vertex(1.0, 0.0, 0.0));
    mesh.vertices.push(vertex(0.0, 1.0, 0.0));
    mesh.triangles.push(Triangle::new(0, 1, 2));
    object.mesh = Some(mesh);
    model.resources.objects.push(object);
    model.build.items.push(BuildItem::new(1));

    // Should fail validation (N_XXM_0606_01)
    let result = validate_resource_ordering(&model);
    assert!(
        result.is_err(),
        "Should reject forward reference from texture2dgroup to texture2d"
    );
    let error_msg = result.unwrap_err().to_string();
    assert!(error_msg.contains("Forward reference"));
    assert!(error_msg.contains("texture2d"));
}

#[test]
fn mod_test_forward_reference_multiproperties_to_colorgroup() {
    let mut model = Model::new();

    // Add multiproperties BEFORE colorgroup (forward reference)
    let mut multi = MultiProperties::new(10, vec![20]);
    multi.parse_order = 1; // Earlier in parse order
    multi.multis.push(Multi::new(vec![0]));
    model.resources.multi_properties.push(multi);

    // Add colorgroup AFTER multiproperties
    let mut color_group = ColorGroup::new(20);
    color_group.parse_order = 2; // Later in parse order
    color_group.colors.push((255, 0, 0, 255));
    model.resources.color_groups.push(color_group);

    // Add object and build item for basic structure
    let mut object = Object::new(1);
    let mut mesh = Mesh::new();
    mesh.vertices.push(vertex(0.0, 0.0, 0.0));
    mesh.vertices.push(vertex(1.0, 0.0, 0.0));
    mesh.vertices.push(vertex(0.0, 1.0, 0.0));
    mesh.triangles.push(Triangle::new(0, 1, 2));
    object.mesh = Some(mesh);
    model.resources.objects.push(object);
    model.build.items.push(BuildItem::new(1));

    // Should fail validation (N_XXM_0606_03)
    let result = validate_resource_ordering(&model);
    assert!(
        result.is_err(),
        "Should reject forward reference from multiproperties to colorgroup"
    );
    let error_msg = result.unwrap_err().to_string();
    assert!(error_msg.contains("Forward reference"));
    assert!(error_msg.contains("colorgroup"));
}

#[test]
fn mod_test_texture_path_with_backslash() {
    let mut model = Model::new();

    // Add texture with backslash in path (invalid per OPC spec)
    let mut texture = Texture2D::new(
        10,
        "/3D\\Texture\\image.png".to_string(),
        "image/png".to_string(),
    );
    texture.parse_order = 1;
    model.resources.texture2d_resources.push(texture);

    // Add object and build item for basic structure
    let mut object = Object::new(1);
    let mut mesh = Mesh::new();
    mesh.vertices.push(vertex(0.0, 0.0, 0.0));
    mesh.vertices.push(vertex(1.0, 0.0, 0.0));
    mesh.vertices.push(vertex(0.0, 1.0, 0.0));
    mesh.triangles.push(Triangle::new(0, 1, 2));
    object.mesh = Some(mesh);
    model.resources.objects.push(object);
    model.build.items.push(BuildItem::new(1));

    // Should fail validation (N_XXM_0610_01)
    let result = validate_texture_paths(&model);
    assert!(
        result.is_err(),
        "Should reject texture path with backslashes"
    );
    let error_msg = result.unwrap_err().to_string();
    assert!(error_msg.contains("backslash"));
}

#[test]
fn mod_test_texture_path_empty() {
    let mut model = Model::new();

    // Add texture with empty path
    let mut texture = Texture2D::new(10, "".to_string(), "image/png".to_string());
    texture.parse_order = 1;
    model.resources.texture2d_resources.push(texture);

    // Add object and build item for basic structure
    let mut object = Object::new(1);
    let mut mesh = Mesh::new();
    mesh.vertices.push(vertex(0.0, 0.0, 0.0));
    mesh.vertices.push(vertex(1.0, 0.0, 0.0));
    mesh.vertices.push(vertex(0.0, 1.0, 0.0));
    mesh.triangles.push(Triangle::new(0, 1, 2));
    object.mesh = Some(mesh);
    model.resources.objects.push(object);
    model.build.items.push(BuildItem::new(1));

    // Should fail validation (N_XXM_0610_01)
    let result = validate_texture_paths(&model);
    assert!(result.is_err(), "Should reject empty texture path");
    let error_msg = result.unwrap_err().to_string();
    assert!(error_msg.contains("empty"));
}

fn make_simple_mesh() -> Mesh {
    let mut mesh = Mesh::new();
    mesh.vertices.push(vertex(0.0, 0.0, 0.0));
    mesh.vertices.push(vertex(1.0, 0.0, 0.0));
    mesh.vertices.push(vertex(0.0, 1.0, 0.0));
    mesh.triangles.push(Triangle::new(0, 1, 2));
    mesh
}

#[test]
fn test_transform_singular_matrix_fails() {
    let mut model = Model::new();
    let mut obj = Object::new(1);
    obj.mesh = Some(make_simple_mesh());
    model.resources.objects.push(obj);

    // A singular matrix (all zeros)
    let mut item = BuildItem::new(1);
    item.transform = Some(transform([0.0, 0.0, 0.0, 0.0, 0.0, 0.0, 0.0, 0.0, 0.0, 0.0, 0.0, 0.0]));
    model.build.items.push(item);

    let result = validate_transform_matrices(&model, &measures(&model));
    assert!(result.is_err());
    assert!(result.unwrap_err().to_string().contains("zero determinant"));
}

#[test]
fn test_transform_valid_identity_ok() {
    let mut model = Model::new();
    let mut obj = Object::new(1);
    obj.mesh = Some(make_simple_mesh());
    model.resources.objects.push(obj);

    // Identity matrix
    let mut item = BuildItem::new(1);
    item.transform = Some(transform([1.0, 0.0, 0.0, 0.0, 1.0, 0.0, 0.0, 0.0, 1.0, 0.0, 0.0, 0.0]));
    model.build.items.push(item);

    assert!(validate_transform_matrices(&model, &measures(&model)).is_ok());
}

fn assembled_model() -> Model {
    let mut model = Model::new();
    let mut part = Object::new(2);
    let mut mesh = Mesh::new();
    mesh.vertices.push(vertex(0.0, 0.0, 0.0));
    mesh.vertices.push(vertex(1.0, 0.0, 0.0));
    mesh.vertices.push(vertex(0.0, 1.0, 0.0));
    mesh.vertices.push(vertex(0.0, 0.0, 1.0));
    for (a, b, c) in [(0, 2, 1), (0, 1, 3), (0, 3, 2), (1, 2, 3)] {
        mesh.triangles.push(Triangle::new(a, b, c));
    }
    part.mesh = Some(mesh);
    let mut assembly = Object::new(1);
    assembly.components.push(Component::new(2));
    model.resources.objects.push(assembly);
    model.resources.objects.push(part);
    let mut item = BuildItem::new(1);
    item.transform = Some(transform([2.0, 0.0, 0.0, 0.0, 2.0, 0.0, 0.0, 0.0, 2.0, 1.0, 1.0, 1.0]));
    model.build.items.push(item);
    model
}

#[test]
fn test_valid_model_passes_each_check() {
    let model = assembled_model();
    let m = measures(&model);
    assert!(validate_model(&model, &m).is_ok());
    assert!(validate_object_ids(&model).is_ok());
    assert!(validate_mesh_geometry(&model).is_ok());
    assert!(validate_build_references(&model).is_ok());
    assert!(validate_material_references(&model).is_ok());
    assert!(validate_component_references(&model).is_ok());
    assert!(validate_transform_matrices(&model, &m).is_ok());
    assert!(validate_mesh_volume(&model, &m).is_ok());
    assert!(validate_resource_ordering(&model).is_ok());
    assert!(validate_texture_paths(&model).is_ok());
    assert!(validate_triangle_properties(&model).is_ok());
    assert!(validate_multiproperties_references(&model).is_ok());
}

#[test]
fn test_validation_reports_the_first_broken_rule() {
    // Both a zero object id and an unknown build reference: ids are checked first.
    let mut model = assembled_model();
    model.resources.objects.push(Object::new(0));
    model.build.items.push(BuildItem::new(99));
    let msg = validate_model(&model, &measures(&model)).unwrap_err().to_string();
    assert!(msg.starts_with("Invalid model: Object ID must be a positive integer"));
}

#[test]
fn test_nearly_singular_transform_fails() {
    let mut model = assembled_model();
    model.build.items[0].transform =
        Some(transform([1e-4, 0.0, 0.0, 0.0, 1e-4, 0.0, 0.0, 0.0, 1e-4, 0.0, 0.0, 0.0]));
    let msg = validate_transform_matrices(&model, &measures(&model)).unwrap_err().to_string();
    assert!(msg.contains("Build item 0: Transform matrix has zero determinant"));
}

#[test]
fn test_model_level_negative_volume() {
    let mut model = assembled_model();
    if let Some(mesh) = model.resources.objects[1].mesh.as_mut() {
        for t in mesh.triangles.iter_mut() {
            std::mem::swap(&mut t.v1, &mut t.v3);
        }
    }
    let msg = validate_model(&model, &measures(&model)).unwrap_err().to_string();
    assert!(msg.contains("Object 2: Mesh has negative volume"));
}

#[test]
fn test_handler_results_first_failure_reported() {
    assert!(validate_handler_results(&Vec::new()).is_ok());
    assert!(validate_handler_results(&vec![Ok(()), Ok(())]).is_ok());
    let results = vec![Ok(()), Err("too small".to_string()), Err("later".to_string())];
    let err = validate_handler_results(&results).unwrap_err();
    assert_eq!(err.to_string(), "Invalid model: Custom validation failed: too small");
}

#[test]
fn test_handler_failure_after_structure_checks() {
    let config = ParserConfig::with_all_extensions();
    let model = assembled_model();
    let m = measures(&model);
    let failing = vec![Err("rejected by caller".to_string())];
    let err = validate_model_with_handler_results(&model, &config, &m, &failing).unwrap_err();
    assert_eq!(err.to_string(), "Invalid model: Custom validation failed: rejected by caller");
    assert!(validate_model_with_handler_results(&model, &config, &m, &vec![Ok(())]).is_ok());
    assert!(validate_model_with_config(&model, &config, &m).is_ok());

    // A structural violation is reported before any handler's failure.
    let empty = Model::new();
    let me = measures(&empty);
    let err = validate_model_with_handler_results(&empty, &config, &me, &failing).unwrap_err();
    assert!(!err.to_string().contains("Custom validation failed"));
    assert_eq!(
        err.to_string(),
        validate_model_with_config(&empty, &config, &me).unwrap_err().to_string()
    );
}

#[test]
fn test_measures_match_model() {
    let model = assembled_model();
    let mut m = measures(&model);
    assert!(measures_match(&model, &m));
    m.determinants.pop();
    assert!(!measures_match(&model, &m));
    let mut m = measures(&model);
    m.mesh_volumes.push(1.0f64.to_bits());
    assert!(!measures_match(&model, &m));
    let mut m = measures(&model);
    m.displacement.meshes.clear();
    assert!(!measures_match(&model, &m));
}

type Handler<'a> = Box<dyn Fn(&Model) -> Result<(), String> + 'a>;

#[test]
fn test_handlers_run_in_order_up_to_first_failure() {
    let config = ParserConfig::with_all_extensions();
    let model = assembled_model();
    let m = measures(&model);
    let calls = RefCell::new(Vec::new());
    let handlers: Vec<Handler> = vec![
        Box::new(|_: &Model| {
            calls.borrow_mut().push(1);
            Ok(())
        }),
        Box::new(|_: &Model| {
            calls.borrow_mut().push(2);
            Err("second".to_string())
        }),
        Box::new(|_: &Model| {
            calls.borrow_mut().push(3);
            Err("third".to_string())
        }),
    ];
    let err = validate_model_with_handlers(&model, &config, &m, &handlers).unwrap_err();
    assert_eq!(err.to_string(), "Invalid model: Custom validation failed: second");
    assert_eq!(*calls.borrow(), vec![1, 2]);
}

#[test]
fn test_handlers_not_run_when_structure_fails() {
    let config = ParserConfig::with_all_extensions();
    let model = Model::new();
    let m = measures(&model);
    let calls = RefCell::new(0);
    let handlers: Vec<Handler> = vec![Box::new(|_: &Model| {
        *calls.borrow_mut() += 1;
        Err("never".to_string())
    })];
    let err = validate_model_with_handlers(&model, &config, &m, &handlers).unwrap_err();
    assert!(!err.to_string().contains("Custom validation failed"));
    assert_eq!(*calls.borrow(), 0);
    let ok: Vec<Handler> = vec![Box::new(|_: &Model| Ok(()))];
    let valid = assembled_model();
    assert!(validate_model_with_handlers(&valid, &config, &measures(&valid), &ok).is_ok());
}
