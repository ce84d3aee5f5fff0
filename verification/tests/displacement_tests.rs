use lib3mf::model::{
    Disp2DCoord, Disp2DGroup, Displacement2D, DisplacementMesh, DisplacementTriangle, Extension,
    Model, NormVector, NormVectorGroup, Object, SecureContentInfo, Vertex,
};
use lib3mf::validator::{
    corner_normal, validate_displacement_extension, DisplacementGeometry, Measures, MeshGeometry,
};

fn bits(x: f64) -> u64 {
    x.to_bits()
}

fn vertex(x: f64, y: f64, z: f64) -> Vertex {
    Vertex::new(x.to_bits(), y.to_bits(), z.to_bits())
}

fn point(v: &Vertex) -> [f64; 3] {
    [f64::from_bits(v.x), f64::from_bits(v.y), f64::from_bits(v.z)]
}

fn signed_volume(vertices: &[Vertex], corners: &[(usize, usize, usize)]) -> f64 {
    let mut volume = 0.0f64;
    for &(a, b, c) in corners {
        if a >= vertices.len() || b >= vertices.len() || c >= vertices.len() {
            continue;
        }
        let p = point(&vertices[a]);
        let q = point(&vertices[b]);
        let r = point(&vertices[c]);
        volume += p[0] * (q[1] * r[2] - q[2] * r[1])
            + q[0] * (r[1] * p[2] - r[2] * p[1])
            + r[0] * (p[1] * q[2] - p[2] * q[1]);
    }
    volume / 6.0
}

fn normal_of(vertices: &[Vertex], a: usize, b: usize, c: usize) -> [f64; 3] {
    let p = point(&vertices[a]);
    let q = point(&vertices[b]);
    let r = point(&vertices[c]);
    let e1 = [q[0] - p[0], q[1] - p[1], q[2] - p[2]];
    let e2 = [r[0] - p[0], r[1] - p[1], r[2] - p[2]];
    [
        e1[1] * e2[2] - e1[2] * e2[1],
        e1[2] * e2[0] - e1[0] * e2[2],
        e1[0] * e2[1] - e1[1] * e2[0],
    ]
}

fn mesh_geometry(model: &Model, mesh: &DisplacementMesh) -> MeshGeometry {
    let corners: Vec<(usize, usize, usize)> =
        mesh.triangles.iter().map(|t| (t.v1, t.v2, t.v3)).collect();
    let volume = signed_volume(&mesh.vertices, &corners);
    let mut close_vertices = None;
    'outer: for i in 0..mesh.vertices.len() {
        for j in (i + 1)..mesh.vertices.len() {
            let p = point(&mesh.vertices[i]);
            let q = point(&mesh.vertices[j]);
            let d = (p[0] - q[0]).powi(2) + (p[1] - q[1]).powi(2) + (p[2] - q[2]).powi(2);
            if d < 1e-10 {
                close_vertices = Some((i, j));
                break 'outer;
            }
        }
    }
    let nv = mesh.vertices.len();
    let mut areas = Vec::new();
    let mut dots = Vec::new();
    for t in &mesh.triangles {
        if t.v1 >= nv || t.v2 >= nv || t.v3 >= nv {
            areas.push(1.0f64.to_bits());
            dots.push((1.0f64.to_bits(), 1.0f64.to_bits(), 1.0f64.to_bits()));
            continue;
        }
        let n = normal_of(&mesh.vertices, t.v1, t.v2, t.v3);
        areas.push((n[0] * n[0] + n[1] * n[1] + n[2] * n[2]).to_bits());
        let dot = |d: Option<usize>| -> u64 {
            let group = t.did.and_then(|did| model.resources.disp2d_groups.iter().find(|g| g.id == did));
            if let (Some(g), Some(k)) = (group, d) {
                if k < g.coords.len() {
                    let normals = model.resources.norm_vector_groups.iter().find(|ng| ng.id == g.nid);
                    if let Some(ng) = normals {
                        let ci = g.coords[k].n;
                        if ci < ng.vectors.len() {
                            let v = &ng.vectors[ci];
                            let value = n[0] * f64::from_bits(v.x)
                                + n[1] * f64::from_bits(v.y)
                                + n[2] * f64::from_bits(v.z);
                            return value.to_bits();
                        }
                    }
                }
            }
            1.0f64.to_bits()
        };
        dots.push((dot(t.d1), dot(t.d2), dot(t.d3)));
    }
    MeshGeometry { volume: volume.to_bits(), close_vertices, areas, dots }
}

fn measures(model: &Model) -> Measures {
    let normal_lengths = model
        .resources
        .norm_vector_groups
        .iter()
        .map(|g| {
            g.vectors
                .iter()
                .map(|v| {
                    let (x, y, z) = (f64::from_bits(v.x), f64::from_bits(v.y), f64::from_bits(v.z));
                    (x * x + y * y + z * z).to_bits()
                })
                .collect()
        })
        .collect();
    let meshes = model
        .resources
        .objects
        .iter()
        .map(|o| match &o.displacement_mesh {
            Some(mesh) => mesh_geometry(model, mesh),
            None => MeshGeometry {
                volume: 1.0f64.to_bits(),
                close_vertices: None,
                areas: Vec::new(),
                dots: Vec::new(),
            },
        })
        .collect();
    Measures {
        determinants: Vec::new(),
        mesh_volumes: Vec::new(),
        displacement: DisplacementGeometry { normal_lengths, meshes },
    }
}

fn tetra_vertices() -> Vec<Vertex> {
    vec![vertex(0.0, 0.0, 0.0), vertex(1.0, 0.0, 0.0), vertex(0.0, 1.0, 0.0), vertex(0.0, 0.0, 1.0)]
}

/// A tetrahedron with outward facing, consistently wound triangles.
fn tetra() -> DisplacementMesh {
    let mut mesh = DisplacementMesh::new();
    mesh.vertices = tetra_vertices();
    for (a, b, c) in [(0, 2, 1), (0, 1, 3), (0, 3, 2), (1, 2, 3)] {
        mesh.triangles.push(DisplacementTriangle::new(a, b, c));
    }
    mesh
}

fn model_with(mesh: DisplacementMesh) -> Model {
    let mut model = Model::new();
    model.required_extensions.push(Extension::Displacement);
    let mut object = Object::new(1);
    object.displacement_mesh = Some(mesh);
    model.resources.objects.push(object);
    model
}

/// A displacement texture 1, a normal group 2 with one vector, and a
/// coordinate group 3 with one coordinate selecting it.
fn add_groups(model: &mut Model, normal: (f64, f64, f64)) {
    model.resources.displacement_maps.push(Displacement2D::new(1, "/3D/Textures/disp.png".to_string()));
    let mut normals = NormVectorGroup::new(2);
    normals.vectors.push(NormVector { x: bits(normal.0), y: bits(normal.1), z: bits(normal.2) });
    model.resources.norm_vector_groups.push(normals);
    let mut group = Disp2DGroup::new(3, 1, 2, bits(1.0));
    group.coords.push(Disp2DCoord { u: bits(0.5), v: bits(0.5), n: 0, f: bits(1.0) });
    model.resources.disp2d_groups.push(group);
}

fn check(model: &Model) -> Result<(), String> {
    validate_displacement_extension(model, &measures(model).displacement).map_err(|e| e.to_string())
}

fn error_of(model: &Model) -> String {
    check(model).unwrap_err()
}

#[test]
fn test_displacement_valid_tetrahedron() {
    assert!(check(&model_with(tetra())).is_ok());
}

#[test]
fn test_displacement_without_elements_passes() {
    assert!(check(&Model::new()).is_ok());
}

#[test]
fn test_displacement_not_declared() {
    let mut model = model_with(tetra());
    model.required_extensions.clear();
    let msg = error_of(&model);
    assert!(msg.starts_with("Invalid model: "));
    assert!(msg.contains("displacement extension is not declared in requiredextensions"));
}

#[test]
fn test_displacement_declared_by_custom_namespace() {
    let mut model = model_with(tetra());
    model.required_extensions.clear();
    model
        .required_custom_extensions
        .push("http://schemas.microsoft.com/3dmanufacturing/displacement/2023/10".to_string());
    assert!(check(&model).is_ok());
}

#[test]
fn test_displacement_path_non_ascii() {
    let mut model = model_with(tetra());
    model.resources.displacement_maps.push(Displacement2D::new(7, "/3D/Textures/d\u{e9}.png".to_string()));
    let msg = error_of(&model);
    assert!(msg.contains("Displacement2D resource 7"));
    assert!(msg.contains("contains non-ASCII characters"));
}

#[test]
fn test_displacement_path_outside_textures() {
    let mut model = model_with(tetra());
    model.resources.displacement_maps.push(Displacement2D::new(7, "/3D/Other/disp.png".to_string()));
    let msg = error_of(&model);
    assert!(msg.contains("Path '/3D/Other/disp.png' is not in /3D/Textures/ directory"));
}

#[test]
fn test_displacement_path_case_insensitive() {
    let mut model = model_with(tetra());
    model.resources.displacement_maps.push(Displacement2D::new(7, "/3d/TEXTURES/Disp.PNG".to_string()));
    assert!(check(&model).is_ok());
}

#[test]
fn test_displacement_encrypted_path_may_lie_elsewhere() {
    let mut model = model_with(tetra());
    model.resources.displacement_maps.push(Displacement2D::new(7, "/Secure/disp.png".to_string()));
    model.secure_content = Some(SecureContentInfo { encrypted_files: vec!["Secure/disp.png".to_string()] });
    assert!(check(&model).is_ok());
}

#[test]
fn test_displacement_path_not_png() {
    let mut model = model_with(tetra());
    model.resources.displacement_maps.push(Displacement2D::new(7, "/3D/Textures/disp.jpg".to_string()));
    let msg = error_of(&model);
    assert!(msg.contains("does not end with .png extension"));
}

#[test]
fn test_disp2d_group_unknown_texture() {
    let mut model = model_with(tetra());
    add_groups(&mut model, (1.0, 1.0, 1.0));
    model.resources.disp2d_groups[0].dispid = 9;
    let msg = error_of(&model);
    assert!(msg.contains("Disp2DGroup 3: References non-existent Displacement2D resource with ID 9"));
    assert!(msg.contains("Available Displacement2D IDs: [1]"));
}

#[test]
fn test_disp2d_group_unknown_normal_group() {
    let mut model = model_with(tetra());
    add_groups(&mut model, (1.0, 1.0, 1.0));
    model.resources.disp2d_groups[0].nid = 8;
    let msg = error_of(&model);
    assert!(msg.contains("References non-existent NormVectorGroup with ID 8"));
    assert!(msg.contains("Available NormVectorGroup IDs: [2]"));
}

#[test]
fn test_disp2d_coordinate_normal_out_of_range() {
    let mut model = model_with(tetra());
    add_groups(&mut model, (1.0, 1.0, 1.0));
    model.resources.disp2d_groups[0].coords[0].n = 5;
    let msg = error_of(&model);
    assert!(msg.contains("Displacement coordinate 0 references normvector index 5"));
    assert!(msg.contains("only contains 1 normvectors"));
    assert!(msg.contains("[0, 0]"));
}

#[test]
fn test_normvector_near_zero_length() {
    let mut model = model_with(tetra());
    add_groups(&mut model, (0.0, 0.0, 0.0001));
    let msg = error_of(&model);
    assert!(msg.contains("NormVectorGroup 2: Normvector 0 has near-zero length"));
}

#[test]
fn test_displacement_mesh_too_few_triangles() {
    let mut mesh = tetra();
    mesh.triangles.pop();
    let msg = error_of(&model_with(mesh));
    assert!(msg.contains("Object 1: Displacement mesh has only 3 triangles"));
}

#[test]
fn test_displacement_mesh_negative_volume() {
    let mut mesh = tetra();
    for t in mesh.triangles.iter_mut() {
        std::mem::swap(&mut t.v1, &mut t.v3);
    }
    let msg = error_of(&model_with(mesh));
    assert!(msg.contains("Displacement mesh has negative volume"));
}

#[test]
fn test_displacement_mesh_flat_volume() {
    let mut mesh = tetra();
    mesh.vertices[3] = vertex(1.0, 1.0, 0.0);
    let msg = error_of(&model_with(mesh));
    assert!(msg.contains("Displacement mesh has near-zero volume"));
}

#[test]
fn test_displacement_mesh_duplicate_vertices() {
    let mut mesh = tetra();
    mesh.vertices.push(vertex(0.0, 0.0, 0.0));
    let msg = error_of(&model_with(mesh));
    assert!(msg.contains("duplicate vertices at indices 0 and 4"));
}

#[test]
fn test_displacement_mesh_boundary_edge() {
    // A square pyramid with one side missing.
    let mut mesh = DisplacementMesh::new();
    mesh.vertices = vec![
        vertex(0.0, 0.0, 0.0),
        vertex(1.0, 0.0, 0.0),
        vertex(1.0, 1.0, 0.0),
        vertex(0.0, 1.0, 0.0),
        vertex(0.5, 0.5, 1.0),
    ];
    for (a, b, c) in [(0, 2, 1), (0, 3, 2), (0, 1, 4), (1, 2, 4), (2, 3, 4)] {
        mesh.triangles.push(DisplacementTriangle::new(a, b, c));
    }
    let msg = error_of(&model_with(mesh));
    assert!(msg.contains("non-manifold. Edge from vertex 0 to vertex 3 is only used by one triangle"));
}

#[test]
fn test_displacement_mesh_inconsistent_winding() {
    let mut mesh = tetra();
    mesh.triangles[0] = DisplacementTriangle::new(0, 1, 2);
    let msg = error_of(&model_with(mesh));
    assert!(msg.contains("inconsistent triangle winding"));
    assert!(msg.contains("Edge from vertex 0 to vertex 1 is traversed 2 times in the same direction"));
}

#[test]
fn test_displacement_mesh_edge_of_three_triangles() {
    let mut mesh = tetra();
    mesh.vertices.push(vertex(1.0, 1.0, 1.0));
    mesh.triangles.push(DisplacementTriangle::new(2, 0, 4));
    let msg = error_of(&model_with(mesh));
    assert!(msg.contains("Edge between vertices 0 and 2 is used by 3 triangles"));
}

#[test]
fn test_displacement_triangle_vertex_out_of_range() {
    let mut mesh = tetra();
    mesh.triangles.push(DisplacementTriangle::new(5, 6, 99));
    mesh.triangles.push(DisplacementTriangle::new(6, 5, 99));
    let msg = error_of(&model_with(mesh));
    assert!(msg.contains("Displacement triangle 4 has invalid vertex index v1=5 (mesh only has 4 vertices)"));
}

#[test]
fn test_displacement_triangle_degenerate() {
    let mut mesh = tetra();
    mesh.vertices.push(vertex(5.0, 5.0, 5.0));
    mesh.vertices.push(vertex(6.0, 5.0, 5.0));
    mesh.triangles.push(DisplacementTriangle::new(4, 5, 5));
    let msg = error_of(&model_with(mesh));
    assert!(msg.contains("Displacement triangle 4 is degenerate (v1=4, v2=5, v3=5)"));
}

#[test]
fn test_displacement_triangle_zero_area() {
    let mut mesh = tetra();
    mesh.vertices.push(vertex(5.0, 5.0, 5.0));
    mesh.vertices.push(vertex(6.0, 5.0, 5.0));
    mesh.vertices.push(vertex(7.0, 5.0, 5.0));
    mesh.triangles.push(DisplacementTriangle::new(4, 5, 6));
    mesh.triangles.push(DisplacementTriangle::new(6, 5, 4));
    let msg = error_of(&model_with(mesh));
    assert!(msg.contains("Displacement triangle 4 has zero or near-zero area"));
}

#[test]
fn test_displacement_triangle_unknown_group() {
    let mut mesh = tetra();
    mesh.triangles[3].did = Some(9);
    let mut model = model_with(mesh);
    add_groups(&mut model, (1.0, 1.0, 1.0));
    let msg = error_of(&model);
    assert!(msg.contains("Displacement triangle 3 references non-existent Disp2DGroup with ID 9"));
    assert!(msg.contains("Available Disp2DGroup IDs: [3]"));
}

#[test]
fn test_displacement_triangle_coordinate_out_of_range() {
    let mut mesh = tetra();
    mesh.triangles[3].did = Some(3);
    mesh.triangles[3].d2 = Some(4);
    let mut model = model_with(mesh);
    add_groups(&mut model, (1.0, 1.0, 1.0));
    let msg = error_of(&model);
    assert!(msg.contains("Displacement triangle 3 has invalid d2 index 4 (Disp2DGroup 3 only has 1 coordinates)"));
}

#[test]
fn test_displacement_outward_normal_passes() {
    let mut mesh = tetra();
    mesh.triangles[3].did = Some(3);
    mesh.triangles[3].d1 = Some(0);
    mesh.triangles[3].d2 = Some(0);
    mesh.triangles[3].d3 = Some(0);
    let mut model = model_with(mesh);
    add_groups(&mut model, (1.0, 1.0, 1.0));
    assert!(check(&model).is_ok());
}

#[test]
fn test_displacement_inward_normal() {
    let mut mesh = tetra();
    mesh.triangles[3].did = Some(3);
    mesh.triangles[3].d1 = Some(0);
    let mut model = model_with(mesh);
    add_groups(&mut model, (-1.0, -1.0, -1.0));
    let msg = error_of(&model);
    assert!(msg.contains("Displacement triangle 3 uses normvector 0 from group 2 that points inward"));
    // The scalar product -3.0 is rendered by its bit pattern.
    assert!(msg.contains(&format!("0x{:016x}", (-3.0f64).to_bits())));
}

#[test]
fn test_displacement_edges_once_each_way() {
    // Every directed edge of the tetrahedron has its reverse exactly once.
    let mesh = tetra();
    let mut edges = Vec::new();
    for t in &mesh.triangles {
        edges.push((t.v1, t.v2));
        edges.push((t.v2, t.v3));
        edges.push((t.v3, t.v1));
    }
    for &(a, b) in &edges {
        assert_eq!(edges.iter().filter(|e| **e == (a, b)).count(), 1);
        assert_eq!(edges.iter().filter(|e| **e == (b, a)).count(), 1);
    }
    assert!(check(&model_with(mesh)).is_ok());
}


#[test]
fn test_corner_normal_lookup() {
    let mut model = Model::new();
    add_groups(&mut model, (0.0, 0.0, 1.0));
    // group 3, coordinate 0 selects vector 0 of the first normal group (index 0)
    assert_eq!(corner_normal(&model, Some(3), Some(0)), Some((0, 0)));
    assert_eq!(corner_normal(&model, Some(3), Some(1)), None);
    assert_eq!(corner_normal(&model, Some(4), Some(0)), None);
    assert_eq!(corner_normal(&model, None, Some(0)), None);
    assert_eq!(corner_normal(&model, Some(3), None), None);
    // a coordinate that selects a vector the group lacks selects nothing
    model.resources.disp2d_groups[0].coords[0].n = 5;
    assert_eq!(corner_normal(&model, Some(3), Some(0)), None);
}

#[test]
fn test_no_displacement_elements_pass() {
    let model = Model::new();
    assert!(check(&model).is_ok());
}

#[test]
fn test_undeclared_displacement_message() {
    let mut model = model_with(tetra());
    model.required_extensions.clear();
    assert!(error_of(&model).contains("not declared"));
}
