use lib3mf::model::{
    Extension, Model, VolumetricBoundary, VolumetricData, VolumetricPropertyGroup, Voxel,
    VoxelGrid,
};
use lib3mf::validator::validate_volumetric_extension;

#[test]
fn test_validate_empty_model() {
    let model = Model::new();
    assert!(validate_volumetric_extension(&model).is_ok());
}

#[test]
fn test_validate_missing_extension_declaration() {
    let mut model = Model::new();
    model.resources.volumetric_data.push(VolumetricData::new(1));

    let result = validate_volumetric_extension(&model);
    assert!(result.is_err());
    let err_msg = result.unwrap_err().to_string();
    assert!(err_msg.contains("volumetric extension is not declared"));
}

#[test]
fn test_validate_with_extension_declared() {
    let mut model = Model::new();
    model.required_extensions.push(Extension::Volumetric);
    model.resources.volumetric_data.push(VolumetricData::new(1));

    assert!(validate_volumetric_extension(&model).is_ok());
}

#[test]
fn test_validate_invalid_boundary() {
    let mut model = Model::new();
    model.required_extensions.push(Extension::Volumetric);

    let mut vol_data = VolumetricData::new(1);
    // Invalid boundary: min >= max
    vol_data.boundary = Some(VolumetricBoundary::new(
        (10.0f64.to_bits(), 10.0f64.to_bits(), 10.0f64.to_bits()),
        (5.0f64.to_bits(), 5.0f64.to_bits(), 5.0f64.to_bits()),
    ));
    model.resources.volumetric_data.push(vol_data);

    let result = validate_volumetric_extension(&model);
    assert!(result.is_err());
    let err_msg = result.unwrap_err().to_string();
    assert!(err_msg.contains("Invalid boundary"));
}

#[test]
fn test_validate_zero_dimensions() {
    let mut model = Model::new();
    model.required_extensions.push(Extension::Volumetric);

    let mut vol_data = VolumetricData::new(1);
    vol_data.voxels = Some(VoxelGrid::new((0, 10, 10))); // Zero dimension
    model.resources.volumetric_data.push(vol_data);

    let result = validate_volumetric_extension(&model);
    assert!(result.is_err());
    let err_msg = result.unwrap_err().to_string();
    assert!(err_msg.contains("dimensions must be greater than zero"));
}

#[test]
fn test_validate_voxel_out_of_bounds() {
    let mut model = Model::new();
    model.required_extensions.push(Extension::Volumetric);

    let mut vol_data = VolumetricData::new(1);
    let mut grid = VoxelGrid::new((10, 10, 10));
    grid.voxels.push(Voxel::new((15, 5, 5))); // Out of bounds
    vol_data.voxels = Some(grid);
    model.resources.volumetric_data.push(vol_data);

    let result = validate_volumetric_extension(&model);
    assert!(result.is_err());
    let err_msg = result.unwrap_err().to_string();
    assert!(err_msg.contains("outside grid dimensions"));
}

#[test]
fn test_validate_invalid_spacing() {
    let mut model = Model::new();
    model.required_extensions.push(Extension::Volumetric);

    let mut vol_data = VolumetricData::new(1);
    let mut grid = VoxelGrid::new((10, 10, 10));
    grid.spacing = Some((1.0f64.to_bits(), (-1.0f64).to_bits(), 1.0f64.to_bits())); // Negative spacing
    vol_data.voxels = Some(grid);
    model.resources.volumetric_data.push(vol_data);

    let result = validate_volumetric_extension(&model);
    assert!(result.is_err());
    let err_msg = result.unwrap_err().to_string();
    assert!(err_msg.contains("spacing must be positive"));
}

#[test]
fn test_validate_duplicate_property_group_ids() {
    let mut model = Model::new();
    model.required_extensions.push(Extension::Volumetric);

    model
        .resources
        .volumetric_property_groups
        .push(VolumetricPropertyGroup::new(1));
    model
        .resources
        .volumetric_property_groups
        .push(VolumetricPropertyGroup::new(1)); // Duplicate ID

    let result = validate_volumetric_extension(&model);
    assert!(result.is_err());
    let err_msg = result.unwrap_err().to_string();
    assert!(err_msg.contains("Duplicate volumetric property group ID"));
}

#[test]
fn test_voxel_unknown_property_group() {
    let mut model = Model::new();
    model.required_extensions.push(Extension::Volumetric);
    model.resources.volumetric_property_groups.push(VolumetricPropertyGroup::new(4));
    let mut vol_data = VolumetricData::new(1);
    let mut grid = VoxelGrid::new((10, 10, 10));
    let mut voxel = Voxel::new((1, 1, 1));
    voxel.property_id = Some(9);
    grid.voxels.push(voxel);
    vol_data.voxels = Some(grid);
    model.resources.volumetric_data.push(vol_data);

    let err_msg = validate_volumetric_extension(&model).unwrap_err().to_string();
    assert!(err_msg.starts_with("Invalid model: VolumetricData resource 1: "));
    assert!(err_msg.contains('9'));
}

#[test]
fn test_voxel_known_property_group_passes() {
    let mut model = Model::new();
    model
        .required_custom_extensions
        .push("http://schemas.3mf.io/volumetric/2023/02".to_string());
    model.resources.volumetric_property_groups.push(VolumetricPropertyGroup::new(4));
    let mut vol_data = VolumetricData::new(1);
    let mut grid = VoxelGrid::new((10, 10, 10));
    let mut voxel = Voxel::new((9, 9, 9));
    voxel.property_id = Some(4);
    grid.voxels.push(voxel);
    vol_data.voxels = Some(grid);
    model.resources.volumetric_data.push(vol_data);

    assert!(validate_volumetric_extension(&model).is_ok());
}
