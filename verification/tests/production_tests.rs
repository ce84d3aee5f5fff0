use lib3mf::model::{BuildItem, Component, Extension, Model, Object, ParserConfig, ProductionInfo};
use lib3mf::validator::{
    validate_component_chain, validate_duplicate_uuids, validate_production_extension,
    validate_production_extension_with_config, validate_production_paths,
    validate_production_uuids_required, validate_uuid_formats,
};

const UUID_A: &str = "550e8400-e29b-41d4-a716-446655440000";
const UUID_B: &str = "6ba7b810-9dad-11d1-80b4-00c04fd430c8";

fn production(uuid: Option<&str>, path: Option<&str>) -> Option<ProductionInfo> {
    let mut info = ProductionInfo::new();
    info.uuid = uuid.map(|u| u.to_string());
    info.path = path.map(|p| p.to_string());
    Some(info)
}

fn model_with_object() -> Model {
    let mut model = Model::new();
    model.resources.objects.push(Object::new(1));
    model.build.items.push(BuildItem::new(1));
    model
}

fn message(r: Result<(), lib3mf::error::Error>) -> String {
    r.unwrap_err().to_string()
}

#[test]
fn test_uuid_format_valid() {
    let mut model = model_with_object();
    model.build.production_uuid = Some(UUID_A.to_string());
    model.resources.objects[0].production = production(Some(UUID_B), None);
    assert!(validate_uuid_formats(&model).is_ok());
}

#[test]
fn test_uuid_wrong_length() {
    let mut model = model_with_object();
    model.build.production_uuid = Some("1234".to_string());
    let msg = message(validate_uuid_formats(&model));
    assert!(msg.contains("Build: Invalid UUID '1234' - must be 36 characters"));
}

#[test]
fn test_uuid_misplaced_hyphens() {
    let mut model = model_with_object();
    model.build.items[0].production_uuid = Some("550e8400e-29b-41d4-a716-446655440000".to_string());
    let msg = message(validate_uuid_formats(&model));
    assert!(msg.contains("Build item 0: Invalid UUID"));
    assert!(msg.contains("hyphens must be at positions 8, 13, 18, and 23"));
}

#[test]
fn test_uuid_not_hexadecimal() {
    let mut model = model_with_object();
    let mut component = Component::new(1);
    component.production = production(Some("550e8400-e29b-41d4-a716-44665544000g"), None);
    model.resources.objects[0].components.push(component);
    let msg = message(validate_uuid_formats(&model));
    assert!(msg.contains("Object 1, Component 0: Invalid UUID"));
    assert!(msg.contains("character 'g' at position 35 is not a hexadecimal digit"));
}

#[test]
fn test_duplicate_uuid_between_build_and_object() {
    let mut model = model_with_object();
    model.build.production_uuid = Some(UUID_A.to_string());
    model.resources.objects[0].production = production(Some(UUID_A), None);
    let msg = message(validate_duplicate_uuids(&model));
    assert!(msg.contains(&format!("Duplicate UUID '{}' found on object 1", UUID_A)));
}

#[test]
fn test_distinct_uuids_pass() {
    let mut model = model_with_object();
    model.build.production_uuid = Some(UUID_A.to_string());
    model.resources.objects[0].production = production(Some(UUID_B), None);
    assert!(validate_duplicate_uuids(&model).is_ok());
}

#[test]
fn test_duplicate_uuid_in_component() {
    let mut model = model_with_object();
    model.build.items[0].production_uuid = Some(UUID_B.to_string());
    let mut component = Component::new(1);
    component.production = production(Some(UUID_B), None);
    model.resources.objects[0].components.push(component);
    let msg = message(validate_duplicate_uuids(&model));
    assert!(msg.contains("found in object 1 component 0"));
}

#[test]
fn test_production_path_not_absolute() {
    let mut model = model_with_object();
    model.build.items[0].production_path = Some("3D/part.model".to_string());
    let msg = message(validate_production_extension(&model));
    assert!(msg.contains("Build Item 0: Production path '3D/part.model' must start with /"));
}

#[test]
fn test_production_path_parent_directory() {
    let mut model = model_with_object();
    model.resources.objects[0].production = production(Some(UUID_A), Some("/3D/../part.model"));
    let msg = message(validate_production_extension(&model));
    assert!(msg.contains("Object 1: Production path '/3D/../part.model' must not contain .."));
}

#[test]
fn test_production_path_trailing_slash() {
    let mut model = model_with_object();
    model.build.items[0].production_path = Some("/3D/".to_string());
    let msg = message(validate_production_extension(&model));
    assert!(msg.contains("must not end with /"));
}

#[test]
fn test_production_path_hidden_file() {
    let mut model = model_with_object();
    model.build.items[0].production_path = Some("/3D/.part.model".to_string());
    let msg = message(validate_production_extension(&model));
    assert!(msg.contains("references a hidden file"));
}

#[test]
fn test_production_path_not_model_file() {
    let mut model = model_with_object();
    model.build.items[0].production_path = Some("/3D/part.xml".to_string());
    let msg = message(validate_production_extension(&model));
    assert!(msg.contains("must reference a .model file"));
}

#[test]
fn test_production_path_valid() {
    let mut model = model_with_object();
    model.build.items[0].production_path = Some("/3D/part.model".to_string());
    assert!(validate_production_extension(&model).is_ok());
}

#[test]
fn test_component_path_without_uuid() {
    let mut model = model_with_object();
    model.required_extensions.push(Extension::Production);
    let mut component = Component::new(1);
    component.production = production(None, Some("/3D/part.model"));
    model.resources.objects[0].components.push(component);
    let msg = message(validate_production_extension_with_config(&model, &ParserConfig::new()));
    assert!(msg.contains("Object 1, Component 0: Component has p:path but missing required p:UUID"));
}

#[test]
fn test_production_attributes_need_declaration() {
    let mut model = model_with_object();
    model.build.items[0].production_uuid = Some(UUID_A.to_string());
    let msg = message(validate_production_extension_with_config(&model, &ParserConfig::new()));
    assert!(msg.contains("production extension is not declared in requiredextensions"));
}

#[test]
fn test_production_attributes_accepted_when_supported() {
    let mut model = model_with_object();
    model.build.items[0].production_uuid = Some(UUID_A.to_string());
    assert!(validate_production_extension_with_config(&model, &ParserConfig::with_all_extensions()).is_ok());
}

#[test]
fn test_production_path_to_relationships() {
    let mut model = model_with_object();
    model.build.items[0].production_path = Some("/_rels/.rels".to_string());
    let msg = message(validate_production_paths(&model));
    assert!(msg.contains("Build item 0: Production path '/_rels/.rels' references OPC internal relationships directory"));
}

#[test]
fn test_production_path_to_content_types() {
    let mut model = model_with_object();
    model.build.items[0].production_path = Some("/[Content_Types].xml".to_string());
    let msg = message(validate_production_paths(&model));
    assert!(msg.contains("references OPC content types file"));
}

#[test]
fn test_required_production_needs_build_uuid() {
    let mut model = model_with_object();
    model.required_extensions.push(Extension::Production);
    let msg = message(validate_production_uuids_required(&model));
    assert!(msg.contains("requires build to have p:UUID attribute"));
}

#[test]
fn test_required_production_needs_item_uuid() {
    let mut model = model_with_object();
    model.required_extensions.push(Extension::Production);
    model.build.production_uuid = Some(UUID_A.to_string());
    let msg = message(validate_production_uuids_required(&model));
    assert!(msg.contains("requires build item 0 to have p:UUID attribute"));
}

#[test]
fn test_required_production_needs_object_uuid() {
    let mut model = model_with_object();
    model.required_extensions.push(Extension::Production);
    model.build.production_uuid = Some(UUID_A.to_string());
    model.build.items[0].production_uuid = Some(UUID_B.to_string());
    let msg = message(validate_production_uuids_required(&model));
    assert!(msg.contains("requires object 1 to have p:UUID attribute"));
}

#[test]
fn test_production_uuids_not_required_without_extension() {
    let model = model_with_object();
    assert!(validate_production_uuids_required(&model).is_ok());
}

#[test]
fn test_component_chain_accepts_any_model() {
    let mut model = model_with_object();
    let mut component = Component::new(1);
    component.production = production(Some(UUID_A), Some("/3D/other.model"));
    model.resources.objects[0].components.push(component);
    assert!(validate_component_chain(&model).is_ok());
}
