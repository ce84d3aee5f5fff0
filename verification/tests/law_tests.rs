use lib3mf::model::{
    BaseMaterialGroup, BooleanOpType, BooleanShape, BuildItem, ColorGroup, MultiProperties, Component, Extension, Model, Object, ParserConfig,
    ProductionInfo,
};
use lib3mf::validator::{
    get_property_resource_size, validate_component_references, validate_multiproperties_references,
    validate_required_extensions, validate_material_references, validate_production_extension,
    validate_production_extension_with_config,
};

#[test]
fn test_law_config_check_refuses_what_plain_check_refuses() {
    let mut model = Model::new();
    model.required_extensions.push(Extension::Production);
    let mut object = Object::new(1);
    let mut info = ProductionInfo::new();
    info.path = Some("3D/part.model".to_string());
    object.production = Some(info);
    model.resources.objects.push(object);
    model.build.items.push(BuildItem::new(1));
    let plain = validate_production_extension(&model).unwrap_err().to_string();
    let config = validate_production_extension_with_config(&model, &ParserConfig::with_all_extensions())
        .unwrap_err()
        .to_string();
    assert_eq!(plain, config);
}

#[test]
fn test_law_duplicate_group_id_reported_before_references() {
    let mut model = Model::new();
    model.resources.color_groups.push(ColorGroup::new(5));
    model.resources.base_material_groups.push(BaseMaterialGroup::new(5));
    let mut object = Object::new(1);
    object.pid = Some(99);
    model.resources.objects.push(object);
    let msg = validate_material_references(&model).unwrap_err().to_string();
    assert!(msg.contains(
        "Duplicate resource ID: 5. This ID is used by both a colorgroup and a basematerials group."
    ));
}

#[test]
fn test_law_three_object_component_cycle_refused() {
    let mut model = Model::new();
    for (id, next) in [(1, 2), (2, 3), (3, 1)] {
        let mut object = Object::new(id);
        object.components.push(Component::new(next));
        model.resources.objects.push(object);
    }
    let msg = validate_component_references(&model).unwrap_err().to_string();
    assert!(msg.contains("Circular component reference: 1 \u{2192} 2 \u{2192} 3 \u{2192} 1"));
}

#[test]
fn test_law_acyclic_components_pass() {
    let mut model = Model::new();
    for (id, next) in [(1, 2), (2, 3)] {
        let mut object = Object::new(id);
        object.components.push(Component::new(next));
        model.resources.objects.push(object);
    }
    model.resources.objects.push(Object::new(3));
    assert!(validate_component_references(&model).is_ok());
}

#[test]
fn test_law_missing_property_resource_not_found() {
    let model = Model::new();
    let msg = get_property_resource_size(&model, 3).unwrap_err().to_string();
    assert!(msg.contains("not found"));
}

#[test]
fn test_law_two_color_layers_refused() {
    let mut model = Model::new();
    model.resources.color_groups.push(ColorGroup::new(5));
    model.resources.color_groups.push(ColorGroup::new(6));
    model.resources.multi_properties.push(MultiProperties::new(7, vec![5, 6]));
    assert!(validate_multiproperties_references(&model).is_err());
    let mut model = Model::new();
    model.resources.base_material_groups.push(BaseMaterialGroup::new(1));
    model.resources.color_groups.push(ColorGroup::new(6));
    model.resources.multi_properties.push(MultiProperties::new(7, vec![6, 1]));
    assert!(validate_multiproperties_references(&model).is_err());
    let mut model = Model::new();
    model.resources.base_material_groups.push(BaseMaterialGroup::new(1));
    model.resources.color_groups.push(ColorGroup::new(6));
    model.resources.multi_properties.push(MultiProperties::new(7, vec![1, 6]));
    assert!(validate_multiproperties_references(&model).is_ok());
}

#[test]
fn test_law_boolean_shape_needs_declaration() {
    let mut model = Model::new();
    let mut object = Object::new(2);
    object.boolean_shape = Some(BooleanShape::new(1, BooleanOpType::Union));
    model.resources.objects.push(object);
    assert!(validate_required_extensions(&model).is_err());
    model.required_extensions.push(Extension::BooleanOperations);
    assert!(validate_required_extensions(&model).is_ok());
}
