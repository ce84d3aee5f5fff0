use lib3mf::model::{
    BaseMaterial, BaseMaterialGroup, BeamSet, BlendMethod, BuildItem, ColorGroup, Component,
    Extension, Mesh, MetadataEntry, Model, MultiProperties, Object, ProductionInfo, Triangle,
    Vertex,
};
use lib3mf::xml::{model_xml_events, XmlEvent, XmlValue};
use quick_xml::events::{BytesDecl, BytesEnd, BytesStart, BytesText, Event};
use quick_xml::Writer;

fn value_text(value: &XmlValue) -> String {
    match value {
        XmlValue::Text(t) => t.clone(),
        XmlValue::Numbers(bits) => bits
            .iter()
            .map(|b| f64::from_bits(*b).to_string())
            .collect::<Vec<_>>()
            .join(" "),
    }
}

fn start_tag<'a>(name: &'a str, attrs: &[(String, XmlValue)]) -> BytesStart<'a> {
    let mut elem = BytesStart::new(name);
    for (key, value) in attrs {
        elem.push_attribute((key.as_str(), value_text(value).as_str()));
    }
    elem
}

/// The model's events written as indented XML.
fn model_xml(model: &Model) -> String {
    let mut xml = Writer::new_with_indent(Vec::new(), b' ', 2);
    for event in model_xml_events(model) {
        let quick = match &event {
            XmlEvent::Decl => Event::Decl(BytesDecl::new("1.0", Some("UTF-8"), None)),
            XmlEvent::Start { name, attrs } => Event::Start(start_tag(name, attrs)),
            XmlEvent::Empty { name, attrs } => Event::Empty(start_tag(name, attrs)),
            XmlEvent::End { name } => Event::End(BytesEnd::new(name.as_str())),
            XmlEvent::Text(text) => Event::Text(BytesText::new(text)),
        };
        xml.write_event(quick).unwrap();
    }
    String::from_utf8(xml.into_inner()).unwrap()
}

/// The attributes of the first start or empty tag named `name`, as text.
fn attrs_of(events: &[XmlEvent], name: &str) -> Vec<(String, String)> {
    for event in events {
        match event {
            XmlEvent::Start { name: n, attrs } | XmlEvent::Empty { name: n, attrs } if n == name => {
                return attrs.iter().map(|(k, v)| (k.clone(), value_text(v))).collect();
            }
            _ => {}
        }
    }
    panic!("no element {}", name)
}

fn pairs(items: &[(&str, &str)]) -> Vec<(String, String)> {
    items.iter().map(|(k, v)| (k.to_string(), v.to_string())).collect()
}

#[test]
fn test_write_minimal_model() {
    let mut model = Model::new();
    model.unit = "millimeter".to_string();

    let xml = model_xml(&model);
    assert!(xml.contains("<?xml version=\"1.0\" encoding=\"UTF-8\"?>"));
    assert!(xml.contains("<model"));
    assert!(xml.contains("unit=\"millimeter\""));
    assert!(xml.contains("<resources"));
    assert!(xml.contains("<build"));
}

#[test]
fn test_write_model_with_metadata() {
    let mut model = Model::new();
    model.metadata.push(MetadataEntry::new("Title".to_string(), "Test Model".to_string()));
    model.metadata.push(MetadataEntry::new("Designer".to_string(), "lib3mf_rust".to_string()));

    let xml = model_xml(&model);
    assert!(xml.contains("<metadata name=\"Title\">Test Model</metadata>"));
    assert!(xml.contains("<metadata name=\"Designer\">lib3mf_rust</metadata>"));
}

#[test]
fn test_write_model_with_simple_mesh() {
    let mut model = Model::new();

    let mut mesh = Mesh::new();
    mesh.vertices.push(Vertex::new(0.0f64.to_bits(), 0.0f64.to_bits(), 0.0f64.to_bits()));
    mesh.vertices.push(Vertex::new(10.0f64.to_bits(), 0.0f64.to_bits(), 0.0f64.to_bits()));
    mesh.vertices.push(Vertex::new(5.0f64.to_bits(), 10.0f64.to_bits(), 0.0f64.to_bits()));
    mesh.triangles.push(Triangle::new(0, 1, 2));

    let mut object = Object::new(1);
    object.mesh = Some(mesh);

    model.resources.objects.push(object);
    model.build.items.push(BuildItem::new(1));

    let xml = model_xml(&model);
    assert!(xml.contains("<object id=\"1\""));
    assert!(xml.contains("<mesh>"));
    assert!(xml.contains("<vertices>"));
    assert!(xml.contains("<triangles>"));
    assert!(xml.contains("v1=\"0\" v2=\"1\" v3=\"2\""));
}

#[test]
fn test_events_of_empty_model() {
    let events = model_xml_events(&Model::new());
    let names: Vec<String> = events
        .iter()
        .map(|e| match e {
            XmlEvent::Decl => "decl".to_string(),
            XmlEvent::Start { name, .. } => format!("<{}", name),
            XmlEvent::Empty { name, .. } => format!("<{}/", name),
            XmlEvent::End { name } => format!("{}>", name),
            XmlEvent::Text(t) => t.clone(),
        })
        .collect();
    assert_eq!(
        names,
        vec!["decl", "<model", "<resources", "resources>", "<build", "build>", "model>"]
    );
    assert_eq!(
        attrs_of(&events, "model"),
        pairs(&[
            ("unit", "millimeter"),
            ("xml:lang", "en-US"),
            ("xmlns", "http://schemas.microsoft.com/3dmanufacturing/core/2015/02"),
        ])
    );
}

#[test]
fn test_events_required_extensions() {
    let mut model = Model::new();
    model.required_extensions.push(Extension::Core);
    model.required_extensions.push(Extension::Material);
    model.required_extensions.push(Extension::BooleanOperations);
    let attrs = attrs_of(&model_xml_events(&model), "model");
    assert_eq!(attrs.len(), 6);
    assert_eq!(
        attrs[3],
        ("xmlns:m".to_string(), "http://schemas.microsoft.com/3dmanufacturing/material/2015/02".to_string())
    );
    assert_eq!(
        attrs[4],
        (
            "xmlns:bool".to_string(),
            "http://schemas.3mf.io/3dmanufacturing/booleanoperations/2023/07".to_string()
        )
    );
    assert_eq!(attrs[5], ("requiredextensions".to_string(), "m bool".to_string()));
}

#[test]
fn test_events_only_core_required_has_no_required_attribute() {
    let mut model = Model::new();
    model.required_extensions.push(Extension::Core);
    assert_eq!(attrs_of(&model_xml_events(&model), "model").len(), 3);
}

#[test]
fn test_events_colors_in_upper_hex() {
    let mut model = Model::new();
    let mut group = ColorGroup::new(7);
    group.colors.push((255, 0, 171, 16));
    model.resources.color_groups.push(group);
    let mut base = BaseMaterialGroup::new(3);
    base.materials.push(BaseMaterial::new("Red".to_string(), (0xff, 0, 0, 0xff)));
    model.resources.base_material_groups.push(base);
    let events = model_xml_events(&model);
    assert_eq!(attrs_of(&events, "m:colorgroup"), pairs(&[("id", "7")]));
    assert_eq!(attrs_of(&events, "m:color"), pairs(&[("color", "#FF00AB10")]));
    assert_eq!(
        attrs_of(&events, "m:base"),
        pairs(&[("name", "Red"), ("displaycolor", "#FF0000FF")])
    );
    // base materials come before colour groups
    let xml = model_xml(&model);
    assert!(xml.find("m:basematerials").unwrap() < xml.find("m:colorgroup").unwrap());
}

#[test]
fn test_events_multiproperties_lists() {
    let mut model = Model::new();
    let mut mp = MultiProperties::new(9, vec![1, 2, 30]);
    mp.blendmethods.push(BlendMethod::Mix);
    mp.blendmethods.push(BlendMethod::Multiply);
    model.resources.multi_properties.push(mp);
    model.resources.multi_properties.push(MultiProperties::new(10, vec![4]));
    let events = model_xml_events(&model);
    assert_eq!(
        attrs_of(&events, "m:multiproperties"),
        pairs(&[("id", "9"), ("pids", "1 2 30"), ("blendmethods", "mix multiply")])
    );
    let xml = model_xml(&model);
    assert!(xml.contains("<m:multiproperties id=\"10\" pids=\"4\">"));
}

#[test]
fn test_events_object_attributes_and_transform() {
    let mut model = Model::new();
    let mut object = Object::new(4);
    object.name = Some("part".to_string());
    object.pid = Some(2);
    let mut production = ProductionInfo::new();
    production.uuid = Some("u-1".to_string());
    object.production = Some(production);
    let mut component = Component::new(5);
    let mut t = [0.0f64.to_bits(); 12];
    t[0] = 1.0f64.to_bits();
    t[4] = 1.0f64.to_bits();
    t[8] = 1.0f64.to_bits();
    t[9] = 2.5f64.to_bits();
    component.transform = Some(t);
    object.components.push(component);
    model.resources.objects.push(object);
    let events = model_xml_events(&model);
    assert_eq!(
        attrs_of(&events, "object"),
        pairs(&[("id", "4"), ("type", "model"), ("name", "part"), ("pid", "2"), ("p:UUID", "u-1")])
    );
    assert_eq!(
        attrs_of(&events, "component"),
        pairs(&[("objectid", "5"), ("transform", "1 0 0 0 1 0 0 0 1 2.5 0 0")])
    );
    let xml = model_xml(&model);
    assert!(!xml.contains("<mesh"));
    assert!(xml.contains("<components>"));
}

#[test]
fn test_events_beamset() {
    let mut model = Model::new();
    let mut mesh = Mesh::new();
    let mut beams = BeamSet::new();
    beams.beams.push(lib3mf::model::Beam::with_radii(0, 1, 0.5f64.to_bits(), 0.25f64.to_bits()));
    mesh.beamset = Some(beams);
    let mut object = Object::new(1);
    object.mesh = Some(mesh);
    model.resources.objects.push(object);
    let events = model_xml_events(&model);
    assert_eq!(
        attrs_of(&events, "b:beamset"),
        pairs(&[("radius", "1"), ("minlength", "0.0001"), ("capmode", "sphere")])
    );
    assert_eq!(
        attrs_of(&events, "b:beam"),
        pairs(&[("v1", "0"), ("v2", "1"), ("r1", "0.5"), ("r2", "0.25")])
    );
}

#[test]
fn test_events_metadata_preserve() {
    let mut model = Model::new();
    let mut entry = MetadataEntry::new("Title".to_string(), "x".to_string());
    entry.preserve = Some(true);
    model.metadata.push(entry);
    let xml = model_xml(&model);
    assert!(xml.contains("<metadata name=\"Title\" preserve=\"1\">x</metadata>"));
}

#[test]
fn test_events_well_nested() {
    let mut model = Model::new();
    model.required_extensions.push(Extension::Material);
    model.metadata.push(MetadataEntry::new("Title".to_string(), "t".to_string()));
    let mut group = ColorGroup::new(2);
    group.colors.push((1, 2, 3, 4));
    model.resources.color_groups.push(group);
    let mut mesh = Mesh::new();
    mesh.vertices.push(Vertex::new(0.0f64.to_bits(), 0.0f64.to_bits(), 0.0f64.to_bits()));
    mesh.triangles.push(Triangle::new(0, 0, 0));
    mesh.beamset = Some(BeamSet::new());
    let mut object = Object::new(1);
    object.mesh = Some(mesh);
    object.components.push(Component::new(3));
    model.resources.objects.push(object);
    model.build.items.push(BuildItem::new(1));
    let mut open: Vec<String> = Vec::new();
    for event in model_xml_events(&model) {
        match event {
            XmlEvent::Start { name, .. } => open.push(name),
            XmlEvent::End { name } => assert_eq!(open.pop(), Some(name)),
            _ => {}
        }
    }
    assert!(open.is_empty());
}
