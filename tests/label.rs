use debug_tui::dbgp::Property;
use debug_tui::dbgp::PropertyType;
use debug_tui::label::draw_properties;
use debug_tui::label::render_label;

#[test]
fn test_render_label() {
    assert_eq!(
        Some(String::from("Foo{true:true,bar:\"foo\"}")),
        render_label(&create_object())
    );
    assert_eq!(
        Some(String::from("true")),
        render_label(&create_simple_property(PropertyType::Bool, "1"))
    );
    assert_eq!(
        Some(String::from("false")),
        render_label(&create_simple_property(PropertyType::Bool, "0"))
    );
    assert_eq!(
        Some(String::from("12")),
        render_label(&create_simple_property(PropertyType::Int, "12"))
    );
    assert_eq!(
        Some(String::from("\"12\"")),
        render_label(&create_simple_property(PropertyType::String, "12"))
    );
    assert_eq!(
        Some(String::from("null")),
        render_label(&create_simple_property(PropertyType::Null, ""))
    );
    assert_eq!(
        Some(String::from("undefined")),
        render_label(&create_simple_property(PropertyType::Undefined, ""))
    );
    assert_eq!(
        Some(String::from("resource id='18' type='stream'")),
        render_label(&create_resource())
    );
}

#[test]
fn empty_array_label() {
    let mut p = create_simple_property(PropertyType::Array, "");
    p.value = None;
    assert_eq!(Some(String::from("array{}")), render_label(&p));
}

fn create_simple_property(property_type: PropertyType, value: &str) -> Property {
    Property {
        name: "test".to_string(),
        fullname: "test".to_string(),
        classname: None,
        page: None,
        pagesize: None,
        property_type,
        facet: None,
        size: None,
        children: Vec::new(),
        key: None,
        address: None,
        encoding: None,
        value: Some(value.to_string()),
    }
}

fn create_resource() -> Property {
    Property {
        name: "handle".to_string(),
        fullname: "handle".to_string(),
        classname: None,
        page: None,
        pagesize: None,
        property_type: PropertyType::Resource,
        facet: Some("private".to_string()),
        size: None,
        children: vec![],
        key: None,
        address: None,
        encoding: None,
        value: Some("resource id='18' type='stream'".to_string()),
    }
}

fn create_object() -> Property {
    Property {
        name: "$this".to_string(),
        fullname: "$this".to_string(),
        classname: Some("Foo".to_string()),
        page: Some(0),
        pagesize: Some(32),
        property_type: PropertyType::Object,
        facet: None,
        size: None,
        children: vec![
            Property {
                name: "true".to_string(),
                fullname: "true".to_string(),
                classname: None,
                page: None,
                pagesize: None,
                property_type: PropertyType::Bool,
                facet: Some("public".to_string()),
                size: None,
                children: vec![],
                key: None,
                address: None,
                encoding: None,
                value: Some("1".to_string()),
            },
            Property {
                name: "bar".to_string(),
                fullname: "bar".to_string(),
                classname: None,
                page: None,
                pagesize: None,
                property_type: PropertyType::String,
                facet: Some("public".to_string()),
                size: Some(3),
                children: vec![],
                key: None,
                address: None,
                encoding: Some("base64".to_string()),
                value: Some("foo".to_string()),
            },
        ],
        key: None,
        address: None,
        encoding: None,
        value: None,
    }
}

fn named(name: &str, children: Vec<Property>) -> Property {
    Property {
        name: name.to_string(),
        fullname: String::new(),
        classname: None,
        page: None,
        pagesize: None,
        property_type: PropertyType::String,
        facet: None,
        size: None,
        children,
        key: None,
        address: None,
        encoding: None,
        value: None,
    }
}

#[test]
fn eval_test_draw_properties_empty() {
    let mut lines = vec![];
    draw_properties(&Vec::new(), &mut lines, 0);
    assert_eq!(0, lines.len());
}

#[test]
fn eval_test_draw_properties_two_levels() {
    let mut lines = vec![];
    let prop2 = named("bar", vec![]);
    let prop1 = named("foo", vec![prop2]);

    draw_properties(&vec![prop1], &mut lines, 0);
    assert_eq!(
        vec!["foo string = {", "  bar string = ", "}"],
        lines.iter().map(|l| l.to_string()).collect::<Vec<String>>()
    );
}

#[test]
fn arrays_use_brackets_and_unnamed_values_skip_the_space() {
    let mut lines = vec![];
    let mut list = named("", vec![named("0", vec![])]);
    list.property_type = PropertyType::Array;
    draw_properties(&vec![list], &mut lines, 1);
    assert_eq!(vec!["  array = [", "    0 string = ", "  ]"], lines);
}
