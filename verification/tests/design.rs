use chill::design::{Design, DesignBuilder, ViewFunction, ViewName};
use chill::error::ChillError;
use chill::record::FieldFault;

#[test]
fn view_function_new() {
    let map_function = r#"function(doc) { emit(doc.key, doc.value); }"#;

    let got = ViewFunction::new(map_function);

    assert_eq!(String::from(map_function), got.map);
    assert_eq!(None, got.reduce);
    assert_eq!(ViewFunction::new(map_function), got);
}

#[test]
fn view_function_new_with_reduce() {
    let map_function = r#"function(doc) { emit(doc.key, doc.value); }"#;
    let reduce_function = r#"_count"#;

    let got = ViewFunction::new_with_reduce(map_function, reduce_function);

    assert_eq!(String::from(map_function), got.map);
    assert_eq!(Some(String::from(reduce_function)), got.reduce);
    assert_eq!(ViewFunction::new_with_reduce(map_function, reduce_function), got);
}

#[test]
fn view_function_fields_of_documented_example() {
    let view_function = ViewFunction::new_with_reduce(
        "function(doc) { emit(doc.key_thing, doc.value_thing); }",
        "_sum",
    );
    assert_eq!("function(doc) { emit(doc.key_thing, doc.value_thing); }", view_function.map);
    assert_eq!(Some(String::from("_sum")), view_function.reduce);
    assert_eq!(
        "function(doc) { emit(doc.key_thing, doc.value_thing); }",
        view_function.map_function()
    );
    assert_eq!(Some("_sum"), view_function.reduce_function());
}

#[test]
fn view_function_equality_tells_functions_apart() {
    let plain = ViewFunction::new("function(doc) {}");
    let reduced = ViewFunction::new_with_reduce("function(doc) {}", "_sum");
    let other_reduce = ViewFunction::new_with_reduce("function(doc) {}", "_count");
    let other_map = ViewFunction::new("function(doc) { emit(doc); }");
    assert_ne!(plain, reduced);
    assert_ne!(reduced, other_reduce);
    assert_ne!(plain, other_map);
    assert_eq!(reduced.clone(), reduced);
    assert!(!plain.is_same(&reduced));
    assert!(plain.is_same(&plain.clone()));
}

#[test]
fn view_name_keeps_its_text() {
    let name = ViewName::new("alpha");
    assert_eq!("alpha", name.as_str());
    assert_eq!(ViewName::new("alpha"), name);
    assert_ne!(ViewName::new("bravo"), name);
    assert_eq!(name.clone(), name);
}

#[test]
fn design_builder_starts_empty() {
    let design = DesignBuilder::new().unwrap();
    assert_eq!(0, design.len());
    assert_eq!(None, design.get("alpha"));
    assert!(design.names().is_empty());
}

fn two_views() -> Design {
    DesignBuilder::new()
        .insert_view(
            "alpha",
            ViewFunction::new("function(doc) { emit(doc.key_thing, doc.value_thing); }"),
        )
        .insert_view(
            "bravo",
            ViewFunction::new_with_reduce(
                "function(doc) { emit(doc.key_thing_2, doc.value_thing_2); }",
                "_sum",
            ),
        )
        .unwrap()
}

#[test]
fn design_builder_inserts_views() {
    let design = two_views();
    assert_eq!(2, design.len());
    assert_eq!(
        Some(&ViewFunction::new("function(doc) { emit(doc.key_thing, doc.value_thing); }")),
        design.get("alpha")
    );
    assert_eq!(
        Some(&ViewFunction::new_with_reduce(
            "function(doc) { emit(doc.key_thing_2, doc.value_thing_2); }",
            "_sum"
        )),
        design.get("bravo")
    );
    assert_eq!(None, design.get("charlie"));
    let mut names = design.names();
    names.sort();
    assert_eq!(vec![String::from("alpha"), String::from("bravo")], names);
}

#[test]
fn design_builder_replaces_a_view_of_the_same_name() {
    let design = DesignBuilder::new()
        .insert_view("alpha", ViewFunction::new("first"))
        .insert_view("bravo", ViewFunction::new("second"))
        .insert_view("alpha", ViewFunction::new_with_reduce("third", "_count"))
        .unwrap();
    assert_eq!(2, design.len());
    assert_eq!(Some(&ViewFunction::new_with_reduce("third", "_count")), design.get("alpha"));
    assert_eq!(Some(&ViewFunction::new("second")), design.get("bravo"));
}

#[test]
fn design_equality_ignores_the_order_of_insertion() {
    let one = DesignBuilder::new()
        .insert_view("alpha", ViewFunction::new("a"))
        .insert_view("bravo", ViewFunction::new("b"))
        .unwrap();
    let other = DesignBuilder::new()
        .insert_view("bravo", ViewFunction::new("b"))
        .insert_view("alpha", ViewFunction::new("a"))
        .unwrap();
    assert_eq!(one, other);
    assert!(one.is_same(&other));
    let changed = DesignBuilder::new()
        .insert_view("bravo", ViewFunction::new("b"))
        .insert_view("alpha", ViewFunction::new("changed"))
        .unwrap();
    assert_ne!(one, changed);
    let shorter = DesignBuilder::new().insert_view("alpha", ViewFunction::new("a")).unwrap();
    assert_ne!(one, shorter);
    let renamed = DesignBuilder::new()
        .insert_view("alpha", ViewFunction::new("a"))
        .insert_view("charlie", ViewFunction::new("b"))
        .unwrap();
    assert_ne!(one, renamed);
}

fn view_function_object(members: &[(&str, &str)]) -> serde_json::Value {
    let mut object = serde_json::Map::new();
    for (name, text) in members {
        object.insert(String::from(*name), serde_json::Value::String(String::from(*text)));
    }
    serde_json::Value::Object(object)
}

fn view_function_encoded(view_function: &ViewFunction) -> String {
    let mut object = serde_json::Map::new();
    for (name, text) in view_function.to_members() {
        object.insert(name, serde_json::Value::String(text));
    }
    serde_json::to_string(&serde_json::Value::Object(object)).unwrap()
}

#[test]
fn view_function_serialize_without_reduce() {
    let view_function =
        ViewFunction::new("function(doc) { emit(doc.key_thing, doc.value_thing); }");

    let encoded = view_function_encoded(&view_function);

    let expected = view_function_object(&[("map", &view_function.map)]);

    let got: serde_json::Value = serde_json::from_str(&encoded).unwrap();
    assert_eq!(expected, got);
}

#[test]
fn view_function_serialize_with_reduce() {
    let view_function = ViewFunction::new_with_reduce(
        "function(doc) { emit(doc.key_thing, doc.value_thing); }",
        "_sum",
    );

    let encoded = view_function_encoded(&view_function);

    let expected = view_function_object(&[
        ("map", &view_function.map),
        ("reduce", view_function.reduce.as_ref().unwrap()),
    ]);

    let got: serde_json::Value = serde_json::from_str(&encoded).unwrap();
    assert_eq!(expected, got);
}

#[test]
fn view_function_deserialize_ok_without_reduce() {
    let expected = ViewFunction::new("function(doc) { emit(doc.key_thing, doc.value_thing); }");

    let source = view_function_object(&[(
        "map",
        "function(doc) { emit(doc.key_thing, doc.value_thing); }",
    )]);

    let source = serde_json::to_string(&source).unwrap();
    let got = ViewFunction::from_json(source.as_bytes()).unwrap();
    assert_eq!(expected, got);
}

#[test]
fn view_function_deserialize_ok_with_reduce() {
    let expected = ViewFunction::new_with_reduce(
        "function(doc) { emit(doc.key_thing, doc.value_thing); }",
        "_sum",
    );

    let source = view_function_object(&[
        ("map", "function(doc) { emit(doc.key_thing, doc.value_thing); }"),
        ("reduce", "_sum"),
    ]);

    let source = serde_json::to_string(&source).unwrap();
    let got = ViewFunction::from_json(source.as_bytes()).unwrap();
    assert_eq!(expected, got);
}

#[test]
fn view_function_deserialize_nok_missing_map() {
    let source = view_function_object(&[("reduce", "_sum")]);

    let source = serde_json::to_string(&source).unwrap();
    let got = ViewFunction::from_json(source.as_bytes());
    match got {
        Err(ChillError::JsonDecode { cause }) => {
            assert!(cause.to_string().contains("missing field `map`"), "{}", cause);
        },
        other => panic!("expected a JSON decoding error, got {:?}", other),
    }
}

#[test]
fn view_function_decoding_refuses_unknown_fields() {
    let got = ViewFunction::from_json(b"{\"map\": \"m\", \"language\": \"javascript\"}");
    match got {
        Err(ChillError::JsonDecode { cause }) => {
            assert!(cause.to_string().contains("unknown field `language`"), "{}", cause);
        },
        other => panic!("expected a JSON decoding error, got {:?}", other),
    }
    assert!(matches!(
        ViewFunction::from_json(b"{\"map\": \"m\", \"reduce\": null}"),
        Err(ChillError::JsonDecode { .. })
    ));
    assert!(matches!(ViewFunction::from_json(b"[]"), Err(ChillError::JsonDecode { .. })));
}

#[test]
fn view_function_members_round_trip() {
    for view_function in [
        ViewFunction::new("function(doc) {}"),
        ViewFunction::new_with_reduce("function(doc) {}", "_count"),
        ViewFunction::new(""),
    ] {
        let members = view_function.to_members();
        assert_eq!(view_function, ViewFunction::from_members(&members).unwrap());
    }
    assert_eq!(
        vec![(String::from("map"), String::from("m"))],
        ViewFunction::new("m").to_members()
    );
    assert_eq!(
        vec![(String::from("map"), String::from("m")), (String::from("reduce"), String::from("r"))],
        ViewFunction::new_with_reduce("m", "r").to_members()
    );
    assert!(matches!(
        ViewFunction::from_members(&vec![(String::from("reduce"), String::from("r"))]),
        Err(FieldFault::Missing("map"))
    ));
    assert!(matches!(
        ViewFunction::from_members(&vec![(String::from("views"), String::from("r"))]),
        Err(FieldFault::Unknown(name)) if name == "views"
    ));
}

fn design_object(design: &Design) -> serde_json::Value {
    let mut views = serde_json::Map::new();
    for name in design.names() {
        let mut view = serde_json::Map::new();
        for (field, text) in design.get(&name).unwrap().to_members() {
            view.insert(field, serde_json::Value::String(text));
        }
        views.insert(name, serde_json::Value::Object(view));
    }
    let mut object = serde_json::Map::new();
    object.insert(String::from("views"), serde_json::Value::Object(views));
    serde_json::Value::Object(object)
}

fn two_views_object() -> serde_json::Value {
    let mut views = serde_json::Map::new();
    views.insert(
        String::from("alpha"),
        view_function_object(&[(
            "map",
            "function(doc) { emit(doc.key_thing, doc.value_thing); }",
        )]),
    );
    views.insert(
        String::from("bravo"),
        view_function_object(&[
            ("map", "function(doc) { emit(doc.key_thing_2, doc.value_thing_2); }"),
            ("reduce", "_sum"),
        ]),
    );
    let mut object = serde_json::Map::new();
    object.insert(String::from("views"), serde_json::Value::Object(views));
    serde_json::Value::Object(object)
}

#[test]
fn design_serialize() {
    let design = two_views();

    let encoded = serde_json::to_string(&design_object(&design)).unwrap();

    let expected = two_views_object();

    let got: serde_json::Value = serde_json::from_str(&encoded).unwrap();
    assert_eq!(expected, got);
}

#[test]
fn design_deserialize_ok_empty() {
    let expected = DesignBuilder::new().unwrap();
    let source = serde_json::Value::Object(serde_json::Map::new());
    let source = serde_json::to_string(&source).unwrap();
    let got = Design::from_json(source.as_bytes()).unwrap();
    assert_eq!(expected, got);
}

#[test]
fn design_deserialize_ok_with_views() {
    let expected = two_views();

    let source = two_views_object();

    let source = serde_json::to_string(&source).unwrap();
    let got = Design::from_json(source.as_bytes()).unwrap();
    assert_eq!(expected, got);
}

#[test]
fn design_decoding_refuses_what_is_no_design() {
    for source in [
        "",
        "[]",
        "{\"views\": []}",
        "{\"views\": {\"alpha\": {}}}",
        "{\"views\": {\"alpha\": {\"reduce\": \"_sum\"}}}",
        "{\"views\": {\"alpha\": {\"map\": 1}}}",
        "{\"views\": {\"alpha\": {\"map\": \"m\"}, \"bravo\": \"b\"}}",
        "{\"_id\": \"_design/x\", \"views\": {}}",
        "{\"views\": {}, \"language\": \"javascript\"}",
    ] {
        assert!(
            matches!(Design::from_json(source.as_bytes()), Err(ChillError::JsonDecode { .. })),
            "{}",
            source
        );
    }
    match Design::from_json(b"{\"language\": \"javascript\"}") {
        Err(ChillError::JsonDecode { cause }) => {
            assert!(cause.to_string().contains("unknown field `language`"), "{}", cause);
        },
        other => panic!("expected a JSON decoding error, got {:?}", other),
    }
}

#[test]
fn design_decoding_keeps_texts_as_they_are() {
    let source = r#"{"views": {"café \"x\"": {"map": "line\nbreak é \\"}}}"#;
    let got = Design::from_json(source.as_bytes()).unwrap();
    assert_eq!(1, got.len());
    assert_eq!(
        Some(&ViewFunction::new("line\nbreak \u{e9} \\")),
        got.get("caf\u{e9} \"x\"")
    );
    let empty_views = Design::from_json(b"{\"views\": {}}").unwrap();
    assert_eq!(0, empty_views.len());
}
