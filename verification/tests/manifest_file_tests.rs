use arduino_mcp_adapter::json::{Json, JsonNumber};
use arduino_mcp_adapter::manifest::{Function, Manifest, Parameter};
use arduino_mcp_adapter::manifest_file::{
    read_function, read_parameter, read_text, Field, FormatError, Place,
};

fn text(value: &str) -> Json {
    Json::Str(value.to_string())
}

fn whole(v: i64) -> Json {
    Json::integer(v)
}

fn object(members: Vec<(&str, Json)>) -> Json {
    Json::Object(members.into_iter().map(|(k, v)| (k.to_string(), v)).collect())
}

fn set_speed() -> Json {
    object(vec![
        ("tag", whole(3)),
        ("name", text("setSpeed")),
        ("desc", text("Set the speed")),
        ("params", Json::Array(vec![object(vec![("name", text("value")), ("type", text("i16"))])])),
    ])
}

fn get_position() -> Json {
    object(vec![
        ("name", text("getPosition")),
        ("return", text("i32")),
        ("extra", Json::Bool(true)),
        ("desc", text("Get the position")),
        ("params", Json::Array(vec![])),
        ("tag", whole(7)),
    ])
}

fn file(functions: Vec<Json>) -> Json {
    object(vec![
        ("name", text("Test robot")),
        ("description", text("A robot for tests")),
        ("version", text("1.0.0")),
        ("functions", Json::Array(functions)),
    ])
}

fn replaced(value: &Json, key: &str, with: Option<Json>) -> Json {
    match value {
        Json::Object(members) => {
            let mut out = Vec::new();
            for (k, v) in members {
                if k == key {
                    if let Some(w) = &with {
                        out.push((k.clone(), w.duplicate()));
                    }
                } else {
                    out.push((k.clone(), v.duplicate()));
                }
            }
            Json::Object(out)
        }
        other => other.duplicate(),
    }
}

#[test]
fn manifest_file_is_read_field_by_field() {
    let manifest = Manifest::from_json(&file(vec![set_speed(), get_position()])).unwrap();
    assert_eq!(
        manifest,
        Manifest {
            name: "Test robot".to_string(),
            description: "A robot for tests".to_string(),
            version: "1.0.0".to_string(),
            functions: vec![
                Function {
                    tag: 3,
                    name: "setSpeed".to_string(),
                    desc: "Set the speed".to_string(),
                    return_type: None,
                    params: vec![Parameter {
                        name: "value".to_string(),
                        param_type: "i16".to_string(),
                    }],
                },
                Function {
                    tag: 7,
                    name: "getPosition".to_string(),
                    desc: "Get the position".to_string(),
                    return_type: Some("i32".to_string()),
                    params: vec![],
                },
            ],
        }
    );
    assert_eq!(Manifest::from_json(&file(vec![])).unwrap().functions, vec![]);
}

#[test]
fn manifest_file_must_be_an_object_with_its_fields() {
    for value in [Json::Null, Json::Array(vec![]), text("x"), whole(1)] {
        assert_eq!(Manifest::from_json(&value), Err(FormatError::NotAnObject(Place::Manifest)));
    }
    let good = file(vec![set_speed()]);
    for (key, field) in [
        ("name", Field::Name),
        ("description", Field::Description),
        ("version", Field::Version),
        ("functions", Field::Functions),
    ] {
        assert_eq!(
            Manifest::from_json(&replaced(&good, key, None)),
            Err(FormatError::Missing(Place::Manifest, field))
        );
        assert_eq!(
            Manifest::from_json(&replaced(&good, key, Some(whole(1)))),
            Err(FormatError::Mistyped(Place::Manifest, field))
        );
        assert_eq!(
            Manifest::from_json(&replaced(&good, key, Some(Json::Null))),
            Err(FormatError::Mistyped(Place::Manifest, field))
        );
    }
    assert_eq!(
        Manifest::from_json(&object(vec![])),
        Err(FormatError::Missing(Place::Manifest, Field::Name))
    );
}

#[test]
fn functions_must_have_their_fields() {
    let place = Place::Function { function: 1 };
    for (key, field) in [
        ("tag", Field::Tag),
        ("name", Field::Name),
        ("desc", Field::Desc),
        ("params", Field::Params),
    ] {
        let broken = replaced(&get_position(), key, None);
        assert_eq!(
            Manifest::from_json(&file(vec![set_speed(), broken])),
            Err(FormatError::Missing(place, field))
        );
        let broken = replaced(&get_position(), key, Some(Json::Bool(true)));
        assert_eq!(
            Manifest::from_json(&file(vec![set_speed(), broken])),
            Err(FormatError::Mistyped(place, field))
        );
    }
    assert_eq!(
        Manifest::from_json(&file(vec![set_speed(), whole(7)])),
        Err(FormatError::NotAnObject(place))
    );
    assert_eq!(
        Manifest::from_json(&file(vec![whole(7), text("x")])),
        Err(FormatError::NotAnObject(Place::Function { function: 0 }))
    );
}

#[test]
fn tags_are_integers_of_one_byte() {
    for tag in [whole(0), whole(1), whole(255)] {
        assert!(read_function(&replaced(&get_position(), "tag", Some(tag)), 0).is_ok());
    }
    assert_eq!(
        read_function(&replaced(&get_position(), "tag", Some(whole(255))), 0).unwrap().tag,
        255
    );
    for tag in [
        whole(256),
        whole(-1),
        text("7"),
        Json::Number(JsonNumber::Float("7.0".to_string())),
        Json::Number(JsonNumber::PosInt(u64::MAX)),
        Json::Null,
    ] {
        assert_eq!(
            read_function(&replaced(&get_position(), "tag", Some(tag)), 4),
            Err(FormatError::Mistyped(Place::Function { function: 4 }, Field::Tag))
        );
    }
}

#[test]
fn return_type_may_be_absent_or_null() {
    assert_eq!(read_function(&set_speed(), 0).unwrap().return_type, None);
    assert_eq!(
        read_function(&replaced(&get_position(), "return", Some(Json::Null)), 0)
            .unwrap()
            .return_type,
        None
    );
    assert_eq!(
        read_function(&get_position(), 0).unwrap().return_type,
        Some("i32".to_string())
    );
    assert_eq!(
        read_function(&replaced(&get_position(), "return", Some(whole(32))), 2),
        Err(FormatError::Mistyped(Place::Function { function: 2 }, Field::Return))
    );
}

#[test]
fn parameters_must_have_name_and_type() {
    let place = Place::Parameter { function: 0, parameter: 1 };
    let good = object(vec![("name", text("a")), ("type", text("i16"))]);
    let cases: Vec<(Json, FormatError)> = vec![
        (whole(1), FormatError::NotAnObject(place)),
        (object(vec![("type", text("i16"))]), FormatError::Missing(place, Field::Name)),
        (object(vec![("name", text("b"))]), FormatError::Missing(place, Field::Type)),
        (
            object(vec![("name", whole(1)), ("type", whole(2))]),
            FormatError::Mistyped(place, Field::Name),
        ),
        (
            object(vec![("name", text("b")), ("type", Json::Null)]),
            FormatError::Mistyped(place, Field::Type),
        ),
    ];
    for (bad, expected) in cases {
        let func = replaced(
            &set_speed(),
            "params",
            Some(Json::Array(vec![good.duplicate(), bad.duplicate(), whole(0)])),
        );
        assert_eq!(Manifest::from_json(&file(vec![func])), Err(expected));
        assert_eq!(read_parameter(&bad, place), Err(expected));
    }
    assert_eq!(
        read_parameter(&good, place),
        Ok(Parameter { name: "a".to_string(), param_type: "i16".to_string() })
    );
    assert_eq!(read_text(&good, place, Field::Name), Ok("a".to_string()));
}

#[test]
fn format_errors_in_words() {
    assert_eq!(
        FormatError::NotAnObject(Place::Manifest).message(),
        "manifest: expected an object"
    );
    assert_eq!(
        FormatError::Missing(Place::Function { function: 2 }, Field::Tag).message(),
        "function 2: missing field `tag`"
    );
    assert_eq!(
        FormatError::Mistyped(Place::Parameter { function: 12, parameter: 0 }, Field::Type)
            .message(),
        "parameter 0 of function 12: field `type` has the wrong type"
    );
    let names = [
        (Field::Name, "name"),
        (Field::Description, "description"),
        (Field::Version, "version"),
        (Field::Functions, "functions"),
        (Field::Tag, "tag"),
        (Field::Desc, "desc"),
        (Field::Return, "return"),
        (Field::Params, "params"),
        (Field::Type, "type"),
    ];
    for (field, name) in names {
        assert_eq!(field.name(), name);
    }
    assert_eq!(Place::Manifest.describe(), "manifest");
}
