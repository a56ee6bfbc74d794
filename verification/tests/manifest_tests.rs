use arduino_mcp_adapter::json::Json;
use arduino_mcp_adapter::manifest::{
    find_repeated_function_name, find_repeated_parameter, find_repeated_tag, input_schema_for,
    is_known_type, manifest_not_found_message, tools_for, type_to_json_type, validate_manifest,
    wire_type, Function, Manifest, ManifestError, ManifestManager, Parameter, Tool, WireType,
};

fn param(name: &str, param_type: &str) -> Parameter {
    Parameter { name: name.to_string(), param_type: param_type.to_string() }
}

fn function(tag: u8, name: &str, ret: Option<&str>, params: Vec<Parameter>) -> Function {
    Function {
        tag,
        name: name.to_string(),
        desc: format!("{} description", name),
        return_type: ret.map(|t| t.to_string()),
        params,
    }
}

fn manifest(functions: Vec<Function>) -> Manifest {
    Manifest {
        name: "Test robot".to_string(),
        description: "A robot for tests".to_string(),
        version: "1.0.0".to_string(),
        functions,
    }
}

fn text(value: &str) -> Json {
    Json::Str(value.to_string())
}

fn object(members: Vec<(&str, Json)>) -> Json {
    Json::Object(members.into_iter().map(|(k, v)| (k.to_string(), v)).collect())
}

#[test]
fn type_names_map_to_json_schema_primitives() {
    assert_eq!(type_to_json_type("i16"), "integer");
    assert_eq!(type_to_json_type("i32"), "integer");
    assert_eq!(type_to_json_type("i64"), "integer");
    assert_eq!(type_to_json_type("f32"), "number");
    assert_eq!(type_to_json_type("f64"), "number");
    assert_eq!(type_to_json_type("CStr"), "string");
    assert_eq!(type_to_json_type("bool"), "boolean");
    assert_eq!(type_to_json_type("u8"), "string");
    assert_eq!(type_to_json_type(""), "string");
    assert_eq!(type_to_json_type("I16"), "string");
}

#[test]
fn type_names_map_to_wire_types() {
    assert_eq!(wire_type("i16"), WireType::I16);
    assert_eq!(wire_type("i32"), WireType::I32);
    assert_eq!(wire_type("CStr"), WireType::CStr);
    assert_eq!(wire_type("bool"), WireType::Bool);
    assert_eq!(wire_type("f32"), WireType::Other);
    assert_eq!(wire_type("i64"), WireType::Other);
    assert_eq!(wire_type("cstr"), WireType::Other);
    assert!(is_known_type("i16"));
    assert!(is_known_type("f64"));
    assert!(is_known_type("bool"));
    assert!(!is_known_type("i64"));
    assert!(!is_known_type("string"));
}

#[test]
fn consistent_manifest_is_accepted() {
    let m = manifest(vec![
        function(3, "setSpeed", None, vec![param("value", "i16")]),
        function(7, "getPosition", Some("i32"), vec![]),
        function(9, "move", None, vec![param("x", "i16"), param("y", "i16")]),
    ]);
    assert_eq!(validate_manifest(&m), Ok(()));
    assert_eq!(validate_manifest(&manifest(vec![])), Ok(()));
}

#[test]
fn manifest_with_reserved_tag_is_rejected() {
    let m = manifest(vec![
        function(3, "a", None, vec![]),
        function(0, "b", None, vec![]),
        function(0, "c", None, vec![]),
    ]);
    assert_eq!(validate_manifest(&m), Err(ManifestError::ReservedTag { function: 1 }));
}

#[test]
fn manifest_with_repeated_tag_is_rejected() {
    let m = manifest(vec![
        function(3, "a", None, vec![]),
        function(4, "b", None, vec![]),
        function(3, "c", None, vec![]),
        function(4, "d", None, vec![]),
    ]);
    assert_eq!(validate_manifest(&m), Err(ManifestError::DuplicateTag { first: 0, second: 2 }));
    assert_eq!(find_repeated_tag(&m.functions), Some((0, 2)));
}

#[test]
fn manifest_with_repeated_function_name_is_rejected() {
    let m = manifest(vec![
        function(1, "a", None, vec![]),
        function(2, "b", None, vec![]),
        function(3, "b", None, vec![]),
    ]);
    assert_eq!(
        validate_manifest(&m),
        Err(ManifestError::DuplicateFunction { first: 1, second: 2 })
    );
    assert_eq!(find_repeated_function_name(&m.functions), Some((1, 2)));
}

#[test]
fn manifest_with_repeated_parameter_is_rejected() {
    let m = manifest(vec![
        function(1, "a", None, vec![param("x", "i16"), param("y", "i16")]),
        function(2, "b", None, vec![param("x", "i16"), param("y", "i16"), param("x", "i32")]),
    ]);
    assert_eq!(
        validate_manifest(&m),
        Err(ManifestError::DuplicateParameter { function: 1, first: 0, second: 2 })
    );
    assert_eq!(find_repeated_parameter(&m.functions[0].params), None);
    assert_eq!(find_repeated_parameter(&m.functions[1].params), Some((0, 2)));
}

#[test]
fn manifest_with_unknown_parameter_type_is_accepted() {
    let m = manifest(vec![function(1, "a", None, vec![param("x", "quaternion")])]);
    assert_eq!(validate_manifest(&m), Ok(()));
}

#[test]
fn duplicates_are_equal_to_their_originals() {
    let m = manifest(vec![function(3, "setSpeed", Some("i16"), vec![param("value", "i16")])]);
    assert_eq!(m.duplicate(), m);
    assert_eq!(m.functions[0].duplicate(), m.functions[0]);
    assert_eq!(m.functions[0].params[0].duplicate(), m.functions[0].params[0]);
}

#[test]
fn input_schema_lists_every_parameter_as_required() {
    let f = function(9, "say", None, vec![param("text", "CStr"), param("times", "i16"), param("loud", "bool"), param("gain", "f32"), param("mode", "enum")]);
    let schema = input_schema_for(&f);
    let expected = object(vec![
        ("type", text("object")),
        (
            "properties",
            object(vec![
                ("text", object(vec![("type", text("string"))])),
                ("times", object(vec![("type", text("integer"))])),
                ("loud", object(vec![("type", text("boolean"))])),
                ("gain", object(vec![("type", text("number"))])),
                ("mode", object(vec![("type", text("string"))])),
            ]),
        ),
        (
            "required",
            Json::Array(vec![text("text"), text("times"), text("loud"), text("gain"), text("mode")]),
        ),
    ]);
    assert_eq!(schema, expected);
    let registry = ManifestManager::new("manifests".to_string());
    assert_eq!(registry.create_input_schema(&f), expected);
}

#[test]
fn input_schema_of_a_function_without_parameters() {
    let f = function(7, "getPosition", Some("i32"), vec![]);
    assert_eq!(
        input_schema_for(&f),
        object(vec![
            ("type", text("object")),
            ("properties", object(vec![])),
            ("required", Json::Array(vec![])),
        ])
    );
}

#[test]
fn tools_list_has_one_tool_for_each_function() {
    let m = manifest(vec![
        function(3, "setSpeed", None, vec![param("value", "i16")]),
        function(7, "getPosition", Some("i32"), vec![]),
    ]);
    let tools = tools_for(&m);
    assert_eq!(
        tools,
        vec![
            Tool {
                name: "setSpeed".to_string(),
                description: "setSpeed description".to_string(),
                input_schema: input_schema_for(&m.functions[0]),
            },
            Tool {
                name: "getPosition".to_string(),
                description: "getPosition description".to_string(),
                input_schema: input_schema_for(&m.functions[1]),
            },
        ]
    );
    let registry = ManifestManager::new("manifests".to_string());
    assert_eq!(registry.create_tools_list(&m), tools);
    assert!(registry.create_tools_list(&manifest(vec![])).is_empty());
}

#[test]
fn registry_keeps_consistent_manifests_by_identity() {
    let mut registry = ManifestManager::new("/etc/manifests".to_string());
    assert_eq!(registry.manifest_dir(), "/etc/manifests");
    assert_eq!(registry.get_manifest("uno"), None);
    let first = manifest(vec![function(3, "setSpeed", None, vec![param("value", "i16")])]);
    let second = manifest(vec![function(7, "getPosition", Some("i32"), vec![])]);
    assert_eq!(registry.insert_manifest("uno", first.duplicate()), Ok(()));
    assert_eq!(registry.insert_manifest("mega", second.duplicate()), Ok(()));
    assert_eq!(registry.get_manifest("uno"), Some(&first));
    assert_eq!(registry.get_manifest("mega"), Some(&second));
    assert_eq!(registry.get_manifest("nano"), None);
    assert_eq!(registry.insert_manifest("uno", second.duplicate()), Ok(()));
    assert_eq!(registry.get_manifest("uno"), Some(&second));
    assert_eq!(registry.get_manifest("mega"), Some(&second));
}

#[test]
fn registry_refuses_a_manifest_that_is_not_consistent() {
    let mut registry = ManifestManager::new("manifests".to_string());
    let good = manifest(vec![function(3, "setSpeed", None, vec![])]);
    let bad = manifest(vec![function(3, "a", None, vec![]), function(3, "b", None, vec![])]);
    assert_eq!(registry.insert_manifest("uno", good.duplicate()), Ok(()));
    assert_eq!(
        registry.insert_manifest("uno", bad),
        Err(ManifestError::DuplicateTag { first: 0, second: 1 })
    );
    assert_eq!(registry.get_manifest("uno"), Some(&good));
}

#[test]
fn registry_reload_drops_the_manifest_and_names_the_file() {
    let mut registry = ManifestManager::new("manifests".to_string());
    let m = manifest(vec![function(3, "setSpeed", None, vec![])]);
    assert_eq!(registry.insert_manifest("uno", m.duplicate()), Ok(()));
    assert_eq!(registry.insert_manifest("mega", m.duplicate()), Ok(()));
    assert_eq!(registry.reload_manifest("uno"), "uno.json");
    assert_eq!(registry.get_manifest("uno"), None);
    assert_eq!(registry.get_manifest("mega"), Some(&m));
    assert_eq!(registry.reload_manifest("nano"), "nano.json");
    assert_eq!(ManifestManager::manifest_file_name("arduino-uno-r3"), "arduino-uno-r3.json");
}

#[test]
fn manifest_faults_name_what_is_at_fault() {
    let m = manifest(vec![
        function(3, "setSpeed", None, vec![param("value", "i16"), param("value", "i32")]),
        function(3, "getPosition", Some("i32"), vec![]),
        function(0, "reset", None, vec![]),
    ]);
    assert_eq!(
        ManifestError::ReservedTag { function: 2 }.message(&m),
        "Function 'reset' uses tag 0, which is reserved for the device identity query"
    );
    assert_eq!(
        ManifestError::DuplicateTag { first: 0, second: 1 }.message(&m),
        "Functions 'setSpeed' and 'getPosition' share tag 3"
    );
    assert_eq!(
        ManifestError::DuplicateFunction { first: 1, second: 2 }.message(&m),
        "Function name 'getPosition' is used more than once"
    );
    assert_eq!(
        ManifestError::DuplicateParameter { function: 0, first: 0, second: 1 }.message(&m),
        "Function 'setSpeed' has more than one parameter named 'value'"
    );
    assert_eq!(
        ManifestError::DuplicateParameter { function: 1, first: 0, second: 1 }.message(&m),
        "Function 'getPosition' has more than one parameter named ''"
    );
    assert_eq!(
        ManifestError::DuplicateTag { first: 7, second: 8 }.message(&m),
        "Functions '' and '' share tag 0"
    );
    let e = validate_manifest(&m).unwrap_err();
    assert_eq!(e, ManifestError::ReservedTag { function: 2 });
    assert!(e.message(&m).contains("reset"));
}

#[test]
fn missing_manifest_file_is_reported_with_its_path() {
    assert_eq!(
        manifest_not_found_message("uno", "manifests/uno.json"),
        "Manifest not found for device 'uno'. Expected file: manifests/uno.json. Make sure the manifest file exists and the device ID is correct."
    );
}
