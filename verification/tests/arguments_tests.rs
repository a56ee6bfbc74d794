use arduino_mcp_adapter::arguments::{
    check_function_arguments, check_value, encode_arguments, is_declared, kind_name, low_i16,
    low_i32, ArgumentError,
};
use arduino_mcp_adapter::json::{Json, JsonKind, JsonNumber};
use arduino_mcp_adapter::manifest::{Function, ManifestManager, Parameter};

fn param(name: &str, param_type: &str) -> Parameter {
    Parameter { name: name.to_string(), param_type: param_type.to_string() }
}

fn function(name: &str, params: Vec<Parameter>) -> Function {
    Function { tag: 3, name: name.to_string(), desc: String::new(), return_type: None, params }
}

fn whole(v: i64) -> Json {
    Json::integer(v)
}

fn fraction(text: &str) -> Json {
    Json::Number(JsonNumber::Float(text.to_string()))
}

fn text(value: &str) -> Json {
    Json::Str(value.to_string())
}

fn object(members: Vec<(&str, Json)>) -> Json {
    Json::Object(members.into_iter().map(|(k, v)| (k.to_string(), v)).collect())
}

fn set_speed() -> Function {
    function("setSpeed", vec![param("value", "i16")])
}

fn mixed() -> Function {
    function(
        "mixed",
        vec![
            param("a", "i16"),
            param("b", "i32"),
            param("c", "CStr"),
            param("d", "bool"),
            param("e", "f32"),
        ],
    )
}

fn mixed_args() -> Vec<(&'static str, Json)> {
    vec![
        ("a", whole(1)),
        ("b", whole(2)),
        ("c", text("x")),
        ("d", Json::Bool(true)),
        ("e", fraction("0.5")),
    ]
}

#[test]
fn arguments_that_fit_are_accepted() {
    assert_eq!(check_function_arguments(&set_speed(), &object(vec![("value", whole(150))])), Ok(()));
    assert_eq!(check_function_arguments(&mixed(), &object(mixed_args())), Ok(()));
    assert_eq!(check_function_arguments(&function("stop", vec![]), &object(vec![])), Ok(()));
    let registry = ManifestManager::new("manifests".to_string());
    assert_eq!(
        registry.validate_function_arguments(&set_speed(), &object(vec![("value", whole(150))])),
        Ok(())
    );
}

#[test]
fn arguments_in_another_order_are_accepted() {
    let mut args = mixed_args();
    args.reverse();
    assert_eq!(check_function_arguments(&mixed(), &object(args)), Ok(()));
}

#[test]
fn arguments_that_are_no_object_are_rejected() {
    for args in [Json::Null, whole(1), text("x"), Json::Array(vec![]), Json::Bool(true)] {
        assert_eq!(
            check_function_arguments(&set_speed(), &args),
            Err(ArgumentError::NotAnObject)
        );
        assert_eq!(
            ArgumentError::NotAnObject.message(&set_speed(), &args),
            "Arguments must be an object"
        );
    }
}

#[test]
fn arguments_for_a_function_without_parameters_are_rejected() {
    let f = function("stop", vec![]);
    let args = object(vec![("speed", whole(1)), ("now", Json::Bool(true))]);
    assert_eq!(check_function_arguments(&f, &args), Err(ArgumentError::TakesNoParameters));
    assert_eq!(
        ArgumentError::TakesNoParameters.message(&f, &args),
        "Function 'stop' takes no parameters, but you provided: [speed, now]. Remove all arguments."
    );
}

#[test]
fn no_arguments_for_a_function_with_parameters_are_rejected() {
    let args = object(vec![]);
    assert_eq!(check_function_arguments(&mixed(), &args), Err(ArgumentError::NoneProvided));
    assert_eq!(
        ArgumentError::NoneProvided.message(&mixed(), &args),
        "Function 'mixed' requires 5 parameters: [a: integer, b: integer, c: string, d: boolean, e: number]. Please provide all required arguments."
    );
}

#[test]
fn an_argument_that_is_not_declared_is_rejected_first() {
    let args = object(vec![("value", text("fast")), ("vlaue", whole(1)), ("other", whole(2))]);
    let e = check_function_arguments(&set_speed(), &args).unwrap_err();
    assert_eq!(e, ArgumentError::UnknownParameter { argument: 1 });
    assert_eq!(
        e.message(&set_speed(), &args),
        "Invalid parameter 'vlaue' for function 'setSpeed'. Valid parameters are: [value: integer]. Please correct the parameter name."
    );
}

#[test]
fn a_parameter_without_argument_is_rejected() {
    let args = object(vec![("a", whole(1)), ("c", text("x"))]);
    let e = check_function_arguments(&mixed(), &args).unwrap_err();
    assert_eq!(e, ArgumentError::MissingParameter { parameter: 1 });
    assert_eq!(
        e.message(&mixed(), &args),
        "Missing required parameter 'b' (type: integer) for function 'mixed'. Please add this parameter to your arguments."
    );
}

#[test]
fn an_integer_parameter_takes_only_integers() {
    let args = object(vec![("value", text("150"))]);
    let e = check_function_arguments(&set_speed(), &args).unwrap_err();
    assert_eq!(e, ArgumentError::NotANumber { parameter: 0 });
    assert_eq!(
        e.message(&set_speed(), &args),
        "Parameter 'value' must be a number (type: integer), but got a string. Please provide a numeric value."
    );
    let args = object(vec![("value", fraction("1.5"))]);
    let e = check_function_arguments(&set_speed(), &args).unwrap_err();
    assert_eq!(e, ArgumentError::NotAnInteger { parameter: 0 });
    assert_eq!(
        e.message(&set_speed(), &args),
        "Parameter 'value' must be a whole number (type: integer). Please provide an integer value."
    );
    let args = object(vec![("value", Json::Number(JsonNumber::PosInt(u64::MAX)))]);
    let e = check_function_arguments(&set_speed(), &args).unwrap_err();
    assert_eq!(e, ArgumentError::OutOfRange { parameter: 0, value: u64::MAX as i128 });
    assert_eq!(
        e.message(&set_speed(), &args),
        "Parameter 'value' value 18446744073709551615 is out of range for i16 (-32768 to 32767). Please use a value within this range."
    );
    let f = function("goto", vec![param("position", "i32")]);
    assert_eq!(
        check_function_arguments(&f, &object(vec![("position", Json::Null)])),
        Err(ArgumentError::NotANumber { parameter: 0 })
    );
    assert_eq!(
        check_function_arguments(&f, &object(vec![("position", fraction("1e3"))])),
        Err(ArgumentError::NotAnInteger { parameter: 0 })
    );
    assert_eq!(
        check_function_arguments(&f, &object(vec![("position", whole(5_000_000_000))])),
        Ok(())
    );
    for big in [9223372036854775808u64, u64::MAX] {
        assert_eq!(
            check_function_arguments(
                &f,
                &object(vec![("position", Json::Number(JsonNumber::PosInt(big)))])
            ),
            Ok(())
        );
    }
}

#[test]
fn a_16_bit_parameter_takes_only_its_range() {
    for v in [-32768i64, -1, 0, 150, 32767] {
        assert_eq!(check_function_arguments(&set_speed(), &object(vec![("value", whole(v))])), Ok(()));
    }
    for v in [-32769i64, 32768, 100_000, i64::MIN, i64::MAX] {
        let args = object(vec![("value", whole(v))]);
        let e = check_function_arguments(&set_speed(), &args).unwrap_err();
        assert_eq!(e, ArgumentError::OutOfRange { parameter: 0, value: v as i128 });
        assert_eq!(
            e.message(&set_speed(), &args),
            format!(
                "Parameter 'value' value {} is out of range for i16 (-32768 to 32767). Please use a value within this range.",
                v
            )
        );
    }
}

#[test]
fn string_and_boolean_parameters_take_only_their_kind() {
    let mut args = mixed_args();
    args[2] = ("c", whole(5));
    let args = object(args);
    let e = check_function_arguments(&mixed(), &args).unwrap_err();
    assert_eq!(e, ArgumentError::NotAString { parameter: 2 });
    assert_eq!(
        e.message(&mixed(), &args),
        "Parameter 'c' must be a string, but got a number. Please provide a string value in quotes."
    );
    let mut args = mixed_args();
    args[3] = ("d", text("true"));
    let args = object(args);
    let e = check_function_arguments(&mixed(), &args).unwrap_err();
    assert_eq!(e, ArgumentError::NotABoolean { parameter: 3 });
    assert_eq!(
        e.message(&mixed(), &args),
        "Parameter 'd' must be a boolean (true/false), but got a string. Please use true or false."
    );
}

#[test]
fn a_parameter_of_another_type_takes_any_scalar() {
    let f = function("tune", vec![param("gain", "f32")]);
    for value in [Json::Null, Json::Bool(true), whole(1), fraction("0.5"), text("x")] {
        assert_eq!(check_function_arguments(&f, &object(vec![("gain", value)])), Ok(()));
    }
    let args = object(vec![("gain", Json::Array(vec![]))]);
    let e = check_function_arguments(&f, &args).unwrap_err();
    assert_eq!(e, ArgumentError::NotAScalar { parameter: 0 });
    assert_eq!(
        e.message(&f, &args),
        "Parameter 'gain' must be a single value, but got an array. Please provide a string, a number or a boolean."
    );
    assert_eq!(
        check_function_arguments(&f, &object(vec![("gain", object(vec![]))])),
        Err(ArgumentError::NotAScalar { parameter: 0 })
    );
}

#[test]
fn the_first_fault_in_declaration_order_is_reported() {
    let args = object(vec![
        ("e", Json::Array(vec![])),
        ("d", whole(1)),
        ("c", whole(1)),
        ("b", text("x")),
        ("a", whole(1)),
    ]);
    assert_eq!(
        check_function_arguments(&mixed(), &args),
        Err(ArgumentError::NotANumber { parameter: 1 })
    );
}

#[test]
fn every_rejection_names_what_is_at_fault() {
    let f = mixed();
    let cases: Vec<(Json, &str)> = vec![
        (Json::Null, "object"),
        (object(vec![("zz", whole(1)), ("a", whole(1))]), "zz"),
        (object(vec![("a", whole(1))]), "b"),
        (object(vec![("a", text("x")), ("b", whole(1))]), "a"),
        (object(vec![("a", whole(1)), ("b", fraction("2.5"))]), "b"),
        (object(vec![("a", whole(40000))]), "a"),
        (object(vec![("a", whole(1)), ("b", whole(1)), ("c", Json::Null)]), "c"),
        (object(vec![("a", whole(1)), ("b", whole(1)), ("c", text("")), ("d", whole(0))]), "d"),
        (
            object(vec![
                ("a", whole(1)),
                ("b", whole(1)),
                ("c", text("")),
                ("d", Json::Bool(false)),
                ("e", object(vec![])),
            ]),
            "e",
        ),
        (object(vec![]), "a"),
    ];
    for (args, offender) in cases {
        let e = check_function_arguments(&f, &args).unwrap_err();
        let message = e.message(&f, &args);
        assert!(message.contains(offender), "{:?} does not name {:?}", message, offender);
    }
    let none = function("stop", vec![]);
    let args = object(vec![("speed", whole(1))]);
    let e = check_function_arguments(&none, &args).unwrap_err();
    assert!(e.message(&none, &args).contains("speed"));
}

#[test]
fn a_message_for_positions_that_are_not_there_names_nothing() {
    let e = ArgumentError::MissingParameter { parameter: 9 };
    assert_eq!(
        e.message(&set_speed(), &object(vec![])),
        "Missing required parameter '' (type: ) for function 'setSpeed'. Please add this parameter to your arguments."
    );
    let e = ArgumentError::UnknownParameter { argument: 4 };
    assert_eq!(
        e.message(&set_speed(), &Json::Null),
        "Invalid parameter '' for function 'setSpeed'. Valid parameters are: [value: integer]. Please correct the parameter name."
    );
    let e = ArgumentError::NotAString { parameter: 9 };
    assert_eq!(
        e.message(&set_speed(), &object(vec![])),
        "Parameter '' must be a string, but got nothing. Please provide a string value in quotes."
    );
}

#[test]
fn check_value_goes_by_the_declared_type() {
    assert_eq!(check_value(&param("v", "i16"), 4, &whole(7)), Ok(()));
    assert_eq!(
        check_value(&param("v", "i16"), 4, &whole(70000)),
        Err(ArgumentError::OutOfRange { parameter: 4, value: 70000 })
    );
    assert_eq!(
        check_value(&param("v", "CStr"), 2, &Json::Null),
        Err(ArgumentError::NotAString { parameter: 2 })
    );
    assert_eq!(check_value(&param("v", "bool"), 2, &Json::Bool(false)), Ok(()));
    assert!(is_declared(&mixed().params, "c"));
    assert!(!is_declared(&mixed().params, "C"));
    assert_eq!(kind_name(JsonKind::Null), "null");
    assert_eq!(kind_name(JsonKind::Bool), "a boolean");
    assert_eq!(kind_name(JsonKind::Number), "a number");
    assert_eq!(kind_name(JsonKind::Str), "a string");
    assert_eq!(kind_name(JsonKind::Array), "an array");
    assert_eq!(kind_name(JsonKind::Object), "an object");
}

#[test]
fn arguments_are_laid_out_in_declaration_order() {
    let args = object(vec![
        ("e", text("hi")),
        ("d", Json::Bool(true)),
        ("c", text("é")),
        ("b", whole(1000)),
        ("a", whole(150)),
    ]);
    assert_eq!(
        encode_arguments(&mixed(), &args),
        vec![0x96, 0x00, 0xE8, 0x03, 0x00, 0x00, 0xC3, 0xA9, 0x00, 0x01, b'h', b'i', 0x00]
    );
    assert_eq!(encode_arguments(&set_speed(), &object(vec![("value", whole(150))])), vec![0x96, 0x00]);
    assert_eq!(encode_arguments(&set_speed(), &object(vec![("value", whole(-2))])), vec![0xFE, 0xFF]);
    assert_eq!(encode_arguments(&function("stop", vec![]), &object(vec![])), Vec::<u8>::new());
}

#[test]
fn arguments_that_are_missing_or_of_another_kind_count_as_nothing() {
    assert_eq!(
        encode_arguments(&mixed(), &object(vec![])),
        vec![0, 0, 0, 0, 0, 0, 0, 0, 0]
    );
    assert_eq!(
        encode_arguments(&mixed(), &Json::Null),
        vec![0, 0, 0, 0, 0, 0, 0, 0, 0]
    );
    let f = function("tune", vec![param("gain", "f32"), param("on", "bool")]);
    assert_eq!(
        encode_arguments(&f, &object(vec![("gain", fraction("0.5")), ("on", whole(1))])),
        vec![0x00, 0x00]
    );
}

#[test]
fn a_32_bit_argument_keeps_the_low_32_bits() {
    let f = function("goto", vec![param("position", "i32")]);
    assert_eq!(
        encode_arguments(&f, &object(vec![("position", whole(0x1_0000_0005))])),
        vec![0x05, 0x00, 0x00, 0x00]
    );
    assert_eq!(
        encode_arguments(&f, &object(vec![("position", whole(-1))])),
        vec![0xFF, 0xFF, 0xFF, 0xFF]
    );
    assert_eq!(
        encode_arguments(
            &f,
            &object(vec![("position", Json::Number(JsonNumber::PosInt(0x8000_0000_0000_0007)))])
        ),
        vec![0x07, 0x00, 0x00, 0x00]
    );
    assert_eq!(
        encode_arguments(&f, &object(vec![("position", Json::Number(JsonNumber::PosInt(u64::MAX)))])),
        vec![0xFF, 0xFF, 0xFF, 0xFF]
    );
    let wide: [i128; 16] = [
        0,
        1,
        -1,
        65536,
        i32::MAX as i128,
        i32::MIN as i128,
        i32::MAX as i128 + 1,
        i32::MIN as i128 - 1,
        i64::MAX as i128,
        i64::MIN as i128,
        u64::MAX as i128,
        -4294967297,
        4294967296,
        -4294967296,
        i128::MAX,
        i128::MIN,
    ];
    for v in wide {
        assert_eq!(low_i32(v), v as i32, "{}", v);
        assert_eq!(low_i16(v), v as i16, "{}", v);
    }
    for v in [32767i128, 32768, -32768, -32769, 65535, 65536, -65535, -65536, -65537] {
        assert_eq!(low_i16(v), v as i16, "{}", v);
    }
}
