//! The arguments of a call: checking a free-form argument object against a
//! function's declared parameters, saying what is wrong with it, and laying
//! the arguments out as command bytes.

use vstd::prelude::*;
use crate::json::{
    lemma_member_index, lemma_object_view, members_view, Json, JsonKind, JsonView,
};
use crate::manifest::{
    json_type_of, type_to_json_type, wire_type, wire_type_of, Function, FunctionView,
    ManifestManager, Parameter, ParameterView, WireType,
};
use crate::protocol::{cstring_bytes, i16_le_bytes, i32_le_bytes, CommandEncoder};
use crate::text::{
    decimal_digits, decimal_text, lemma_contains_part, lemma_contains_widen, push_decimal, str_eq,
    text_contains,
};

verus! {

/// What is wrong with the arguments of a call. Arguments are given by their
/// position in the argument object, parameters by their position in the
/// function's declaration.
#[derive(Debug, Clone, Copy, PartialEq, Eq, Structural)]
pub enum ArgumentError {
    /// The arguments are not a JSON object.
    NotAnObject,
    /// The function declares no parameter, and arguments were given.
    TakesNoParameters,
    /// The function declares parameters, and no argument was given.
    NoneProvided,
    /// The argument at this position is no declared parameter.
    UnknownParameter { argument: usize },
    /// No argument was given for this parameter.
    MissingParameter { parameter: usize },
    /// An integer parameter was given something that is not a number.
    NotANumber { parameter: usize },
    /// An integer parameter was given a number that is not an integer.
    NotAnInteger { parameter: usize },
    /// A 16-bit parameter was given an integer outside -32768 to 32767.
    OutOfRange { parameter: usize, value: i128 },
    /// A string parameter was given something that is not a string.
    NotAString { parameter: usize },
    /// A boolean parameter was given something that is not a boolean.
    NotABoolean { parameter: usize },
    /// A parameter of a type that is not known was given an array or an
    /// object.
    NotAScalar { parameter: usize },
}

/// Whether a parameter of that name is declared.
pub open spec fn declares(params: Seq<ParameterView>, name: Seq<char>) -> bool {
    exists|i: int| 0 <= i < params.len() && (#[trigger] params[i]).name == name
}

/// The position of the first argument, from `from` on, that is no declared
/// parameter.
pub open spec fn first_unknown(
    params: Seq<ParameterView>,
    members: Seq<(Seq<char>, JsonView)>,
    from: int,
) -> Option<int>
    decreases members.len() - from,
{
    if from < 0 || from >= members.len() {
        None
    } else if !declares(params, members[from].0) {
        Some(from)
    } else {
        first_unknown(params, members, from + 1)
    }
}

/// What is wrong with the value given for the parameter at `index`.
pub open spec fn value_fault(p: ParameterView, index: usize, value: JsonView) -> Option<
    ArgumentError,
> {
    match wire_type_of(p.param_type) {
        WireType::I16 => match value {
            JsonView::Number(n) => match n.as_integer() {
                Some(v) => if -32768 <= v <= 32767 {
                    None
                } else {
                    Some(ArgumentError::OutOfRange { parameter: index, value: v as i128 })
                },
                None => Some(ArgumentError::NotAnInteger { parameter: index }),
            },
            _ => Some(ArgumentError::NotANumber { parameter: index }),
        },
        WireType::I32 => match value {
            JsonView::Number(n) => match n.as_integer() {
                Some(v) => None,
                None => Some(ArgumentError::NotAnInteger { parameter: index }),
            },
            _ => Some(ArgumentError::NotANumber { parameter: index }),
        },
        WireType::CStr => match value {
            JsonView::Str(_) => None,
            _ => Some(ArgumentError::NotAString { parameter: index }),
        },
        WireType::Bool => match value {
            JsonView::Bool(_) => None,
            _ => Some(ArgumentError::NotABoolean { parameter: index }),
        },
        WireType::Other => match value {
            JsonView::Array(_) => Some(ArgumentError::NotAScalar { parameter: index }),
            JsonView::Object(_) => Some(ArgumentError::NotAScalar { parameter: index }),
            _ => None,
        },
    }
}

/// What is wrong with the argument for the parameter at `index`.
pub open spec fn parameter_fault(p: ParameterView, index: usize, args: JsonView) -> Option<
    ArgumentError,
> {
    match args.get(p.name) {
        None => Some(ArgumentError::MissingParameter { parameter: index }),
        Some(value) => value_fault(p, index, value),
    }
}

/// The first fault among the parameters from position `from` on.
pub open spec fn first_parameter_fault(params: Seq<ParameterView>, args: JsonView, from: int)
    -> Option<ArgumentError>
    decreases params.len() - from,
{
    if from < 0 || from >= params.len() {
        None
    } else {
        match parameter_fault(params[from], from as usize, args) {
            Some(e) => Some(e),
            None => first_parameter_fault(params, args, from + 1),
        }
    }
}

/// What is wrong with the arguments of a call of `func`, if anything: the
/// arguments must be an object with exactly the declared parameter names,
/// and each value must fit the declared type of its parameter.
pub open spec fn check_arguments(func: FunctionView, args: JsonView) -> Option<ArgumentError> {
    match args {
        JsonView::Object(members) => {
            if func.params.len() == 0 && members.len() > 0 {
                Some(ArgumentError::TakesNoParameters)
            } else if func.params.len() > 0 && members.len() == 0 {
                Some(ArgumentError::NoneProvided)
            } else {
                match first_unknown(func.params, members, 0) {
                    Some(i) => Some(ArgumentError::UnknownParameter { argument: i as usize }),
                    None => first_parameter_fault(func.params, args, 0),
                }
            }
        },
        _ => Some(ArgumentError::NotAnObject),
    }
}

/// What became of a check, as an optional fault.
pub open spec fn fault_of(result: Result<(), ArgumentError>) -> Option<ArgumentError> {
    match result {
        Ok(_) => None,
        Err(e) => Some(e),
    }
}

/// Whether a parameter named `name` is declared.
pub fn is_declared(params: &Vec<Parameter>, name: &str) -> (declared: bool)
    ensures
        declared == declares(crate::manifest::parameters_view(params@), name@),
{
    let ghost views = crate::manifest::parameters_view(params@);
    let mut i: usize = 0;
    while i < params.len()
        invariant
            i <= params.len(),
            views == crate::manifest::parameters_view(params@),
            forall|k: int| 0 <= k < i ==> (#[trigger] views[k]).name != name@,
        decreases params.len() - i,
    {
        if str_eq(params[i].name.as_str(), name) {
            proof {
                assert(views[i as int].name == name@);
            }
            return true;
        }
        proof {
            assert(views[i as int].name != name@);
        }
        i = i + 1;
    }
    false
}

/// Checks the value given for the parameter at `index`.
pub fn check_value(param: &Parameter, index: usize, value: &Json) -> (result: Result<
    (),
    ArgumentError,
>)
    ensures
        fault_of(result) == value_fault(param@, index, value@),
{
    match wire_type(param.param_type.as_str()) {
        WireType::I16 => match value {
            Json::Number(n) => match n.as_integer() {
                Some(v) => {
                    if -32768 <= v && v <= 32767 {
                        Ok(())
                    } else {
                        Err(ArgumentError::OutOfRange { parameter: index, value: v })
                    }
                },
                None => Err(ArgumentError::NotAnInteger { parameter: index }),
            },
            _ => Err(ArgumentError::NotANumber { parameter: index }),
        },
        WireType::I32 => match value {
            Json::Number(n) => match n.as_integer() {
                Some(_) => Ok(()),
                None => Err(ArgumentError::NotAnInteger { parameter: index }),
            },
            _ => Err(ArgumentError::NotANumber { parameter: index }),
        },
        WireType::CStr => match value {
            Json::Str(_) => Ok(()),
            _ => Err(ArgumentError::NotAString { parameter: index }),
        },
        WireType::Bool => match value {
            Json::Bool(_) => Ok(()),
            _ => Err(ArgumentError::NotABoolean { parameter: index }),
        },
        WireType::Other => match value {
            Json::Array(_) => Err(ArgumentError::NotAScalar { parameter: index }),
            Json::Object(_) => Err(ArgumentError::NotAScalar { parameter: index }),
            _ => Ok(()),
        },
    }
}

/// No argument from `from` up to `to` is unknown, so the search from `from`
/// is the search from `to`.
proof fn lemma_first_unknown_skip(
    params: Seq<ParameterView>,
    members: Seq<(Seq<char>, JsonView)>,
    from: int,
    to: int,
)
    requires
        0 <= from <= to <= members.len(),
        forall|k: int| from <= k < to ==> declares(params, (#[trigger] members[k]).0),
    ensures
        first_unknown(params, members, from) == first_unknown(params, members, to),
    decreases to - from,
{
    if from < to {
        lemma_first_unknown_skip(params, members, from + 1, to);
    }
}

/// No parameter from `from` up to `to` has a fault, so the search from
/// `from` is the search from `to`.
proof fn lemma_first_fault_skip(params: Seq<ParameterView>, args: JsonView, from: int, to: int)
    requires
        0 <= from <= to <= params.len(),
        forall|k: int|
            from <= k < to ==> parameter_fault(#[trigger] params[k], k as usize, args) is None,
    ensures
        first_parameter_fault(params, args, from) == first_parameter_fault(params, args, to),
    decreases to - from,
{
    if from < to {
        lemma_first_fault_skip(params, args, from + 1, to);
    }
}

/// Checks the arguments of a call against the declared parameters of `func`
/// and reports the first fault.
#[verifier::loop_isolation(false)]
pub fn check_function_arguments(func: &Function, arguments: &Json) -> (result: Result<
    (),
    ArgumentError,
>)
    ensures
        fault_of(result) == check_arguments(func@, arguments@),
{
    let members = match arguments {
        Json::Object(members) => members,
        _ => {
            return Err(ArgumentError::NotAnObject);
        },
    };
    proof {
        lemma_object_view(*members);
    }
    let ghost views = members_view(members@);
    let ghost params = func@.params;
    assert(params =~= crate::manifest::parameters_view(func.params@));
    if func.params.len() == 0 && members.len() > 0 {
        return Err(ArgumentError::TakesNoParameters);
    }
    if func.params.len() > 0 && members.len() == 0 {
        return Err(ArgumentError::NoneProvided);
    }
    let mut a: usize = 0;
    while a < members.len()
        invariant
            a <= members.len(),
            views == members_view(members@),
            params == crate::manifest::parameters_view(func.params@),
            forall|k: int| 0 <= k < a ==> declares(params, (#[trigger] views[k]).0),
        decreases members.len() - a,
    {
        if !is_declared(&func.params, members[a].0.as_str()) {
            proof {
                assert(views[a as int].0 == members@[a as int].0@);
                lemma_first_unknown_skip(params, views, 0, a as int);
            }
            return Err(ArgumentError::UnknownParameter { argument: a });
        }
        proof {
            assert(views[a as int].0 == members@[a as int].0@);
        }
        a = a + 1;
    }
    proof {
        lemma_first_unknown_skip(params, views, 0, views.len() as int);
    }
    let mut p: usize = 0;
    while p < func.params.len()
        invariant
            p <= func.params.len(),
            params == crate::manifest::parameters_view(func.params@),
            params == func@.params,
            arguments@ == JsonView::Object(views),
            forall|k: int|
                0 <= k < p ==> parameter_fault(#[trigger] params[k], k as usize, arguments@)
                    is None,
        decreases func.params.len() - p,
    {
        let param = &func.params[p];
        proof {
            assert(params[p as int] == param@);
        }
        match arguments.get(param.name.as_str()) {
            None => {
                proof {
                    lemma_first_fault_skip(params, arguments@, 0, p as int);
                }
                return Err(ArgumentError::MissingParameter { parameter: p });
            },
            Some(value) => {
                match check_value(param, p, value) {
                    Ok(_) => {},
                    Err(e) => {
                        proof {
                            lemma_first_fault_skip(params, arguments@, 0, p as int);
                        }
                        return Err(e);
                    },
                }
            },
        }
        p = p + 1;
    }
    proof {
        lemma_first_fault_skip(params, arguments@, 0, params.len() as int);
    }
    Ok(())
}

impl ManifestManager {
    /// Checks the arguments of a call against the declared parameters of
    /// `func` and reports the first fault.
    pub fn validate_function_arguments(&self, func: &Function, arguments: &Json) -> (result:
        Result<(), ArgumentError>)
        ensures
            fault_of(result) == check_arguments(func@, arguments@),
    {
        check_function_arguments(func, arguments)
    }
}

/// The 16-bit integer that has the low 16 bits of `v`.
pub open spec fn wrap_i16(v: int) -> i16 {
    ((v + 32768) % 65536 - 32768) as i16
}

/// The 32-bit integer that has the low 32 bits of `v`.
pub open spec fn wrap_i32(v: int) -> i32 {
    ((v + 2147483648) % 4294967296 - 2147483648) as i32
}

/// The low bits of `v` below `modulus`, as a number from 0 on: the
/// remainder of `v` by `modulus`.
fn low_bits(v: i128, modulus: u128) -> (rest: u128)
    requires
        0 < modulus <= 4294967296,
    ensures
        rest == (v as int) % (modulus as int),
{
    if v >= 0 {
        (v as u128) % modulus
    } else {
        let below: u128 = (-(v + 1)) as u128;
        let rest: u128 = modulus - 1 - (below % modulus);
        proof {
            lemma_remainder_of_negative(v as int, modulus as int);
        }
        rest
    }
}

/// The remainder of a negative number, from that of the number that is as
/// far below -1 as it is.
proof fn lemma_remainder_of_negative(v: int, modulus: int)
    requires
        v < 0,
        0 < modulus,
    ensures
        v % modulus == modulus - 1 - ((-(v + 1)) % modulus),
{
    let below = -(v + 1);
    let q = below / modulus;
    let r = below % modulus;
    vstd::arithmetic::div_mod::lemma_fundamental_div_mod(below, modulus);
    assert(v == modulus * (-q - 1) + (modulus - 1 - r)) by (nonlinear_arith)
        requires
            below == modulus * q + r,
            v == -(below + 1),
    ;
    vstd::arithmetic::div_mod::lemma_fundamental_div_mod_converse(
        v,
        modulus,
        -q - 1,
        modulus - 1 - r,
    );
}

/// The 16-bit integer that has the low 16 bits of `v`.
pub fn low_i16(v: i128) -> (low: i16)
    ensures
        low == wrap_i16(v as int),
        -32768 <= v <= 32767 ==> low == v,
{
    let rest = low_bits(v, 65536);
    if rest >= 32768 {
        (rest as i32 - 65536) as i16
    } else {
        rest as i16
    }
}

/// The 32-bit integer that has the low 32 bits of `v`.
pub fn low_i32(v: i128) -> (low: i32)
    ensures
        low == wrap_i32(v as int),
        -2147483648 <= v <= 2147483647 ==> low == v,
{
    let rest = low_bits(v, 4294967296);
    if rest >= 2147483648 {
        (rest as i64 - 4294967296) as i32
    } else {
        rest as i32
    }
}

/// The bytes that stand on the wire for one argument. An integer parameter
/// takes the low bits of the integer given, a boolean parameter one byte,
/// and a parameter of any other type the string given; what is not given,
/// or is not of the kind that the parameter takes, counts as zero, false or
/// the empty string.
pub open spec fn argument_bytes(p: ParameterView, value: Option<JsonView>) -> Seq<u8> {
    let number = match value {
        Some(v) => match v.as_integer() {
            Some(i) => i,
            None => 0,
        },
        None => 0,
    };
    let text = match value {
        Some(JsonView::Str(t)) => t,
        _ => Seq::<char>::empty(),
    };
    match wire_type_of(p.param_type) {
        WireType::I16 => i16_le_bytes(wrap_i16(number)),
        WireType::I32 => i32_le_bytes(wrap_i32(number)),
        WireType::Bool => seq![
            if value == Some(JsonView::Bool(true)) {
                1u8
            } else {
                0u8
            },
        ],
        WireType::CStr => cstring_bytes(text),
        WireType::Other => cstring_bytes(text),
    }
}

/// The bytes that stand on the wire for the first `n` parameters: the bytes
/// of each argument in the order of the declaration, with nothing between.
pub open spec fn arguments_bytes(params: Seq<ParameterView>, args: JsonView, n: int) -> Seq<u8>
    decreases n,
{
    if n <= 0 {
        Seq::empty()
    } else {
        arguments_bytes(params, args, n - 1) + argument_bytes(
            params[n - 1],
            args.get(params[n - 1].name),
        )
    }
}

/// Writes the bytes of one argument.
pub fn encode_argument(encoder: &mut CommandEncoder, param: &Parameter, value: Option<&Json>)
    ensures
        final(encoder)@ == old(encoder)@ + argument_bytes(
            param@,
            crate::json::opt_json_view(value),
        ),
{
    let number: i128 = match value {
        Some(v) => match v.as_integer() {
            Some(i) => i,
            None => 0,
        },
        None => 0,
    };
    match wire_type(param.param_type.as_str()) {
        WireType::I16 => {
            encoder.write_i16(low_i16(number));
        },
        WireType::I32 => {
            encoder.write_i32(low_i32(number));
        },
        WireType::Bool => {
            let flag = match value {
                Some(Json::Bool(b)) => *b,
                _ => false,
            };
            encoder.write_bool(flag);
            proof {
                assert(old(encoder)@.push(
                    if flag {
                        1u8
                    } else {
                        0u8
                    },
                ) =~= old(encoder)@ + seq![
                    if flag {
                        1u8
                    } else {
                        0u8
                    },
                ]);
            }
        },
        _ => {
            match value {
                Some(Json::Str(text)) => {
                    encoder.write_cstring(text.as_str());
                },
                _ => {
                    encoder.write_cstring("");
                    proof {
                        reveal_strlit("");
                        assert(""@ =~= Seq::<char>::empty());
                    }
                },
            }
        },
    }
}

/// Lays out the arguments of a call as command bytes, in the order in which
/// `func` declares its parameters.
pub fn encode_arguments(func: &Function, arguments: &Json) -> (bytes: Vec<u8>)
    ensures
        bytes@ == arguments_bytes(func@.params, arguments@, func@.params.len() as int),
{
    let mut encoder = CommandEncoder::new();
    let mut p: usize = 0;
    while p < func.params.len()
        invariant
            p <= func.params.len(),
            encoder@ == arguments_bytes(func@.params, arguments@, p as int),
        decreases func.params.len() - p,
    {
        let param = &func.params[p];
        proof {
            assert(func@.params[p as int] == param@);
        }
        let value = arguments.get(param.name.as_str());
        encode_argument(&mut encoder, param, value);
        p = p + 1;
    }
    encoder.finish()
}

/// Arguments that pass the check are laid out without loss: an integer in
/// the range of its parameter's type is written as it is.
pub proof fn lemma_checked_i16_is_kept(p: ParameterView, index: usize, value: JsonView)
    requires
        wire_type_of(p.param_type) == WireType::I16,
        value_fault(p, index, value) is None,
    ensures
        value.as_integer() is Some,
        argument_bytes(p, Some(value)) == i16_le_bytes(value.as_integer()->0 as i16),
{
}

/// A kind of JSON value in words.
pub open spec fn kind_text(kind: JsonKind) -> Seq<char> {
    match kind {
        JsonKind::Null => "null"@,
        JsonKind::Bool => "a boolean"@,
        JsonKind::Number => "a number"@,
        JsonKind::Str => "a string"@,
        JsonKind::Array => "an array"@,
        JsonKind::Object => "an object"@,
    }
}

/// A kind of JSON value in words.
pub fn kind_name(kind: JsonKind) -> (text: &'static str)
    ensures
        text@ == kind_text(kind),
{
    match kind {
        JsonKind::Null => "null",
        JsonKind::Bool => "a boolean",
        JsonKind::Number => "a number",
        JsonKind::Str => "a string",
        JsonKind::Array => "an array",
        JsonKind::Object => "an object",
    }
}

/// How a parameter is listed in a message: its name and the JSON type that
/// it takes.
pub open spec fn parameter_entry(p: ParameterView) -> Seq<char> {
    p.name + ": "@ + json_type_of(p.param_type)
}

/// The first `n` parameters as they are listed in a message.
pub open spec fn parameter_list(params: Seq<ParameterView>, n: int) -> Seq<char>
    decreases n,
{
    if n <= 0 {
        Seq::empty()
    } else if n == 1 {
        parameter_entry(params[0])
    } else {
        parameter_list(params, n - 1) + ", "@ + parameter_entry(params[n - 1])
    }
}

/// The names of the first `n` arguments as they are listed in a message.
pub open spec fn argument_list(members: Seq<(Seq<char>, JsonView)>, n: int) -> Seq<char>
    decreases n,
{
    if n <= 0 {
        Seq::empty()
    } else if n == 1 {
        members[0].0
    } else {
        argument_list(members, n - 1) + ", "@ + members[n - 1].0
    }
}

/// The name of the parameter at `index`, or nothing if there is none.
pub open spec fn parameter_name(func: FunctionView, index: usize) -> Seq<char> {
    if index < func.params.len() {
        func.params[index as int].name
    } else {
        Seq::empty()
    }
}

/// The JSON type of the parameter at `index`, or nothing if there is none.
pub open spec fn parameter_json_type(func: FunctionView, index: usize) -> Seq<char> {
    if index < func.params.len() {
        json_type_of(func.params[index as int].param_type)
    } else {
        Seq::empty()
    }
}

/// The members of the argument object, or none if it is no object.
pub open spec fn argument_members(args: JsonView) -> Seq<(Seq<char>, JsonView)> {
    match args {
        JsonView::Object(members) => members,
        _ => Seq::empty(),
    }
}

/// The name of the argument at `index`, or nothing if there is none.
pub open spec fn argument_name(args: JsonView, index: usize) -> Seq<char> {
    if index < argument_members(args).len() {
        argument_members(args)[index as int].0
    } else {
        Seq::empty()
    }
}

/// In words, the kind of value that was given for the parameter at `index`.
pub open spec fn given_text(func: FunctionView, args: JsonView, index: usize) -> Seq<char> {
    match args.get(parameter_name(func, index)) {
        Some(value) => kind_text(value.kind()),
        None => "nothing"@,
    }
}

/// The message for a fault in the arguments of a call of `func`.
pub open spec fn fault_message(e: ArgumentError, func: FunctionView, args: JsonView) -> Seq<
    char,
> {
    match e {
        ArgumentError::NotAnObject => "Arguments must be an object"@,
        ArgumentError::TakesNoParameters => "Function '"@ + func.name
            + "' takes no parameters, but you provided: ["@ + argument_list(
            argument_members(args),
            argument_members(args).len() as int,
        ) + "]. Remove all arguments."@,
        ArgumentError::NoneProvided => "Function '"@ + func.name + "' requires "@
            + decimal_digits(func.params.len()) + " parameters: ["@ + parameter_list(
            func.params,
            func.params.len() as int,
        ) + "]. Please provide all required arguments."@,
        ArgumentError::UnknownParameter { argument } => "Invalid parameter '"@ + argument_name(
            args,
            argument,
        ) + "' for function '"@ + func.name + "'. Valid parameters are: ["@ + parameter_list(
            func.params,
            func.params.len() as int,
        ) + "]. Please correct the parameter name."@,
        ArgumentError::MissingParameter { parameter } => "Missing required parameter '"@
            + parameter_name(func, parameter) + "' (type: "@ + parameter_json_type(
            func,
            parameter,
        ) + ") for function '"@ + func.name
            + "'. Please add this parameter to your arguments."@,
        ArgumentError::NotANumber { parameter } => "Parameter '"@ + parameter_name(
            func,
            parameter,
        ) + "' must be a number (type: "@ + parameter_json_type(func, parameter)
            + "), but got "@ + given_text(func, args, parameter)
            + ". Please provide a numeric value."@,
        ArgumentError::NotAnInteger { parameter } => "Parameter '"@ + parameter_name(
            func,
            parameter,
        ) + "' must be a whole number (type: "@ + parameter_json_type(func, parameter)
            + "). Please provide an integer value."@,
        ArgumentError::OutOfRange { parameter, value } => "Parameter '"@ + parameter_name(
            func,
            parameter,
        ) + "' value "@ + decimal_text(value as int)
            + " is out of range for i16 (-32768 to 32767). Please use a value within this range."@,
        ArgumentError::NotAString { parameter } => "Parameter '"@ + parameter_name(
            func,
            parameter,
        ) + "' must be a string, but got "@ + given_text(func, args, parameter)
            + ". Please provide a string value in quotes."@,
        ArgumentError::NotABoolean { parameter } => "Parameter '"@ + parameter_name(
            func,
            parameter,
        ) + "' must be a boolean (true/false), but got "@ + given_text(func, args, parameter)
            + ". Please use true or false."@,
        ArgumentError::NotAScalar { parameter } => "Parameter '"@ + parameter_name(
            func,
            parameter,
        ) + "' must be a single value, but got "@ + given_text(func, args, parameter)
            + ". Please provide a string, a number or a boolean."@,
    }
}

/// Appends the list of the declared parameters to `out`.
pub fn push_parameter_list(out: &mut String, params: &Vec<Parameter>)
    ensures
        final(out)@ == old(out)@ + parameter_list(
            crate::manifest::parameters_view(params@),
            params.len() as int,
        ),
{
    let ghost views = crate::manifest::parameters_view(params@);
    let mut i: usize = 0;
    while i < params.len()
        invariant
            i <= params.len(),
            views == crate::manifest::parameters_view(params@),
            out@ == old(out)@ + parameter_list(views, i as int),
        decreases params.len() - i,
    {
        let ghost before = out@;
        if i > 0 {
            out.append(", ");
        }
        out.append(params[i].name.as_str());
        out.append(": ");
        out.append(type_to_json_type(params[i].param_type.as_str()));
        proof {
            assert(views[i as int] == params@[i as int]@);
            if i == 0 {
                assert(parameter_list(views, 0) =~= Seq::<char>::empty());
                assert(out@ =~= old(out)@ + parameter_list(views, 1));
            } else {
                assert(out@ =~= old(out)@ + parameter_list(views, i + 1));
            }
        }
        i = i + 1;
    }
}

/// Appends the list of the names of the arguments to `out`.
pub fn push_argument_list(out: &mut String, members: &Vec<(String, Json)>)
    ensures
        final(out)@ == old(out)@ + argument_list(members_view(members@), members.len() as int),
{
    let ghost views = members_view(members@);
    let mut i: usize = 0;
    while i < members.len()
        invariant
            i <= members.len(),
            views == members_view(members@),
            out@ == old(out)@ + argument_list(views, i as int),
        decreases members.len() - i,
    {
        if i > 0 {
            out.append(", ");
        }
        out.append(members[i].0.as_str());
        proof {
            assert(views[i as int].0 == members@[i as int].0@);
            if i == 0 {
                assert(argument_list(views, 0) =~= Seq::<char>::empty());
                assert(out@ =~= old(out)@ + argument_list(views, 1));
            } else {
                assert(out@ =~= old(out)@ + argument_list(views, i + 1));
            }
        }
        i = i + 1;
    }
}

/// Appends the name of the parameter at `index` to `out`.
fn push_parameter_name(out: &mut String, func: &Function, index: usize)
    ensures
        final(out)@ == old(out)@ + parameter_name(func@, index),
{
    if index < func.params.len() {
        out.append(func.params[index].name.as_str());
        proof {
            assert(func@.params[index as int] == func.params@[index as int]@);
        }
    } else {
        proof {
            assert(out@ =~= old(out)@ + Seq::<char>::empty());
        }
    }
}

/// Appends the JSON type of the parameter at `index` to `out`.
fn push_parameter_json_type(out: &mut String, func: &Function, index: usize)
    ensures
        final(out)@ == old(out)@ + parameter_json_type(func@, index),
{
    if index < func.params.len() {
        out.append(type_to_json_type(func.params[index].param_type.as_str()));
        proof {
            assert(func@.params[index as int] == func.params@[index as int]@);
        }
    } else {
        proof {
            assert(out@ =~= old(out)@ + Seq::<char>::empty());
        }
    }
}

/// Appends, in words, the kind of value given for the parameter at `index`.
fn push_given(out: &mut String, func: &Function, arguments: &Json, index: usize)
    ensures
        final(out)@ == old(out)@ + given_text(func@, arguments@, index),
{
    if index < func.params.len() {
        proof {
            assert(func@.params[index as int] == func.params@[index as int]@);
        }
        match arguments.get(func.params[index].name.as_str()) {
            Some(value) => {
                out.append(kind_name(value.kind()));
            },
            None => {
                out.append("nothing");
            },
        }
    } else {
        proof {
            reveal_strlit("");
            assert(parameter_name(func@, index) == ""@);
        }
        match arguments.get("") {
            Some(value) => {
                out.append(kind_name(value.kind()));
            },
            None => {
                out.append("nothing");
            },
        }
    }
}

impl ArgumentError {
    /// The fault in words, for a caller who has to correct the arguments:
    /// it names what is wrong and lists what the function takes.
    pub fn message(&self, func: &Function, arguments: &Json) -> (text: String)
        ensures
            text@ == fault_message(*self, func@, arguments@),
    {
        match self {
            ArgumentError::NotAnObject => String::from_str("Arguments must be an object"),
            ArgumentError::TakesNoParameters => {
                let mut text = String::from_str("Function '");
                text.append(func.name.as_str());
                text.append("' takes no parameters, but you provided: [");
                match arguments {
                    Json::Object(members) => {
                        proof {
                            lemma_object_view(*members);
                        }
                        push_argument_list(&mut text, members);
                    },
                    _ => {
                        proof {
                            assert(text@ =~= text@ + Seq::<char>::empty());
                        }
                    },
                }
                text.append("]. Remove all arguments.");
                text
            },
            ArgumentError::NoneProvided => {
                let mut text = String::from_str("Function '");
                text.append(func.name.as_str());
                text.append("' requires ");
                push_decimal(&mut text, func.params.len() as u64);
                text.append(" parameters: [");
                proof {
                    assert(func@.params =~= crate::manifest::parameters_view(func.params@));
                }
                push_parameter_list(&mut text, &func.params);
                text.append("]. Please provide all required arguments.");
                text
            },
            ArgumentError::UnknownParameter { argument } => {
                let mut text = String::from_str("Invalid parameter '");
                match arguments {
                    Json::Object(members) => {
                        proof {
                            lemma_object_view(*members);
                        }
                        if *argument < members.len() {
                            text.append(members[*argument].0.as_str());
                        } else {
                            proof {
                                assert(text@ =~= text@ + Seq::<char>::empty());
                            }
                        }
                    },
                    _ => {
                        proof {
                            assert(text@ =~= text@ + Seq::<char>::empty());
                        }
                    },
                }
                text.append("' for function '");
                text.append(func.name.as_str());
                text.append("'. Valid parameters are: [");
                proof {
                    assert(func@.params =~= crate::manifest::parameters_view(func.params@));
                }
                push_parameter_list(&mut text, &func.params);
                text.append("]. Please correct the parameter name.");
                text
            },
            ArgumentError::MissingParameter { parameter } => {
                let mut text = String::from_str("Missing required parameter '");
                push_parameter_name(&mut text, func, *parameter);
                text.append("' (type: ");
                push_parameter_json_type(&mut text, func, *parameter);
                text.append(") for function '");
                text.append(func.name.as_str());
                text.append("'. Please add this parameter to your arguments.");
                text
            },
            ArgumentError::NotANumber { parameter } => {
                let mut text = String::from_str("Parameter '");
                push_parameter_name(&mut text, func, *parameter);
                text.append("' must be a number (type: ");
                push_parameter_json_type(&mut text, func, *parameter);
                text.append("), but got ");
                push_given(&mut text, func, arguments, *parameter);
                text.append(". Please provide a numeric value.");
                text
            },
            ArgumentError::NotAnInteger { parameter } => {
                let mut text = String::from_str("Parameter '");
                push_parameter_name(&mut text, func, *parameter);
                text.append("' must be a whole number (type: ");
                push_parameter_json_type(&mut text, func, *parameter);
                text.append("). Please provide an integer value.");
                text
            },
            ArgumentError::OutOfRange { parameter, value } => {
                let mut text = String::from_str("Parameter '");
                push_parameter_name(&mut text, func, *parameter);
                text.append("' value ");
                let number = crate::text::decimal_wide(*value);
                text.append(number.as_str());
                text.append(
                    " is out of range for i16 (-32768 to 32767). Please use a value within this range.",
                );
                text
            },
            ArgumentError::NotAString { parameter } => {
                let mut text = String::from_str("Parameter '");
                push_parameter_name(&mut text, func, *parameter);
                text.append("' must be a string, but got ");
                push_given(&mut text, func, arguments, *parameter);
                text.append(". Please provide a string value in quotes.");
                text
            },
            ArgumentError::NotABoolean { parameter } => {
                let mut text = String::from_str("Parameter '");
                push_parameter_name(&mut text, func, *parameter);
                text.append("' must be a boolean (true/false), but got ");
                push_given(&mut text, func, arguments, *parameter);
                text.append(". Please use true or false.");
                text
            },
            ArgumentError::NotAScalar { parameter } => {
                let mut text = String::from_str("Parameter '");
                push_parameter_name(&mut text, func, *parameter);
                text.append("' must be a single value, but got ");
                push_given(&mut text, func, arguments, *parameter);
                text.append(". Please provide a string, a number or a boolean.");
                text
            },
        }
    }
}

/// The list of the first `n` parameters holds the name of each of them.
pub proof fn lemma_parameter_list_holds(params: Seq<ParameterView>, n: int, k: int)
    requires
        0 <= k < n <= params.len(),
    ensures
        text_contains(parameter_list(params, n), params[k].name),
    decreases n,
{
    let empty = Seq::<char>::empty();
    if k == n - 1 {
        let tail = ": "@ + json_type_of(params[k].param_type);
        if n == 1 {
            lemma_contains_part(empty, params[k].name, tail);
            assert(parameter_list(params, n) =~= empty + params[k].name + tail);
        } else {
            let head = parameter_list(params, n - 1) + ", "@;
            lemma_contains_part(head, params[k].name, tail);
            assert(parameter_list(params, n) =~= head + params[k].name + tail);
        }
    } else {
        lemma_parameter_list_holds(params, n - 1, k);
        let tail = ", "@ + parameter_entry(params[n - 1]);
        lemma_contains_widen(empty, parameter_list(params, n - 1), tail, params[k].name);
        assert(parameter_list(params, n) =~= empty + parameter_list(params, n - 1) + tail);
    }
}

/// The list of the first `n` argument names holds each of them.
pub proof fn lemma_argument_list_holds(members: Seq<(Seq<char>, JsonView)>, n: int, k: int)
    requires
        0 <= k < n <= members.len(),
    ensures
        text_contains(argument_list(members, n), members[k].0),
    decreases n,
{
    let empty = Seq::<char>::empty();
    if k == n - 1 {
        if n == 1 {
            lemma_contains_part(empty, members[k].0, empty);
            assert(argument_list(members, n) =~= empty + members[k].0 + empty);
        } else {
            let head = argument_list(members, n - 1) + ", "@;
            lemma_contains_part(head, members[k].0, empty);
            assert(argument_list(members, n) =~= head + members[k].0 + empty);
        }
    } else {
        lemma_argument_list_holds(members, n - 1, k);
        let tail = ", "@ + members[n - 1].0;
        lemma_contains_widen(empty, argument_list(members, n - 1), tail, members[k].0);
        assert(argument_list(members, n) =~= empty + argument_list(members, n - 1) + tail);
    }
}

/// The parameter that a fault is about, for the faults that are about one.
pub open spec fn fault_parameter(e: ArgumentError) -> Option<usize> {
    match e {
        ArgumentError::MissingParameter { parameter } => Some(parameter),
        ArgumentError::NotANumber { parameter } => Some(parameter),
        ArgumentError::NotAnInteger { parameter } => Some(parameter),
        ArgumentError::OutOfRange { parameter, value } => Some(parameter),
        ArgumentError::NotAString { parameter } => Some(parameter),
        ArgumentError::NotABoolean { parameter } => Some(parameter),
        ArgumentError::NotAScalar { parameter } => Some(parameter),
        _ => None,
    }
}

/// The first fault among the parameters is the fault of a declared
/// parameter, and no parameter before it has one.
pub proof fn lemma_first_parameter_fault(
    params: Seq<ParameterView>,
    args: JsonView,
    from: int,
    e: ArgumentError,
)
    requires
        0 <= from,
        params.len() <= usize::MAX,
        first_parameter_fault(params, args, from) == Some(e),
    ensures
        fault_parameter(e) is Some,
        from <= fault_parameter(e)->0 < params.len(),
        parameter_fault(params[fault_parameter(e)->0 as int], fault_parameter(e)->0, args)
            == Some(e),
        forall|k: int|
            from <= k < fault_parameter(e)->0 ==> parameter_fault(
                #[trigger] params[k],
                k as usize,
                args,
            ) is None,
    decreases params.len() - from,
{
    if from < params.len() {
        if parameter_fault(params[from], from as usize, args) is None {
            lemma_first_parameter_fault(params, args, from + 1, e);
        }
    }
}

/// The first unknown argument is an argument that is not declared, and
/// every argument before it is declared.
pub proof fn lemma_first_unknown(
    params: Seq<ParameterView>,
    members: Seq<(Seq<char>, JsonView)>,
    from: int,
    at: int,
)
    requires
        0 <= from,
        first_unknown(params, members, from) == Some(at),
    ensures
        from <= at < members.len(),
        !declares(params, members[at].0),
        forall|k: int| from <= k < at ==> declares(params, (#[trigger] members[k]).0),
    decreases members.len() - from,
{
    if from < members.len() && declares(params, members[from].0) {
        lemma_first_unknown(params, members, from + 1, at);
    }
}

/// The name that the message for a fault has to hold: the name of the
/// argument or the parameter that the fault is about; for arguments that are
/// no object, the word for what they must be.
pub open spec fn offending_name(e: ArgumentError, func: FunctionView, args: JsonView) -> Seq<
    char,
> {
    match e {
        ArgumentError::NotAnObject => "object"@,
        ArgumentError::TakesNoParameters => argument_name(args, 0),
        ArgumentError::NoneProvided => parameter_name(func, 0),
        ArgumentError::UnknownParameter { argument } => argument_name(args, argument),
        _ => parameter_name(func, fault_parameter(e)->0),
    }
}

/// Whether the fault `e` is true of the arguments: what it names is there,
/// and is at fault in the way that `e` says.
pub open spec fn fault_is_real(e: ArgumentError, func: FunctionView, args: JsonView) -> bool {
    let members = argument_members(args);
    match e {
        ArgumentError::NotAnObject => !(args is Object),
        ArgumentError::TakesNoParameters => {
            &&& args is Object
            &&& func.params.len() == 0
            &&& members.len() > 0
            &&& !declares(func.params, members[0].0)
        },
        ArgumentError::NoneProvided => {
            &&& args is Object
            &&& func.params.len() > 0
            &&& args.get(func.params[0].name) is None
        },
        ArgumentError::UnknownParameter { argument } => {
            &&& args is Object
            &&& argument < members.len()
            &&& !declares(func.params, members[argument as int].0)
        },
        ArgumentError::MissingParameter { parameter } => {
            &&& args is Object
            &&& parameter < func.params.len()
            &&& args.get(func.params[parameter as int].name) is None
        },
        _ => {
            let parameter = fault_parameter(e)->0;
            &&& args is Object
            &&& parameter < func.params.len()
            &&& args.get(func.params[parameter as int].name) matches Some(value)
            &&& value_fault(func.params[parameter as int], parameter, value) == Some(e)
        },
    }
}

/// Whenever arguments are rejected, the fault is real, and the message
/// names what is at fault: it holds the name of an argument that is not
/// declared, or of a parameter that is missing or was given a value of the
/// wrong type; for arguments that are no object, it says that an object is
/// required.
pub proof fn lemma_rejection_names_offender(func: FunctionView, args: JsonView, e: ArgumentError)
    requires
        func.params.len() <= usize::MAX,
        argument_members(args).len() <= usize::MAX,
        check_arguments(func, args) == Some(e),
    ensures
        fault_is_real(e, func, args),
        text_contains(fault_message(e, func, args), offending_name(e, func, args)),
{
    let members = argument_members(args);
    let params = func.params;
    let message = fault_message(e, func, args);
    let name = offending_name(e, func, args);
    let empty = Seq::<char>::empty();
    if !(args is Object) {
        reveal_strlit("Arguments must be an object");
        reveal_strlit("object");
        let at = 21int;
        assert(message.subrange(at, at + 6) =~= "object"@);
    } else if params.len() == 0 && members.len() > 0 {
        let before = "Function '"@ + func.name + "' takes no parameters, but you provided: ["@;
        let after = "]. Remove all arguments."@;
        let list = argument_list(members, members.len() as int);
        lemma_argument_list_holds(members, members.len() as int, 0);
        lemma_contains_widen(before, list, after, name);
        assert(message =~= before + list + after);
    } else if params.len() > 0 && members.len() == 0 {
        let before = "Function '"@ + func.name + "' requires "@ + decimal_digits(params.len())
            + " parameters: ["@;
        let after = "]. Please provide all required arguments."@;
        let list = parameter_list(params, params.len() as int);
        lemma_parameter_list_holds(params, params.len() as int, 0);
        lemma_contains_widen(before, list, after, name);
        assert(message =~= before + list + after);
        lemma_member_index(members, params[0].name);
    } else {
        match first_unknown(params, members, 0) {
            Some(at) => {
                lemma_first_unknown(params, members, 0, at);
                let before = "Invalid parameter '"@;
                let after = "' for function '"@ + func.name + "'. Valid parameters are: ["@
                    + parameter_list(params, params.len() as int)
                    + "]. Please correct the parameter name."@;
                lemma_contains_part(before, name, after);
                assert(message =~= before + name + after);
            },
            None => {
                lemma_first_parameter_fault(params, args, 0, e);
                let index = fault_parameter(e)->0;
                let p = params[index as int];
                let given = given_text(func, args, index);
                let json_type = parameter_json_type(func, index);
                match e {
                    ArgumentError::MissingParameter { parameter } => {
                        let before = "Missing required parameter '"@;
                        let after = "' (type: "@ + json_type + ") for function '"@ + func.name
                            + "'. Please add this parameter to your arguments."@;
                        lemma_contains_part(before, name, after);
                        assert(message =~= before + name + after);
                    },
                    ArgumentError::NotANumber { parameter } => {
                        let before = "Parameter '"@;
                        let after = "' must be a number (type: "@ + json_type + "), but got "@
                            + given + ". Please provide a numeric value."@;
                        lemma_contains_part(before, name, after);
                        assert(message =~= before + name + after);
                    },
                    ArgumentError::NotAnInteger { parameter } => {
                        let before = "Parameter '"@;
                        let after = "' must be a whole number (type: "@ + json_type
                            + "). Please provide an integer value."@;
                        lemma_contains_part(before, name, after);
                        assert(message =~= before + name + after);
                    },
                    ArgumentError::OutOfRange { parameter, value } => {
                        let before = "Parameter '"@;
                        let after = "' value "@ + decimal_text(value as int)
                            + " is out of range for i16 (-32768 to 32767). Please use a value within this range."@;
                        lemma_contains_part(before, name, after);
                        assert(message =~= before + name + after);
                    },
                    ArgumentError::NotAString { parameter } => {
                        let before = "Parameter '"@;
                        let after = "' must be a string, but got "@ + given
                            + ". Please provide a string value in quotes."@;
                        lemma_contains_part(before, name, after);
                        assert(message =~= before + name + after);
                    },
                    ArgumentError::NotABoolean { parameter } => {
                        let before = "Parameter '"@;
                        let after = "' must be a boolean (true/false), but got "@ + given
                            + ". Please use true or false."@;
                        lemma_contains_part(before, name, after);
                        assert(message =~= before + name + after);
                    },
                    ArgumentError::NotAScalar { parameter } => {
                        let before = "Parameter '"@;
                        let after = "' must be a single value, but got "@ + given
                            + ". Please provide a string, a number or a boolean."@;
                        lemma_contains_part(before, name, after);
                        assert(message =~= before + name + after);
                    },
                    _ => {},
                }
            },
        }
    }
}

/// Whether a value fits the declared type of a parameter: an integer
/// parameter takes an integer, which for 16 bits lies in -32768 to 32767; a
/// string parameter a string; a boolean parameter a boolean; a parameter of
/// any other type whatever is no array and no object.
pub open spec fn value_fits(p: ParameterView, value: JsonView) -> bool {
    match wire_type_of(p.param_type) {
        WireType::I16 => value.as_integer() is Some && -32768 <= value.as_integer()->0 <= 32767,
        WireType::I32 => value.as_integer() is Some,
        WireType::CStr => value is Str,
        WireType::Bool => value is Bool,
        WireType::Other => !(value is Array) && !(value is Object),
    }
}

/// Whether arguments fit a function: they are an object, every key is the
/// name of a declared parameter, and every declared parameter is given a
/// value that fits its type.
pub open spec fn arguments_fit(func: FunctionView, args: JsonView) -> bool {
    &&& args is Object
    &&& forall|k: int|
        0 <= k < argument_members(args).len() ==> declares(
            func.params,
            (#[trigger] argument_members(args)[k]).0,
        )
    &&& forall|i: int|
        0 <= i < func.params.len() ==> args.get((#[trigger] func.params[i]).name) is Some
            && value_fits(func.params[i], args.get(func.params[i].name)->0)
}

/// No argument from `from` on is unknown exactly when each of them is
/// declared.
proof fn lemma_none_unknown(
    params: Seq<ParameterView>,
    members: Seq<(Seq<char>, JsonView)>,
    from: int,
)
    requires
        0 <= from,
    ensures
        first_unknown(params, members, from) is None <==> forall|k: int|
            from <= k < members.len() ==> declares(params, (#[trigger] members[k]).0),
    decreases members.len() - from,
{
    if from < members.len() {
        lemma_none_unknown(params, members, from + 1);
        if declares(params, members[from].0) {
            assert forall|k: int|
                from <= k < members.len() && (forall|j: int|
                    from + 1 <= j < members.len() ==> declares(
                        params,
                        (#[trigger] members[j]).0,
                    )) implies declares(params, (#[trigger] members[k]).0) by {
                if k > from {
                    assert(declares(params, members[k].0));
                }
            }
        }
    }
}

/// No parameter from `from` on has a fault exactly when each of them is
/// given a value that fits.
proof fn lemma_none_at_fault(params: Seq<ParameterView>, args: JsonView, from: int)
    requires
        0 <= from,
    ensures
        first_parameter_fault(params, args, from) is None <==> forall|i: int|
            from <= i < params.len() ==> args.get((#[trigger] params[i]).name) is Some
                && value_fits(params[i], args.get(params[i].name)->0),
    decreases params.len() - from,
{
    if from < params.len() {
        lemma_none_at_fault(params, args, from + 1);
        let p = params[from];
        assert(parameter_fault(p, from as usize, args) is None <==> args.get(p.name) is Some
            && value_fits(p, args.get(p.name)->0));
        if parameter_fault(p, from as usize, args) is None {
            assert forall|i: int|
                from <= i < params.len() && (forall|j: int|
                    from + 1 <= j < params.len() ==> args.get((#[trigger] params[j]).name)
                        is Some && value_fits(params[j], args.get(params[j].name)->0))
                implies args.get((#[trigger] params[i]).name) is Some && value_fits(
                params[i],
                args.get(params[i].name)->0,
            ) by {
                if i > from {
                    assert(args.get(params[i].name) is Some);
                }
            }
        }
    }
}

/// Arguments are accepted exactly when they fit the function: when they
/// are an object whose keys are the declared parameter names, no more and
/// no fewer, and each value fits the type of its parameter.
pub proof fn lemma_accepted_exactly_when_fit(func: FunctionView, args: JsonView)
    ensures
        check_arguments(func, args) is None <==> arguments_fit(func, args),
{
    let members = argument_members(args);
    let params = func.params;
    if args is Object {
        lemma_none_unknown(params, members, 0);
        lemma_none_at_fault(params, args, 0);
        if params.len() == 0 && members.len() > 0 {
            assert(!declares(params, members[0].0));
        } else if params.len() > 0 && members.len() == 0 {
            lemma_member_index(members, params[0].name);
            assert(args.get(params[0].name) is None);
        }
    }
}

} // verus!
