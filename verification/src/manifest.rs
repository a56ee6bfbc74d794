//! The manifest: a device's table of callable functions, with the tag, the
//! parameters and the return type of each. Checks of a manifest's internal
//! consistency, and the registry that keeps checked manifests by device
//! identity.

use vstd::prelude::*;
use crate::json::{
    items_view, lemma_array_view, lemma_member_index, lemma_object_view, member_index,
    members_view, Json, JsonView,
};
use crate::text::{lemma_contains_part, str_eq, text_contains};

verus! {

/// A parameter of a function: its name, and the name of its type.
#[derive(Debug, Clone, PartialEq, Eq)]
pub struct Parameter {
    pub name: String,
    pub param_type: String,
}

/// A function of the device: the tag that it is called by, its name, what
/// it does, the name of the type that it returns if it returns anything, and
/// its parameters in the order in which their arguments are sent.
#[derive(Debug, Clone, PartialEq, Eq)]
pub struct Function {
    pub tag: u8,
    pub name: String,
    pub desc: String,
    pub return_type: Option<String>,
    pub params: Vec<Parameter>,
}

/// The description of a device: its name, what it is, the version of the
/// description, and its functions.
#[derive(Debug, Clone, PartialEq, Eq)]
pub struct Manifest {
    pub name: String,
    pub description: String,
    pub version: String,
    pub functions: Vec<Function>,
}

/// A parameter as a mathematical value.
pub struct ParameterView {
    pub name: Seq<char>,
    pub param_type: Seq<char>,
}

/// A function as a mathematical value.
pub struct FunctionView {
    pub tag: u8,
    pub name: Seq<char>,
    pub desc: Seq<char>,
    pub return_type: Option<Seq<char>>,
    pub params: Seq<ParameterView>,
}

/// A manifest as a mathematical value.
pub struct ManifestView {
    pub name: Seq<char>,
    pub description: Seq<char>,
    pub version: Seq<char>,
    pub functions: Seq<FunctionView>,
}

impl View for Parameter {
    type V = ParameterView;

    open spec fn view(&self) -> ParameterView {
        ParameterView { name: self.name@, param_type: self.param_type@ }
    }
}

impl View for Function {
    type V = FunctionView;

    open spec fn view(&self) -> FunctionView {
        FunctionView {
            tag: self.tag,
            name: self.name@,
            desc: self.desc@,
            return_type: match self.return_type {
                Some(t) => Some(t@),
                None => None,
            },
            params: Seq::new(self.params@.len(), |i: int| self.params@[i]@),
        }
    }
}

impl View for Manifest {
    type V = ManifestView;

    open spec fn view(&self) -> ManifestView {
        ManifestView {
            name: self.name@,
            description: self.description@,
            version: self.version@,
            functions: Seq::new(self.functions@.len(), |i: int| self.functions@[i]@),
        }
    }
}

impl Parameter {
    /// A copy of the parameter.
    pub fn duplicate(&self) -> (copy: Parameter)
        ensures
            copy@ == self@,
    {
        Parameter { name: self.name.clone(), param_type: self.param_type.clone() }
    }
}

impl Function {
    /// A copy of the function.
    pub fn duplicate(&self) -> (copy: Function)
        ensures
            copy@ == self@,
    {
        let mut params: Vec<Parameter> = Vec::new();
        let mut i: usize = 0;
        while i < self.params.len()
            invariant
                i <= self.params.len(),
                params.len() == i,
                forall|k: int| 0 <= k < i ==> (#[trigger] params@[k])@ == self.params@[k]@,
            decreases self.params.len() - i,
        {
            params.push(self.params[i].duplicate());
            i = i + 1;
        }
        let return_type = match &self.return_type {
            Some(t) => Some(t.clone()),
            None => None,
        };
        let copy = Function {
            tag: self.tag,
            name: self.name.clone(),
            desc: self.desc.clone(),
            return_type,
            params,
        };
        proof {
            assert(copy@.params =~= self@.params);
        }
        copy
    }
}

impl Manifest {
    /// A copy of the manifest.
    pub fn duplicate(&self) -> (copy: Manifest)
        ensures
            copy@ == self@,
    {
        let mut functions: Vec<Function> = Vec::new();
        let mut i: usize = 0;
        while i < self.functions.len()
            invariant
                i <= self.functions.len(),
                functions.len() == i,
                forall|k: int| 0 <= k < i ==> (#[trigger] functions@[k])@ == self.functions@[k]@,
            decreases self.functions.len() - i,
        {
            functions.push(self.functions[i].duplicate());
            i = i + 1;
        }
        let copy = Manifest {
            name: self.name.clone(),
            description: self.description.clone(),
            version: self.version.clone(),
            functions,
        };
        proof {
            assert(copy@.functions =~= self@.functions);
        }
        copy
    }
}

/// How a parameter or a result is laid out on the wire. A type name that is
/// none of `i16`, `i32`, `CStr`, `bool` is laid out as a string.
#[derive(Debug, Clone, Copy, PartialEq, Eq, Structural)]
pub enum WireType {
    I16,
    I32,
    CStr,
    Bool,
    Other,
}

/// The wire type that a type name stands for.
pub open spec fn wire_type_of(name: Seq<char>) -> WireType {
    if name == "i16"@ {
        WireType::I16
    } else if name == "i32"@ {
        WireType::I32
    } else if name == "CStr"@ {
        WireType::CStr
    } else if name == "bool"@ {
        WireType::Bool
    } else {
        WireType::Other
    }
}

/// The wire type that a type name stands for.
pub fn wire_type(name: &str) -> (t: WireType)
    ensures
        t == wire_type_of(name@),
{
    if str_eq(name, "i16") {
        WireType::I16
    } else if str_eq(name, "i32") {
        WireType::I32
    } else if str_eq(name, "CStr") {
        WireType::CStr
    } else if str_eq(name, "bool") {
        WireType::Bool
    } else {
        WireType::Other
    }
}

/// Whether a type name is one of the closed set that a manifest may use.
pub open spec fn is_known_type_name(name: Seq<char>) -> bool {
    name == "i16"@ || name == "i32"@ || name == "CStr"@ || name == "bool"@ || name == "f32"@
        || name == "f64"@
}

/// Whether a type name is one of the closed set that a manifest may use.
/// Parameters of other types are accepted and handled as strings.
pub fn is_known_type(name: &str) -> (known: bool)
    ensures
        known == is_known_type_name(name@),
{
    str_eq(name, "i16") || str_eq(name, "i32") || str_eq(name, "CStr") || str_eq(name, "bool")
        || str_eq(name, "f32") || str_eq(name, "f64")
}

/// The JSON Schema primitive that a type name is described by.
pub open spec fn json_type_of(rust_type: Seq<char>) -> Seq<char> {
    if rust_type == "i16"@ || rust_type == "i32"@ || rust_type == "i64"@ {
        "integer"@
    } else if rust_type == "f32"@ || rust_type == "f64"@ {
        "number"@
    } else if rust_type == "CStr"@ {
        "string"@
    } else if rust_type == "bool"@ {
        "boolean"@
    } else {
        "string"@
    }
}

/// The JSON Schema primitive that a type name is described by.
pub fn type_to_json_type(rust_type: &str) -> (json_type: &'static str)
    ensures
        json_type@ == json_type_of(rust_type@),
{
    if str_eq(rust_type, "i16") || str_eq(rust_type, "i32") || str_eq(rust_type, "i64") {
        "integer"
    } else if str_eq(rust_type, "f32") || str_eq(rust_type, "f64") {
        "number"
    } else if str_eq(rust_type, "CStr") {
        "string"
    } else if str_eq(rust_type, "bool") {
        "boolean"
    } else {
        "string"
    }
}

/// No two of the first `n` keys are equal.
pub open spec fn distinct_before<K>(keys: Seq<K>, n: int) -> bool {
    forall|a: int, b: int| 0 <= a < b < n ==> keys[a] != keys[b]
}

/// No two keys are equal.
pub open spec fn all_distinct<K>(keys: Seq<K>) -> bool {
    distinct_before(keys, keys.len() as int)
}

/// `second` is the first position that repeats an earlier key, and `first`
/// is the position of that earlier key.
pub open spec fn first_repeat<K>(keys: Seq<K>, first: int, second: int) -> bool {
    &&& 0 <= first < second < keys.len()
    &&& keys[first] == keys[second]
    &&& distinct_before(keys, second)
}

/// What the search for a repeated key found.
pub open spec fn repeat_found<K>(keys: Seq<K>, found: Option<(usize, usize)>) -> bool {
    match found {
        Some((first, second)) => first_repeat(keys, first as int, second as int),
        None => all_distinct(keys),
    }
}

/// The first repeated key is at one place only.
pub proof fn lemma_first_repeat_unique<K>(keys: Seq<K>, a: int, b: int, c: int, d: int)
    requires
        first_repeat(keys, a, b),
        first_repeat(keys, c, d),
    ensures
        a == c,
        b == d,
{
}

/// The tags of a manifest's functions, in order.
pub open spec fn function_tags(functions: Seq<FunctionView>) -> Seq<u8> {
    Seq::new(functions.len(), |i: int| functions[i].tag)
}

/// The names of a manifest's functions, in order.
pub open spec fn function_names(functions: Seq<FunctionView>) -> Seq<Seq<char>> {
    Seq::new(functions.len(), |i: int| functions[i].name)
}

/// The names of a function's parameters, in order.
pub open spec fn parameter_names(params: Seq<ParameterView>) -> Seq<Seq<char>> {
    Seq::new(params.len(), |i: int| params[i].name)
}

/// The views of a vector of functions.
pub open spec fn functions_view(functions: Seq<Function>) -> Seq<FunctionView> {
    Seq::new(functions.len(), |i: int| functions[i]@)
}

/// The views of a vector of parameters.
pub open spec fn parameters_view(params: Seq<Parameter>) -> Seq<ParameterView> {
    Seq::new(params.len(), |i: int| params[i]@)
}

/// Finds the first tag that occurs a second time.
pub fn find_repeated_tag(functions: &Vec<Function>) -> (found: Option<(usize, usize)>)
    ensures
        repeat_found(function_tags(functions_view(functions@)), found),
{
    let ghost keys = function_tags(functions_view(functions@));
    let mut second: usize = 0;
    while second < functions.len()
        invariant
            second <= functions.len(),
            keys == function_tags(functions_view(functions@)),
            distinct_before(keys, second as int),
        decreases functions.len() - second,
    {
        let mut first: usize = 0;
        while first < second
            invariant
                first <= second < functions.len(),
                keys == function_tags(functions_view(functions@)),
                distinct_before(keys, second as int),
                forall|a: int| 0 <= a < first ==> keys[a] != keys[second as int],
            decreases second - first,
        {
            if functions[first].tag == functions[second].tag {
                proof {
                    assert(keys[first as int] == keys[second as int]);
                }
                return Some((first, second));
            }
            proof {
                assert(keys[first as int] != keys[second as int]);
            }
            first = first + 1;
        }
        second = second + 1;
    }
    None
}

/// Finds the first function name that occurs a second time.
pub fn find_repeated_function_name(functions: &Vec<Function>) -> (found: Option<(usize, usize)>)
    ensures
        repeat_found(function_names(functions_view(functions@)), found),
{
    let ghost keys = function_names(functions_view(functions@));
    let mut second: usize = 0;
    while second < functions.len()
        invariant
            second <= functions.len(),
            keys == function_names(functions_view(functions@)),
            distinct_before(keys, second as int),
        decreases functions.len() - second,
    {
        let mut first: usize = 0;
        while first < second
            invariant
                first <= second < functions.len(),
                keys == function_names(functions_view(functions@)),
                distinct_before(keys, second as int),
                forall|a: int| 0 <= a < first ==> keys[a] != keys[second as int],
            decreases second - first,
        {
            if str_eq(functions[first].name.as_str(), functions[second].name.as_str()) {
                proof {
                    assert(keys[first as int] == keys[second as int]);
                }
                return Some((first, second));
            }
            proof {
                assert(keys[first as int] != keys[second as int]);
            }
            first = first + 1;
        }
        second = second + 1;
    }
    None
}

/// Finds the first parameter name that occurs a second time.
pub fn find_repeated_parameter(params: &Vec<Parameter>) -> (found: Option<(usize, usize)>)
    ensures
        repeat_found(parameter_names(parameters_view(params@)), found),
{
    let ghost keys = parameter_names(parameters_view(params@));
    let mut second: usize = 0;
    while second < params.len()
        invariant
            second <= params.len(),
            keys == parameter_names(parameters_view(params@)),
            distinct_before(keys, second as int),
        decreases params.len() - second,
    {
        let mut first: usize = 0;
        while first < second
            invariant
                first <= second < params.len(),
                keys == parameter_names(parameters_view(params@)),
                distinct_before(keys, second as int),
                forall|a: int| 0 <= a < first ==> keys[a] != keys[second as int],
            decreases second - first,
        {
            if str_eq(params[first].name.as_str(), params[second].name.as_str()) {
                proof {
                    assert(keys[first as int] == keys[second as int]);
                }
                return Some((first, second));
            }
            proof {
                assert(keys[first as int] != keys[second as int]);
            }
            first = first + 1;
        }
        second = second + 1;
    }
    None
}

/// Why a manifest is not consistent. Functions and parameters are given by
/// their positions.
#[derive(Debug, Clone, Copy, PartialEq, Eq, Structural)]
pub enum ManifestError {
    /// A function has tag 0, which is the device identity query.
    ReservedTag { function: usize },
    /// Two functions have the same tag.
    DuplicateTag { first: usize, second: usize },
    /// Two functions have the same name.
    DuplicateFunction { first: usize, second: usize },
    /// Two parameters of a function have the same name.
    DuplicateParameter { function: usize, first: usize, second: usize },
}

/// No function before position `n` has tag 0.
pub open spec fn no_reserved_tag_before(functions: Seq<FunctionView>, n: int) -> bool {
    forall|i: int| 0 <= i < n ==> (#[trigger] functions[i]).tag != 0
}

/// No function before position `n` has two parameters of one name.
pub open spec fn parameters_distinct_before(functions: Seq<FunctionView>, n: int) -> bool {
    forall|i: int| 0 <= i < n ==> all_distinct(parameter_names((#[trigger] functions[i]).params))
}

/// A manifest is consistent when no function has the reserved tag 0, no two
/// functions share a tag or a name, and no function has two parameters of
/// one name.
pub open spec fn manifest_consistent(m: ManifestView) -> bool {
    &&& no_reserved_tag_before(m.functions, m.functions.len() as int)
    &&& all_distinct(function_tags(m.functions))
    &&& all_distinct(function_names(m.functions))
    &&& parameters_distinct_before(m.functions, m.functions.len() as int)
}

/// Whether `e` is the first fault of `m`, in the order in which the checks
/// are made: the reserved tag, then tags, then names, then parameters.
pub open spec fn is_first_fault(m: ManifestView, e: ManifestError) -> bool {
    let fs = m.functions;
    match e {
        ManifestError::ReservedTag { function } => {
            &&& function < fs.len()
            &&& fs[function as int].tag == 0
            &&& no_reserved_tag_before(fs, function as int)
        },
        ManifestError::DuplicateTag { first, second } => {
            &&& no_reserved_tag_before(fs, fs.len() as int)
            &&& first_repeat(function_tags(fs), first as int, second as int)
        },
        ManifestError::DuplicateFunction { first, second } => {
            &&& no_reserved_tag_before(fs, fs.len() as int)
            &&& all_distinct(function_tags(fs))
            &&& first_repeat(function_names(fs), first as int, second as int)
        },
        ManifestError::DuplicateParameter { function, first, second } => {
            &&& no_reserved_tag_before(fs, fs.len() as int)
            &&& all_distinct(function_tags(fs))
            &&& all_distinct(function_names(fs))
            &&& function < fs.len()
            &&& parameters_distinct_before(fs, function as int)
            &&& first_repeat(
                parameter_names(fs[function as int].params),
                first as int,
                second as int,
            )
        },
    }
}

/// The name of the function at `index`, or nothing if there is none.
pub open spec fn function_name(m: ManifestView, index: usize) -> Seq<char> {
    if index < m.functions.len() {
        m.functions[index as int].name
    } else {
        Seq::empty()
    }
}

/// The name of the parameter at `index` of the function at `function`, or
/// nothing if there is none.
pub open spec fn parameter_name_at(m: ManifestView, function: usize, index: usize) -> Seq<char> {
    if function < m.functions.len() && index < m.functions[function as int].params.len() {
        m.functions[function as int].params[index as int].name
    } else {
        Seq::empty()
    }
}

/// The tag of the function at `index`, or 0 if there is none.
pub open spec fn function_tag(m: ManifestView, index: usize) -> u8 {
    if index < m.functions.len() {
        m.functions[index as int].tag
    } else {
        0
    }
}

/// The message for a fault of a manifest.
pub open spec fn manifest_fault_message(e: ManifestError, m: ManifestView) -> Seq<char> {
    match e {
        ManifestError::ReservedTag { function } => "Function '"@ + function_name(m, function)
            + "' uses tag 0, which is reserved for the device identity query"@,
        ManifestError::DuplicateTag { first, second } => "Functions '"@ + function_name(m, first)
            + "' and '"@ + function_name(m, second) + "' share tag "@
            + crate::text::decimal_digits(function_tag(m, first) as nat),
        ManifestError::DuplicateFunction { first, second } => "Function name '"@
            + function_name(m, first) + "' is used more than once"@,
        ManifestError::DuplicateParameter { function, first, second } => "Function '"@
            + function_name(m, function) + "' has more than one parameter named '"@
            + parameter_name_at(m, function, first) + "'"@,
    }
}

/// Appends the name of the function at `index`.
fn push_function_name(out: &mut String, manifest: &Manifest, index: usize)
    ensures
        final(out)@ == old(out)@ + function_name(manifest@, index),
{
    if index < manifest.functions.len() {
        out.append(manifest.functions[index].name.as_str());
        proof {
            assert(manifest@.functions[index as int] == manifest.functions@[index as int]@);
        }
    } else {
        proof {
            assert(out@ =~= old(out)@ + Seq::<char>::empty());
        }
    }
}

impl ManifestError {
    /// The fault in words, with the names of the functions and parameters
    /// that it is about.
    pub fn message(&self, manifest: &Manifest) -> (text: String)
        ensures
            text@ == manifest_fault_message(*self, manifest@),
    {
        match self {
            ManifestError::ReservedTag { function } => {
                let mut text = String::from_str("Function '");
                push_function_name(&mut text, manifest, *function);
                text.append("' uses tag 0, which is reserved for the device identity query");
                text
            },
            ManifestError::DuplicateTag { first, second } => {
                let mut text = String::from_str("Functions '");
                push_function_name(&mut text, manifest, *first);
                text.append("' and '");
                push_function_name(&mut text, manifest, *second);
                text.append("' share tag ");
                let tag: u8 = if *first < manifest.functions.len() {
                    proof {
                        assert(manifest@.functions[*first as int] == manifest.functions@[*first as int]@);
                    }
                    manifest.functions[*first].tag
                } else {
                    0
                };
                crate::text::push_decimal(&mut text, tag as u64);
                text
            },
            ManifestError::DuplicateFunction { first, second } => {
                let mut text = String::from_str("Function name '");
                push_function_name(&mut text, manifest, *first);
                text.append("' is used more than once");
                text
            },
            ManifestError::DuplicateParameter { function, first, second } => {
                let mut text = String::from_str("Function '");
                push_function_name(&mut text, manifest, *function);
                text.append("' has more than one parameter named '");
                if *function < manifest.functions.len() && *first
                    < manifest.functions[*function].params.len() {
                    proof {
                        assert(manifest@.functions[*function as int]
                            == manifest.functions@[*function as int]@);
                        assert(manifest.functions@[*function as int]@.params[*first as int]
                            == manifest.functions@[*function as int].params@[*first as int]@);
                    }
                    text.append(manifest.functions[*function].params[*first].name.as_str());
                } else {
                    proof {
                        assert(text@ =~= text@ + Seq::<char>::empty());
                    }
                }
                text.append("'");
                text
            },
        }
    }
}

/// The name that the message for a fault of a manifest has to hold: the
/// name of a function that is at fault, or of the parameter that is there
/// twice.
pub open spec fn manifest_offender(e: ManifestError, m: ManifestView) -> Seq<char> {
    match e {
        ManifestError::ReservedTag { function } => function_name(m, function),
        ManifestError::DuplicateTag { first, second } => function_name(m, second),
        ManifestError::DuplicateFunction { first, second } => function_name(m, first),
        ManifestError::DuplicateParameter { function, first, second } => parameter_name_at(
            m,
            function,
            first,
        ),
    }
}

/// Whenever a manifest is rejected, the message names what is at fault: a
/// function that has the reserved tag, a function whose tag an earlier
/// function has, the function name that is used twice, or the parameter
/// name that is used twice.
pub proof fn lemma_manifest_fault_names_offender(m: ManifestView, e: ManifestError)
    requires
        is_first_fault(m, e),
    ensures
        text_contains(manifest_fault_message(e, m), manifest_offender(e, m)),
        match e {
            ManifestError::ReservedTag { function } => {
                &&& function < m.functions.len()
                &&& manifest_offender(e, m) == m.functions[function as int].name
                &&& m.functions[function as int].tag == 0
            },
            ManifestError::DuplicateTag { first, second } => {
                &&& first < second < m.functions.len()
                &&& manifest_offender(e, m) == m.functions[second as int].name
                &&& m.functions[first as int].tag == m.functions[second as int].tag
            },
            ManifestError::DuplicateFunction { first, second } => {
                &&& first < second < m.functions.len()
                &&& manifest_offender(e, m) == m.functions[first as int].name
                &&& m.functions[first as int].name == m.functions[second as int].name
            },
            ManifestError::DuplicateParameter { function, first, second } => {
                &&& function < m.functions.len()
                &&& first < second < m.functions[function as int].params.len()
                &&& manifest_offender(e, m) == m.functions[function as int].params[first as int].name
                &&& m.functions[function as int].params[first as int].name
                    == m.functions[function as int].params[second as int].name
            },
        },
{
    let message = manifest_fault_message(e, m);
    let name = manifest_offender(e, m);
    match e {
        ManifestError::ReservedTag { function } => {
            let before = "Function '"@;
            let after = "' uses tag 0, which is reserved for the device identity query"@;
            lemma_contains_part(before, name, after);
            assert(message =~= before + name + after);
        },
        ManifestError::DuplicateTag { first, second } => {
            let before = "Functions '"@ + function_name(m, first) + "' and '"@;
            let after = "' share tag "@ + crate::text::decimal_digits(
                function_tag(m, first) as nat,
            );
            lemma_contains_part(before, name, after);
            assert(message =~= before + name + after);
            let tags = function_tags(m.functions);
            assert(tags[first as int] == tags[second as int]);
        },
        ManifestError::DuplicateFunction { first, second } => {
            let before = "Function name '"@;
            let after = "' is used more than once"@;
            lemma_contains_part(before, name, after);
            assert(message =~= before + name + after);
            let names = function_names(m.functions);
            assert(names[first as int] == names[second as int]);
        },
        ManifestError::DuplicateParameter { function, first, second } => {
            let before = "Function '"@ + function_name(m, function)
                + "' has more than one parameter named '"@;
            let after = "'"@;
            lemma_contains_part(before, name, after);
            assert(message =~= before + name + after);
            let names = parameter_names(m.functions[function as int].params);
            assert(names[first as int] == names[second as int]);
        },
    }
}

/// The message for a device whose manifest file is not there.
pub open spec fn not_found_text(device_id: Seq<char>, path: Seq<char>) -> Seq<char> {
    "Manifest not found for device '"@ + device_id + "'. Expected file: "@ + path
        + ". Make sure the manifest file exists and the device ID is correct."@
}

/// The message for a device whose manifest file is not there; `path` is
/// where the file was looked for.
pub fn manifest_not_found_message(device_id: &str, path: &str) -> (text: String)
    ensures
        text@ == not_found_text(device_id@, path@),
{
    let mut text = String::from_str("Manifest not found for device '");
    text.append(device_id);
    text.append("'. Expected file: ");
    text.append(path);
    text.append(". Make sure the manifest file exists and the device ID is correct.");
    text
}

/// Checks a manifest's internal consistency and reports its first fault.
pub fn validate_manifest(manifest: &Manifest) -> (result: Result<(), ManifestError>)
    ensures
        match result {
            Ok(_) => manifest_consistent(manifest@),
            Err(e) => is_first_fault(manifest@, e) && !manifest_consistent(manifest@),
        },
{
    let ghost fs = manifest@.functions;
    assert(fs =~= functions_view(manifest.functions@));
    let mut i: usize = 0;
    while i < manifest.functions.len()
        invariant
            i <= manifest.functions.len(),
            fs == manifest@.functions,
            no_reserved_tag_before(fs, i as int),
        decreases manifest.functions.len() - i,
    {
        if manifest.functions[i].tag == 0 {
            proof {
                assert(fs[i as int].tag == 0);
            }
            return Err(ManifestError::ReservedTag { function: i });
        }
        i = i + 1;
    }
    match find_repeated_tag(&manifest.functions) {
        Some((first, second)) => {
            proof {
                let keys = function_tags(fs);
                assert(keys[first as int] == keys[second as int]);
            }
            return Err(ManifestError::DuplicateTag { first, second });
        },
        None => {},
    }
    match find_repeated_function_name(&manifest.functions) {
        Some((first, second)) => {
            proof {
                let keys = function_names(fs);
                assert(keys[first as int] == keys[second as int]);
            }
            return Err(ManifestError::DuplicateFunction { first, second });
        },
        None => {},
    }
    let mut f: usize = 0;
    while f < manifest.functions.len()
        invariant
            f <= manifest.functions.len(),
            fs == manifest@.functions,
            no_reserved_tag_before(fs, fs.len() as int),
            all_distinct(function_tags(fs)),
            all_distinct(function_names(fs)),
            parameters_distinct_before(fs, f as int),
        decreases manifest.functions.len() - f,
    {
        proof {
            assert(fs[f as int].params =~= parameters_view(manifest.functions@[f as int].params@));
        }
        match find_repeated_parameter(&manifest.functions[f].params) {
            Some((first, second)) => {
                proof {
                    let keys = parameter_names(fs[f as int].params);
                    assert(keys[first as int] == keys[second as int]);
                    assert(!all_distinct(keys));
                }
                return Err(ManifestError::DuplicateParameter { function: f, first, second });
            },
            None => {},
        }
        f = f + 1;
    }
    Ok(())
}

/// How a tool is advertised: its name, what it does, and the schema of the
/// argument object that it takes.
#[derive(Debug, PartialEq, Eq)]
pub struct Tool {
    pub name: String,
    pub description: String,
    pub input_schema: Json,
}

/// A tool as a mathematical value.
pub struct ToolView {
    pub name: Seq<char>,
    pub description: Seq<char>,
    pub input_schema: JsonView,
}

impl View for Tool {
    type V = ToolView;

    open spec fn view(&self) -> ToolView {
        ToolView {
            name: self.name@,
            description: self.description@,
            input_schema: self.input_schema@,
        }
    }
}

/// The schema of one parameter: an object that gives its JSON type.
pub open spec fn parameter_schema(p: ParameterView) -> JsonView {
    JsonView::Object(seq![("type"@, JsonView::Str(json_type_of(p.param_type)))])
}

/// The schema of the argument object of `func`: an object with one property
/// for each parameter, all of them required.
pub open spec fn input_schema(func: FunctionView) -> JsonView {
    JsonView::Object(
        seq![
            ("type"@, JsonView::Str("object"@)),
            (
                "properties"@,
                JsonView::Object(
                    Seq::new(
                        func.params.len(),
                        |i: int| (func.params[i].name, parameter_schema(func.params[i])),
                    ),
                ),
            ),
            (
                "required"@,
                JsonView::Array(
                    Seq::new(func.params.len(), |i: int| JsonView::Str(func.params[i].name)),
                ),
            ),
        ],
    )
}

/// How `func` is advertised as a tool.
pub open spec fn tool_of(func: FunctionView) -> ToolView {
    ToolView { name: func.name, description: func.desc, input_schema: input_schema(func) }
}

/// The tools of a manifest: one for each function, in order.
pub open spec fn tools_of(m: ManifestView) -> Seq<ToolView> {
    Seq::new(m.functions.len(), |i: int| tool_of(m.functions[i]))
}

/// The views of a vector of tools.
pub open spec fn tools_view(tools: Seq<Tool>) -> Seq<ToolView> {
    Seq::new(tools.len(), |i: int| tools[i]@)
}

/// Builds the schema of one parameter.
pub fn create_parameter_schema(param: &Parameter) -> (schema: Json)
    ensures
        schema@ == parameter_schema(param@),
{
    let mut members: Vec<(String, Json)> = Vec::new();
    members.push((String::from_str("type"), Json::text(type_to_json_type(param.param_type.as_str()))));
    proof {
        lemma_object_view(members);
        assert(members_view(members@) =~= seq![
            ("type"@, JsonView::Str(json_type_of(param@.param_type))),
        ]);
    }
    Json::Object(members)
}

/// The registry of manifests: the directory that manifests are read from,
/// and the manifests that were found consistent, by device identity.
pub struct ManifestManager {
    manifest_dir: String,
    loaded_manifests: Vec<(String, Manifest)>,
}

/// The manifests of a registry as mathematical values, with their keys.
pub open spec fn entries_view(entries: Seq<(String, Manifest)>) -> Seq<(Seq<char>, ManifestView)> {
    Seq::new(entries.len(), |i: int| (entries[i].0@, entries[i].1@))
}

/// The manifest that is kept under `key`, if there is one.
pub open spec fn lookup(entries: Seq<(Seq<char>, ManifestView)>, key: Seq<char>) -> Option<
    ManifestView,
> {
    let at = member_index(entries, key);
    if at < entries.len() {
        Some(entries[at].1)
    } else {
        None
    }
}

/// The registry after `manifest` was put under `key`: it takes the place of
/// the manifest kept under that key, or is added.
pub open spec fn with_entry(
    entries: Seq<(Seq<char>, ManifestView)>,
    key: Seq<char>,
    manifest: ManifestView,
) -> Seq<(Seq<char>, ManifestView)> {
    let at = member_index(entries, key);
    if at < entries.len() {
        entries.update(at, (key, manifest))
    } else {
        entries.push((key, manifest))
    }
}

/// The registry after what is kept under `key` was dropped.
pub open spec fn without_entry(entries: Seq<(Seq<char>, ManifestView)>, key: Seq<char>) -> Seq<
    (Seq<char>, ManifestView),
> {
    let at = member_index(entries, key);
    if at < entries.len() {
        entries.remove(at)
    } else {
        entries
    }
}

/// No key is kept twice.
pub open spec fn keys_distinct(entries: Seq<(Seq<char>, ManifestView)>) -> bool {
    forall|a: int, b: int|
        0 <= a < b < entries.len() ==> (#[trigger] entries[a]).0 != (#[trigger] entries[b]).0
}

/// What an optional manifest is as a value.
pub open spec fn opt_manifest_view(manifest: Option<&Manifest>) -> Option<ManifestView> {
    match manifest {
        Some(m) => Some(m@),
        None => None,
    }
}

/// The name of the file that holds the manifest of a device: the identity
/// with the extension `.json`.
pub open spec fn manifest_file_name_of(device_id: Seq<char>) -> Seq<char> {
    device_id + ".json"@
}

impl ManifestManager {
    /// The directory that manifests are read from.
    pub closed spec fn dir(&self) -> Seq<char> {
        self.manifest_dir@
    }

    /// The manifests that are kept, with their keys.
    pub closed spec fn entries(&self) -> Seq<(Seq<char>, ManifestView)> {
        entries_view(self.loaded_manifests@)
    }

    /// A registry for the manifests of `manifest_dir`, which holds none yet.
    pub fn new(manifest_dir: String) -> (manager: Self)
        ensures
            manager.dir() == manifest_dir@,
            manager.entries() == Seq::<(Seq<char>, ManifestView)>::empty(),
            keys_distinct(manager.entries()),
    {
        let manager = ManifestManager { manifest_dir, loaded_manifests: Vec::new() };
        proof {
            assert(manager.entries() =~= Seq::<(Seq<char>, ManifestView)>::empty());
        }
        manager
    }

    /// The directory that manifests are read from.
    pub fn manifest_dir(&self) -> (dir: &str)
        ensures
            dir@ == self.dir(),
    {
        self.manifest_dir.as_str()
    }

    /// The name of the file that holds the manifest of a device.
    pub fn manifest_file_name(device_id: &str) -> (name: String)
        ensures
            name@ == manifest_file_name_of(device_id@),
    {
        let mut name = String::from_str(device_id);
        name.append(".json");
        name
    }

    fn find(&self, device_id: &str) -> (at: usize)
        ensures
            at == member_index(self.entries(), device_id@),
            at <= self.loaded_manifests.len(),
            self.entries().len() == self.loaded_manifests.len(),
    {
        let ghost views = self.entries();
        let mut i: usize = 0;
        while i < self.loaded_manifests.len()
            invariant
                i <= self.loaded_manifests.len(),
                views == entries_view(self.loaded_manifests@),
                forall|k: int| 0 <= k < i ==> (#[trigger] views[k]).0 != device_id@,
            decreases self.loaded_manifests.len() - i,
        {
            if str_eq(self.loaded_manifests[i].0.as_str(), device_id) {
                proof {
                    assert(views[i as int].0 == device_id@);
                    lemma_member_index(views, device_id@);
                }
                return i;
            }
            proof {
                assert(views[i as int].0 == self.loaded_manifests@[i as int].0@);
            }
            i = i + 1;
        }
        proof {
            lemma_member_index(views, device_id@);
        }
        i
    }

    /// The manifest that is kept for a device, if there is one. Where there
    /// is none, the manifest has to be read from the file of the device and
    /// handed to `insert_manifest`.
    pub fn get_manifest(&self, device_id: &str) -> (manifest: Option<&Manifest>)
        ensures
            opt_manifest_view(manifest) == lookup(self.entries(), device_id@),
    {
        let at = self.find(device_id);
        if at < self.loaded_manifests.len() {
            Some(&self.loaded_manifests[at].1)
        } else {
            None
        }
    }

    /// Checks a manifest that was read for a device and keeps it if it is
    /// consistent. A manifest that is not consistent is not kept.
    pub fn insert_manifest(&mut self, device_id: &str, manifest: Manifest) -> (result: Result<
        (),
        ManifestError,
    >)
        ensures
            final(self).dir() == old(self).dir(),
            keys_distinct(old(self).entries()) ==> keys_distinct(final(self).entries()),
            match result {
                Ok(_) => {
                    &&& manifest_consistent(manifest@)
                    &&& final(self).entries() == with_entry(
                        old(self).entries(),
                        device_id@,
                        manifest@,
                    )
                },
                Err(e) => {
                    &&& is_first_fault(manifest@, e)
                    &&& !manifest_consistent(manifest@)
                    &&& final(self).entries() == old(self).entries()
                },
            },
    {
        match validate_manifest(&manifest) {
            Ok(_) => {},
            Err(e) => {
                return Err(e);
            },
        }
        let at = self.find(device_id);
        if at < self.loaded_manifests.len() {
            self.loaded_manifests[at] = (String::from_str(device_id), manifest);
        } else {
            self.loaded_manifests.push((String::from_str(device_id), manifest));
        }
        proof {
            assert(self.entries() =~= with_entry(old(self).entries(), device_id@, manifest@));
            lemma_with_entry_lookup(old(self).entries(), device_id@, manifest@, device_id@);
        }
        Ok(())
    }

    /// Drops the manifest that is kept for a device, so that it is read
    /// again. Returns the name of the file to read it from.
    pub fn reload_manifest(&mut self, device_id: &str) -> (file_name: String)
        ensures
            final(self).dir() == old(self).dir(),
            final(self).entries() == without_entry(old(self).entries(), device_id@),
            keys_distinct(old(self).entries()) ==> keys_distinct(final(self).entries()),
            file_name@ == manifest_file_name_of(device_id@),
    {
        let at = self.find(device_id);
        if at < self.loaded_manifests.len() {
            self.loaded_manifests.remove(at);
        }
        proof {
            assert(self.entries() =~= without_entry(old(self).entries(), device_id@));
            if keys_distinct(old(self).entries()) {
                lemma_without_entry_lookup(old(self).entries(), device_id@, device_id@);
            }
        }
        ManifestManager::manifest_file_name(device_id)
    }

    /// Builds the schema of the argument object of `func`.
    pub fn create_input_schema(&self, func: &Function) -> (schema: Json)
        ensures
            schema@ == input_schema(func@),
    {
        input_schema_for(func)
    }

    /// The tools that a manifest advertises: one for each function.
    pub fn create_tools_list(&self, manifest: &Manifest) -> (tools: Vec<Tool>)
        ensures
            tools_view(tools@) == tools_of(manifest@),
    {
        tools_for(manifest)
    }
}

/// Builds the schema of the argument object of `func`.
pub fn input_schema_for(func: &Function) -> (schema: Json)
    ensures
        schema@ == input_schema(func@),
{
    let mut properties: Vec<(String, Json)> = Vec::new();
    let mut required: Vec<Json> = Vec::new();
    let mut i: usize = 0;
    while i < func.params.len()
        invariant
            i <= func.params.len(),
            properties.len() == i,
            required.len() == i,
            forall|k: int|
                0 <= k < i ==> (#[trigger] properties@[k]).0@ == func.params@[k].name@
                    && properties@[k].1@ == parameter_schema(func.params@[k]@),
            forall|k: int|
                0 <= k < i ==> (#[trigger] required@[k])@ == JsonView::Str(
                    func.params@[k].name@,
                ),
        decreases func.params.len() - i,
    {
        let param = &func.params[i];
        properties.push((param.name.clone(), create_parameter_schema(param)));
        required.push(Json::Str(param.name.clone()));
        i = i + 1;
    }
    let mut members: Vec<(String, Json)> = Vec::new();
    members.push((String::from_str("type"), Json::text("object")));
    proof {
        lemma_object_view(properties);
        lemma_array_view(required);
        assert(members_view(properties@) =~= Seq::new(
            func@.params.len(),
            |i: int| (func@.params[i].name, parameter_schema(func@.params[i])),
        ));
        assert(items_view(required@) =~= Seq::new(
            func@.params.len(),
            |i: int| JsonView::Str(func@.params[i].name),
        ));
    }
    members.push((String::from_str("properties"), Json::Object(properties)));
    members.push((String::from_str("required"), Json::Array(required)));
    proof {
        lemma_object_view(members);
        assert(members_view(members@) =~= input_schema(func@)->Object_0);
    }
    Json::Object(members)
}

/// The tools that a manifest advertises: one for each function.
pub fn tools_for(manifest: &Manifest) -> (tools: Vec<Tool>)
    ensures
        tools_view(tools@) == tools_of(manifest@),
{
    let mut tools: Vec<Tool> = Vec::new();
    let mut i: usize = 0;
    while i < manifest.functions.len()
        invariant
            i <= manifest.functions.len(),
            tools.len() == i,
            forall|k: int| 0 <= k < i ==> (#[trigger] tools@[k])@ == tool_of(
                manifest.functions@[k]@,
            ),
        decreases manifest.functions.len() - i,
    {
        let func = &manifest.functions[i];
        tools.push(
            Tool {
                name: func.name.clone(),
                description: func.desc.clone(),
                input_schema: input_schema_for(func),
            },
        );
        i = i + 1;
    }
    proof {
        assert(tools_view(tools@) =~= tools_of(manifest@));
    }
    tools
}

/// A manifest that was put under a key is what is kept under that key, and
/// what is kept under other keys stays.
pub proof fn lemma_with_entry_lookup(
    entries: Seq<(Seq<char>, ManifestView)>,
    key: Seq<char>,
    manifest: ManifestView,
    other: Seq<char>,
)
    ensures
        lookup(with_entry(entries, key, manifest), key) == Some(manifest),
        other != key ==> lookup(with_entry(entries, key, manifest), other) == lookup(
            entries,
            other,
        ),
        keys_distinct(entries) ==> keys_distinct(with_entry(entries, key, manifest)),
{
    let after = with_entry(entries, key, manifest);
    let at = member_index(entries, key);
    lemma_member_index(entries, key);
    lemma_member_index(after, key);
    lemma_member_index(entries, other);
    lemma_member_index(after, other);
    if at < entries.len() {
        assert(after[at].0 == key);
        let found = member_index(after, key);
        if found < at {
            assert(after[found] == entries[found]);
        }
        if other != key {
            let a = member_index(entries, other);
            let b = member_index(after, other);
            if a < entries.len() {
                assert(after[a] == entries[a]);
            }
            if b < after.len() {
                assert(after[b] == entries[b]);
            }
            if a < b && a < entries.len() {
                assert(after[a].0 == other);
            }
            if b < a {
                assert(entries[b].0 == other);
            }
        }
        if keys_distinct(entries) {
            assert forall|a: int, b: int| 0 <= a < b < after.len() implies (#[trigger] after[a]).0
                != (#[trigger] after[b]).0 by {
                assert(after[a].0 == entries[a].0);
                assert(after[b].0 == entries[b].0);
            }
        }
    } else {
        let found = member_index(after, key);
        assert(after[entries.len() as int].0 == key);
        if found < entries.len() {
            assert(after[found] == entries[found]);
        }
        if other != key {
            let a = member_index(entries, other);
            let b = member_index(after, other);
            if a < entries.len() {
                assert(after[a] == entries[a]);
            }
            if b < entries.len() {
                assert(after[b] == entries[b]);
            }
            if a < b && a < entries.len() {
                assert(after[a].0 == other);
            }
            if b < a && b < entries.len() {
                assert(entries[b].0 == other);
            }
        }
        if keys_distinct(entries) {
            assert forall|a: int, b: int| 0 <= a < b < after.len() implies (#[trigger] after[a]).0
                != (#[trigger] after[b]).0 by {
                assert(after[a] == entries[a]);
                if b < entries.len() {
                    assert(after[b] == entries[b]);
                }
            }
        }
    }
}

/// After a key was dropped from a registry that keeps no key twice, nothing
/// is kept under it, and what is kept under other keys stays.
pub proof fn lemma_without_entry_lookup(
    entries: Seq<(Seq<char>, ManifestView)>,
    key: Seq<char>,
    other: Seq<char>,
)
    requires
        keys_distinct(entries),
    ensures
        lookup(without_entry(entries, key), key) is None,
        other != key ==> lookup(without_entry(entries, key), other) == lookup(entries, other),
        keys_distinct(without_entry(entries, key)),
{
    let after = without_entry(entries, key);
    let at = member_index(entries, key);
    lemma_member_index(entries, key);
    lemma_member_index(after, key);
    lemma_member_index(entries, other);
    lemma_member_index(after, other);
    if at < entries.len() {
        let found = member_index(after, key);
        if found < after.len() {
            if found < at {
                assert(after[found] == entries[found]);
            } else {
                assert(after[found] == entries[found + 1]);
            }
        }
        assert forall|a: int, b: int| 0 <= a < b < after.len() implies (#[trigger] after[a]).0
            != (#[trigger] after[b]).0 by {
            let a0 = if a < at {
                a
            } else {
                a + 1
            };
            let b0 = if b < at {
                b
            } else {
                b + 1
            };
            assert(after[a] == entries[a0]);
            assert(after[b] == entries[b0]);
        }
        if other != key {
            let a = member_index(entries, other);
            let b = member_index(after, other);
            if a < entries.len() {
                let a1 = if a < at {
                    a
                } else {
                    a - 1
                };
                assert(after[a1] == entries[a]);
                assert(after[a1].0 == other);
                if b < a1 {
                    let b0 = if b < at {
                        b
                    } else {
                        b + 1
                    };
                    assert(after[b] == entries[b0]);
                }
            } else if b < after.len() {
                let b0 = if b < at {
                    b
                } else {
                    b + 1
                };
                assert(after[b] == entries[b0]);
            }
            if b < after.len() {
                let b0 = if b < at {
                    b
                } else {
                    b + 1
                };
                assert(after[b] == entries[b0]);
                assert(entries[b0].0 == other);
            }
        }
    }
}

} // verus!
