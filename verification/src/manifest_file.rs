//! The manifest file: a JSON object with the fields `name`, `description`,
//! `version` and `functions`; each function is an object with `tag`,
//! `name`, `desc`, `params` and, if it returns something, `return`; each
//! parameter is an object with `name` and `type`. Other fields are passed
//! over.

use vstd::prelude::*;
use crate::json::{items_view, lemma_array_view, Json, JsonView};
use crate::manifest::{
    Function, FunctionView, Manifest, ManifestView, Parameter, ParameterView,
};
use crate::text::{decimal_digits, push_decimal};

verus! {

/// Where in a manifest file something is wrong.
#[derive(Debug, Clone, Copy, PartialEq, Eq, Structural)]
pub enum Place {
    /// The manifest itself.
    Manifest,
    /// The function at this position.
    Function { function: usize },
    /// The parameter at position `parameter` of the function at position
    /// `function`.
    Parameter { function: usize, parameter: usize },
}

/// The fields of a manifest file.
#[derive(Debug, Clone, Copy, PartialEq, Eq, Structural)]
pub enum Field {
    Name,
    Description,
    Version,
    Functions,
    Tag,
    Desc,
    Return,
    Params,
    Type,
}

/// Why a JSON value is no manifest.
#[derive(Debug, Clone, Copy, PartialEq, Eq, Structural)]
pub enum FormatError {
    /// What stands at this place is no object.
    NotAnObject(Place),
    /// The object at this place lacks this field.
    Missing(Place, Field),
    /// This field of the object at this place is not of the kind that it
    /// must be: a string, an array, or for the tag an integer from 0 to
    /// 255.
    Mistyped(Place, Field),
}

impl Field {
    /// The key of the field in the file.
    pub open spec fn key(self) -> Seq<char> {
        match self {
            Field::Name => "name"@,
            Field::Description => "description"@,
            Field::Version => "version"@,
            Field::Functions => "functions"@,
            Field::Tag => "tag"@,
            Field::Desc => "desc"@,
            Field::Return => "return"@,
            Field::Params => "params"@,
            Field::Type => "type"@,
        }
    }

    /// The key of the field in the file.
    pub fn name(&self) -> (key: &'static str)
        ensures
            key@ == self.key(),
    {
        match self {
            Field::Name => "name",
            Field::Description => "description",
            Field::Version => "version",
            Field::Functions => "functions",
            Field::Tag => "tag",
            Field::Desc => "desc",
            Field::Return => "return",
            Field::Params => "params",
            Field::Type => "type",
        }
    }
}

/// The text of a field that must be a string.
pub open spec fn text_field(object: JsonView, place: Place, field: Field) -> Result<
    Seq<char>,
    FormatError,
> {
    match object.get(field.key()) {
        None => Err(FormatError::Missing(place, field)),
        Some(JsonView::Str(text)) => Ok(text),
        Some(_) => Err(FormatError::Mistyped(place, field)),
    }
}

/// The items of a field that must be an array.
pub open spec fn array_field(object: JsonView, place: Place, field: Field) -> Result<
    Seq<JsonView>,
    FormatError,
> {
    match object.get(field.key()) {
        None => Err(FormatError::Missing(place, field)),
        Some(JsonView::Array(items)) => Ok(items),
        Some(_) => Err(FormatError::Mistyped(place, field)),
    }
}

/// The tag of a function: an integer from 0 to 255.
pub open spec fn tag_field(object: JsonView, place: Place) -> Result<u8, FormatError> {
    match object.get(Field::Tag.key()) {
        None => Err(FormatError::Missing(place, Field::Tag)),
        Some(value) => match value.as_u64() {
            Some(tag) if tag <= 255 => Ok(tag as u8),
            _ => Err(FormatError::Mistyped(place, Field::Tag)),
        },
    }
}

/// The return type of a function: a string, or none where the field is
/// absent or null.
pub open spec fn return_field(object: JsonView, place: Place) -> Result<
    Option<Seq<char>>,
    FormatError,
> {
    match object.get(Field::Return.key()) {
        None => Ok(None),
        Some(JsonView::Null) => Ok(None),
        Some(JsonView::Str(text)) => Ok(Some(text)),
        Some(_) => Err(FormatError::Mistyped(place, Field::Return)),
    }
}

/// The parameter that a JSON value stands for.
pub open spec fn parameter_of(value: JsonView, place: Place) -> Result<
    ParameterView,
    FormatError,
> {
    if !(value is Object) {
        Err(FormatError::NotAnObject(place))
    } else {
        match text_field(value, place, Field::Name) {
            Err(e) => Err(e),
            Ok(name) => match text_field(value, place, Field::Type) {
                Err(e) => Err(e),
                Ok(param_type) => Ok(ParameterView { name, param_type }),
            },
        }
    }
}

/// The parameters that the first `n` items stand for, as the parameters of
/// the function at position `function`.
pub open spec fn parameters_of(items: Seq<JsonView>, function: usize, n: int) -> Result<
    Seq<ParameterView>,
    FormatError,
>
    decreases n,
{
    if n <= 0 {
        Ok(Seq::empty())
    } else {
        match parameters_of(items, function, n - 1) {
            Err(e) => Err(e),
            Ok(before) => match parameter_of(
                items[n - 1],
                Place::Parameter { function, parameter: (n - 1) as usize },
            ) {
                Err(e) => Err(e),
                Ok(p) => Ok(before.push(p)),
            },
        }
    }
}

/// The function that a JSON value stands for, as the function at position
/// `function`.
pub open spec fn function_of(value: JsonView, function: usize) -> Result<
    FunctionView,
    FormatError,
> {
    let place = Place::Function { function };
    if !(value is Object) {
        Err(FormatError::NotAnObject(place))
    } else {
        match tag_field(value, place) {
            Err(e) => Err(e),
            Ok(tag) => match text_field(value, place, Field::Name) {
                Err(e) => Err(e),
                Ok(name) => match text_field(value, place, Field::Desc) {
                    Err(e) => Err(e),
                    Ok(desc) => match return_field(value, place) {
                        Err(e) => Err(e),
                        Ok(return_type) => match array_field(value, place, Field::Params) {
                            Err(e) => Err(e),
                            Ok(items) => match parameters_of(
                                items,
                                function,
                                items.len() as int,
                            ) {
                                Err(e) => Err(e),
                                Ok(params) => Ok(
                                    FunctionView { tag, name, desc, return_type, params },
                                ),
                            },
                        },
                    },
                },
            },
        }
    }
}

/// The functions that the first `n` items stand for.
pub open spec fn functions_of(items: Seq<JsonView>, n: int) -> Result<
    Seq<FunctionView>,
    FormatError,
>
    decreases n,
{
    if n <= 0 {
        Ok(Seq::empty())
    } else {
        match functions_of(items, n - 1) {
            Err(e) => Err(e),
            Ok(before) => match function_of(items[n - 1], (n - 1) as usize) {
                Err(e) => Err(e),
                Ok(f) => Ok(before.push(f)),
            },
        }
    }
}

/// The manifest that a JSON value stands for. The fields are looked at in
/// the order `name`, `description`, `version`, `functions`, those of a
/// function in the order `tag`, `name`, `desc`, `return`, `params`, and
/// those of a parameter in the order `name`, `type`; the first fault is
/// reported.
pub open spec fn manifest_of(value: JsonView) -> Result<ManifestView, FormatError> {
    let place = Place::Manifest;
    if !(value is Object) {
        Err(FormatError::NotAnObject(place))
    } else {
        match text_field(value, place, Field::Name) {
            Err(e) => Err(e),
            Ok(name) => match text_field(value, place, Field::Description) {
                Err(e) => Err(e),
                Ok(description) => match text_field(value, place, Field::Version) {
                    Err(e) => Err(e),
                    Ok(version) => match array_field(value, place, Field::Functions) {
                        Err(e) => Err(e),
                        Ok(items) => match functions_of(items, items.len() as int) {
                            Err(e) => Err(e),
                            Ok(functions) => Ok(
                                ManifestView { name, description, version, functions },
                            ),
                        },
                    },
                },
            },
        }
    }
}

/// Once an item is no parameter, the list of items is no list of
/// parameters.
proof fn lemma_parameters_failure_stays(items: Seq<JsonView>, function: usize, n: int, m: int)
    requires
        0 <= n <= m,
        parameters_of(items, function, n) is Err,
    ensures
        parameters_of(items, function, m) == parameters_of(items, function, n),
    decreases m - n,
{
    if n < m {
        lemma_parameters_failure_stays(items, function, n, m - 1);
    }
}

/// Once an item is no function, the list of items is no list of functions.
proof fn lemma_functions_failure_stays(items: Seq<JsonView>, n: int, m: int)
    requires
        0 <= n <= m,
        functions_of(items, n) is Err,
    ensures
        functions_of(items, m) == functions_of(items, n),
    decreases m - n,
{
    if n < m {
        lemma_functions_failure_stays(items, n, m - 1);
    }
}

/// What reading a text gave, as a value.
pub open spec fn text_view(result: Result<String, FormatError>) -> Result<Seq<char>, FormatError> {
    match result {
        Ok(text) => Ok(text@),
        Err(e) => Err(e),
    }
}

/// Reads a field that must be a string.
pub fn read_text(object: &Json, place: Place, field: Field) -> (result: Result<
    String,
    FormatError,
>)
    ensures
        text_view(result) == text_field(object@, place, field),
{
    match object.get(field.name()) {
        None => Err(FormatError::Missing(place, field)),
        Some(Json::Str(text)) => Ok(text.clone()),
        Some(_) => Err(FormatError::Mistyped(place, field)),
    }
}

/// Reads the parameter that a JSON value stands for.
pub fn read_parameter(value: &Json, place: Place) -> (result: Result<Parameter, FormatError>)
    ensures
        match result {
            Ok(p) => parameter_of(value@, place) == Ok::<ParameterView, FormatError>(p@),
            Err(e) => parameter_of(value@, place) == Err::<ParameterView, FormatError>(e),
        },
{
    match value {
        Json::Object(_) => {},
        _ => {
            return Err(FormatError::NotAnObject(place));
        },
    }
    let name = match read_text(value, place, Field::Name) {
        Ok(text) => text,
        Err(e) => {
            return Err(e);
        },
    };
    let param_type = match read_text(value, place, Field::Type) {
        Ok(text) => text,
        Err(e) => {
            return Err(e);
        },
    };
    Ok(Parameter { name, param_type })
}

/// Reads the function that a JSON value stands for, as the function at
/// position `function`.
#[verifier::loop_isolation(false)]
pub fn read_function(value: &Json, function: usize) -> (result: Result<Function, FormatError>)
    ensures
        match result {
            Ok(f) => function_of(value@, function) == Ok::<FunctionView, FormatError>(f@),
            Err(e) => function_of(value@, function) == Err::<FunctionView, FormatError>(e),
        },
{
    let place = Place::Function { function };
    match value {
        Json::Object(_) => {},
        _ => {
            return Err(FormatError::NotAnObject(place));
        },
    }
    let tag: u8 = match value.get("tag") {
        None => {
            return Err(FormatError::Missing(place, Field::Tag));
        },
        Some(tag_value) => match tag_value.as_u64() {
            Some(tag) => {
                if tag <= 255 {
                    tag as u8
                } else {
                    return Err(FormatError::Mistyped(place, Field::Tag));
                }
            },
            None => {
                return Err(FormatError::Mistyped(place, Field::Tag));
            },
        },
    };
    let name = match read_text(value, place, Field::Name) {
        Ok(text) => text,
        Err(e) => {
            return Err(e);
        },
    };
    let desc = match read_text(value, place, Field::Desc) {
        Ok(text) => text,
        Err(e) => {
            return Err(e);
        },
    };
    let return_type: Option<String> = match value.get("return") {
        None => None,
        Some(Json::Null) => None,
        Some(Json::Str(text)) => Some(text.clone()),
        Some(_) => {
            return Err(FormatError::Mistyped(place, Field::Return));
        },
    };
    let items = match value.get("params") {
        None => {
            return Err(FormatError::Missing(place, Field::Params));
        },
        Some(Json::Array(items)) => {
            proof {
                lemma_array_view(*items);
            }
            items
        },
        Some(_) => {
            return Err(FormatError::Mistyped(place, Field::Params));
        },
    };
    let ghost views = items_view(items@);
    let mut params: Vec<Parameter> = Vec::new();
    let mut i: usize = 0;
    proof {
        assert(crate::manifest::parameters_view(params@) =~= Seq::<ParameterView>::empty());
    }
    while i < items.len()
        invariant
            i <= items.len(),
            views == items_view(items@),
            params.len() == i,
            parameters_of(views, function, i as int) == Ok::<Seq<ParameterView>, FormatError>(
                crate::manifest::parameters_view(params@),
            ),
        decreases items.len() - i,
    {
        let ghost before = crate::manifest::parameters_view(params@);
        proof {
            assert(views[i as int] == items@[i as int]@);
        }
        match read_parameter(&items[i], Place::Parameter { function, parameter: i }) {
            Ok(p) => {
                params.push(p);
            },
            Err(e) => {
                proof {
                    lemma_parameters_failure_stays(views, function, i + 1, views.len() as int);
                }
                return Err(e);
            },
        }
        proof {
            assert(crate::manifest::parameters_view(params@) =~= before.push(
                params@[i as int]@,
            ));
        }
        i = i + 1;
    }
    let built = Function { tag, name, desc, return_type, params };
    proof {
        assert(built@.params =~= crate::manifest::parameters_view(built.params@));
    }
    Ok(built)
}

impl Manifest {
    /// Reads the manifest that a JSON value stands for, and reports the
    /// first place where the value is not as a manifest file must be.
    #[verifier::loop_isolation(false)]
    pub fn from_json(value: &Json) -> (result: Result<Manifest, FormatError>)
        ensures
            match result {
                Ok(m) => manifest_of(value@) == Ok::<ManifestView, FormatError>(m@),
                Err(e) => manifest_of(value@) == Err::<ManifestView, FormatError>(e),
            },
    {
        let place = Place::Manifest;
        match value {
            Json::Object(_) => {},
            _ => {
                return Err(FormatError::NotAnObject(place));
            },
        }
        let name = match read_text(value, place, Field::Name) {
            Ok(text) => text,
            Err(e) => {
                return Err(e);
            },
        };
        let description = match read_text(value, place, Field::Description) {
            Ok(text) => text,
            Err(e) => {
                return Err(e);
            },
        };
        let version = match read_text(value, place, Field::Version) {
            Ok(text) => text,
            Err(e) => {
                return Err(e);
            },
        };
        let items = match value.get("functions") {
            None => {
                return Err(FormatError::Missing(place, Field::Functions));
            },
            Some(Json::Array(items)) => {
                proof {
                    lemma_array_view(*items);
                }
                items
            },
            Some(_) => {
                return Err(FormatError::Mistyped(place, Field::Functions));
            },
        };
        let ghost views = items_view(items@);
        let mut functions: Vec<Function> = Vec::new();
        let mut i: usize = 0;
        proof {
            assert(crate::manifest::functions_view(functions@) =~= Seq::<FunctionView>::empty());
        }
        while i < items.len()
            invariant
                i <= items.len(),
                views == items_view(items@),
                functions.len() == i,
                functions_of(views, i as int) == Ok::<Seq<FunctionView>, FormatError>(
                    crate::manifest::functions_view(functions@),
                ),
            decreases items.len() - i,
        {
            let ghost before = crate::manifest::functions_view(functions@);
            proof {
                assert(views[i as int] == items@[i as int]@);
            }
            match read_function(&items[i], i) {
                Ok(f) => {
                    functions.push(f);
                },
                Err(e) => {
                    proof {
                        lemma_functions_failure_stays(views, i + 1, views.len() as int);
                    }
                    return Err(e);
                },
            }
            proof {
                assert(crate::manifest::functions_view(functions@) =~= before.push(
                    functions@[i as int]@,
                ));
            }
            i = i + 1;
        }
        let built = Manifest { name, description, version, functions };
        proof {
            assert(built@.functions =~= crate::manifest::functions_view(built.functions@));
        }
        Ok(built)
    }
}

impl Place {
    /// The place in words; positions count from 0.
    pub open spec fn text(self) -> Seq<char> {
        match self {
            Place::Manifest => "manifest"@,
            Place::Function { function } => "function "@ + decimal_digits(function as nat),
            Place::Parameter { function, parameter } => "parameter "@ + decimal_digits(
                parameter as nat,
            ) + " of function "@ + decimal_digits(function as nat),
        }
    }

    /// The place in words; positions count from 0.
    pub fn describe(&self) -> (text: String)
        ensures
            text@ == self.text(),
    {
        match self {
            Place::Manifest => String::from_str("manifest"),
            Place::Function { function } => {
                let mut text = String::from_str("function ");
                push_decimal(&mut text, *function as u64);
                text
            },
            Place::Parameter { function, parameter } => {
                let mut text = String::from_str("parameter ");
                push_decimal(&mut text, *parameter as u64);
                text.append(" of function ");
                push_decimal(&mut text, *function as u64);
                text
            },
        }
    }
}

impl FormatError {
    /// The error in words.
    pub open spec fn message_spec(self) -> Seq<char> {
        match self {
            FormatError::NotAnObject(place) => place.text() + ": expected an object"@,
            FormatError::Missing(place, field) => place.text() + ": missing field `"@
                + field.key() + "`"@,
            FormatError::Mistyped(place, field) => place.text() + ": field `"@ + field.key()
                + "` has the wrong type"@,
        }
    }

    /// The error in words.
    pub fn message(&self) -> (text: String)
        ensures
            text@ == self.message_spec(),
    {
        match self {
            FormatError::NotAnObject(place) => {
                let mut text = place.describe();
                text.append(": expected an object");
                text
            },
            FormatError::Missing(place, field) => {
                let mut text = place.describe();
                text.append(": missing field `");
                text.append(field.name());
                text.append("`");
                text
            },
            FormatError::Mistyped(place, field) => {
                let mut text = place.describe();
                text.append(": field `");
                text.append(field.name());
                text.append("` has the wrong type");
                text
            },
        }
    }
}

} // verus!
