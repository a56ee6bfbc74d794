//! JSON values as the router sees them: the arguments of a call come in as
//! one, and results and tool descriptions go out as one. Reading and
//! writing JSON text is not done here.

use vstd::prelude::*;

verus! {

/// A JSON number: a non-negative integer, a negative integer, or any other
/// number, which is held as its decimal text.
#[derive(Debug, Clone, PartialEq, Eq)]
pub enum JsonNumber {
    PosInt(u64),
    NegInt(i64),
    Float(String),
}

/// A JSON number as a mathematical value.
pub enum NumberView {
    Integer(int),
    Float(Seq<char>),
}

impl View for JsonNumber {
    type V = NumberView;

    open spec fn view(&self) -> NumberView {
        match self {
            JsonNumber::PosInt(u) => NumberView::Integer(*u as int),
            JsonNumber::NegInt(i) => NumberView::Integer(*i as int),
            JsonNumber::Float(text) => NumberView::Float(text@),
        }
    }
}

impl NumberView {
    /// The number, if it is an integer.
    pub open spec fn as_integer(self) -> Option<int> {
        match self {
            NumberView::Integer(v) => Some(v),
            NumberView::Float(_) => None,
        }
    }

    /// The number, if it is an integer that a signed 64-bit integer holds.
    pub open spec fn as_i64(self) -> Option<int> {
        match self {
            NumberView::Integer(v) if i64::MIN <= v <= i64::MAX => Some(v),
            _ => None,
        }
    }

    /// The number, if it is an integer that an unsigned 64-bit integer holds.
    pub open spec fn as_u64(self) -> Option<int> {
        match self {
            NumberView::Integer(v) if 0 <= v <= u64::MAX => Some(v),
            _ => None,
        }
    }
}

impl JsonNumber {
    /// The number, if it is an integer that a signed 64-bit integer holds.
    pub fn as_i64(&self) -> (value: Option<i64>)
        ensures
            match value {
                Some(v) => self@.as_i64() == Some(v as int),
                None => self@.as_i64() is None,
            },
    {
        match self {
            JsonNumber::PosInt(u) => {
                if *u <= 0x7fff_ffff_ffff_ffff {
                    Some(*u as i64)
                } else {
                    None
                }
            },
            JsonNumber::NegInt(i) => Some(*i),
            JsonNumber::Float(_) => None,
        }
    }

    /// The number, if it is an integer that an unsigned 64-bit integer holds.
    pub fn as_u64(&self) -> (value: Option<u64>)
        ensures
            match value {
                Some(v) => self@.as_u64() == Some(v as int),
                None => self@.as_u64() is None,
            },
    {
        match self {
            JsonNumber::PosInt(u) => Some(*u),
            JsonNumber::NegInt(i) => {
                if *i >= 0 {
                    Some(*i as u64)
                } else {
                    None
                }
            },
            JsonNumber::Float(_) => None,
        }
    }

    /// The number, if it is an integer.
    pub fn as_integer(&self) -> (value: Option<i128>)
        ensures
            match value {
                Some(v) => self@.as_integer() == Some(v as int),
                None => self@.as_integer() is None,
            },
    {
        match self {
            JsonNumber::PosInt(u) => Some(*u as i128),
            JsonNumber::NegInt(i) => Some(*i as i128),
            JsonNumber::Float(_) => None,
        }
    }

    /// A copy of the number.
    pub fn duplicate(&self) -> (copy: JsonNumber)
        ensures
            copy@ == self@,
    {
        match self {
            JsonNumber::PosInt(u) => JsonNumber::PosInt(*u),
            JsonNumber::NegInt(i) => JsonNumber::NegInt(*i),
            JsonNumber::Float(text) => JsonNumber::Float(text.clone()),
        }
    }
}

/// A JSON value. The members of an object are held in order; a key is
/// looked up from the front.
#[derive(Debug, PartialEq, Eq)]
pub enum Json {
    Null,
    Bool(bool),
    Number(JsonNumber),
    Str(String),
    Array(Vec<Json>),
    Object(Vec<(String, Json)>),
}

/// A JSON value as a mathematical value.
pub enum JsonView {
    Null,
    Bool(bool),
    Number(NumberView),
    Str(Seq<char>),
    Array(Seq<JsonView>),
    Object(Seq<(Seq<char>, JsonView)>),
}

/// The six kinds of JSON value.
#[derive(Debug, Clone, Copy, PartialEq, Eq, Structural)]
pub enum JsonKind {
    Null,
    Bool,
    Number,
    Str,
    Array,
    Object,
}

impl View for Json {
    type V = JsonView;

    open spec fn view(&self) -> JsonView
        decreases self,
    {
        match self {
            Json::Null => JsonView::Null,
            Json::Bool(b) => JsonView::Bool(*b),
            Json::Number(n) => JsonView::Number(n@),
            Json::Str(text) => JsonView::Str(text@),
            Json::Array(items) => JsonView::Array(
                Seq::new(
                    items@.len(),
                    |i: int|
                        if 0 <= i < items@.len() {
                            items@[i].view()
                        } else {
                            JsonView::Null
                        },
                ),
            ),
            Json::Object(members) => JsonView::Object(
                Seq::new(
                    members@.len(),
                    |i: int|
                        (
                            members@[i].0@,
                            if 0 <= i < members@.len() {
                                members@[i].1.view()
                            } else {
                                JsonView::Null
                            },
                        ),
                ),
            ),
        }
    }
}

/// The members of an object as mathematical values.
pub open spec fn members_view(members: Seq<(String, Json)>) -> Seq<(Seq<char>, JsonView)> {
    Seq::new(members.len(), |i: int| (members[i].0@, members[i].1@))
}

/// The items of an array as mathematical values.
pub open spec fn items_view(items: Seq<Json>) -> Seq<JsonView> {
    Seq::new(items.len(), |i: int| items[i]@)
}

/// The index of the first member with key `key`, or the number of members
/// if there is none.
pub open spec fn member_index<V>(members: Seq<(Seq<char>, V)>, key: Seq<char>) -> int
    decreases members.len(),
{
    if members.len() == 0 {
        0
    } else if members[0].0 == key {
        0
    } else {
        1 + member_index(members.drop_first(), key)
    }
}

/// Whether a member has key `key`.
pub open spec fn has_member<V>(members: Seq<(Seq<char>, V)>, key: Seq<char>) -> bool {
    exists|i: int| 0 <= i < members.len() && #[trigger] members[i].0 == key
}

/// The first member with that key is within the members where there is one,
/// and no member before it has the key.
pub proof fn lemma_member_index<V>(members: Seq<(Seq<char>, V)>, key: Seq<char>)
    ensures
        0 <= member_index(members, key) <= members.len(),
        forall|i: int| 0 <= i < member_index(members, key) ==> (#[trigger] members[i]).0 != key,
        member_index(members, key) < members.len() ==> members[member_index(members, key)].0
            == key,
        has_member(members, key) <==> member_index(members, key) < members.len(),
    decreases members.len(),
{
    if members.len() > 0 && members[0].0 != key {
        let rest = members.drop_first();
        lemma_member_index(rest, key);
        let at = member_index(members, key);
        assert forall|i: int| 0 <= i < at implies (#[trigger] members[i]).0 != key by {
            if i > 0 {
                assert(members[i] == rest[i - 1]);
            }
        }
        if at < members.len() {
            assert(members[at] == rest[at - 1]);
        }
        if has_member(members, key) {
            let i = choose|i: int| 0 <= i < members.len() && #[trigger] members[i].0 == key;
            assert(rest[i - 1] == members[i]);
        }
    } else if members.len() > 0 {
        assert(members[0].0 == key);
    }
}

impl JsonView {
    /// Which of the six kinds the value is of.
    pub open spec fn kind(self) -> JsonKind {
        match self {
            JsonView::Null => JsonKind::Null,
            JsonView::Bool(_) => JsonKind::Bool,
            JsonView::Number(_) => JsonKind::Number,
            JsonView::Str(_) => JsonKind::Str,
            JsonView::Array(_) => JsonKind::Array,
            JsonView::Object(_) => JsonKind::Object,
        }
    }

    /// The value of the first member with key `key`, if this is an object
    /// that has one.
    pub open spec fn get(self, key: Seq<char>) -> Option<JsonView> {
        match self {
            JsonView::Object(members) => {
                let at = member_index(members, key);
                if at < members.len() {
                    Some(members[at].1)
                } else {
                    None
                }
            },
            _ => None,
        }
    }

    /// The text, if this is a string.
    pub open spec fn as_str(self) -> Option<Seq<char>> {
        match self {
            JsonView::Str(text) => Some(text),
            _ => None,
        }
    }

    /// The number, if this is an integer that a signed 64-bit integer holds.
    pub open spec fn as_i64(self) -> Option<int> {
        match self {
            JsonView::Number(n) => n.as_i64(),
            _ => None,
        }
    }

    /// The number, if this is an integer that an unsigned 64-bit integer holds.
    pub open spec fn as_u64(self) -> Option<int> {
        match self {
            JsonView::Number(n) => n.as_u64(),
            _ => None,
        }
    }

    /// The number, if this is an integer.
    pub open spec fn as_integer(self) -> Option<int> {
        match self {
            JsonView::Number(n) => n.as_integer(),
            _ => None,
        }
    }
}

/// The view of an array is the views of its items.
pub proof fn lemma_array_view(items: Vec<Json>)
    ensures
        Json::Array(items)@ == JsonView::Array(items_view(items@)),
{
    assert(Json::Array(items)@->Array_0 =~= items_view(items@));
}

/// The view of an object is the keys and the views of its members.
pub proof fn lemma_object_view(members: Vec<(String, Json)>)
    ensures
        Json::Object(members)@ == JsonView::Object(members_view(members@)),
{
    let whole = Json::Object(members);
    assert(whole@ is Object);
    let viewed = whole@->Object_0;
    assert(viewed.len() == members@.len());
    assert forall|i: int| 0 <= i < viewed.len() implies viewed[i] == members_view(members@)[i] by {
        assert(viewed[i] == (members@[i].0@, members@[i].1@));
    }
    assert(viewed =~= members_view(members@));
}

/// What an optional text is as a value.
pub open spec fn opt_str_view(text: Option<&str>) -> Option<Seq<char>> {
    match text {
        Some(t) => Some(t@),
        None => None,
    }
}

/// What an optional JSON value is as a value.
pub open spec fn opt_json_view(value: Option<&Json>) -> Option<JsonView> {
    match value {
        Some(v) => Some(v@),
        None => None,
    }
}

/// What an optional owned JSON value is as a value.
pub open spec fn opt_owned_json_view(value: Option<Json>) -> Option<JsonView> {
    match value {
        Some(v) => Some(v@),
        None => None,
    }
}

/// The index of the first member with key `key`, or the number of members
/// if there is none.
pub fn find_member(members: &Vec<(String, Json)>, key: &str) -> (at: usize)
    ensures
        at == member_index(members_view(members@), key@),
        at <= members.len(),
{
    let ghost views = members_view(members@);
    let mut i: usize = 0;
    while i < members.len()
        invariant
            i <= members.len(),
            views == members_view(members@),
            forall|k: int| 0 <= k < i ==> (#[trigger] views[k]).0 != key@,
        decreases members.len() - i,
    {
        if crate::text::str_eq(members[i].0.as_str(), key) {
            proof {
                assert(views[i as int].0 == key@);
                lemma_member_index(views, key@);
            }
            return i;
        }
        proof {
            assert(views[i as int].0 == members@[i as int].0@);
        }
        i = i + 1;
    }
    proof {
        lemma_member_index(views, key@);
    }
    i
}

impl Json {
    /// Which of the six kinds the value is of.
    pub fn kind(&self) -> (kind: JsonKind)
        ensures
            kind == self@.kind(),
    {
        match self {
            Json::Null => JsonKind::Null,
            Json::Bool(_) => JsonKind::Bool,
            Json::Number(_) => JsonKind::Number,
            Json::Str(_) => JsonKind::Str,
            Json::Array(_) => JsonKind::Array,
            Json::Object(_) => JsonKind::Object,
        }
    }

    /// A string value with the text of `text`.
    pub fn text(text: &str) -> (value: Json)
        ensures
            value@ == JsonView::Str(text@),
    {
        Json::Str(String::from_str(text))
    }

    /// An integer value.
    pub fn integer(v: i64) -> (value: Json)
        ensures
            value@ == JsonView::Number(NumberView::Integer(v as int)),
    {
        if v < 0 {
            Json::Number(JsonNumber::NegInt(v))
        } else {
            Json::Number(JsonNumber::PosInt(v as u64))
        }
    }

    /// The text, if this is a string.
    pub fn as_str(&self) -> (text: Option<&str>)
        ensures
            opt_str_view(text) == self@.as_str(),
    {
        match self {
            Json::Str(text) => Some(text.as_str()),
            _ => None,
        }
    }

    /// The number, if it is an integer that a signed 64-bit integer holds.
    pub fn as_i64(&self) -> (value: Option<i64>)
        ensures
            match value {
                Some(v) => self@.as_i64() == Some(v as int),
                None => self@.as_i64() is None,
            },
    {
        match self {
            Json::Number(n) => n.as_i64(),
            _ => None,
        }
    }

    /// The number, if it is an integer that an unsigned 64-bit integer holds.
    pub fn as_u64(&self) -> (value: Option<u64>)
        ensures
            match value {
                Some(v) => self@.as_u64() == Some(v as int),
                None => self@.as_u64() is None,
            },
    {
        match self {
            Json::Number(n) => n.as_u64(),
            _ => None,
        }
    }

    /// The number, if this is an integer.
    pub fn as_integer(&self) -> (value: Option<i128>)
        ensures
            match value {
                Some(v) => self@.as_integer() == Some(v as int),
                None => self@.as_integer() is None,
            },
    {
        match self {
            Json::Number(n) => n.as_integer(),
            _ => None,
        }
    }

    /// The value of the first member with key `key`, if this is an object
    /// that has one.
    pub fn get(&self, key: &str) -> (value: Option<&Json>)
        ensures
            opt_json_view(value) == self@.get(key@),
    {
        match self {
            Json::Object(members) => {
                proof {
                    lemma_object_view(*members);
                }
                let at = find_member(members, key);
                if at < members.len() {
                    Some(&members[at].1)
                } else {
                    None
                }
            },
            _ => None,
        }
    }

    /// A copy of the value.
    #[verifier::loop_isolation(false)]
    pub fn duplicate(&self) -> (copy: Json)
        ensures
            copy@ == self@,
        decreases self,
    {
        match self {
            Json::Null => Json::Null,
            Json::Bool(b) => Json::Bool(*b),
            Json::Number(n) => Json::Number(n.duplicate()),
            Json::Str(text) => Json::Str(text.clone()),
            Json::Array(items) => {
                let mut copies: Vec<Json> = Vec::new();
                let mut i: usize = 0;
                while i < items.len()
                    invariant
                        i <= items.len(),
                        copies.len() == i,
                        forall|k: int| 0 <= k < i ==> (#[trigger] copies@[k])@ == items@[k]@,
                    decreases items.len() - i,
                {
                    copies.push(items[i].duplicate());
                    i = i + 1;
                }
                proof {
                    lemma_array_view(copies);
                    lemma_array_view(*items);
                    assert(items_view(copies@) =~= items_view(items@));
                }
                Json::Array(copies)
            },
            Json::Object(members) => {
                let mut copies: Vec<(String, Json)> = Vec::new();
                let mut i: usize = 0;
                while i < members.len()
                    invariant
                        i <= members.len(),
                        copies.len() == i,
                        forall|k: int|
                            0 <= k < i ==> (#[trigger] copies@[k]).0@ == members@[k].0@
                                && copies@[k].1@ == members@[k].1@,
                    decreases members.len() - i,
                {
                    copies.push((members[i].0.clone(), members[i].1.duplicate()));
                    i = i + 1;
                }
                proof {
                    lemma_object_view(copies);
                    lemma_object_view(*members);
                    assert(members_view(copies@) =~= members_view(members@));
                }
                Json::Object(copies)
            },
        }
    }
}

/// A copy of an optional value.
pub fn duplicate_opt(value: &Option<Json>) -> (copy: Option<Json>)
    ensures
        opt_owned_json_view(copy) == opt_owned_json_view(*value),
{
    match value {
        Some(v) => Some(v.duplicate()),
        None => None,
    }
}

/// An object with these members.
pub fn object_from(members: Vec<(String, Json)>) -> (object: Json)
    ensures
        object@ == JsonView::Object(members_view(members@)),
{
    proof {
        lemma_object_view(members);
    }
    Json::Object(members)
}

/// An array with these items.
pub fn array_from(items: Vec<Json>) -> (array: Json)
    ensures
        array@ == JsonView::Array(items_view(items@)),
{
    proof {
        lemma_array_view(items);
    }
    Json::Array(items)
}

/// A member of an object.
pub fn member(key: &str, value: Json) -> (m: (String, Json))
    ensures
        m.0@ == key@,
        m.1 == value,
{
    (String::from_str(key), value)
}

/// A JSON value for an optional value: `null` where there is none.
pub open spec fn or_null(value: Option<JsonView>) -> JsonView {
    match value {
        Some(v) => v,
        None => JsonView::Null,
    }
}

} // verus!
