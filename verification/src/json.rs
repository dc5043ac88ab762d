//! JSON documents as the pipeline reads them: the replies of the store and
//! the two configuration files.
//!
//! A document is held as a value of this library, so that the decoding of a
//! reply is ordinary verified code. Only the reading of JSON text is left to
//! `serde_json`.
use vstd::prelude::*;
use crate::text::same_text;

verus! {

/// A JSON document. A number is held as text; after `Json::parse` that is
/// the text with which `serde_json` renders the number, which need not be
/// the text it was written with. An object keeps its members in the order in
/// which they were handed over.
#[derive(Debug, PartialEq, Eq)]
pub enum Json {
    Null,
    Bool(bool),
    Number(String),
    Text(String),
    List(Vec<Json>),
    Object(Vec<Member>),
}

/// One member of a JSON object.
#[derive(Debug, PartialEq, Eq)]
pub struct Member {
    pub key: String,
    pub value: Json,
}

/// What a `Json` holds.
pub enum JsonView {
    Null,
    Bool(bool),
    Number(Seq<char>),
    Text(Seq<char>),
    List(Seq<JsonView>),
    Object(Seq<MemberView>),
}

/// What a `Member` holds.
pub struct MemberView {
    pub key: Seq<char>,
    pub value: JsonView,
}

impl View for Json {
    type V = JsonView;

    open spec fn view(&self) -> JsonView {
        json_view(*self)
    }
}

impl View for Member {
    type V = MemberView;

    open spec fn view(&self) -> MemberView {
        member_view(*self)
    }
}

/// What one document holds.
pub open spec fn json_view(document: Json) -> JsonView
    decreases document,
{
    match document {
        Json::Null => JsonView::Null,
        Json::Bool(b) => JsonView::Bool(b),
        Json::Number(n) => JsonView::Number(n@),
        Json::Text(t) => JsonView::Text(t@),
        Json::List(items) => JsonView::List(json_views(items@)),
        Json::Object(members) => JsonView::Object(member_views(members@)),
    }
}

/// What a sequence of documents holds, one by one.
pub open spec fn json_views(documents: Seq<Json>) -> Seq<JsonView>
    decreases documents,
{
    if documents.len() == 0 {
        Seq::empty()
    } else {
        json_views(documents.drop_last()).push(json_view(documents.last()))
    }
}

/// What one member holds.
pub open spec fn member_view(member: Member) -> MemberView
    decreases member,
{
    MemberView { key: member.key@, value: json_view(member.value) }
}

/// What a sequence of members holds, one by one.
pub open spec fn member_views(members: Seq<Member>) -> Seq<MemberView>
    decreases members,
{
    if members.len() == 0 {
        Seq::empty()
    } else {
        member_views(members.drop_last()).push(member_view(members.last()))
    }
}

/// `json_views` keeps the length and the positions.
pub proof fn json_views_positions(documents: Seq<Json>)
    ensures
        json_views(documents).len() == documents.len(),
        forall|i: int|
            0 <= i < documents.len() ==> json_views(documents)[i] == #[trigger] documents[i]@,
    decreases documents.len(),
{
    if documents.len() > 0 {
        json_views_positions(documents.drop_last());
        assert forall|i: int| 0 <= i < documents.len() implies json_views(documents)[i]
            == #[trigger] documents[i]@ by {
            if i < documents.len() - 1 {
                assert(documents.drop_last()[i] == documents[i]);
            }
        }
    }
}

/// `member_views` keeps the length and the positions.
pub proof fn member_views_positions(members: Seq<Member>)
    ensures
        member_views(members).len() == members.len(),
        forall|i: int|
            0 <= i < members.len() ==> member_views(members)[i] == #[trigger] members[i]@,
    decreases members.len(),
{
    if members.len() > 0 {
        member_views_positions(members.drop_last());
        assert forall|i: int| 0 <= i < members.len() implies member_views(members)[i]
            == #[trigger] members[i]@ by {
            if i < members.len() - 1 {
                assert(members.drop_last()[i] == members[i]);
            }
        }
    }
}

/// The value of the first member at or after `from` whose key is `key`.
pub open spec fn member_from(members: Seq<MemberView>, key: Seq<char>, from: int) -> Option<
    JsonView,
>
    decreases members.len() - from,
{
    if from < 0 || from >= members.len() {
        None
    } else if members[from].key == key {
        Some(members[from].value)
    } else {
        member_from(members, key, from + 1)
    }
}

impl JsonView {
    /// The member `key` of an object: its first member of that name. Anything
    /// but an object has no members.
    pub open spec fn member(self, key: Seq<char>) -> Option<JsonView> {
        match self {
            JsonView::Object(members) => member_from(members, key, 0),
            _ => None,
        }
    }

    /// The characters of a JSON string; `None` for any other document.
    pub open spec fn text(self) -> Option<Seq<char>> {
        match self {
            JsonView::Text(t) => Some(t),
            _ => None,
        }
    }

    /// The elements of a JSON array; `None` for any other document.
    pub open spec fn items(self) -> Option<Seq<JsonView>> {
        match self {
            JsonView::List(items) => Some(items),
            _ => None,
        }
    }

    /// The string member `key` of an object.
    pub open spec fn text_of(self, key: Seq<char>) -> Option<Seq<char>> {
        match self.member(key) {
            Some(v) => v.text(),
            None => None,
        }
    }

    /// The array member `key` of an object.
    pub open spec fn items_of(self, key: Seq<char>) -> Option<Seq<JsonView>> {
        match self.member(key) {
            Some(v) => v.items(),
            None => None,
        }
    }

    /// The string found under `outer`, then `inner`: `self[outer][inner]`.
    pub open spec fn text_at(self, outer: Seq<char>, inner: Seq<char>) -> Option<Seq<char>> {
        match self.member(outer) {
            Some(o) => o.text_of(inner),
            None => None,
        }
    }
}

/// What a document that was looked up holds, where one was found.
pub open spec fn found_view(found: Option<&Json>) -> Option<JsonView> {
    match found {
        Some(v) => Some(v@),
        None => None,
    }
}

/// The characters of a string that was looked up, where one was found.
pub open spec fn found_text(found: Option<&str>) -> Option<Seq<char>> {
    match found {
        Some(t) => Some(t@),
        None => None,
    }
}

/// What the documents of a list that was looked up hold, where one was
/// found.
pub open spec fn found_items(found: Option<&Vec<Json>>) -> Option<Seq<JsonView>> {
    match found {
        Some(v) => Some(json_views(v@)),
        None => None,
    }
}

impl Json {
    /// Looks a member of an object up by its key.
    pub fn get(&self, key: &str) -> (found: Option<&Json>)
        ensures
            found_view(found) == self@.member(key@),
    {
        match self {
            Json::Object(members) => {
                proof {
                    member_views_positions(members@);
                }
                let mut i: usize = 0;
                while i < members.len()
                    invariant
                        i <= members.len(),
                        member_views(members@).len() == members.len(),
                        forall|j: int|
                            0 <= j < members.len() ==> member_views(members@)[j]
                                == #[trigger] members@[j]@,
                        self@.member(key@) == member_from(member_views(members@), key@, i as int),
                    decreases members.len() - i,
                {
                    assert(member_views(members@)[i as int] == members@[i as int]@);
                    if same_text(members[i].key.as_str(), key) {
                        return Some(&members[i].value);
                    }
                    i += 1;
                }
                None
            },
            _ => None,
        }
    }

    /// Reads a JSON string.
    pub fn as_text(&self) -> (found: Option<&str>)
        ensures
            found_text(found) == self@.text(),
    {
        match self {
            Json::Text(t) => Some(t.as_str()),
            _ => None,
        }
    }

    /// Reads a JSON array.
    pub fn as_list(&self) -> (found: Option<&Vec<Json>>)
        ensures
            found_items(found) == self@.items(),
    {
        match self {
            Json::List(items) => Some(items),
            _ => None,
        }
    }

    /// Reads the string member `key` of an object.
    pub fn get_text(&self, key: &str) -> (found: Option<&str>)
        ensures
            found_text(found) == self@.text_of(key@),
    {
        match self.get(key) {
            Some(v) => v.as_text(),
            None => None,
        }
    }

    /// Reads the array member `key` of an object.
    pub fn get_list(&self, key: &str) -> (found: Option<&Vec<Json>>)
        ensures
            found_items(found) == self@.items_of(key@),
    {
        match self.get(key) {
            Some(v) => v.as_list(),
            None => None,
        }
    }

    /// Reads the string at `self[outer][inner]`, the place where the store
    /// puts the identifier or the name of the object it answers with.
    pub fn get_text_at(&self, outer: &str, inner: &str) -> (found: Option<&str>)
        ensures
            found_text(found) == self@.text_at(outer@, inner@),
    {
        match self.get(outer) {
            Some(o) => o.get_text(inner),
            None => None,
        }
    }

    /// Reads a document from JSON text; `None` where the text is not JSON.
    pub fn parse(text: &str) -> (document: Option<Json>)
        ensures
            match document {
                Some(d) => parsed_document(text@) == Some(d@),
                None => parsed_document(text@) is None,
            },
    {
        match parse_value(text) {
            Some(value) => Some(document_of(&value)),
            None => None,
        }
    }
}

/// `serde_json::Value`, which is handed from the reading of a text to the
/// copying of what was read.
#[verifier::external_type_specification]
#[verifier::external_body]
pub struct ExJsonValue(serde_json::Value);

/// The document that `serde_json` reads from a text, where it reads one.
pub uninterp spec fn parsed_document(text: Seq<char>) -> Option<JsonView>;

/// The document that a `serde_json::Value` holds.
pub uninterp spec fn value_document(value: serde_json::Value) -> JsonView;

/// Calls `serde_json::from_str` for a `serde_json::Value`. The call reads
/// the whole text and has no other input, so the value it gives holds the
/// document named by `parsed_document`, and it fails exactly where that
/// names none.
#[verifier::external_body]
fn parse_value(text: &str) -> (value: Option<serde_json::Value>)
    ensures
        match parsed_document(text@) {
            Some(document) => value.is_some() && value_document(value.unwrap()) == document,
            None => value.is_none(),
        },
{
    serde_json::from_str::<serde_json::Value>(text).ok()
}

/// Copies a `serde_json::Value` into a document of this library, variant by
/// variant: a number by `Number::to_string`, the members of an object in the
/// order in which `Map::iter` walks them. The copy holds what the value
/// holds.
#[verifier::external_body]
fn document_of(value: &serde_json::Value) -> (document: Json)
    ensures
        document@ == value_document(*value),
{
    match value {
        serde_json::Value::Null => Json::Null,
        serde_json::Value::Bool(b) => Json::Bool(*b),
        serde_json::Value::Number(n) => Json::Number(n.to_string()),
        serde_json::Value::String(s) => Json::Text(s.clone()),
        serde_json::Value::Array(a) => Json::List(a.iter().map(document_of).collect()),
        serde_json::Value::Object(o) => Json::Object(
            o.iter().map(|(k, v)| Member { key: k.clone(), value: document_of(v) }).collect(),
        ),
    }
}

} // verus!
