//! A plain model of JSON documents and the parser that produces it.

use vstd::prelude::*;

verus! {

/// A JSON document held as plain values.
#[derive(Debug, PartialEq, Eq)]
pub enum Json {
    Null,
    Bool(bool),
    /// A number, kept as the text that it prints as.
    Number(String),
    Text(String),
    Array(Vec<Json>),
    /// The members of an object in document order.
    Object(Vec<Member>),
}

/// One member of an object.
#[derive(Debug, PartialEq, Eq)]
pub struct Member {
    pub key: String,
    pub value: Json,
}

/// The mathematical value of a [`Json`] document.
pub ghost enum JsonView {
    Null,
    Bool(bool),
    Number(Seq<char>),
    Text(Seq<char>),
    Array(Seq<JsonView>),
    Object(Seq<(Seq<char>, JsonView)>),
}

/// The value of a document: the same shape, with every string and list
/// taken by its view.
pub open spec fn document_view(doc: Json) -> JsonView
    decreases doc,
{
    match doc {
        Json::Null => JsonView::Null,
        Json::Bool(b) => JsonView::Bool(b),
        Json::Number(n) => JsonView::Number(n@),
        Json::Text(s) => JsonView::Text(s@),
        Json::Array(items) => JsonView::Array(
            Seq::new(
                items.len() as nat,
                |i: int|
                    if 0 <= i < items.len() {
                        document_view(items[i])
                    } else {
                        JsonView::Null
                    },
            ),
        ),
        Json::Object(members) => JsonView::Object(
            Seq::new(
                members.len() as nat,
                |i: int|
                    if 0 <= i < members.len() {
                        (members[i].key@, document_view(members[i].value))
                    } else {
                        (Seq::empty(), JsonView::Null)
                    },
            ),
        ),
    }
}

impl View for Json {
    type V = JsonView;

    open spec fn view(&self) -> JsonView {
        document_view(*self)
    }
}

/// `serde_json::Error`, carried from the parser to the place that reports it.
#[verifier::external_type_specification]
#[verifier::external_body]
pub struct ExJsonError(serde_json::Error);

/// `serde_json::Value`, carried from the parser to `plain_document`.
#[verifier::external_type_specification]
#[verifier::external_body]
pub struct ExJsonValue(serde_json::Value);

/// The document that `serde_json` reads from a text; `None` where it
/// refuses the text.
pub uninterp spec fn json_document(text: Seq<char>) -> Option<JsonView>;

/// Takes a `serde_json::Value` apart, variant by variant: the same document
/// as plain values, a number as the text that `serde_json::Number` prints,
/// the members of an object in the order in which `serde_json::Map` hands
/// them out. Nothing is claimed of the result here; `parse_document` names
/// it.
#[verifier::external_body]
fn plain_document(value: serde_json::Value) -> Json {
    match value {
        serde_json::Value::Null => Json::Null,
        serde_json::Value::Bool(b) => Json::Bool(b),
        serde_json::Value::Number(n) => Json::Number(n.to_string()),
        serde_json::Value::String(s) => Json::Text(s),
        serde_json::Value::Array(a) => Json::Array(a.into_iter().map(plain_document).collect()),
        serde_json::Value::Object(o) => Json::Object(
            o.into_iter().map(|(k, v)| Member { key: k, value: plain_document(v) }).collect(),
        ),
    }
}

/// `serde_json::from_str::<serde_json::Value>`, with the value that it gives
/// taken apart by `plain_document`. Not proved: that the outcome depends on
/// the text alone, which is what `json_document` names, and that no object
/// of the document holds a key twice, which holds because `serde_json` keeps
/// the members of an object in a map.
#[verifier::external_body]
pub(crate) fn parse_document(text: &str) -> (r: Result<Json, serde_json::Error>)
    ensures
        r matches Ok(doc) ==> json_document(text@) == Some(doc@) && doc@.distinct_keys(),
        r is Err ==> json_document(text@) is None,
{
    serde_json::from_str::<serde_json::Value>(text).map(plain_document)
}

/// `serde_json::Error`'s `Display`: the parser's account of what is wrong
/// with a text. Nothing is claimed of it.
#[verifier::external_body]
pub(crate) fn syntax_error_text(error: &serde_json::Error) -> String {
    error.to_string()
}

/// The value of the first member of `members` at or behind `i` whose key is
/// `key`.
pub open spec fn member_from(members: Seq<(Seq<char>, JsonView)>, key: Seq<char>, i: int) -> Option<
    JsonView,
>
    decreases members.len() - i,
{
    if i < 0 || i >= members.len() {
        None
    } else if members[i].0 == key {
        Some(members[i].1)
    } else {
        member_from(members, key, i + 1)
    }
}

/// The value that an object's members give to `key`.
pub open spec fn member(members: Seq<(Seq<char>, JsonView)>, key: Seq<char>) -> Option<JsonView> {
    member_from(members, key, 0)
}

impl JsonView {
    /// The member `key` of an object; nothing for any other document.
    pub open spec fn get(self, key: Seq<char>) -> Option<JsonView> {
        match self {
            JsonView::Object(members) => member(members, key),
            _ => None,
        }
    }

    /// No object of the document holds a key twice.
    pub open spec fn distinct_keys(self) -> bool
        decreases self,
    {
        match self {
            JsonView::Array(items) => forall|i: int|
                0 <= i < items.len() ==> (#[trigger] items[i]).distinct_keys(),
            JsonView::Object(members) => {
                &&& forall|i: int|
                    0 <= i < members.len() ==> (#[trigger] members[i]).1.distinct_keys()
                &&& forall|i: int, j: int|
                    0 <= i < j < members.len() ==> (#[trigger] members[i]).0 != (
                    #[trigger] members[j]).0
            },
            _ => true,
        }
    }
}

impl Member {
    /// The member that gives `value` to `key`.
    pub fn new(key: &str, value: Json) -> (r: Member)
        ensures
            r@ == (key@, value@),
    {
        Member { key: String::from_str(key), value }
    }
}

impl Json {
    /// A string.
    pub fn text(text: &str) -> (r: Json)
        ensures
            r@ == JsonView::Text(text@),
    {
        Json::Text(String::from_str(text))
    }

    /// An array of the given items.
    pub fn array(items: Vec<Json>) -> (r: Json)
        ensures
            r@ == JsonView::Array(items.deep_view()),
    {
        let ghost views = items.deep_view();
        let r = Json::Array(items);
        assert(r@->Array_0 =~= views);
        r
    }

    /// An object of the given members.
    pub fn object(members: Vec<Member>) -> (r: Json)
        ensures
            r@ == JsonView::Object(members.deep_view()),
    {
        let ghost views = members.deep_view();
        let r = Json::Object(members);
        assert(r@->Object_0 =~= views);
        r
    }

    /// The member `key` of an object.
    pub fn get(&self, key: &str) -> (r: Option<&Json>)
        ensures
            match r {
                Some(value) => self@.get(key@) == Some(value@),
                None => self@.get(key@) is None,
            },
    {
        match self {
            Json::Object(members) => {
                let wanted = String::from_str(key);
                let mut i: usize = 0;
                while i < members.len()
                    invariant
                        i <= members.len(),
                        wanted@ == key@,
                        self@ matches JsonView::Object(all) && all.len() == members.len() && (
                        forall|k: int|
                            0 <= k < members.len() ==> all[k] == (
                                members[k].key@,
                                members[k].value@,
                            )) && member(all, key@) == member_from(all, key@, i as int),
                    decreases members.len() - i,
                {
                    if members[i].key == wanted {
                        return Some(&members[i].value);
                    }
                    i += 1;
                }
                None
            },
            _ => None,
        }
    }

    /// The text of a string.
    pub fn as_text(&self) -> (r: Option<&String>)
        ensures
            match r {
                Some(text) => self@ == JsonView::Text(text@),
                None => !(self@ is Text),
            },
    {
        match self {
            Json::Text(text) => Some(text),
            _ => None,
        }
    }

    /// The items of an array.
    pub fn as_array(&self) -> (r: Option<&Vec<Json>>)
        ensures
            match r {
                Some(items) => self@ == JsonView::Array(items.deep_view()),
                None => !(self@ is Array),
            },
    {
        match self {
            Json::Array(items) => {
                assert(self@->Array_0 =~= items.deep_view());
                Some(items)
            },
            _ => None,
        }
    }

    /// The members of an object.
    pub fn as_object(&self) -> (r: Option<&Vec<Member>>)
        ensures
            match r {
                Some(members) => self@ == JsonView::Object(members.deep_view()),
                None => !(self@ is Object),
            },
    {
        match self {
            Json::Object(members) => {
                assert(self@->Object_0 =~= members.deep_view());
                Some(members)
            },
            _ => None,
        }
    }
}

impl View for Member {
    type V = (Seq<char>, JsonView);

    open spec fn view(&self) -> (Seq<char>, JsonView) {
        (self.key@, self.value@)
    }
}

impl DeepView for Member {
    type V = (Seq<char>, JsonView);

    open spec fn deep_view(&self) -> (Seq<char>, JsonView) {
        self@
    }
}

impl DeepView for Json {
    type V = JsonView;

    open spec fn deep_view(&self) -> JsonView {
        self@
    }
}

} // verus!
