//! JSON documents as plain values.

use vstd::prelude::*;

verus! {

/// A JSON document.
///
/// A number is kept as the text that stands for it, and the members of an
/// object as pairs of key and value, in the order in which they are held.
#[derive(Debug, PartialEq, Eq)]
pub enum Json {
    Null,
    Bool(bool),
    Number(String),
    Text(String),
    Array(Vec<Json>),
    Object(Vec<(String, Json)>),
}

/// What a [`Json`] value stands for.
pub enum JsonView {
    Null,
    Bool(bool),
    Number(Seq<char>),
    Text(Seq<char>),
    Array(Seq<JsonView>),
    Object(Seq<(Seq<char>, JsonView)>),
}

/// What `doc` stands for.
pub open spec fn json_view(doc: Json) -> JsonView
    decreases doc,
{
    match doc {
        Json::Null => JsonView::Null,
        Json::Bool(b) => JsonView::Bool(b),
        Json::Number(n) => JsonView::Number(n@),
        Json::Text(t) => JsonView::Text(t@),
        Json::Array(items) => JsonView::Array(items_view(items@)),
        Json::Object(members) => JsonView::Object(members_view(members@)),
    }
}

/// What the documents of `items` stand for, in order.
pub open spec fn items_view(items: Seq<Json>) -> Seq<JsonView>
    decreases items,
{
    if items.len() == 0 {
        Seq::empty()
    } else {
        items_view(items.drop_last()).push(json_view(items.last()))
    }
}

/// The keys of `members`, each with what its value stands for, in order.
pub open spec fn members_view(members: Seq<(String, Json)>) -> Seq<(Seq<char>, JsonView)>
    decreases members,
{
    if members.len() == 0 {
        Seq::empty()
    } else {
        members_view(members.drop_last()).push((members.last().0@, json_view(members.last().1)))
    }
}

impl View for Json {
    type V = JsonView;

    open spec fn view(&self) -> JsonView {
        json_view(*self)
    }
}

/// `items_view` keeps the length and views each item in its place.
pub proof fn lemma_items_view(items: Seq<Json>)
    ensures
        items_view(items).len() == items.len(),
        forall|i: int| 0 <= i < items.len() ==> #[trigger] items_view(items)[i] == items[i]@,
    decreases items.len(),
{
    if items.len() > 0 {
        lemma_items_view(items.drop_last());
    }
}

/// `members_view` keeps the length and views each member in its place.
pub proof fn lemma_members_view(members: Seq<(String, Json)>)
    ensures
        members_view(members).len() == members.len(),
        forall|i: int|
            0 <= i < members.len() ==> #[trigger] members_view(members)[i] == (
                members[i].0@,
                members[i].1@,
            ),
    decreases members.len(),
{
    if members.len() > 0 {
        lemma_members_view(members.drop_last());
    }
}

/// The value of the first member of `members` whose key is `key`.
pub open spec fn member(members: Seq<(Seq<char>, JsonView)>, key: Seq<char>) -> Option<JsonView>
    decreases members.len(),
{
    if members.len() == 0 {
        None
    } else if members[0].0 == key {
        Some(members[0].1)
    } else {
        member(members.skip(1), key)
    }
}

/// Where the member at `at` is the first whose key is `key`, `member` gives
/// its value.
pub proof fn lemma_member_found(members: Seq<(Seq<char>, JsonView)>, key: Seq<char>, at: int)
    requires
        0 <= at < members.len(),
        members[at].0 == key,
        forall|i: int| 0 <= i < at ==> members[i].0 != key,
    ensures
        member(members, key) == Some(members[at].1),
    decreases at,
{
    if at > 0 {
        lemma_member_found(members.skip(1), key, at - 1);
    }
}

/// Where no member has the key `key`, `member` gives nothing.
pub proof fn lemma_member_absent(members: Seq<(Seq<char>, JsonView)>, key: Seq<char>)
    requires
        forall|i: int| 0 <= i < members.len() ==> members[i].0 != key,
    ensures
        member(members, key) is None,
    decreases members.len(),
{
    if members.len() > 0 {
        lemma_member_absent(members.skip(1), key);
    }
}

/// The document that the text `text` holds, if it is valid JSON.
pub uninterp spec fn parsed_json(text: Seq<char>) -> Option<JsonView>;

/// The view of an optional document.
pub open spec fn view_of(doc: Option<Json>) -> Option<JsonView> {
    match doc {
        Some(j) => Some(j@),
        None => None,
    }
}

/// `serde_json::Value`, the document type of the `serde_json` crate.
#[verifier::external_type_specification]
#[verifier::external_body]
pub struct ExValue(serde_json::Value);

/// `serde_json::Error`, which says why a text is not a document.
#[verifier::external_type_specification]
#[verifier::external_body]
pub struct ExError(serde_json::Error);

/// The document that a `serde_json::Value` holds.
pub uninterp spec fn held(value: serde_json::Value) -> JsonView;

/// Calls `serde_json::from_str` for a `serde_json::Value`.
///
/// The claim is that the outcome depends on the text alone: `parsed_json` of
/// the text is the document that came back, and `None` where the call failed.
/// Which texts are valid JSON is left to the crate.
#[verifier::external_body]
fn decode(text: &str) -> (r: Result<serde_json::Value, serde_json::Error>)
    ensures
        match r {
            Ok(value) => parsed_json(text@) == Some(held(value)),
            Err(_) => parsed_json(text@) is None,
        },
{
    serde_json::from_str::<serde_json::Value>(text)
}

/// Takes a `serde_json::Value` apart, variant by variant, into a [`Json`].
///
/// A number becomes the text that `serde_json::Number` prints for it; the
/// members of an object come in the order in which `serde_json::Map` hands
/// them out. The claim is that the result stands for what the value holds.
#[verifier::external_body]
fn lift(value: serde_json::Value) -> (r: Json)
    ensures
        r@ == held(value),
{
    match value {
        serde_json::Value::Null => Json::Null,
        serde_json::Value::Bool(b) => Json::Bool(b),
        serde_json::Value::Number(n) => Json::Number(n.to_string()),
        serde_json::Value::String(s) => Json::Text(s),
        serde_json::Value::Array(a) => Json::Array(a.into_iter().map(lift).collect()),
        serde_json::Value::Object(m) => Json::Object(
            m.into_iter().map(|(k, v)| (k, lift(v))).collect(),
        ),
    }
}

/// Reads `text` as a JSON document: `None` where it is not valid JSON.
pub fn parse_json(text: &str) -> (r: Option<Json>)
    ensures
        view_of(r) == parsed_json(text@),
{
    match decode(text) {
        Ok(value) => Some(lift(value)),
        Err(_) => None,
    }
}

impl Json {
    /// The value of the first member called `key`, where `self` is an
    /// object that has one.
    pub fn get(&self, key: &str) -> (r: Option<&Json>)
        ensures
            match self@ {
                JsonView::Object(members) => match r {
                    Some(found) => member(members, key@) == Some(found@),
                    None => member(members, key@) is None,
                },
                _ => r is None,
            },
    {
        match self {
            Json::Object(members) => {
                let wanted = key.to_owned();
                let mut i: usize = 0;
                proof {
                    lemma_members_view(members@);
                    assert(members_view(members@).skip(0) =~= members_view(members@));
                }
                while i < members.len()
                    invariant
                        i <= members@.len(),
                        wanted@ == key@,
                        self@ matches JsonView::Object(all) && all.len() == members@.len()
                            && member(all, key@) == member(all.skip(i as int), key@)
                            && (forall|j: int|
                                0 <= j < members@.len() ==> all[j] == (
                                    members@[j].0@,
                                    members@[j].1@,
                                )),
                    decreases members@.len() - i,
                {
                    proof {
                        let all = self@->Object_0;
                        let rest = all.skip(i as int);
                        assert(rest[0] == all[i as int]);
                        assert(rest.skip(1) =~= all.skip(i as int + 1));
                    }
                    if members[i].0 == wanted {
                        return Some(&members[i].1);
                    }
                    i = i + 1;
                }
                None
            },
            _ => None,
        }
    }
}

} // verus!
