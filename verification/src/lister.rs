//! Listing the links that the service holds.

use crate::json::{lemma_items_view, parse_json, parsed_json, member, Json, JsonView};
use crate::link::{link_views, Link, LinkView};
use crate::wire::{leading, lemma_leading, lemma_leading_stops, Method, Reply, Request, RequestView};
use vstd::prelude::*;

verus! {

/// Why the links could not be listed.
#[derive(Clone, Copy, Debug, PartialEq, Eq, Structural)]
pub enum ListError {
    /// No bearer token was configured.
    MissingToken,
    /// The request could not be sent.
    Transport,
    /// The service answered with this status, which is not 200.
    Status(u16),
    /// The text of the response could not be read.
    Body,
    /// The response is not valid JSON.
    Parse,
    /// The response has no member `data` that is an array.
    NoData,
    /// The element of `data` at this index is no link.
    Element(usize),
}

/// The next thing to do about the list of links.
#[derive(Debug, PartialEq, Eq)]
pub enum Listing {
    /// Send this request and come back with the reply.
    Send(Request),
    /// The links, in the order in which the service gave them.
    Links(Vec<Link>),
    /// The listing has failed.
    Failed(ListError),
}

/// The request that lists the links.
pub open spec fn list_request(token: Seq<char>) -> RequestView {
    RequestView {
        method: Method::Get,
        url: "https://links.mattglei.ch/api/link"@,
        token,
        body: None,
    }
}

/// The link that `item` holds.
///
/// An object holds one where its member `name` is a string and its member
/// `public` a boolean; other members are not looked at. An array holds one
/// where it is a string followed by a boolean and nothing else.
pub open spec fn link_of(item: JsonView) -> Option<LinkView> {
    match item {
        JsonView::Object(members) => match (member(members, "name"@), member(members, "public"@)) {
            (Some(JsonView::Text(name)), Some(JsonView::Bool(public))) => Some(
                LinkView { name, public },
            ),
            _ => None,
        },
        JsonView::Array(items) => if items.len() == 2 {
            match (items[0], items[1]) {
                (JsonView::Text(name), JsonView::Bool(public)) => Some(LinkView { name, public }),
                _ => None,
            }
        } else {
            None
        },
        _ => None,
    }
}

/// The elements of the array `data` of `doc`.
pub open spec fn data_of(doc: JsonView) -> Option<Seq<JsonView>> {
    match doc {
        JsonView::Object(members) => match member(members, "data"@) {
            Some(JsonView::Array(items)) => Some(items),
            _ => None,
        },
        _ => None,
    }
}

/// For each of `items`, whether it holds a link.
pub open spec fn readable(items: Seq<JsonView>) -> Seq<bool> {
    Seq::new(items.len(), |i: int| link_of(items[i]) is Some)
}

/// The links that `doc` lists: those of the elements of `data`, in order,
/// or the first element that holds none.
pub open spec fn links_of(doc: JsonView) -> Result<Seq<LinkView>, ListError> {
    match data_of(doc) {
        None => Err(ListError::NoData),
        Some(items) => {
            let good = leading(readable(items));
            if good < items.len() {
                Err(ListError::Element(good as usize))
            } else {
                Ok(Seq::new(items.len(), |i: int| link_of(items[i]).unwrap()))
            }
        },
    }
}

/// What a reply to the list request comes to.
pub open spec fn listed(reply: Reply) -> Result<Seq<LinkView>, ListError> {
    match reply {
        Reply::Lost => Err(ListError::Transport),
        Reply::Answered { status, body } => if status != 200 {
            Err(ListError::Status(status))
        } else {
            match body {
                None => Err(ListError::Body),
                Some(text) => match parsed_json(text@) {
                    None => Err(ListError::Parse),
                    Some(doc) => links_of(doc),
                },
            }
        },
    }
}

/// Whether `r` is the outcome `expected`, the links taken by their views.
pub open spec fn is_outcome(r: Result<Vec<Link>, ListError>, expected: Result<Seq<LinkView>, ListError>) -> bool {
    match r {
        Ok(links) => expected == Ok::<Seq<LinkView>, ListError>(link_views(links@)),
        Err(e) => expected == Err::<Seq<LinkView>, ListError>(e),
    }
}

/// Reads one element of the list as a link.
pub fn read_link(item: &Json) -> (r: Option<Link>)
    ensures
        match r {
            Some(link) => link_of(item@) == Some(link@),
            None => link_of(item@) is None,
        },
{
    match item {
        Json::Object(_) => {
            match (item.get("name"), item.get("public")) {
                (Some(Json::Text(name)), Some(Json::Bool(public))) => Some(
                    Link::new(name.clone(), *public),
                ),
                _ => None,
            }
        },
        Json::Array(items) => {
            proof {
                lemma_items_view(items@);
            }
            if items.len() == 2 {
                match (&items[0], &items[1]) {
                    (Json::Text(name), Json::Bool(public)) => Some(Link::new(name.clone(), *public)),
                    _ => None,
                }
            } else {
                None
            }
        },
        _ => None,
    }
}

/// Reads the links that a parsed response lists.
pub fn links_of_document(doc: &Json) -> (r: Result<Vec<Link>, ListError>)
    ensures
        is_outcome(r, links_of(doc@)),
{
    let data = match doc.get("data") {
        Some(Json::Array(items)) => items,
        _ => {
            return Err(ListError::NoData);
        },
    };
    let ghost items = data_of(doc@).unwrap();
    proof {
        lemma_items_view(data@);
    }
    let mut links: Vec<Link> = Vec::new();
    let mut i: usize = 0;
    while i < data.len()
        invariant
            i <= data@.len(),
            data_of(doc@) == Some(items),
            items.len() == data@.len(),
            forall|j: int| 0 <= j < data@.len() ==> #[trigger] items[j] == data@[j]@,
            links@.len() == i,
            forall|j: int| 0 <= j < i ==> link_of(items[j]) == Some(#[trigger] links@[j]@),
        decreases data@.len() - i,
    {
        match read_link(&data[i]) {
            Some(link) => {
                links.push(link);
            },
            None => {
                proof {
                    assert forall|j: int| 0 <= j < i implies readable(items)[j] by {
                        assert(link_of(items[j]) == Some(links@[j]@));
                    }
                    assert(items[i as int] == data@[i as int]@);
                    assert(!readable(items)[i as int]);
                    lemma_leading(readable(items), i as nat);
                }
                return Err(ListError::Element(i));
            },
        }
        i = i + 1;
    }
    proof {
        assert forall|j: int| 0 <= j < i implies readable(items)[j] by {
            assert(link_of(items[j]) == Some(links@[j]@));
        }
        lemma_leading(readable(items), i as nat);
        assert(link_views(links@) =~= Seq::new(items.len(), |j: int| link_of(items[j]).unwrap()));
    }
    Ok(links)
}

/// Lists the links, one step at a time.
///
/// Without a token the listing fails before anything is sent. With a token
/// and no reply yet, the answer is the request to send. With the reply to
/// that request, the answer is the list of links or the reason why there is
/// none: the request was lost, the status is not 200, the body could not be
/// read, is not JSON, has no array `data`, or holds an element that is no
/// link.
pub fn get_links(token: &Option<String>, reply: &Option<Reply>) -> (r: Listing)
    ensures
        match (*token, *reply) {
            (None, _) => r matches Listing::Failed(e) && e == ListError::MissingToken,
            (Some(t), None) => r matches Listing::Send(request) && request@ == list_request(t@),
            (Some(_), Some(got)) => match r {
                Listing::Links(links) => listed(got) == Ok::<Seq<LinkView>, ListError>(
                    link_views(links@),
                ),
                Listing::Failed(e) => listed(got) == Err::<Seq<LinkView>, ListError>(e),
                Listing::Send(_) => false,
            },
        },
{
    let token = match token {
        Some(t) => t,
        None => {
            return Listing::Failed(ListError::MissingToken);
        },
    };
    let reply = match reply {
        Some(got) => got,
        None => {
            return Listing::Send(
                Request {
                    method: Method::Get,
                    url: "https://links.mattglei.ch/api/link".to_owned(),
                    token: token.clone(),
                    body: None,
                },
            );
        },
    };
    match reply {
        Reply::Lost => Listing::Failed(ListError::Transport),
        Reply::Answered { status, body } => {
            if *status != 200 {
                return Listing::Failed(ListError::Status(*status));
            }
            let text = match body {
                Some(text) => text,
                None => {
                    return Listing::Failed(ListError::Body);
                },
            };
            let doc = match parse_json(text.as_str()) {
                Some(doc) => doc,
                None => {
                    return Listing::Failed(ListError::Parse);
                },
            };
            match links_of_document(&doc) {
                Ok(links) => Listing::Links(links),
                Err(e) => Listing::Failed(e),
            }
        },
    }
}

/// Where every element of `data` holds a link, the listing has as many
/// links as `data` has elements, and the link at each place is the one that
/// the element at that place holds. So a response with status 200 whose
/// body parses to such a document is listed in full and in order.
pub proof fn lemma_lists_every_link(text: String, doc: JsonView, items: Seq<JsonView>)
    requires
        data_of(doc) == Some(items),
        forall|i: int| 0 <= i < items.len() ==> link_of(items[i]) is Some,
    ensures
        links_of(doc) matches Ok(links) && links.len() == items.len() && (forall|i: int|
            0 <= i < items.len() ==> Some(#[trigger] links[i]) == link_of(items[i])),
        parsed_json(text@) == Some(doc) ==> listed(
            Reply::Answered { status: 200, body: Some(text) },
        ) == links_of(doc),
{
    lemma_leading(readable(items), items.len());
}

/// A response whose status is not 200 gives the error that names the
/// status, whatever its body holds.
pub proof fn lemma_status_fails(status: u16, body: Option<String>)
    requires
        status != 200,
    ensures
        listed(Reply::Answered { status, body }) == Err::<Seq<LinkView>, ListError>(
            ListError::Status(status),
        ),
{
}

/// Where the element of `data` at `at` is an object without a member `name`
/// or without a member `public`, the listing fails on an element: the first
/// that holds no link, which is at `at` or before it.
pub proof fn lemma_missing_field_fails(doc: JsonView, items: Seq<JsonView>, at: int)
    requires
        data_of(doc) == Some(items),
        0 <= at < items.len(),
        at <= usize::MAX,
        items[at] matches JsonView::Object(members) && (member(members, "name"@) is None || member(
            members,
            "public"@,
        ) is None),
    ensures
        links_of(doc) matches Err(ListError::Element(k)) && k <= at && link_of(items[k as int])
            is None,
{
    let flags = readable(items);
    lemma_leading_stops(flags);
    assert(!flags[at]);
    if leading(flags) > at {
        assert(flags[at]);
    }
    assert(!flags[leading(flags) as int]);
}

} // verus!
