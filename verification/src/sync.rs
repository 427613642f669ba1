//! Bringing the links of the service in step with the profiles.

use crate::json::{
    lemma_member_absent, lemma_member_found, lemma_members_view, member, Json, JsonView,
};
use crate::link::{link_views, social_views, Link, LinkView, Social, SocialView};
use crate::wire::{leading, lemma_leading, Method, Reply, Request, RequestView};
use vstd::prelude::*;
use vstd::string::StringExecFns;

verus! {

/// Why the run has ended early.
#[derive(Debug, PartialEq, Eq)]
pub enum SyncError {
    /// No bearer token was configured.
    MissingToken,
    /// The request for the profile `name` could not be sent.
    Transport { name: String },
    /// The service answered the request for the profile `name` with
    /// `status`, which is not 200.
    Status { name: String, status: u16 },
}

/// What there is to tell once a profile has been dealt with.
#[derive(Debug, PartialEq, Eq)]
pub enum Notice {
    /// A link was created under this name.
    Created(String),
    /// The link of this name was updated.
    Updated(String),
}

/// The next thing to do in a run.
#[derive(Debug, PartialEq, Eq)]
pub enum Step {
    /// Send this request and come back with its reply added to the rest.
    Send(Request),
    /// Every profile has been dealt with.
    Done,
    /// The run has failed; nothing more is sent.
    Failed(SyncError),
}

/// Where a run stands: a notice for each profile dealt with so far, in
/// order, and the next step.
#[derive(Debug, PartialEq, Eq)]
pub struct Run {
    pub notices: Vec<Notice>,
    pub step: Step,
}

/// Whether `links` holds a link for `name`: the last link of that name
/// decides, and it counts only if it is public.
pub open spec fn exists_for(links: Seq<LinkView>, name: Seq<char>) -> bool
    decreases links.len(),
{
    if links.len() == 0 {
        false
    } else if links.last().name == name {
        links.last().public
    } else {
        exists_for(links.drop_last(), name)
    }
}

/// The body that creates a link for `social`.
pub open spec fn create_body(social: SocialView) -> JsonView {
    JsonView::Object(
        seq![
            ("url"@, JsonView::Text(social.url)),
            ("description"@, JsonView::Text(social.description)),
            ("public"@, JsonView::Bool(true)),
            ("name"@, JsonView::Text(social.name)),
        ],
    )
}

/// The body that updates the link of `social`.
pub open spec fn update_body(social: SocialView) -> JsonView {
    JsonView::Object(
        seq![
            ("url"@, JsonView::Text(social.url)),
            ("description"@, JsonView::Text(social.description)),
        ],
    )
}

/// The request that brings `social` to the service: an update of its link
/// where there is one, else the creation of one.
pub open spec fn request_for(token: Seq<char>, social: SocialView, links: Seq<LinkView>) -> RequestView {
    if exists_for(links, social.name) {
        RequestView {
            method: Method::Patch,
            url: "https://links.mattglei.ch/api/link/"@ + social.name,
            token,
            body: Some(update_body(social)),
        }
    } else {
        RequestView {
            method: Method::Post,
            url: "https://links.mattglei.ch/api/link"@,
            token,
            body: Some(create_body(social)),
        }
    }
}

/// Whether `notice` is the one for `social`, given `links`.
pub open spec fn is_notice_for(notice: Notice, social: SocialView, links: Seq<LinkView>) -> bool {
    match notice {
        Notice::Created(name) => !exists_for(links, social.name) && name@ == social.name,
        Notice::Updated(name) => exists_for(links, social.name) && name@ == social.name,
    }
}

/// Whether `error` is the one for the profile `name` after `reply`.
pub open spec fn is_failure_for(error: SyncError, name: Seq<char>, reply: Reply) -> bool {
    match reply {
        Reply::Lost => error matches SyncError::Transport { name: n } && n@ == name,
        Reply::Answered { status, .. } => error matches SyncError::Status { name: n, status: s }
            && n@ == name && s == status,
    }
}

/// For each reply that answers one of `count` requests, whether it is
/// accepted.
pub open spec fn accepted_flags(count: nat, replies: Seq<Reply>) -> Seq<bool> {
    Seq::new(
        if count <= replies.len() {
            count
        } else {
            replies.len()
        },
        |i: int| replies[i].accepted(),
    )
}

/// The number of profiles dealt with: that of the leading accepted replies.
pub open spec fn settled(count: nat, replies: Seq<Reply>) -> nat {
    leading(accepted_flags(count, replies))
}

/// Whether `run` is where a run stands with `token`, `socials` and `links`
/// once `replies` have come in, the reply at each place answering the
/// request for the profile at that place.
pub open spec fn is_run(
    run: Run,
    token: Option<String>,
    socials: Seq<SocialView>,
    links: Seq<LinkView>,
    replies: Seq<Reply>,
) -> bool {
    match token {
        None => run.notices@.len() == 0 && run.step matches Step::Failed(SyncError::MissingToken),
        Some(t) => {
            let k = settled(socials.len(), replies) as int;
            &&& run.notices@.len() == k
            &&& forall|i: int|
                0 <= i < k ==> is_notice_for(#[trigger] run.notices@[i], socials[i], links)
            &&& if k < socials.len() && k < replies.len() {
                run.step matches Step::Failed(e) && is_failure_for(e, socials[k].name, replies[k])
            } else if k == socials.len() {
                run.step is Done
            } else {
                run.step matches Step::Send(request) && request@ == request_for(
                    t@,
                    socials[k],
                    links,
                )
            }
        },
    }
}

/// Decides whether `links` holds a link for `name`.
pub fn link_exists(links: &Vec<Link>, name: &String) -> (r: bool)
    ensures
        r == exists_for(link_views(links@), name@),
{
    let ghost all = link_views(links@);
    let mut found = false;
    let mut i: usize = 0;
    while i < links.len()
        invariant
            i <= links@.len(),
            all == link_views(links@),
            found == exists_for(all.take(i as int), name@),
        decreases links@.len() - i,
    {
        proof {
            let next = all.take(i as int + 1);
            assert(next.drop_last() =~= all.take(i as int));
            assert(next.last() == links@[i as int]@);
        }
        if *links[i].name() == *name {
            found = links[i].public();
        }
        i = i + 1;
    }
    proof {
        assert(all.take(i as int) =~= all);
    }
    found
}

/// Builds the body that creates a link for `social`.
fn create_body_of(social: &Social) -> (r: Json)
    ensures
        r@ == create_body(social@),
{
    let mut members: Vec<(String, Json)> = Vec::new();
    members.push(("url".to_owned(), Json::Text(social.url.clone())));
    members.push(("description".to_owned(), Json::Text(social.description.clone())));
    members.push(("public".to_owned(), Json::Bool(true)));
    members.push(("name".to_owned(), Json::Text(social.name.clone())));
    proof {
        lemma_members_view(members@);
        assert(crate::json::members_view(members@) =~= create_body(social@)->Object_0);
    }
    Json::Object(members)
}

/// Builds the body that updates the link of `social`.
fn update_body_of(social: &Social) -> (r: Json)
    ensures
        r@ == update_body(social@),
{
    let mut members: Vec<(String, Json)> = Vec::new();
    members.push(("url".to_owned(), Json::Text(social.url.clone())));
    members.push(("description".to_owned(), Json::Text(social.description.clone())));
    proof {
        lemma_members_view(members@);
        assert(crate::json::members_view(members@) =~= update_body(social@)->Object_0);
    }
    Json::Object(members)
}

/// Builds the request that brings `social` to the service.
pub fn request_for_social(token: &String, social: &Social, links: &Vec<Link>) -> (r: Request)
    ensures
        r@ == request_for(token@, social@, link_views(links@)),
{
    if link_exists(links, &social.name) {
        Request {
            method: Method::Patch,
            url: "https://links.mattglei.ch/api/link/".to_owned().concat(social.name.as_str()),
            token: token.clone(),
            body: Some(update_body_of(social)),
        }
    } else {
        Request {
            method: Method::Post,
            url: "https://links.mattglei.ch/api/link".to_owned(),
            token: token.clone(),
            body: Some(create_body_of(social)),
        }
    }
}

/// Says where a run stands once `replies` have come in.
///
/// Without a token the run fails before anything is sent. Else the
/// profiles are taken in order, and the reply at each place answers the
/// request for the profile at that place. A reply with status 200 settles
/// its profile, which gets a notice. The first other reply fails the run
/// with an error that names the profile, and neither the profiles nor the
/// replies after it are looked at. Where every reply so far was accepted,
/// the next step is the request for the first profile without a reply, or
/// `Done` when there is none.
pub fn update_social_links(
    token: &Option<String>,
    socials: &Vec<Social>,
    links: &Vec<Link>,
    replies: &Vec<Reply>,
) -> (r: Run)
    ensures
        is_run(r, *token, social_views(socials@), link_views(links@), replies@),
{
    let mut notices: Vec<Notice> = Vec::new();
    let bearer = match token {
        Some(t) => t,
        None => {
            return Run { notices, step: Step::Failed(SyncError::MissingToken) };
        },
    };
    let ghost flags = accepted_flags(socials@.len(), replies@);
    let mut i: usize = 0;
    while i < socials.len() && i < replies.len()
        invariant
            i <= socials@.len(),
            i <= replies@.len(),
            *token == Some(*bearer),
            flags == accepted_flags(socials@.len(), replies@),
            notices@.len() == i,
            forall|j: int| 0 <= j < i ==> replies@[j].accepted(),
            forall|j: int|
                0 <= j < i ==> is_notice_for(
                    #[trigger] notices@[j],
                    socials@[j]@,
                    link_views(links@),
                ),
        decreases socials@.len() - i,
    {
        let social = &socials[i];
        if !replies[i].is_accepted() {
            proof {
                lemma_leading(flags, i as nat);
            }
            let error = match &replies[i] {
                Reply::Lost => SyncError::Transport { name: social.name.clone() },
                Reply::Answered { status, .. } => SyncError::Status {
                    name: social.name.clone(),
                    status: *status,
                },
            };
            return Run { notices, step: Step::Failed(error) };
        }
        let notice = if link_exists(links, &social.name) {
            Notice::Updated(social.name.clone())
        } else {
            Notice::Created(social.name.clone())
        };
        notices.push(notice);
        i = i + 1;
    }
    proof {
        lemma_leading(flags, i as nat);
    }
    if i == socials.len() {
        Run { notices, step: Step::Done }
    } else {
        let request = request_for_social(bearer, &socials[i], links);
        Run { notices, step: Step::Send(request) }
    }
}

/// The keys of the two bodies differ from one another.
proof fn lemma_keys_differ()
    ensures
        "url"@ != "description"@,
        "url"@ != "public"@,
        "url"@ != "name"@,
        "description"@ != "public"@,
        "description"@ != "name"@,
        "public"@ != "name"@,
{
    reveal_strlit("url");
    reveal_strlit("description");
    reveal_strlit("public");
    reveal_strlit("name");
    assert("url"@.len() == 3);
    assert("description"@.len() == 11);
    assert("public"@.len() == 6);
    assert("name"@.len() == 4);
}

/// Where no link is both public and called `name`, there is no link for
/// `name`.
pub proof fn lemma_no_public_match(links: Seq<LinkView>, name: Seq<char>)
    requires
        forall|i: int| 0 <= i < links.len() ==> !(links[i].name == name && links[i].public),
    ensures
        !exists_for(links, name),
    decreases links.len(),
{
    if links.len() > 0 {
        lemma_no_public_match(links.drop_last(), name);
    }
}

/// Where the last link called `name` is at `at`, it decides whether there
/// is a link for `name`.
pub proof fn lemma_last_match_decides(links: Seq<LinkView>, name: Seq<char>, at: int)
    requires
        0 <= at < links.len(),
        links[at].name == name,
        forall|j: int| at < j < links.len() ==> links[j].name != name,
    ensures
        exists_for(links, name) == links[at].public,
    decreases links.len(),
{
    if at < links.len() - 1 {
        lemma_last_match_decides(links.drop_last(), name, at);
    }
}

/// A profile whose name no public link bears is created: the request is a
/// POST to the collection, its body holds `public` as `true` and the
/// profile's name, url and description, and the notice says "created".
pub proof fn lemma_absent_is_created(
    token: Seq<char>,
    social: SocialView,
    links: Seq<LinkView>,
    notice: Notice,
)
    requires
        forall|i: int|
            0 <= i < links.len() ==> !(links[i].name == social.name && links[i].public),
    ensures
        request_for(token, social, links).method == Method::Post,
        request_for(token, social, links).url == "https://links.mattglei.ch/api/link"@,
        request_for(token, social, links).token == token,
        request_for(token, social, links).body matches Some(JsonView::Object(members)) && member(
            members,
            "public"@,
        ) == Some(JsonView::Bool(true)) && member(members, "name"@) == Some(
            JsonView::Text(social.name),
        ) && member(members, "url"@) == Some(JsonView::Text(social.url)) && member(
            members,
            "description"@,
        ) == Some(JsonView::Text(social.description)),
        is_notice_for(notice, social, links) ==> (notice matches Notice::Created(name) && name@
            == social.name),
{
    lemma_no_public_match(links, social.name);
    lemma_keys_differ();
    let members = create_body(social)->Object_0;
    lemma_member_found(members, "url"@, 0);
    lemma_member_found(members, "description"@, 1);
    lemma_member_found(members, "public"@, 2);
    lemma_member_found(members, "name"@, 3);
}

/// A profile whose name a public link bears is updated, provided that no
/// link of the same name that is not public comes after the last public
/// one: the request is a PATCH to the link of that name, its body holds the
/// profile's url and description and neither `public` nor `name`, and the
/// notice says "updated".
pub proof fn lemma_present_is_updated(
    token: Seq<char>,
    social: SocialView,
    links: Seq<LinkView>,
    at: int,
    notice: Notice,
)
    requires
        0 <= at < links.len(),
        links[at].name == social.name,
        links[at].public,
        forall|j: int| at < j < links.len() ==> links[j].name != social.name,
    ensures
        request_for(token, social, links).method == Method::Patch,
        request_for(token, social, links).url == "https://links.mattglei.ch/api/link/"@
            + social.name,
        request_for(token, social, links).token == token,
        request_for(token, social, links).body matches Some(JsonView::Object(members)) && member(
            members,
            "public"@,
        ) is None && member(members, "name"@) is None && member(members, "url"@) == Some(
            JsonView::Text(social.url),
        ) && member(members, "description"@) == Some(JsonView::Text(social.description))
            && members.len() == 2,
        is_notice_for(notice, social, links) ==> (notice matches Notice::Updated(name) && name@
            == social.name),
{
    lemma_last_match_decides(links, social.name, at);
    lemma_keys_differ();
    let members = update_body(social)->Object_0;
    lemma_member_found(members, "url"@, 0);
    lemma_member_found(members, "description"@, 1);
    lemma_member_absent(members, "public"@);
    lemma_member_absent(members, "name"@);
}

/// The first reply that is not accepted ends the run: the profiles before
/// it have their notices, the step is the failure for the profile at its
/// place, and nothing that comes after it, profile or reply, changes that.
pub proof fn lemma_failure_ends_run(
    run: Run,
    token: String,
    socials: Seq<SocialView>,
    links: Seq<LinkView>,
    replies: Seq<Reply>,
    at: int,
)
    requires
        0 <= at < socials.len(),
        at < replies.len(),
        !replies[at].accepted(),
        forall|i: int| 0 <= i < at ==> replies[i].accepted(),
        is_run(run, Some(token), socials, links, replies),
    ensures
        run.notices@.len() == at,
        run.step matches Step::Failed(e) && is_failure_for(e, socials[at].name, replies[at]),
        is_run(run, Some(token), socials.take(at + 1), links, replies.take(at + 1)),
{
    lemma_leading(accepted_flags(socials.len(), replies), at as nat);
    lemma_leading(
        accepted_flags(socials.take(at + 1).len(), replies.take(at + 1)),
        at as nat,
    );
}

} // verus!
