//! The records that are compared: links on the service, profiles to publish.

use vstd::prelude::*;

verus! {

/// A link as the service reports it.
#[derive(Clone, Debug, PartialEq, Eq)]
pub struct Link {
    name: String,
    public: bool,
}

/// What a [`Link`] stands for.
pub struct LinkView {
    pub name: Seq<char>,
    pub public: bool,
}

impl View for Link {
    type V = LinkView;

    closed spec fn view(&self) -> LinkView {
        LinkView { name: self.name@, public: self.public }
    }
}

impl Link {
    /// A link called `name`, public or not.
    pub fn new(name: String, public: bool) -> (r: Link)
        ensures
            r@ == (LinkView { name: name@, public }),
    {
        Link { name, public }
    }

    /// The name by which the service knows the link.
    pub fn name(&self) -> (r: &String)
        ensures
            r@ == self@.name,
    {
        &self.name
    }

    /// Whether the link is open to everyone.
    pub fn public(&self) -> (r: bool)
        ensures
            r == self@.public,
    {
        self.public
    }
}

/// A profile that should be reachable under `name`.
#[derive(Clone, Debug, PartialEq, Eq)]
pub struct Social {
    pub name: String,
    pub url: String,
    pub description: String,
}

/// What a [`Social`] stands for.
pub struct SocialView {
    pub name: Seq<char>,
    pub url: Seq<char>,
    pub description: Seq<char>,
}

impl View for Social {
    type V = SocialView;

    open spec fn view(&self) -> SocialView {
        SocialView { name: self.name@, url: self.url@, description: self.description@ }
    }
}

/// The views of a list of links, in order.
pub open spec fn link_views(links: Seq<Link>) -> Seq<LinkView> {
    Seq::new(links.len(), |i: int| links[i]@)
}

/// The views of a list of profiles, in order.
pub open spec fn social_views(socials: Seq<Social>) -> Seq<SocialView> {
    Seq::new(socials.len(), |i: int| socials[i]@)
}

} // verus!
