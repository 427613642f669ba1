//! What goes to the service and what comes back, as plain values.

use crate::json::{Json, JsonView};
use vstd::prelude::*;

verus! {

/// The HTTP methods that the service is called with.
#[derive(Clone, Copy, Debug, PartialEq, Eq, Structural)]
pub enum Method {
    Get,
    Post,
    Patch,
}

/// A request for the caller to send, with `token` as its bearer token and
/// `body`, where there is one, as its JSON body.
#[derive(Debug, PartialEq, Eq)]
pub struct Request {
    pub method: Method,
    pub url: String,
    pub token: String,
    pub body: Option<Json>,
}

/// What a [`Request`] stands for.
pub struct RequestView {
    pub method: Method,
    pub url: Seq<char>,
    pub token: Seq<char>,
    pub body: Option<JsonView>,
}

impl View for Request {
    type V = RequestView;

    open spec fn view(&self) -> RequestView {
        RequestView {
            method: self.method,
            url: self.url@,
            token: self.token@,
            body: match self.body {
                Some(doc) => Some(doc@),
                None => None,
            },
        }
    }
}

/// What came of sending a request.
#[derive(Clone, Debug, PartialEq, Eq)]
pub enum Reply {
    /// The request could not be sent, or no response came.
    Lost,
    /// A response came, with this status code; `body` is its text, or
    /// `None` where the text could not be read.
    Answered { status: u16, body: Option<String> },
}

impl Reply {
    /// Whether a response came and its status is 200.
    pub open spec fn accepted(self) -> bool {
        self matches Reply::Answered { status, .. } && status == 200
    }

    /// Whether a response came and its status is 200.
    pub fn is_accepted(&self) -> (r: bool)
        ensures
            r == self.accepted(),
    {
        match self {
            Reply::Answered { status, .. } => *status == 200,
            Reply::Lost => false,
        }
    }
}

/// The number of leading `true`s in `flags`.
pub open spec fn leading(flags: Seq<bool>) -> nat
    decreases flags.len(),
{
    if flags.len() == 0 || !flags[0] {
        0
    } else {
        1 + leading(flags.skip(1))
    }
}

/// `leading(flags)` is `k` where the first `k` flags are set and the next,
/// if there is one, is not.
pub proof fn lemma_leading(flags: Seq<bool>, k: nat)
    requires
        k <= flags.len(),
        forall|i: int| 0 <= i < k ==> flags[i],
        k == flags.len() || !flags[k as int],
    ensures
        leading(flags) == k,
    decreases k,
{
    if k > 0 {
        lemma_leading(flags.skip(1), (k - 1) as nat);
    }
}

/// `leading(flags)` flags are set, and the one after them, if there is
/// one, is not.
pub proof fn lemma_leading_stops(flags: Seq<bool>)
    ensures
        leading(flags) <= flags.len(),
        forall|i: int| 0 <= i < leading(flags) ==> flags[i],
        leading(flags) < flags.len() ==> !flags[leading(flags) as int],
    decreases flags.len(),
{
    if flags.len() > 0 && flags[0] {
        let rest = flags.skip(1);
        lemma_leading_stops(rest);
        assert forall|i: int| 0 <= i < leading(flags) implies flags[i] by {
            if i > 0 {
                assert(rest[i - 1] == flags[i]);
            }
        }
        if leading(flags) < flags.len() {
            assert(rest[leading(rest) as int] == flags[leading(flags) as int]);
        }
    }
}

} // verus!
