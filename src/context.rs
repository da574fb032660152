use vstd::prelude::*;

verus! {

/// The request-scoped carrier between authorization and the places that execute
/// or forward the request: the accepted credential text and the caller's
/// identity, each absent until authorization writes it.
#[derive(Debug)]
pub struct RequestContext {
    token: Option<String>,
    identity: Option<i64>,
}

impl RequestContext {
    pub closed spec fn token_view(&self) -> Option<Seq<char>> {
        match self.token {
            Some(t) => Some(t@),
            None => None,
        }
    }

    pub closed spec fn identity_view(&self) -> Option<i64> {
        self.identity
    }

    /// A carrier holding nothing yet.
    pub fn new() -> (r: RequestContext)
        ensures
            r.token_view() is None,
            r.identity_view() is None,
    {
        RequestContext { token: None, identity: None }
    }

    pub fn set_raw_token(&mut self, token: String)
        ensures
            final(self).token_view() == Some(token@),
            final(self).identity_view() == old(self).identity_view(),
    {
        self.token = Some(token);
    }

    pub fn set_identity(&mut self, identity: Option<i64>)
        ensures
            final(self).identity_view() == identity,
            final(self).token_view() == old(self).token_view(),
    {
        self.identity = identity;
    }

    /// The accepted credential text, if the request presented one.
    pub fn raw_token(&self) -> (r: Option<&str>)
        ensures
            match r {
                Some(t) => self.token_view() == Some(t@),
                None => self.token_view() is None,
            },
    {
        match &self.token {
            Some(t) => Some(t.as_str()),
            None => None,
        }
    }

    /// The caller's identity, if the policy derived exactly one.
    pub fn identity(&self) -> (r: Option<i64>)
        ensures
            r == self.identity_view(),
    {
        self.identity
    }
}

} // verus!
