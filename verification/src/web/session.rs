//! Who is signed in.

use vstd::prelude::*;

use crate::text::{copy_maybe, maybe};
use crate::web::api;
use crate::web::api::models::Me;
use crate::web::api::{ApiError, Body, Call, Method};

verus! {

/// Where the token is kept between visits.
pub const TOKEN_KEY: &'static str = "flagforge.token";

/// The session. The token is what signs requests; the identity is what the
/// server says about it.
#[derive(Debug)]
pub struct Session {
    pub token: Option<String>,
    pub identity: Option<Me>,
    /// True until a stored token has been checked against the server, so that
    /// nobody who is signed in is sent to the login page meanwhile.
    pub resolving: bool,
}

impl Session {
    /// A session from what was kept of the last visit.
    pub fn new(stored: Option<String>) -> (session: Session)
        ensures
            session == (Session { token: stored, identity: None, resolving: stored is Some }),
    {
        let resolving: bool = stored.is_some();
        Session { token: stored, identity: None, resolving }
    }

    pub fn token_untracked(&self) -> (token: Option<String>)
        ensures
            maybe(token) == maybe(self.token),
    {
        copy_maybe(&self.token)
    }

    pub fn identity(&self) -> (identity: Option<&Me>)
        ensures
            match self.identity {
                Some(me) => identity == Some(&me),
                None => identity is None,
            },
    {
        self.identity.as_ref()
    }

    pub fn is_resolving(&self) -> (yes: bool)
        ensures
            yes == self.resolving,
    {
        self.resolving
    }

    pub fn is_authenticated(&self) -> (yes: bool)
        ensures
            yes == (self.token is Some),
    {
        self.token.is_some()
    }

    /// Takes a new token. What it stands for is not known yet: ask with
    /// [`Session::refresh_identity`].
    pub fn sign_in(&mut self, token: String)
        ensures
            *final(self) == (Session {
                token: Some(token),
                identity: old(self).identity,
                resolving: true,
            }),
    {
        self.token = Some(token);
        self.resolving = true;
    }

    /// Forgets everything.
    pub fn sign_out(&mut self)
        ensures
            *final(self) == (Session { token: None, identity: None, resolving: false }),
    {
        self.token = None;
        self.identity = None;
        self.resolving = false;
    }

    /// Asks the server who the token belongs to. Without a token there is
    /// nothing to resolve.
    pub fn refresh_identity<'a>(&'a mut self) -> (call: Option<Call<'a>>)
        ensures
            match old(self).token {
                Some(token) => {
                    &&& *final(self) == *old(self)
                    &&& call matches Some(call) && call.is(
                        Method::Get,
                        "/auth/me"@,
                        Some(token@),
                    ) && call.body == Body::Nothing
                },
                None => {
                    &&& *final(self) == (Session { resolving: false, ..*old(self) })
                    &&& call is None
                },
            },
    {
        if self.token.is_none() {
            self.resolving = false;
        }
        match &self.token {
            Some(token) => Some(api::me(token.as_str())),
            None => None,
        }
    }

    /// What the server said. A refused token signs the user out; an unreachable
    /// server does not, so a flaky network logs nobody out. Says whether the
    /// stored token is to be forgotten.
    pub fn identity_loaded(&mut self, answer: Result<Me, ApiError>) -> (forget: bool)
        ensures
            forget == (answer matches Err(error) && error.status == 401),
            *final(self) == (match answer {
                Ok(me) => Session { token: old(self).token, identity: Some(me), resolving: false },
                Err(error) => if error.status == 401 {
                    Session { token: None, identity: None, resolving: false }
                } else {
                    Session { resolving: false, ..*old(self) }
                },
            }),
    {
        match answer {
            Ok(me) => {
                self.identity = Some(me);
                self.resolving = false;
                false
            },
            Err(error) => if error.is_unauthorized() {
                self.sign_out();
                true
            } else {
                self.resolving = false;
                false
            },
        }
    }

    /// Whether a visitor of a guarded page is sent to the login page.
    pub open spec fn bounces(self) -> bool {
        !self.resolving && self.token is None
    }

    /// Whether a visitor of the login page is sent on to the projects.
    pub open spec fn passes(self) -> bool {
        !self.resolving && self.token is Some
    }

    /// Whether a visitor of a guarded page is sent to the login page.
    pub fn must_sign_in(&self) -> (yes: bool)
        ensures
            yes == self.bounces(),
            yes <==> !self.resolving && self.token is None,
    {
        !self.resolving && self.token.is_none()
    }

    /// Whether a visitor of the login page is sent on to the projects.
    pub fn may_enter(&self) -> (yes: bool)
        ensures
            yes == self.passes(),
            yes <==> !self.resolving && self.token is Some,
    {
        !self.resolving && self.token.is_some()
    }
}

/// No session is sent both ways, and once the token has been checked it is sent
/// one way.
pub proof fn guards_agree(session: Session)
    ensures
        !(session.bounces() && session.passes()),
        session.resolving ==> !session.bounces() && !session.passes(),
        session.bounces() ==> session.token is None,
        session.passes() ==> session.token is Some,
        !session.resolving ==> session.bounces() || session.passes(),
{
}

impl Default for Session {
    fn default() -> (session: Session)
        ensures
            session == (Session { token: None, identity: None, resolving: false }),
    {
        Session::new(None)
    }
}

} // verus!
