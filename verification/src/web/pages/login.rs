//! Sign in and sign up.

use vstd::prelude::*;

use crate::web::api;
use crate::web::api::models::Session;
use crate::web::api::{ApiError, Body, Call, LoginBody, Method, RegisterBody};

verus! {

#[derive(Debug, Clone, Copy, PartialEq, Eq, Structural)]
pub enum Mode {
    SignIn,
    SignUp,
}

/// The login page.
#[derive(Debug)]
pub struct Login {
    pub mode: Mode,
    pub organization: String,
    pub email: String,
    pub password: String,
    pub error: Option<String>,
    pub busy: bool,
}

/// Whether a request signs in with what a page holds.
pub open spec fn signs_in(call: Call<'_>, page: Login) -> bool {
    match page.mode {
        Mode::SignIn => {
            &&& call.is(Method::Post, "/auth/login"@, None)
            &&& call.body matches Body::Login(body)
            &&& body.email@ == page.email@
            &&& body.password@ == page.password@
        },
        Mode::SignUp => {
            &&& call.is(Method::Post, "/auth/register"@, None)
            &&& call.body matches Body::Register(body)
            &&& body.organization_name@ == page.organization@
            &&& body.email@ == page.email@
            &&& body.password@ == page.password@
        },
    }
}

impl Login {
    pub fn new() -> (page: Login)
        ensures
            page.mode == Mode::SignIn,
            page.organization@.len() == 0,
            page.email@.len() == 0,
            page.password@.len() == 0,
            page.error is None,
            !page.busy,
    {
        Login {
            mode: Mode::SignIn,
            organization: String::new(),
            email: String::new(),
            password: String::new(),
            error: None,
            busy: false,
        }
    }

    /// Changes tabs. What went wrong on the other one is no longer of interest.
    pub fn choose_mode(&mut self, mode: Mode)
        ensures
            *final(self) == (Login { mode, error: None, ..*old(self) }),
    {
        self.mode = mode;
        self.error = None;
    }

    /// Sends the form, unless it is being sent already.
    pub fn submit<'a>(&'a mut self) -> (call: Option<Call<'a>>)
        ensures
            if old(self).busy {
                *final(self) == *old(self) && call is None
            } else {
                &&& *final(self) == (Login { busy: true, error: None, ..*old(self) })
                &&& call matches Some(call) && signs_in(call, *old(self))
            },
    {
        if self.busy {
            return None;
        }
        self.busy = true;
        self.error = None;
        match self.mode {
            Mode::SignIn => Some(
                api::login(
                    LoginBody { email: self.email.as_str(), password: self.password.as_str() },
                ),
            ),
            Mode::SignUp => Some(
                api::register(
                    RegisterBody {
                        organization_name: self.organization.as_str(),
                        email: self.email.as_str(),
                        password: self.password.as_str(),
                    },
                ),
            ),
        }
    }

    /// What the server said: the token to sign in with, or what went wrong.
    pub fn submitted(&mut self, answer: Result<Session, ApiError>) -> (token: Option<String>)
        ensures
            match answer {
                Ok(session) => {
                    &&& token == Some(session.token)
                    &&& *final(self) == (Login { busy: false, ..*old(self) })
                },
                Err(error) => {
                    &&& token is None
                    &&& *final(self) == (Login {
                        busy: false,
                        error: Some(error.title),
                        ..*old(self)
                    })
                },
            },
    {
        self.busy = false;
        match answer {
            Ok(session) => Some(session.token),
            Err(error) => {
                self.error = Some(error.title);
                None
            },
        }
    }

    /// What the button says.
    pub fn submit_label(&self) -> (text: &'static str)
        ensures
            text@ == (match self.mode {
                Mode::SignIn => "Sign in"@,
                Mode::SignUp => "Create organization"@,
            }),
    {
        match self.mode {
            Mode::SignIn => "Sign in",
            Mode::SignUp => "Create organization",
        }
    }

    /// What a password manager is told of the password field.
    pub fn autocomplete(&self) -> (text: &'static str)
        ensures
            text@ == (match self.mode {
                Mode::SignIn => "current-password"@,
                Mode::SignUp => "new-password"@,
            }),
    {
        match self.mode {
            Mode::SignIn => "current-password",
            Mode::SignUp => "new-password",
        }
    }
}

/// Signing in sends the address and the password that were typed, and signing up
/// the name of the organization besides; neither goes where the other does.
pub proof fn what_was_typed_is_sent(call: Call<'_>, page: Login)
    requires
        signs_in(call, page),
    ensures
        call.method == Method::Post,
        call.token is None,
        page.mode == Mode::SignIn ==> call.path@ == "/auth/login"@ && (call.body matches Body::Login(
            body,
        ) && body.email@ == page.email@ && body.password@ == page.password@),
        page.mode == Mode::SignUp ==> call.path@ == "/auth/register"@ && (
        call.body matches Body::Register(body) && body.organization_name@ == page.organization@
            && body.email@ == page.email@ && body.password@ == page.password@),
{
}

} // verus!
