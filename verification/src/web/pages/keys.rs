//! SDK keys for an environment.

use vstd::prelude::*;

use crate::text::{maybe, same_text};
use crate::time::{relative_at, relative_time_at, Timestamp};
use crate::web::api;
use crate::web::api::models::{may_administer, ApiKey, CreatedKey, Environment, Me};
use crate::web::api::{
    environment_path, loaded, resource_path, ApiError, Body, Call, Load, Method, NewKey,
};
use crate::web::pages::{choose_environment, default_environment, Next};
use crate::web::toast::Notice;

verus! {

/// The page of the keys.
#[derive(Debug)]
pub struct Keys {
    pub environments: Load<Vec<Environment>>,
    pub selected: Option<String>,
    pub keys: Load<Vec<ApiKey>>,
    pub creating: bool,
    /// The name and the secret of a new key, held until dismissed: this is the
    /// only time the secret is ever visible.
    pub revealed: Option<(String, String)>,
}

impl Keys {
    pub fn new() -> (page: Keys)
        ensures
            page == (Keys {
                environments: Load::Loading,
                selected: None,
                keys: Load::Loading,
                creating: false,
                revealed: None,
            }),
    {
        Keys {
            environments: Load::Loading,
            selected: None,
            keys: Load::Loading,
            creating: false,
            revealed: None,
        }
    }

    /// What the server said of the environments.
    pub fn environments_loaded(&mut self, answer: Result<Vec<Environment>, ApiError>)
        ensures
            *final(self) == (Keys {
                environments: loaded(answer),
                selected: final(self).selected,
                ..*old(self)
            }),
            match answer {
                Ok(list) => maybe(final(self).selected) == default_environment(list@),
                Err(_) => final(self).selected == old(self).selected,
            },
    {
        if let Ok(list) = &answer {
            self.selected = choose_environment(list);
        }
        self.environments = Load::from(answer);
    }

    /// Goes to another environment.
    pub fn select(&mut self, key: String)
        ensures
            *final(self) == (Keys { selected: Some(key), ..*old(self) }),
    {
        self.selected = Some(key);
    }

    /// Asks for the keys of the selected environment.
    pub fn load_keys<'a>(&mut self, token: Option<&'a str>, project: &str) -> (call: Option<
        Call<'a>,
    >)
        ensures
            match (token, old(self).selected) {
                (Some(token), Some(environment)) => {
                    &&& *final(self) == (Keys { keys: Load::Loading, ..*old(self) })
                    &&& call matches Some(call) && call.is(
                        Method::Get,
                        environment_path(project@, environment@, "/keys"@),
                        Some(token@),
                    ) && call.body == Body::Nothing
                },
                _ => *final(self) == *old(self) && call is None,
            },
    {
        match (token, &self.selected) {
            (Some(token), Some(environment)) => {
                let call = api::list_keys(token, project, environment.as_str());
                self.keys = Load::Loading;
                Some(call)
            },
            _ => None,
        }
    }

    /// What the server said of the keys.
    pub fn keys_loaded(&mut self, answer: Result<Vec<ApiKey>, ApiError>)
        ensures
            *final(self) == (Keys { keys: loaded(answer), ..*old(self) }),
    {
        self.keys = Load::from(answer);
    }

    /// Revokes a key.
    pub fn revoke<'a>(&self, token: Option<&'a str>, project: &str, id: &str) -> (call: Option<
        Call<'a>,
    >)
        ensures
            match (token, self.selected) {
                (Some(token), Some(environment)) => call matches Some(call) && call.is(
                    Method::Delete,
                    resource_path(project@, environment@, "/keys"@, id@),
                    Some(token@),
                ) && call.body == Body::Nothing,
                _ => call is None,
            },
    {
        match (token, &self.selected) {
            (Some(token), Some(environment)) => Some(
                api::revoke_key(token, project, environment.as_str(), id),
            ),
            _ => None,
        }
    }

    /// A key was created: the dialog closes, the secret is shown, and the list
    /// is loaded again.
    pub fn created(&mut self, name: String, secret: String) -> (next: Next)
        ensures
            *final(self) == (Keys {
                creating: false,
                revealed: Some((name, secret)),
                ..*old(self)
            }),
            next == Next::Reload,
    {
        self.creating = false;
        self.revealed = Some((name, secret));
        Next::Reload
    }

    /// The secret was copied. It is gone for good.
    pub fn dismiss(&mut self)
        ensures
            *final(self) == (Keys { revealed: None, ..*old(self) }),
    {
        self.revealed = None;
    }
}

/// What the server said of a revocation, and whether to load the keys again.
pub fn revoked(answer: Result<(), ApiError>) -> (next: (Notice, bool))
    ensures
        match answer {
            Ok(_) => next.0.succeeds(
                "Key revoked \u{2014} it stops working on the next request"@,
            ) && next.1,
            Err(error) => next.0.fails("Could not revoke the key"@, error) && !next.1,
        },
{
    match answer {
        Ok(_) => (
            Notice::success(
                "Key revoked \u{2014} it stops working on the next request".to_owned(),
            ),
            true,
        ),
        Err(error) => (Notice::error("Could not revoke the key", &error), false),
    }
}

/// What a row offers for a key.
#[derive(Debug, Clone, Copy, PartialEq, Eq, Structural)]
pub enum KeyStatus {
    Revoked,
    Revocable,
    Active,
}

/// What a row offers for a key: a revoked one is only named so, and only an
/// administrator may revoke.
pub fn key_status(key: &ApiKey, me: Option<&Me>) -> (status: KeyStatus)
    ensures
        status == (if key.revoked_at is Some {
            KeyStatus::Revoked
        } else if me matches Some(me) && may_administer(me.user.role@) {
            KeyStatus::Revocable
        } else {
            KeyStatus::Active
        }),
{
    if key.revoked_at.is_some() {
        return KeyStatus::Revoked;
    }
    let administers: bool = match me {
        Some(me) => me.user.can_administer(),
        None => false,
    };
    if administers {
        KeyStatus::Revocable
    } else {
        KeyStatus::Active
    }
}

/// How a key's scope is coloured.
pub fn scope_class(scope: &str) -> (class: &'static str)
    ensures
        class@ == (if scope@ == "server"@ {
            "badge badge--accent"@
        } else {
            "badge badge--info"@
        }),
{
    if same_text(scope, "server") {
        "badge badge--accent"
    } else {
        "badge badge--info"
    }
}

/// What is shown of a key: its beginning.
pub fn shown_key(key: &ApiKey) -> (text: String)
    ensures
        text@ == key.prefix@ + "\u{2026}"@,
{
    let mut text: String = key.prefix.clone();
    text.append("\u{2026}");
    text
}

/// When a key was last used, at `now`.
pub fn last_used(key: &ApiKey, now: Timestamp) -> (text: String)
    ensures
        text@ == (match key.last_used_at {
            Some(at) => relative_at(at@, now),
            None => "never"@,
        }),
{
    match &key.last_used_at {
        Some(at) => relative_time_at(at.as_str(), now),
        None => "never".to_owned(),
    }
}

// --------------------------------------------------------------------- creation

/// The form of a new key.
#[derive(Debug)]
pub struct CreateKey {
    pub name: String,
    pub scope: String,
    pub busy: bool,
}

impl CreateKey {
    pub fn new() -> (form: CreateKey)
        ensures
            form.name@.len() == 0,
            form.scope@ == "server"@,
            !form.busy,
    {
        CreateKey { name: String::new(), scope: "server".to_owned(), busy: false }
    }

    /// Sends the form, unless it is being sent already.
    pub fn submit<'a>(&'a mut self, token: Option<&'a str>, project: &str, environment: &str) -> (
    call: Option<Call<'a>>)
        ensures
            *final(self) == (CreateKey { busy: true, ..*old(self) }),
            match (old(self).busy, token) {
                (false, Some(token)) => {
                    &&& call matches Some(call)
                    &&& call.is(
                        Method::Post,
                        environment_path(project@, environment@, "/keys"@),
                        Some(token@),
                    )
                    &&& call.body matches Body::Key(body)
                    &&& body.name@ == old(self).name@
                    &&& body.scope@ == old(self).scope@
                },
                _ => call is None,
            },
    {
        if self.busy {
            return None;
        }
        self.busy = true;
        match token {
            Some(token) => Some(
                api::create_key(
                    token,
                    project,
                    environment,
                    NewKey { name: self.name.as_str(), scope: self.scope.as_str() },
                ),
            ),
            None => None,
        }
    }

    /// What the server said: the name and the secret, or what went wrong.
    pub fn submitted(&mut self, answer: Result<CreatedKey, ApiError>) -> (outcome: Result<
        (String, String),
        Notice,
    >)
        ensures
            *final(self) == (CreateKey { busy: false, ..*old(self) }),
            match answer {
                Ok(created) => outcome == Ok::<(String, String), Notice>(
                    (created.key.name, created.secret),
                ),
                Err(error) => outcome matches Err(notice) && notice.fails(
                    "Could not create the key"@,
                    error,
                ),
            },
    {
        self.busy = false;
        match answer {
            Ok(created) => Ok((created.key.name, created.secret)),
            Err(error) => Err(Notice::error("Could not create the key", &error)),
        }
    }

    /// What the chosen scope means.
    pub fn scope_hint(&self) -> (text: &'static str)
        ensures
            text@ == (if self.scope@ == "server"@ {
                "Can evaluate flags and download targeting rules."@
            } else {
                "Can evaluate flags only. Rules name internal segments, so they are never shipped to a browser."@
            }),
    {
        if same_text(self.scope.as_str(), "server") {
            "Can evaluate flags and download targeting rules."
        } else {
            "Can evaluate flags only. Rules name internal segments, so they are never shipped to a browser."
        }
    }
}

} // verus!
