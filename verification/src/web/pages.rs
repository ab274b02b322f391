//! The pages.

pub mod audit;
pub mod conditions;
pub mod experiments;
pub mod flag;
pub mod forms;
pub mod keys;
pub mod login;
pub mod preview;
pub mod project;
pub mod projects;
pub mod rollout;
pub mod segments;

use vstd::prelude::*;

use crate::text::maybe;
use crate::web::api;
use crate::web::api::models::{may_write, Environment, Me};
use crate::web::api::{project_path, Body, Call, Method};

verus! {

/// What a page does next.
#[derive(Debug)]
pub enum Next {
    /// Nothing.
    Stay,
    /// Load the list again.
    Reload,
    /// Open something again.
    Reopen(String),
    /// Load the list again, then open something in it.
    ReloadThenOpen(String),
}

/// The environment a page starts out with: the production one, which is what
/// most visits are about, or else the first.
pub open spec fn default_environment(environments: Seq<Environment>) -> Option<Seq<char>> {
    match first_production(environments) {
        Some(at) => Some(environments[at].key@),
        None => if environments.len() > 0 {
            Some(environments[0].key@)
        } else {
            None
        },
    }
}

/// The position of the first production environment.
pub open spec fn first_production(environments: Seq<Environment>) -> Option<int>
    decreases environments.len(),
{
    if environments.len() == 0 {
        None
    } else {
        match first_production(environments.drop_last()) {
            Some(at) => Some(at),
            None => if environments.last().is_production {
                Some(environments.len() - 1)
            } else {
                None
            },
        }
    }
}

proof fn first_production_stays(environments: Seq<Environment>, to: int)
    requires
        0 <= to <= environments.len(),
        first_production(environments.take(to)) is Some,
    ensures
        first_production(environments) == first_production(environments.take(to)),
    decreases environments.len() - to,
{
    if to < environments.len() {
        assert(environments.take(to + 1).drop_last() =~= environments.take(to));
        first_production_stays(environments, to + 1);
    } else {
        assert(environments.take(to) =~= environments);
    }
}

/// The environment a page starts out with.
pub fn choose_environment(environments: &Vec<Environment>) -> (key: Option<String>)
    ensures
        maybe(key) == default_environment(environments@),
        key is None <==> environments@.len() == 0,
        key matches Some(chosen) ==> exists|i: int|
            {
                &&& 0 <= i < environments@.len()
                &&& (#[trigger] environments@[i]).key@ == chosen@
                &&& environments@[i].is_production ==> forall|j: int|
                    0 <= j < i ==> !(#[trigger] environments@[j]).is_production
                &&& !environments@[i].is_production ==> i == 0 && forall|j: int|
                    0 <= j < environments@.len() ==> !(#[trigger] environments@[j]).is_production
            },
{
    proof {
        the_first_production_environment_is_chosen(environments@);
    }
    for i in 0..environments.len()
        invariant
            first_production(environments@.take(i as int)) is None,
    {
        assert(environments@.take(i + 1).drop_last() =~= environments@.take(i as int));
        if environments[i].is_production {
            proof {
                first_production_stays(environments@, i + 1);
                the_first_production_environment_is_chosen(environments@);
            }
            return Some(environments[i].key.clone());
        }
    }
    assert(environments@.take(environments.len() as int) =~= environments@);
    if environments.len() > 0 {
        Some(environments[0].key.clone())
    } else {
        None
    }
}

/// Asks for the environments of a project.
pub fn load_environments<'a>(token: Option<&'a str>, project: &str) -> (call: Option<Call<'a>>)
    ensures
        match token {
            Some(token) => call matches Some(call) && call.is(
                Method::Get,
                project_path(project@) + "/environments"@,
                Some(token@),
            ) && call.body == Body::Nothing,
            None => call is None,
        },
{
    match token {
        Some(token) => Some(api::list_environments(token, project)),
        None => None,
    }
}

/// Whether whoever is signed in may change things; nobody may until it is known
/// who they are.
pub fn can_write(me: Option<&Me>) -> (yes: bool)
    ensures
        yes == (me matches Some(me) && may_write(me.user.role@)),
{
    match me {
        Some(me) => me.user.can_write(),
        None => false,
    }
}

/// A page starts out with the first production environment, with the first of all
/// where none is, and with none where there is none.
pub proof fn the_first_production_environment_is_chosen(environments: Seq<Environment>)
    ensures
        default_environment(environments) is None <==> environments.len() == 0,
        default_environment(environments) matches Some(chosen) ==> exists|i: int|
            {
                &&& 0 <= i < environments.len()
                &&& (#[trigger] environments[i]).key@ == chosen
                &&& environments[i].is_production ==> forall|j: int|
                    0 <= j < i ==> !(#[trigger] environments[j]).is_production
                &&& !environments[i].is_production ==> i == 0 && forall|j: int|
                    0 <= j < environments.len() ==> !(#[trigger] environments[j]).is_production
            },
{
    production_is_found(environments);
    match first_production(environments) {
        Some(at) => {
            assert(environments[at].is_production);
        },
        None => {
            if environments.len() > 0 {
                assert(!environments[0].is_production);
            }
        },
    }
}

proof fn production_is_found(environments: Seq<Environment>)
    ensures
        match first_production(environments) {
            Some(at) => {
                &&& 0 <= at < environments.len()
                &&& environments[at].is_production
                &&& forall|i: int| 0 <= i < at ==> !(#[trigger] environments[i]).is_production
            },
            None => forall|i: int|
                0 <= i < environments.len() ==> !(#[trigger] environments[i]).is_production,
        },
    decreases environments.len(),
{
    if environments.len() > 0 {
        let shorter = environments.drop_last();
        production_is_found(shorter);
        assert(forall|i: int| 0 <= i < shorter.len() ==> shorter[i] == environments[i]);
    }
}

} // verus!
