//! The frame around every page.

use vstd::prelude::*;

use crate::text::{beginning, uppercase};
use crate::web::api::models::Me;

verus! {

/// The initials on the avatar; empty until the identity is known.
pub fn avatar(me: Option<&Me>) -> (text: String)
    ensures
        text@ == (match me {
            Some(me) => uppercase(beginning(me.user.email@, 2)),
            None => Seq::empty(),
        }),
{
    match me {
        Some(me) => me.user.initials(),
        None => String::new(),
    }
}

/// The address under the avatar; empty until the identity is known.
pub fn identity_name(me: Option<&Me>) -> (text: String)
    ensures
        text@ == (match me {
            Some(me) => me.user.email@,
            None => Seq::empty(),
        }),
{
    match me {
        Some(me) => me.user.email.clone(),
        None => String::new(),
    }
}

/// The organization and the role; empty until the identity is known.
pub fn identity_org(me: Option<&Me>) -> (text: String)
    ensures
        text@ == (match me {
            Some(me) => me.organization.name@ + " \u{b7} "@ + me.user.role@,
            None => Seq::empty(),
        }),
{
    match me {
        Some(me) => {
            let mut text: String = me.organization.name.clone();
            text.append(" \u{b7} ");
            text.append(me.user.role.as_str());
            text
        },
        None => String::new(),
    }
}

} // verus!
