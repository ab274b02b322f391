//! The form that names something new.

use vstd::prelude::*;

use crate::web::pages::projects::{slug, slugify};

verus! {

/// A name, and the key that goes with it. The key follows the name until
/// somebody edits it by hand.
#[derive(Debug)]
pub struct KeyForm {
    pub name: String,
    pub key: String,
    pub key_is_derived: bool,
    pub busy: bool,
}

impl KeyForm {
    pub fn new() -> (form: KeyForm)
        ensures
            form.name@.len() == 0,
            form.key@.len() == 0,
            form.key_is_derived,
            !form.busy,
    {
        KeyForm { name: String::new(), key: String::new(), key_is_derived: true, busy: false }
    }

    /// Takes what was typed as the name.
    pub fn name_typed(&mut self, value: String)
        ensures
            final(self).name == value,
            final(self).key_is_derived == old(self).key_is_derived,
            final(self).busy == old(self).busy,
            old(self).key_is_derived ==> final(self).key@ == slug(value@),
            !old(self).key_is_derived ==> final(self).key == old(self).key,
    {
        if self.key_is_derived {
            self.key = slugify(value.as_str());
        }
        self.name = value;
    }

    /// Takes what was typed as the key. From here on the name leaves it alone.
    pub fn key_typed(&mut self, value: String)
        ensures
            *final(self) == (KeyForm { key: value, key_is_derived: false, ..*old(self) }),
    {
        self.key_is_derived = false;
        self.key = value;
    }

    /// Starts sending the form, unless it is being sent already; says whether to
    /// go on.
    pub fn begin(&mut self) -> (go: bool)
        ensures
            go == !old(self).busy,
            *final(self) == (KeyForm { busy: true, ..*old(self) }),
    {
        if self.busy {
            return false;
        }
        self.busy = true;
        true
    }

    /// The answer is there.
    pub fn finish(&mut self)
        ensures
            *final(self) == (KeyForm { busy: false, ..*old(self) }),
    {
        self.busy = false;
    }
}

} // verus!
