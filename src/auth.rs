use vstd::prelude::*;

use crate::auto_save::ShouldSave;

verus! {

/// A simple token-based authentication state.
#[derive(Clone)]
pub struct Auth {
    pub token: String,
    pub validated: bool,
    pub validating: bool,
    pub updated: bool,
}

impl Auth {
    /// Whether the token has been accepted.
    pub fn valid(&self) -> (r: bool)
        ensures
            r == self.validated,
    {
        self.validated
    }

    /// Whether a validation request should be issued now: a token is present and it is
    /// neither validated nor being validated.
    pub fn should_validate(&self) -> (r: bool)
        ensures
            r == (!self.validated && self.token@.len() > 0 && !self.validating),
    {
        !self.validated && self.token.as_str().unicode_len() != 0 && !self.validating
    }

    /// Records that a validation request is under way; the state is not to be saved meanwhile.
    pub fn set_validating(&mut self)
        ensures
            final(self).token == old(self).token,
            final(self).validated == old(self).validated,
            final(self).validating,
            !final(self).updated,
    {
        self.validating = true;
        self.updated = false;
    }

    /// Records the outcome of a validation request. A rejected token is cleared. Either way the
    /// state has changed and is to be saved.
    pub fn set_validated(&mut self, valid: bool)
        ensures
            final(self).validated == valid,
            !final(self).validating,
            final(self).updated,
            valid ==> final(self).token == old(self).token,
            !valid ==> final(self).token@ == Seq::<char>::empty(),
    {
        if valid {
            self.validated = true;
            self.validating = false;
            self.updated = true;
        } else {
            self.validated = false;
            self.validating = false;
            self.updated = true;
            self.token = String::new();
        }
    }
}

impl Default for Auth {
    /// No token, nothing validated, nothing to save.
    fn default() -> (r: Self)
        ensures
            r.token@ == Seq::<char>::empty(),
            !r.validated,
            !r.validating,
            !r.updated,
    {
        Auth { token: String::new(), validated: false, validating: false, updated: false }
    }
}

impl ShouldSave for Auth {
    open spec fn spec_save_ready(&self) -> bool {
        self.updated
    }

    fn save_ready(&self) -> (r: bool) {
        self.updated
    }

    fn set_save_ready(&mut self, ready: bool) {
        self.updated = ready;
    }
}

} // verus!
