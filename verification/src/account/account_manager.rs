//! The service that signs users up and in.

use vstd::prelude::*;

verus! {

/// A service that holds user accounts. Embedders of the library implement it; nothing is
/// promised of what an implementation answers.
pub trait AccountManager {
    /// Whether accounts are available at all.
    fn is_enabled(&self) -> bool;

    /// Signs a new user up, giving their user name, token and e-mail address, if it succeeded.
    fn signup(&self) -> Option<(String, String, Option<String>)>;

    /// Logs a user in, giving their user name and token, if it succeeded.
    fn login(&self, username: Option<&str>) -> Option<(String, String)>;

    /// Ends the user's session.
    fn logout(&self);
}

/// The account service of an installation without accounts: disabled, and every request fails.
#[derive(Clone, Copy, Debug, Default)]
pub struct NullAccountManager;

impl AccountManager for NullAccountManager {
    fn is_enabled(&self) -> (r: bool)
        ensures
            !r,
    {
        false
    }

    fn signup(&self) -> (r: Option<(String, String, Option<String>)>)
        ensures
            r is None,
    {
        None
    }

    fn login(&self, username: Option<&str>) -> (r: Option<(String, String)>)
        ensures
            r is None,
    {
        None
    }

    fn logout(&self) {
    }
}

} // verus!
