//! The signed-in user as the presentation layer sees it.

use vstd::prelude::*;

verus! {

/// The user id of the active user, if any, with the display name shown in
/// page templates.
#[derive(Clone)]
pub struct UserState {
    pub user_id: Option<i64>,
    pub user_name: Option<String>,
}

impl UserState {
    /// The session key the state is stored under.
    pub fn session_key() -> (r: &'static str)
        ensures
            r@ == "USER_STATE"@,
    {
        "USER_STATE"
    }

    /// Whether a user is signed in: what page templates render as the
    /// logged-in flag.
    pub fn logged_in(&self) -> (r: bool)
        ensures
            r == (self.user_id is Some),
    {
        self.user_id.is_some()
    }

    /// The display name page templates render: the user's, or empty when
    /// none is set.
    pub fn username(&self) -> (r: String)
        ensures
            match self.user_name {
                Some(n) => r@ == n@,
                None => r@ == Seq::<char>::empty(),
            },
    {
        match &self.user_name {
            Some(n) => n.clone(),
            None => String::new(),
        }
    }
}

} // verus!
