//! The login form's payload.

use vstd::prelude::*;

verus! {

/// The submitted login form: the vendor API key to sign in with.
#[derive(Clone)]
pub struct ApiKeyForm {
    pub api_key: String,
}

} // verus!
