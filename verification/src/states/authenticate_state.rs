//! What the authentication dialog holds while it is open.

use vstd::prelude::*;

verus! {

/// The password typed so far, and the message of the last failed attempt.
#[derive(Clone, Debug, PartialEq, Eq)]
pub struct AuthenticateState {
    pub error_message: Option<String>,
    pub password: String,
}

/// An [`AuthenticateState`] as plain values.
pub struct AuthenticateView {
    pub error_message: Option<Seq<char>>,
    pub password: Seq<char>,
}

impl View for AuthenticateState {
    type V = AuthenticateView;

    open spec fn view(&self) -> AuthenticateView {
        AuthenticateView {
            error_message: match self.error_message {
                Some(m) => Some(m@),
                None => None,
            },
            password: self.password@,
        }
    }
}

impl AuthenticateView {
    /// The dialog as it opens: no password typed, no error shown.
    pub open spec fn fresh() -> AuthenticateView {
        AuthenticateView { error_message: None, password: Seq::empty() }
    }
}

impl Default for AuthenticateState {
    fn default() -> (state: Self)
        ensures
            state@ == AuthenticateView::fresh(),
    {
        AuthenticateState { error_message: None, password: String::new() }
    }
}

} // verus!
