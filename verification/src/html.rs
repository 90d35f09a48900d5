//! Plain data carried into the page templates. Rendering itself is an
//! external collaborator; these types only fix which values each page shows.

use vstd::prelude::*;
use crate::user::{User, UserStore, sorted_by_id};

verus! {

/// Page that hands out a freshly minted reset link for one account.
pub struct GeneratePasswordResetTemplate<'a, 'b> {
    pub user: &'a User,
    pub link: &'b str,
}

impl<'a, 'b> GeneratePasswordResetTemplate<'a, 'b> {
    /// Pairs the account with its reset link.
    pub fn from_user_reset_link(user: &'a User, link: &'b str) -> (r: Self)
        ensures
            r.user == user,
            r.link@ == link@,
    {
        GeneratePasswordResetTemplate { user, link }
    }
}

/// Page that lists every account, ordered by ascending identifier.
pub struct ListUsersTemplate<'a> {
    pub users: &'a Vec<User>,
}

impl<'a> ListUsersTemplate<'a> {
    /// Takes the directory's listing in its deterministic order.
    pub fn from_store(store: &'a UserStore) -> (r: Self)
        ensures
            r.users@ == store@,
            store.wf() ==> sorted_by_id(r.users@),
    {
        ListUsersTemplate { users: store.list() }
    }
}

/// Page where an account holder submits a new password; `success` reports
/// the outcome of a submission, None before one happened.
pub struct ResetPasswordTemplate<'a> {
    pub user: &'a User,
    pub success: Option<bool>,
}

impl<'a> ResetPasswordTemplate<'a> {
    /// After a submission: carries whether the token verified.
    pub fn from_user_with_warning(user: &'a User, is_valid: bool) -> (r: Self)
        ensures
            r.user == user,
            r.success == Some(is_valid),
    {
        ResetPasswordTemplate { user, success: Some(is_valid) }
    }

    /// Before a submission: no outcome yet.
    pub fn from_user(user: &'a User) -> (r: Self)
        ensures
            r.user == user,
            r.success is None,
    {
        ResetPasswordTemplate { user, success: None }
    }
}

/// Page that requests an email and then shows the signed create link made
/// for it, as a pair of link and email.
pub struct NewUserTemplate<'a> {
    pub email_info: Option<(&'a str, &'a str)>,
}

impl<'a> NewUserTemplate<'a> {
    /// With None the page only asks for an email; with a pair it shows the
    /// link that was minted for that email.
    pub fn from_email(email_info: Option<(&'a str, &'a str)>) -> (r: Self)
        ensures
            r.email_info == email_info,
    {
        NewUserTemplate { email_info }
    }
}

/// Page with the account-creation form; `success` reports the outcome of a
/// submission, None before one happened.
pub struct CreateUserTemplate {
    pub success: Option<bool>,
}

impl CreateUserTemplate {
    /// The bare form.
    pub fn form() -> (r: Self)
        ensures
            r.success is None,
    {
        CreateUserTemplate { success: None }
    }

    /// After a submission: carries whether the account was created.
    pub fn report_success(success: bool) -> (r: Self)
        ensures
            r.success == Some(success),
    {
        CreateUserTemplate { success: Some(success) }
    }
}

} // verus!
