//! The session resolver: reading the provider's identity answer and
//! binding it to a token set.

use vstd::prelude::*;

use crate::authorize::{Access, AuthorizeError};
use crate::json::{pairs_model, parse_object, parse_object_spec, JsonScalar, ScalarModel};
use crate::store::{find_idx, find_val};
use crate::UserAccess;

verus! {

/// The provider's answer to the "who am I" call.
#[derive(Debug, Clone)]
pub struct User {
    pub display_name: String,
    pub id: String,
}

/// The mathematical reading of a user.
pub struct UserModel {
    pub display_name: Seq<char>,
    pub id: Seq<char>,
}

impl View for User {
    type V = UserModel;

    open spec fn view(&self) -> UserModel {
        UserModel { display_name: self.display_name@, id: self.id@ }
    }
}

/// How the "who am I" response's members are read back as a user: both
/// fields must be present as strings.
pub open spec fn user_of_pairs(ms: Seq<(Seq<char>, ScalarModel)>) -> Option<UserModel> {
    match (find_val(ms, "display_name"@), find_val(ms, "id"@)) {
        (Some(ScalarModel::TextV(d)), Some(ScalarModel::TextV(i))) => Some(
            UserModel { display_name: d, id: i },
        ),
        _ => None,
    }
}

/// Reads a parsed "who am I" member list into a user.
pub fn user_from_pairs(pairs: &Vec<(String, JsonScalar)>) -> (r: Option<User>)
    ensures
        match r {
            Some(u) => user_of_pairs(pairs_model(pairs@)) == Some(u@),
            None => user_of_pairs(pairs_model(pairs@)) is None,
        },
{
    let key_name = String::from_str("display_name");
    let key_id = String::from_str("id");
    let display_name = match find_idx(pairs, &key_name) {
        Some(i) => match &pairs[i].1 {
            JsonScalar::Text(s) => s.clone(),
            JsonScalar::Number(_) | JsonScalar::Other => {
                return None;
            },
        },
        None => {
            return None;
        },
    };
    let id = match find_idx(pairs, &key_id) {
        Some(i) => match &pairs[i].1 {
            JsonScalar::Text(s) => s.clone(),
            JsonScalar::Number(_) | JsonScalar::Other => {
                return None;
            },
        },
        None => {
            return None;
        },
    };
    Some(User { display_name, id })
}

/// What reading a whole "who am I" response body means.
pub open spec fn parse_user_spec(s: Seq<char>) -> Option<UserModel> {
    match parse_object_spec(s) {
        Some(ms) => user_of_pairs(ms),
        None => None,
    }
}

/// Reads a "who am I" response body.
pub fn parse_user_response(s: &str) -> (r: Option<User>)
    ensures
        match r {
            Some(u) => parse_user_spec(s@) == Some(u@),
            None => parse_user_spec(s@) is None,
        },
{
    match parse_object(s) {
        Some(pairs) => user_from_pairs(&pairs),
        None => None,
    }
}

/// Binds a valid token set and a resolved identity into the authorized
/// session handed to every downstream collaborator; a response that did
/// not resolve to a user surfaces as a failure instead.
pub fn get_user_access(access: Access, user: Option<User>) -> (r: Result<
    UserAccess,
    AuthorizeError,
>)
    ensures
        match r {
            Ok(ua) => user is Some && ua.access == access && ua.user == user->0,
            Err(e) => user is None && e is Unknown,
        },
{
    match user {
        Some(user) => Ok(UserAccess { access, user }),
        None => Err(AuthorizeError::Unknown),
    }
}

} // verus!
