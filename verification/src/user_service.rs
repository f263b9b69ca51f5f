//! The user service of the example: there is one user, the administrator.

use vstd::prelude::*;
use vstd::string::*;

verus! {

/// A user.
#[derive(Debug, Clone, PartialEq, Eq)]
pub struct User {
    pub id: i64,
    pub name: String,
}

/// Why no user is returned.
#[derive(Debug, Clone, Copy, PartialEq, Eq, Structural)]
pub enum GetUserError {
    /// The id is not positive, or the request has none.
    InvalidArgument,
    /// No user has the id.
    NotFound,
}

impl GetUserError {
    /// The text that goes with the failure.
    pub fn message(&self) -> (r: &'static str)
        ensures
            r == match *self {
                GetUserError::InvalidArgument => "GetUserRequest.id invalid or unset",
                GetUserError::NotFound => "User not found",
            },
    {
        match self {
            GetUserError::InvalidArgument => "GetUserRequest.id invalid or unset",
            GetUserError::NotFound => "User not found",
        }
    }
}

/// The user service.
#[derive(Debug, Default)]
pub struct UserServiceImpl {}

impl UserServiceImpl {
    /// Finds the user with the given id. The only user has the id 1 and
    /// the name `admin`; an id that is not positive is refused as invalid.
    pub fn get_user(&self, id: i64) -> (r: Result<User, GetUserError>)
        ensures
            id <= 0 ==> r is Err && r->Err_0 == GetUserError::InvalidArgument,
            id > 1 ==> r is Err && r->Err_0 == GetUserError::NotFound,
            id == 1 ==> r is Ok && r->Ok_0.id == 1 && r->Ok_0.name@ == "admin"@,
    {
        if id <= 0 {
            return Err(GetUserError::InvalidArgument);
        }
        if id != 1 {
            return Err(GetUserError::NotFound);
        }
        Ok(User { id, name: "admin".to_owned() })
    }
}

} // verus!
