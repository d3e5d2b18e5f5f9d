//! Accounts: roles, login checks and the commands that sign users in.

use vstd::prelude::*;
use std::sync::Arc;

use crate::error::AppError;

verus! {

/// What a user may do.
#[derive(Debug, Clone, Copy, PartialEq, Eq, Structural)]
pub enum Role {
    User,
    Admin,
}

impl Default for Role {
    /// An ordinary user.
    fn default() -> (r: Role)
        ensures
            r == Role::User,
    {
        Role::User
    }
}

/// The stored name of a role.
pub open spec fn role_name(r: Role) -> Seq<char> {
    match r {
        Role::User => "user"@,
        Role::Admin => "admin"@,
    }
}

impl Role {
    /// The role stored as `s`: `admin` is an administrator, anything else a user.
    pub fn from_db(s: &str) -> (r: Role)
        ensures
            r == if s@ == "admin"@ {
                Role::Admin
            } else {
                Role::User
            },
    {
        if crate::text::same_text(s, "admin") {
            Role::Admin
        } else {
            Role::User
        }
    }

    /// The name the role is written as.
    pub fn as_str(&self) -> (s: &'static str)
        ensures
            s@ == role_name(*self),
    {
        match self {
            Role::User => "user",
            Role::Admin => "admin",
        }
    }
}

/// Reading a role's name back gives the role.
pub proof fn lemma_role_name_round_trip(r: Role)
    ensures
        (if role_name(r) == "admin"@ {
            Role::Admin
        } else {
            Role::User
        }) == r,
{
    match r {
        Role::User => {
            assert(role_name(r) != "admin"@) by {
                reveal_strlit("user");
                reveal_strlit("admin");
                assert("user"@[0] != "admin"@[0]);
            }
        },
        Role::Admin => {},
    }
}

/// The credentials of an account.
#[derive(Debug)]
pub struct UserAuth {
    pub user_id: String,
    pub password_hash: Option<String>,
    pub role: Role,
}

/// A refresh token as stored: its owner, its family and whether it was used.
#[derive(Debug)]
pub struct RefreshTokenRecord {
    pub user_id: String,
    pub family_id: u128,
    pub is_used: bool,
}

/// A registration request.
#[derive(Debug)]
pub struct RegisterUser {
    pub username: String,
    pub handle: String,
    pub password: Option<String>,
}

/// A login request.
#[derive(Debug)]
pub struct LoginUser {
    pub handle: String,
    pub password: Option<String>,
}

/// A session refresh request.
#[derive(Debug)]
pub struct RefreshSession {
    pub refresh_token: String,
}

/// Whether a login request carries a handle and a non-empty password.
pub open spec fn login_complete(input: LoginUser) -> bool {
    input.handle@.len() > 0 && match input.password {
        Some(p) => p@.len() > 0,
        None => false,
    }
}

/// A login request must carry a handle and a non-empty password.
pub fn check_login_input(input: &LoginUser) -> (r: Result<(), AppError>)
    ensures
        login_complete(*input) ==> r is Ok,
        !login_complete(*input) ==> r matches Err(AppError::MissingCredentials),
{
    let has_password = match &input.password {
        Some(p) => !p.as_str().is_empty(),
        None => false,
    };
    if input.handle.as_str().is_empty() || !has_password {
        return Err(AppError::MissingCredentials);
    }
    Ok(())
}

/// The account found by handle, which must exist.
pub fn require_account(found: Option<UserAuth>) -> (r: Result<UserAuth, AppError>)
    ensures
        match found {
            Some(u) => r matches Ok(v) && v == u,
            None => r matches Err(AppError::UserNotFound),
        },
{
    match found {
        Some(u) => Ok(u),
        None => Err(AppError::UserNotFound),
    }
}

/// The stored password hash, which an account signing in with a password
/// must have.
pub fn stored_password_hash(user: &UserAuth) -> (r: Result<&String, AppError>)
    ensures
        match user.password_hash {
            Some(h) => r matches Ok(v) && *v == h,
            None => r matches Err(AppError::WrongCredentials),
        },
{
    match &user.password_hash {
        Some(h) => Ok(h),
        None => Err(AppError::WrongCredentials),
    }
}

/// The password must match the stored hash (`matches` is the verifier's verdict).
pub fn check_password(matches: bool) -> (r: Result<(), AppError>)
    ensures
        matches ==> r is Ok,
        !matches ==> r matches Err(AppError::WrongCredentials),
{
    if !matches {
        return Err(AppError::WrongCredentials);
    }
    Ok(())
}

/// Whether `id` is listed in `ids`.
pub open spec fn listed(ids: Seq<String>, id: Seq<char>) -> bool {
    exists|i: int| 0 <= i < ids.len() && #[trigger] ids[i]@ == id
}

/// The role a signed-in user gets: administrator when listed as one,
/// otherwise the stored role.
pub fn session_role(user_id: &String, stored: Role, admin_user_ids: &[String]) -> (r: Role)
    ensures
        r == if listed(admin_user_ids@, user_id@) {
            Role::Admin
        } else {
            stored
        },
{
    let mut i: usize = 0;
    while i < admin_user_ids.len()
        invariant
            0 <= i <= admin_user_ids@.len(),
            forall|k: int| 0 <= k < i ==> #[trigger] admin_user_ids@[k]@ != user_id@,
        decreases admin_user_ids@.len() - i,
    {
        if admin_user_ids[i] == *user_id {
            return Role::Admin;
        }
        i = i + 1;
    }
    stored
}

/// Signs users in with a handle and a password.
pub struct LoginUserCommand<R> {
    repo: Arc<R>,
    admin_user_ids: Vec<String>,
}

impl<R> LoginUserCommand<R> {
    /// A command over the account store, with the identifiers of the
    /// administrators.
    pub fn new(repo: Arc<R>, admin_user_ids: Vec<String>) -> (c: Self)
        ensures
            c.repo() == repo,
            c.admin_user_ids() == admin_user_ids@,
    {
        LoginUserCommand { repo, admin_user_ids }
    }

    /// The account store.
    pub closed spec fn repo(&self) -> Arc<R> {
        self.repo
    }

    /// The identifiers of the administrators.
    pub closed spec fn admin_user_ids(&self) -> Seq<String> {
        self.admin_user_ids@
    }

    /// The account store.
    pub fn repository(&self) -> (r: &Arc<R>)
        ensures
            *r == self.repo(),
    {
        &self.repo
    }

    /// The role of a user who signed in.
    pub fn role_of(&self, user: &UserAuth) -> (r: Role)
        ensures
            r == if listed(self.admin_user_ids(), user.user_id@) {
                Role::Admin
            } else {
                user.role
            },
    {
        session_role(&user.user_id, user.role, self.admin_user_ids.as_slice())
    }
}

/// Signs in a guest with a fresh account.
pub struct AuthAsGuestCommand<R> {
    repo: Arc<R>,
}

impl<R> AuthAsGuestCommand<R> {
    /// A command over the account store.
    pub fn new(repo: Arc<R>) -> (c: Self)
        ensures
            c.repo() == repo,
    {
        AuthAsGuestCommand { repo }
    }

    /// The account store.
    pub closed spec fn repo(&self) -> Arc<R> {
        self.repo
    }

    /// The account store.
    pub fn repository(&self) -> (r: &Arc<R>)
        ensures
            *r == self.repo(),
    {
        &self.repo
    }
}

/// The role of a guest.
pub fn guest_role() -> (r: Role)
    ensures
        r == Role::User,
{
    Role::User
}

} // verus!
