use vstd::prelude::*;
use crate::model::StorageError;

verus! {

/// A user row about to be inserted.
pub struct NewUser<'a> {
    pub username: &'a str,
    pub hash: &'a str,
}

/// A stored user.
#[derive(Debug, Clone, PartialEq, Eq)]
pub struct User {
    pub id: i32,
    pub username: String,
    pub hash: String,
}

/// Why a user could not be created.
#[derive(Debug, Clone, PartialEq, Eq)]
pub enum UserCreateError {
    AlreadyExists,
    SqlError(StorageError),
}

/// Why a login was refused.
#[derive(Debug, Clone, PartialEq, Eq)]
pub enum LoginFailure {
    BadLogin,
    SqlError(StorageError),
}

/// The claims of a session token.
#[derive(Debug, Clone, PartialEq, Eq)]
pub struct Claims {
    pub user: String,
    pub user_id: i32,
    pub iat: i64,
    pub exp: i64,
}

/// Credentials as submitted by a client.
#[derive(Debug, Clone, PartialEq, Eq)]
pub struct Login {
    pub username: String,
    pub password: String,
}

/// An alias as submitted by a client: `from` is the key, `to` the destination.
#[derive(Debug, Clone, PartialEq, Eq)]
pub struct AliasForm {
    pub from: String,
    pub to: String,
}

/// The fewest bytes a password may have.
pub const MIN_PASSWORD_BYTES: usize = 8;

/// The length in bytes of a text, as `str::len` reports it.
pub open spec fn byte_len(s: Seq<char>) -> usize {
    vstd::utf8::encode_utf8(s).len() as usize
}

/// Why a new password was refused.
#[derive(Debug, Clone, Copy, PartialEq, Eq)]
pub enum PasswordProblem {
    Mismatch,
    TooShort,
}

/// Accepts a new password typed twice: both entries must agree, and it must
/// have at least `MIN_PASSWORD_BYTES` bytes.
pub fn check_new_password(first: String, second: &String) -> (r: Result<String, PasswordProblem>)
    ensures
        first@ != second@ ==> r == Err::<String, PasswordProblem>(PasswordProblem::Mismatch),
        first@ == second@ && byte_len(first@) < MIN_PASSWORD_BYTES
            ==> r == Err::<String, PasswordProblem>(PasswordProblem::TooShort),
        first@ == second@ && byte_len(first@) >= MIN_PASSWORD_BYTES ==> r == Ok::<String, PasswordProblem>(first),
{
    if first != *second {
        return Err(PasswordProblem::Mismatch);
    }
    if first.as_str().len() < MIN_PASSWORD_BYTES {
        return Err(PasswordProblem::TooShort);
    }
    Ok(first)
}

/// How long a session token stays valid, in seconds: one week.
pub const SESSION_SECONDS: i64 = 604800;

/// The claims of a token issued to `user` at the Unix time `now`.
pub fn jwt_claims(user: User, now: i64) -> (c: Claims)
    requires
        now <= i64::MAX - SESSION_SECONDS,
    ensures
        c.user == user.username,
        c.user_id == user.id,
        c.iat == now,
        c.exp == now + SESSION_SECONDS,
{
    Claims { user: user.username, user_id: user.id, iat: now, exp: now + SESSION_SECONDS }
}

/// Decides a login from the looked-up user and the password check on its
/// stored hash: `None` when the hash could not be checked at all.
pub fn login_verdict(found: Result<User, LoginFailure>, password_ok: Option<bool>) -> (r: Result<User, LoginFailure>)
    ensures
        found is Ok && password_ok == Some(true) ==> r == found,
        found is Ok && password_ok != Some(true) ==> (r matches Err(LoginFailure::BadLogin)),
        found is Err ==> r == found,
{
    match found {
        Ok(u) => match password_ok {
            Some(true) => Ok(u),
            _ => Err(LoginFailure::BadLogin),
        },
        Err(e) => Err(e),
    }
}

} // verus!

verus! {

/// Some user in `s` has the name `name`.
pub open spec fn named(s: Seq<User>, name: Seq<char>) -> bool {
    exists|i: int| 0 <= i < s.len() && #[trigger] s[i].username@ == name
}

/// The registered users; names are unique.
pub struct UserTable {
    users: Vec<User>,
    next_id: i32,
}

impl UserTable {
    /// The users, oldest first.
    pub closed spec fn view(&self) -> Seq<User> {
        self.users@
    }

    pub closed spec fn wf(&self) -> bool {
        &&& forall|i: int, j: int|
            0 <= i < self.users@.len() && 0 <= j < self.users@.len() && i != j
                ==> self.users@[i].username@ != self.users@[j].username@
        &&& self.next_id >= 1
    }

    pub fn new() -> (t: Self)
        ensures
            t.wf(),
            t@ == Seq::<User>::empty(),
    {
        UserTable { users: Vec::new(), next_id: 1 }
    }

    /// Another user can still get a fresh id.
    pub closed spec fn ids_left(&self) -> bool {
        self.next_id < i32::MAX
    }

    fn position(&self, username: &String) -> (r: Option<usize>)
        ensures
            match r {
                Some(i) => i < self@.len() && self@[i as int].username@ == username@,
                None => !named(self@, username@),
            },
    {
        let mut i: usize = 0;
        while i < self.users.len()
            invariant
                i <= self.users@.len(),
                forall|j: int| 0 <= j < i ==> self.users@[j].username@ != username@,
            decreases self.users@.len() - i,
        {
            if self.users[i].username == *username {
                return Some(i);
            }
            i = i + 1;
        }
        None
    }

    /// Registers a user under a fresh id, unless the name is taken; once the
    /// ids run out, the insert touches no row.
    pub fn create_user(&mut self, username: String, hash: String) -> (r: Result<User, UserCreateError>)
        requires
            old(self).wf(),
        ensures
            final(self).wf(),
            named(old(self)@, username@) ==> (r matches Err(UserCreateError::AlreadyExists))
                && final(self)@ == old(self)@,
            r is Ok ==> !named(old(self)@, username@) && r->Ok_0.username@ == username@
                && r->Ok_0.hash@ == hash@ && final(self)@ == old(self)@.push(r->Ok_0),
            !named(old(self)@, username@) && old(self).ids_left() ==> r is Ok,
            !named(old(self)@, username@) && !old(self).ids_left()
                ==> (r matches Err(UserCreateError::SqlError(StorageError::RowCount(0)))),
            r is Err ==> final(self)@ == old(self)@,
    {
        if self.position(&username).is_some() {
            return Err(UserCreateError::AlreadyExists);
        }
        if self.next_id == i32::MAX {
            return Err(UserCreateError::SqlError(StorageError::RowCount(0)));
        }
        let id = self.next_id;
        let created = User { id, username: username.clone(), hash: hash.clone() };
        let ghost before = self.users@;
        self.users.push(User { id, username, hash });
        self.next_id = id + 1;
        assert forall|i: int, j: int|
            0 <= i < self.users@.len() && 0 <= j < self.users@.len() && i != j implies
            self.users@[i].username@ != self.users@[j].username@ by {
            if i < before.len() && j < before.len() {
            } else if i < before.len() {
                assert(before[i].username@ != created.username@);
            } else {
                assert(before[j].username@ != created.username@);
            }
        }
        assert(self.users@ =~= before.push(created));
        Ok(created)
    }

    /// The user called `username`; an unknown name is a bad login.
    pub fn find_user(&self, username: &String) -> (r: Result<User, LoginFailure>)
        ensures
            !named(self@, username@) <==> (r matches Err(LoginFailure::BadLogin)),
            r is Ok ==> exists|i: int| 0 <= i < self@.len() && self@[i].username@ == username@
                && #[trigger] self@[i].id == r->Ok_0.id && self@[i].hash@ == r->Ok_0.hash@
                && r->Ok_0.username@ == username@,
    {
        match self.position(username) {
            Some(i) => {
                let u = &self.users[i];
                Ok(User { id: u.id, username: u.username.clone(), hash: u.hash.clone() })
            },
            None => Err(LoginFailure::BadLogin),
        }
    }

    pub fn user_exists(&self, username: &String) -> (r: bool)
        ensures
            r == named(self@, username@),
    {
        self.position(username).is_some()
    }

    /// Removes the user called `username`; returns the rows touched.
    pub fn del_user(&mut self, username: &String) -> (n: usize)
        requires
            old(self).wf(),
        ensures
            final(self).wf(),
            n == (if named(old(self)@, username@) { 1usize } else { 0usize }),
            !named(final(self)@, username@),
            forall|name: Seq<char>| name != username@ ==> (named(final(self)@, name) == named(old(self)@, name)),
    {
        match self.position(username) {
            Some(i) => {
                let ghost before = self.users@;
                self.users.remove(i);
                assert forall|j: int| 0 <= j < self.users@.len() implies
                    #[trigger] self.users@[j] == (if j < i { before[j] } else { before[j + 1] }) by {}
                assert forall|a: int, b: int|
                    0 <= a < self.users@.len() && 0 <= b < self.users@.len() && a != b implies
                    self.users@[a].username@ != self.users@[b].username@ by {
                    assert(self.users@[a] == (if a < i { before[a] } else { before[a + 1] }));
                    assert(self.users@[b] == (if b < i { before[b] } else { before[b + 1] }));
                }
                assert forall|name: Seq<char>|
                    named(self.users@, name) == (named(before, name) && name != username@) by {
                    if named(before, name) && name != username@ {
                        let j = choose|j: int| 0 <= j < before.len() && #[trigger] before[j].username@ == name;
                        if j < i {
                            assert(self.users@[j].username@ == name);
                        } else {
                            assert(j != i);
                            assert(self.users@[j - 1].username@ == name);
                        }
                    }
                    if named(self.users@, name) {
                        let j = choose|j: int| 0 <= j < self.users@.len() && #[trigger] self.users@[j].username@ == name;
                        let o = if j < i { j } else { j + 1 };
                        assert(self.users@[j] == before[o]);
                        assert(o != i);
                    }
                }
                1
            },
            None => 0,
        }
    }
}

} // verus!
