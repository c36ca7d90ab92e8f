//! The credential store: a list of users, the session (the user currently
//! logged in, if any), and the allocator for fresh user ids.

use vstd::prelude::*;

use crate::strutil::str_eq;

verus! {

broadcast use {vstd::std_specs::vec::group_vec_axioms, vstd::seq::group_seq_axioms};

/// What a user may do: administrators may manage accounts.
#[derive(Debug, Clone, Copy, PartialEq, Eq, Structural)]
pub enum Role {
    Admin,
    Standard,
}

/// An account: name, credential, role and numeric id.
#[derive(Debug, Clone)]
pub struct User {
    pub username: String,
    pub password_hash: String,
    pub role: Role,
    pub uid: u32,
}

/// The errors an account operation can report.
#[derive(Debug, Clone, Copy, PartialEq, Eq, Structural)]
pub enum AuthError {
    /// A user of that name already exists.
    UserExists,
    /// The primary administrator cannot be deleted.
    ProtectedUser,
    /// The user is logged in right now and cannot be deleted.
    ActiveUser,
    /// No user of that name exists.
    NotFound,
    /// Every numeric id has been handed out.
    UidExhausted,
}

/// Model of an account: plain values only.
pub struct UserModel {
    pub username: Seq<char>,
    pub password: Seq<char>,
    pub role: Role,
    pub uid: u32,
}

/// The model of one account.
pub open spec fn user_model(u: User) -> UserModel {
    UserModel { username: u.username@, password: u.password_hash@, role: u.role, uid: u.uid }
}

/// The models of a list of accounts, in order.
pub open spec fn users_model(s: Seq<User>) -> Seq<UserModel> {
    Seq::new(s.len(), |i: int| user_model(s[i]))
}

/// Index of the first account called `name`, or -1.
pub open spec fn user_index(us: Seq<UserModel>, name: Seq<char>) -> int
    decreases us.len(),
{
    if us.len() == 0 {
        -1
    } else if us[0].username == name {
        0
    } else {
        let r = user_index(us.drop_first(), name);
        if r < 0 {
            -1
        } else {
            r + 1
        }
    }
}

/// Index of the first account matching `name` and `pass`, or -1.
pub open spec fn login_index(us: Seq<UserModel>, name: Seq<char>, pass: Seq<char>) -> int
    decreases us.len(),
{
    if us.len() == 0 {
        -1
    } else if us[0].username == name && us[0].password == pass {
        0
    } else {
        let r = login_index(us.drop_first(), name, pass);
        if r < 0 {
            -1
        } else {
            r + 1
        }
    }
}

/// What `user_index` returns: the first index bearing `name`, or -1.
pub proof fn lemma_user_index(us: Seq<UserModel>, name: Seq<char>)
    ensures
        -1 <= user_index(us, name) < us.len(),
        user_index(us, name) >= 0 ==> us[user_index(us, name)].username == name,
        user_index(us, name) == -1 ==> forall|j: int| 0 <= j < us.len() ==> us[j].username != name,
        forall|j: int| 0 <= j < user_index(us, name) ==> us[j].username != name,
    decreases us.len(),
{
    if us.len() > 0 && us[0].username != name {
        lemma_user_index(us.drop_first(), name);
        assert forall|j: int|
            0 <= j < us.len() && user_index(us, name) == -1 implies us[j].username != name by {
            if j > 0 {
                assert(us.drop_first()[j - 1] == us[j]);
            }
        }
        assert forall|j: int| 0 <= j < user_index(us, name) implies us[j].username != name by {
            if j > 0 {
                assert(us.drop_first()[j - 1] == us[j]);
            }
        }
    }
}

/// If no account before `j` bears `name` and account `j` does, the lookup
/// finds `j`.
pub proof fn lemma_user_index_first(us: Seq<UserModel>, name: Seq<char>, j: int)
    requires
        0 <= j < us.len(),
        us[j].username == name,
        forall|k: int| 0 <= k < j ==> us[k].username != name,
    ensures
        user_index(us, name) == j,
    decreases us.len(),
{
    if j > 0 {
        assert forall|k: int| 0 <= k < j - 1 implies us.drop_first()[k].username != name by {
            assert(us.drop_first()[k] == us[k + 1]);
        }
        assert(us.drop_first()[j - 1] == us[j]);
        lemma_user_index_first(us.drop_first(), name, j - 1);
    }
}

/// The same, for the credential lookup.
pub proof fn lemma_login_index(us: Seq<UserModel>, name: Seq<char>, pass: Seq<char>)
    ensures
        -1 <= login_index(us, name, pass) < us.len(),
        login_index(us, name, pass) >= 0 ==> us[login_index(us, name, pass)].username == name
            && us[login_index(us, name, pass)].password == pass,
        login_index(us, name, pass) == -1 ==> forall|j: int|
            0 <= j < us.len() ==> !(us[j].username == name && us[j].password == pass),
        forall|j: int|
            0 <= j < login_index(us, name, pass) ==> !(us[j].username == name && us[j].password
                == pass),
    decreases us.len(),
{
    if us.len() > 0 && !(us[0].username == name && us[0].password == pass) {
        lemma_login_index(us.drop_first(), name, pass);
        assert forall|j: int|
            0 <= j < us.len() && login_index(us, name, pass) == -1 implies !(us[j].username == name
            && us[j].password == pass) by {
            if j > 0 {
                assert(us.drop_first()[j - 1] == us[j]);
            }
        }
        assert forall|j: int|
            0 <= j < login_index(us, name, pass) implies !(us[j].username == name && us[j].password
            == pass) by {
            if j > 0 {
                assert(us.drop_first()[j - 1] == us[j]);
            }
        }
    }
}

/// If no account before `j` matches both fields and account `j` does, the
/// lookup finds `j`.
pub proof fn lemma_login_index_first(us: Seq<UserModel>, name: Seq<char>, pass: Seq<char>, j: int)
    requires
        0 <= j < us.len(),
        us[j].username == name && us[j].password == pass,
        forall|k: int| 0 <= k < j ==> !(us[k].username == name && us[k].password == pass),
    ensures
        login_index(us, name, pass) == j,
    decreases us.len(),
{
    if j > 0 {
        assert forall|k: int|
            0 <= k < j - 1 implies !(us.drop_first()[k].username == name
            && us.drop_first()[k].password == pass) by {
            assert(us.drop_first()[k] == us[k + 1]);
        }
        assert(us.drop_first()[j - 1] == us[j]);
        lemma_login_index_first(us.drop_first(), name, pass, j - 1);
    }
}

/// The credential store.
pub struct AuthManager {
    pub users: Vec<User>,
    pub current_user: Option<User>,
    pub next_uid: u32,
}

impl AuthManager {
    /// The models of the accounts.
    pub open spec fn users_m(self) -> Seq<UserModel> {
        users_model(self.users@)
    }

    /// The model of the session.
    pub open spec fn current_m(self) -> Option<UserModel> {
        match self.current_user {
            Some(u) => Some(user_model(u)),
            None => None,
        }
    }

    /// The next numeric id to hand out.
    pub open spec fn next_uid_m(self) -> u32 {
        self.next_uid
    }

    /// Invariant: account names are unique, numeric ids are unique, and
    /// every id already handed out is below the next one.
    pub open spec fn wf(self) -> bool {
        &&& forall|i: int, j: int|
            0 <= i < j < self.users_m().len() ==> self.users_m()[i].username
                != self.users_m()[j].username
        &&& forall|i: int, j: int|
            0 <= i < j < self.users_m().len() ==> self.users_m()[i].uid != self.users_m()[j].uid
        &&& forall|i: int| 0 <= i < self.users_m().len() ==> self.users_m()[i].uid < self.next_uid
    }

    /// A store holding only the primary administrator, with nobody logged
    /// in; standard accounts get ids from 1000 up.
    pub fn new() -> (r: AuthManager)
        ensures
            r.wf(),
            r.users_m() =~= seq![
                (UserModel {
                    username: "andre"@,
                    password: "admin123"@,
                    role: Role::Admin,
                    uid: 0u32,
                }),
            ],
            r.current_m() is None,
            r.next_uid_m() == 1000u32,
    {
        let mut users: Vec<User> = Vec::new();
        users.push(
            User {
                username: String::from_str("andre"),
                password_hash: String::from_str("admin123"),
                role: Role::Admin,
                uid: 0,
            },
        );
        let r = AuthManager { users, current_user: None, next_uid: 1000 };
        proof {
            reveal_strlit("andre");
            reveal_strlit("admin123");
        }
        r
    }

    /// Adds a standard account with a fresh id, unless the name is taken or
    /// the id space is spent; on failure nothing changes.
    pub fn add_user(&mut self, username: &str, password: &str) -> (r: Result<u32, AuthError>)
        requires
            old(self).wf(),
        ensures
            final(self).wf(),
            final(self).current_m() == old(self).current_m(),
            user_index(old(self).users_m(), username@) >= 0 ==> r == Err::<u32, AuthError>(
                AuthError::UserExists,
            ) && final(self).users_m() == old(self).users_m() && final(self).next_uid_m() == old(self).next_uid_m(),
            user_index(old(self).users_m(), username@) == -1 && old(self).next_uid_m()
                == u32::MAX ==> r == Err::<u32, AuthError>(AuthError::UidExhausted) && final(self).users_m() == old(self).users_m() && final(self).next_uid_m() == old(self).next_uid_m(),
            user_index(old(self).users_m(), username@) == -1 && old(self).next_uid_m()
                < u32::MAX ==> r == Ok::<u32, AuthError>(old(self).next_uid_m()) && final(self).users_m() =~= old(self).users_m().push(
                (UserModel {
                    username: username@,
                    password: password@,
                    role: Role::Standard,
                    uid: old(self).next_uid_m(),
                }),
            ) && final(self).next_uid_m() == old(self).next_uid_m() + 1,
    {
        proof {
            lemma_user_index(self.users_m(), username@);
        }
        if self.find_user(username).is_some() {
            return Err(AuthError::UserExists);
        }
        if self.next_uid == u32::MAX {
            return Err(AuthError::UidExhausted);
        }
        let new_uid = self.next_uid;
        self.users.push(
            User {
                username: username.to_owned(),
                password_hash: password.to_owned(),
                role: Role::Standard,
                uid: new_uid,
            },
        );
        self.next_uid += 1;
        proof {
            assert(self.users_m() =~= old(self).users_m().push(
                (UserModel {
                    username: username@,
                    password: password@,
                    role: Role::Standard,
                    uid: new_uid,
                }),
            ));
        }
        Ok(new_uid)
    }

    /// Index of the first account called `name`, if any.
    fn find_user(&self, name: &str) -> (r: Option<usize>)
        ensures
            match r {
                Some(j) => user_index(self.users_m(), name@) == j,
                None => user_index(self.users_m(), name@) == -1,
            },
    {
        let ghost um = self.users_m();
        let n = self.users.len();
        let mut j: usize = 0;
        while j < n
            invariant
                n == self.users.len(),
                um == self.users_m(),
                um.len() == n,
                j <= n,
                forall|k: int| 0 <= k < j ==> um[k].username != name@,
            decreases n - j,
        {
            if str_eq(self.users[j].username.as_str(), name) {
                proof {
                    lemma_user_index_first(um, name@, j as int);
                }
                return Some(j);
            }
            j += 1;
        }
        proof {
            lemma_user_index(um, name@);
        }
        None
    }

    /// Checks the credentials against the accounts; on the first match the
    /// session becomes that user and the call reports success, otherwise
    /// the session is untouched.
    pub fn login(&mut self, username: &str, password: &str) -> (r: bool)
        ensures
            final(self).users_m() == old(self).users_m(),
            final(self).next_uid_m() == old(self).next_uid_m(),
            final(self).wf() == old(self).wf(),
            r == (login_index(old(self).users_m(), username@, password@) >= 0),
            r ==> final(self).current_m() == Some(
                old(self).users_m()[login_index(old(self).users_m(), username@, password@)],
            ),
            !r ==> final(self).current_m() == old(self).current_m(),
    {
        let ghost um = self.users_m();
        let n = self.users.len();
        let mut j: usize = 0;
        while j < n
            invariant
                n == self.users.len(),
                um == self.users_m(),
                um.len() == n,
                j <= n,
                self == old(self),
                forall|k: int|
                    0 <= k < j ==> !(um[k].username == username@ && um[k].password == password@),
            decreases n - j,
        {
            if str_eq(self.users[j].username.as_str(), username) && str_eq(
                self.users[j].password_hash.as_str(),
                password,
            ) {
                proof {
                    lemma_login_index_first(um, username@, password@, j as int);
                }
                let u = User {
                    username: self.users[j].username.clone(),
                    password_hash: self.users[j].password_hash.clone(),
                    role: self.users[j].role,
                    uid: self.users[j].uid,
                };
                self.current_user = Some(u);
                return true;
            }
            j += 1;
        }
        proof {
            lemma_login_index(um, username@, password@);
        }
        false
    }

    /// Ends the session.
    pub fn logout(&mut self)
        ensures
            final(self).users_m() == old(self).users_m(),
            final(self).next_uid_m() == old(self).next_uid_m(),
            final(self).wf() == old(self).wf(),
            final(self).current_m() is None,
    {
        self.current_user = None;
    }

    /// The name of the session's user, or `"Guest"` when nobody is logged
    /// in.
    pub fn get_current_username(&self) -> (r: String)
        ensures
            match self.current_m() {
                Some(u) => r@ == u.username,
                None => r@ == "Guest"@,
            },
    {
        match &self.current_user {
            Some(user) => user.username.clone(),
            None => String::from_str("Guest"),
        }
    }

    /// The id of the session's user, or 1000 when nobody is logged in.
    pub fn get_current_uid(&self) -> (r: u32)
        ensures
            match self.current_m() {
                Some(u) => r == u.uid,
                None => r == 1000u32,
            },
    {
        match &self.current_user {
            Some(user) => user.uid,
            None => 1000,
        }
    }

    /// Deletes the account called `username`, unless it is the primary
    /// administrator, the user logged in right now, or unknown; on failure
    /// nothing changes.
    pub fn delete_user(&mut self, username: &str) -> (r: Result<(), AuthError>)
        requires
            old(self).wf(),
        ensures
            final(self).wf(),
            final(self).current_m() == old(self).current_m(),
            final(self).next_uid_m() == old(self).next_uid_m(),
            username@ == "andre"@ ==> r == Err::<(), AuthError>(AuthError::ProtectedUser) && final(self).users_m() == old(self).users_m(),
            username@ != "andre"@ && (old(self).current_m() matches Some(u) && u.username
                == username@) ==> r == Err::<(), AuthError>(AuthError::ActiveUser) && final(self).users_m() == old(self).users_m(),
            username@ != "andre"@ && !(old(self).current_m() matches Some(u) && u.username
                == username@) ==> ({
                let i = user_index(old(self).users_m(), username@);
                if i >= 0 {
                    r is Ok && final(self).users_m() =~= old(self).users_m().remove(i)
                } else {
                    r == Err::<(), AuthError>(AuthError::NotFound) && final(self).users_m() == old(self).users_m()
                }
            }),
    {
        if str_eq(username, "andre") {
            return Err(AuthError::ProtectedUser);
        }
        let is_current = match &self.current_user {
            Some(current) => str_eq(current.username.as_str(), username),
            None => false,
        };
        if is_current {
            return Err(AuthError::ActiveUser);
        }
        proof {
            lemma_user_index(self.users_m(), username@);
        }
        match self.find_user(username) {
            Some(pos) => {
                self.users.remove(pos);
                proof {
                    let i = user_index(old(self).users_m(), username@);
                    assert(self.users_m() =~= old(self).users_m().remove(i));
                    assert forall|a: int, b: int|
                        0 <= a < b < self.users_m().len() implies self.users_m()[a].username
                        != self.users_m()[b].username && self.users_m()[a].uid
                        != self.users_m()[b].uid by {
                        let a0: int = if a < i {
                            a
                        } else {
                            a + 1
                        };
                        let b0: int = if b < i {
                            b
                        } else {
                            b + 1
                        };
                        assert(self.users_m()[a] == old(self).users_m()[a0]);
                        assert(self.users_m()[b] == old(self).users_m()[b0]);
                    }
                }
                Ok(())
            },
            None => Err(AuthError::NotFound),
        }
    }
}

} // verus!
