//! The user list: who may log in, with which password, and the operations
//! that administrators and users perform on it.

use vstd::prelude::*;
use crate::basic::BasicAuthRaw;
use crate::jsuser::UserModify;
use crate::user::{AuthState, User};

verus! {

/// A login form: user name and password.
pub struct Login {
    pub username: String,
    pub password: String,
}

/// One user's record, as stored in the user file.
pub struct UserStruct {
    pub user: String,
    pub password: String,
    pub salt: String,
    pub comment: String,
}

/// The content of a user record.
pub struct UserRecord {
    pub user: Seq<char>,
    pub password: Seq<char>,
    pub salt: Seq<char>,
    pub comment: Seq<char>,
}

impl View for UserStruct {
    type V = UserRecord;

    open spec fn view(&self) -> UserRecord {
        UserRecord {
            user: self.user@,
            password: self.password@,
            salt: self.salt@,
            comment: self.comment@,
        }
    }
}

/// The map from user name to record that a list of records makes, each
/// record filed under its own user name, a later record replacing an
/// earlier one of the same name.
pub open spec fn users_map(s: Seq<UserStruct>) -> Map<Seq<char>, UserRecord>
    decreases s.len(),
{
    if s.len() == 0 {
        Map::empty()
    } else {
        users_map(s.drop_last()).insert(s.last().user@, s.last()@)
    }
}

/// No two records of the list have the same user name.
pub open spec fn distinct_users(s: Seq<UserStruct>) -> bool {
    forall|i: int, j: int|
        0 <= i < s.len() && 0 <= j < s.len() && i != j ==> #[trigger] s[i].user@ != #[trigger] s[j].user@
}

/// A name is filed in the map exactly where some record has it, and under a
/// name stands the record that has it.
proof fn lemma_users_map_lookup(s: Seq<UserStruct>)
    requires
        distinct_users(s),
    ensures
        forall|k: Seq<char>|
            #[trigger] users_map(s).contains_key(k) <==> exists|i: int|
                0 <= i < s.len() && s[i].user@ == k,
        forall|i: int| 0 <= i < s.len() ==> #[trigger] users_map(s)[s[i].user@] == s[i]@,
    decreases s.len(),
{
    if s.len() > 0 {
        let t = s.drop_last();
        assert(distinct_users(t));
        lemma_users_map_lookup(t);
        assert forall|k: Seq<char>| #[trigger]
            users_map(s).contains_key(k) implies exists|i: int|
                0 <= i < s.len() && s[i].user@ == k by {
            if k != s.last().user@ {
                assert(users_map(t).contains_key(k));
                let i = choose|i: int| 0 <= i < t.len() && t[i].user@ == k;
                assert(s[i] == t[i]);
            }
        }
        assert forall|k: Seq<char>|
            (exists|i: int| 0 <= i < s.len() && s[i].user@ == k) implies #[trigger] users_map(
            s,
        ).contains_key(k) by {
            let i = choose|i: int| 0 <= i < s.len() && s[i].user@ == k;
            if i < s.len() - 1 {
                assert(t[i] == s[i]);
                assert(users_map(t).contains_key(t[i].user@));
            }
        }
        assert forall|i: int| 0 <= i < s.len() implies #[trigger] users_map(s)[s[i].user@]
            == s[i]@ by {
            if i < s.len() - 1 {
                assert(t[i] == s[i]);
                assert(s[i].user@ != s[s.len() - 1].user@);
                assert(users_map(t)[t[i].user@] == t[i]@);
            }
        }
    }
}

/// Replacing a record by one of the same name replaces it in the map.
proof fn lemma_users_map_update(s: Seq<UserStruct>, i: int, x: UserStruct)
    requires
        distinct_users(s),
        0 <= i < s.len(),
        x.user@ == s[i].user@,
    ensures
        users_map(s.update(i, x)) == users_map(s).insert(x.user@, x@),
        distinct_users(s.update(i, x)),
    decreases s.len(),
{
    let u = s.update(i, x);
    assert(distinct_users(u)) by {
        assert forall|a: int, b: int|
            0 <= a < u.len() && 0 <= b < u.len() && a != b implies #[trigger] u[a].user@
            != #[trigger] u[b].user@ by {
            assert(s[a].user@ != s[b].user@);
        }
    }
    if i == s.len() - 1 {
        assert(u.drop_last() =~= s.drop_last());
        assert(users_map(u) =~= users_map(s).insert(x.user@, x@));
    } else {
        let t = s.drop_last();
        assert(distinct_users(t));
        lemma_users_map_update(t, i, x);
        assert(u.drop_last() =~= t.update(i, x));
        assert(s.last().user@ != x.user@);
        assert(users_map(u) =~= users_map(s).insert(x.user@, x@));
    }
}

/// Removing a record removes its name from the map.
proof fn lemma_users_map_remove(s: Seq<UserStruct>, i: int)
    requires
        distinct_users(s),
        0 <= i < s.len(),
    ensures
        users_map(s.remove(i)) == users_map(s).remove(s[i].user@),
        distinct_users(s.remove(i)),
    decreases s.len(),
{
    let r = s.remove(i);
    let k = s[i].user@;
    assert(distinct_users(r)) by {
        assert forall|a: int, b: int|
            0 <= a < r.len() && 0 <= b < r.len() && a != b implies #[trigger] r[a].user@
            != #[trigger] r[b].user@ by {
            let a2 = if a < i {
                a
            } else {
                a + 1
            };
            let b2 = if b < i {
                b
            } else {
                b + 1
            };
            assert(r[a] == s[a2]);
            assert(r[b] == s[b2]);
        }
    }
    let t = s.drop_last();
    assert(distinct_users(t));
    if i == s.len() - 1 {
        assert(r =~= t);
        lemma_users_map_lookup(t);
        assert forall|j: int| 0 <= j < t.len() implies t[j].user@ != k by {
            assert(s[j] == t[j]);
        }
        assert(!users_map(t).contains_key(k));
        assert(users_map(r) =~= users_map(s).remove(k));
    } else {
        lemma_users_map_remove(t, i);
        assert(r.drop_last() =~= t.remove(i));
        assert(r.last() == s.last());
        assert(s.last().user@ != k);
        assert(users_map(r) =~= users_map(s).remove(k));
    }
}

/// Appending a record with a new name keeps the names distinct.
proof fn lemma_users_push_distinct(s: Seq<UserStruct>, x: UserStruct)
    requires
        distinct_users(s),
        forall|i: int| 0 <= i < s.len() ==> s[i].user@ != x.user@,
    ensures
        distinct_users(s.push(x)),
        users_map(s.push(x)) == users_map(s).insert(x.user@, x@),
{
    let p = s.push(x);
    assert(p.drop_last() =~= s);
    assert forall|a: int, b: int|
        0 <= a < p.len() && 0 <= b < p.len() && a != b implies #[trigger] p[a].user@
        != #[trigger] p[b].user@ by {
        if a < s.len() && b < s.len() {
            assert(p[a] == s[a] && p[b] == s[b]);
        } else if a < s.len() {
            assert(p[a] == s[a]);
        } else {
            assert(p[b] == s[b]);
        }
    }
}

/// The users of the wiki, filed by user name.
pub struct AuthStruct {
    users: Vec<UserStruct>,
}

impl View for AuthStruct {
    type V = Map<Seq<char>, UserRecord>;

    closed spec fn view(&self) -> Map<Seq<char>, UserRecord> {
        users_map(self.users@)
    }
}

/// Whether the record's password is the given one.
fn password_is(entry: &UserStruct, password: &String) -> (r: bool)
    ensures
        r == (entry.password@ == password@),
{
    entry.password == *password
}

impl AuthStruct {
    #[verifier::type_invariant]
    closed spec fn wf(self) -> bool {
        distinct_users(self.users@)
    }

    /// No users at all.
    pub fn new() -> (r: AuthStruct)
        ensures
            r@ == Map::<Seq<char>, UserRecord>::empty(),
    {
        AuthStruct { users: Vec::new() }
    }

    /// The records, each user once. Their order is unspecified.
    pub fn users(&self) -> (r: &Vec<UserStruct>)
        ensures
            distinct_users(r@),
            users_map(r@) == self@,
    {
        proof {
            use_type_invariant(self);
        }
        &self.users
    }

    /// The position of the record filed under `name`.
    fn position(&self, name: &String) -> (r: Option<usize>)
        ensures
            match r {
                Some(i) => i < self.users@.len() && self.users@[i as int].user@ == name@,
                None => forall|i: int|
                    0 <= i < self.users@.len() ==> self.users@[i].user@ != name@,
            },
    {
        let mut i: usize = 0;
        while i < self.users.len()
            invariant
                i <= self.users@.len(),
                forall|j: int| 0 <= j < i ==> self.users@[j].user@ != name@,
            decreases self.users.len() - i,
        {
            if self.users[i].user == *name {
                return Some(i);
            }
            i = i + 1;
        }
        None
    }

    /// The record filed under `name`, if any.
    pub fn get(&self, name: &str) -> (r: Option<&UserStruct>)
        ensures
            match r {
                Some(u) => self@.contains_key(name@) && u@ == self@[name@],
                None => !self@.contains_key(name@),
            },
    {
        proof {
            use_type_invariant(self);
            lemma_users_map_lookup(self.users@);
        }
        let key = name.to_owned();
        match self.position(&key) {
            Some(i) => Some(&self.users[i]),
            None => None,
        }
    }

    /// Files `u` under its user name, replacing any record of that name.
    pub fn insert(&mut self, u: UserStruct)
        ensures
            final(self)@ == old(self)@.insert(u.user@, u@),
    {
        proof {
            use_type_invariant(&*self);
        }
        let pos = self.position(&u.user);
        let mut v: Vec<UserStruct> = Vec::new();
        std::mem::swap(&mut v, &mut self.users);
        let ghost s = v@;
        match pos {
            Some(i) => {
                proof {
                    lemma_users_map_update(s, i as int, u);
                }
                v.set(i, u);
            },
            None => {
                proof {
                    lemma_users_push_distinct(s, u);
                }
                v.push(u);
            },
        }
        self.users = v;
    }

    /// Removes the record filed under `name`; tells whether there was one.
    pub fn remove(&mut self, name: &str) -> (r: bool)
        ensures
            r == old(self)@.contains_key(name@),
            final(self)@ == old(self)@.remove(name@),
    {
        proof {
            use_type_invariant(&*self);
            lemma_users_map_lookup(self.users@);
        }
        let key = name.to_owned();
        let pos = self.position(&key);
        match pos {
            Some(i) => {
                let mut v: Vec<UserStruct> = Vec::new();
                std::mem::swap(&mut v, &mut self.users);
                proof {
                    lemma_users_map_remove(v@, i as int);
                }
                v.remove(i);
                self.users = v;
                true
            },
            None => {
                assert(self@.remove(name@) =~= self@);
                false
            },
        }
    }

    /// The users of a list read from the user file, each filed under its
    /// user name; a later record replaces an earlier one of the same name.
    pub fn from_user_list(list: Vec<UserStruct>) -> (r: AuthStruct)
        ensures
            r@ == users_map(list@),
    {
        let ghost all = list@;
        let mut rest = list;
        let mut r = AuthStruct::new();
        while rest.len() > 0
            invariant
                rest.len() <= all.len(),
                rest@ =~= all.skip(all.len() - rest.len()),
                r@ == users_map(all.take(all.len() - rest.len())),
            decreases rest.len(),
        {
            let ghost k = all.len() - rest.len();
            let u = rest.remove(0);
            assert(all.take(k + 1).drop_last() =~= all.take(k));
            assert(all[k] == u);
            r.insert(u);
            assert(rest@ =~= all.skip(all.len() - rest.len()));
        }
        assert(all.take(all.len() as int) =~= all);
        r
    }
}

/// Removes the user named `user_name`; tells whether there was one.
pub fn delete_user(umap: &mut AuthStruct, user_name: &str) -> (r: bool)
    ensures
        r == old(umap)@.contains_key(user_name@),
        final(umap)@ == old(umap)@.remove(user_name@),
{
    umap.remove(user_name)
}

/// The record that `modify_user` files: the given name, new password and
/// comment, and the salt of the record it replaces (empty for a new user).
pub open spec fn modified_record(
    old_users: Map<Seq<char>, UserRecord>,
    info: UserModify,
) -> UserRecord {
    UserRecord {
        user: info.user@,
        password: info.new_password@,
        salt: if old_users.contains_key(info.user@) {
            old_users[info.user@].salt
        } else {
            Seq::<char>::empty()
        },
        comment: info.comment@,
    }
}

/// Creates or updates the user named in `user_info` with its new password
/// and comment, keeping the salt of an existing record. Always succeeds.
pub fn modify_user(umap: &mut AuthStruct, user_info: &UserModify) -> (r: bool)
    ensures
        r,
        final(umap)@ == old(umap)@.insert(user_info.user@, modified_record(old(umap)@, *user_info)),
{
    let salt = match umap.get(user_info.user.as_str()) {
        Some(entry) => entry.salt.clone(),
        None => String::new(),
    };
    let entry = UserStruct {
        user: user_info.user.clone(),
        password: user_info.new_password.clone(),
        salt,
        comment: user_info.comment.clone(),
    };
    umap.insert(entry);
    true
}

/// A login with this name and password is accepted: the user exists and
/// the password is theirs.
pub open spec fn login_accepts(
    users: Map<Seq<char>, UserRecord>,
    name: Seq<char>,
    password: Seq<char>,
) -> bool {
    users.contains_key(name) && users[name].password == password
}

/// After a user's record is modified, that user logs in with the new
/// password, and every other user logs in as before.
pub proof fn law_login_after_modify(
    users: Map<Seq<char>, UserRecord>,
    info: UserModify,
    name: Seq<char>,
    password: Seq<char>,
)
    ensures
        login_accepts(
            users.insert(info.user@, modified_record(users, info)),
            info.user@,
            info.new_password@,
        ),
        name != info.user@ ==> login_accepts(
            users.insert(info.user@, modified_record(users, info)),
            name,
            password,
        ) == login_accepts(users, name, password),
{
}

/// A modified record is filed under the name it records, with the new
/// password and comment; an existing user keeps their salt, a new user has
/// none.
pub proof fn law_modified_record(users: Map<Seq<char>, UserRecord>, info: UserModify)
    ensures
        modified_record(users, info).user == info.user@,
        modified_record(users, info).password == info.new_password@,
        modified_record(users, info).comment == info.comment@,
        users.contains_key(info.user@) ==> modified_record(users, info).salt
            == users[info.user@].salt,
        !users.contains_key(info.user@) ==> modified_record(users, info).salt.len() == 0,
{
}

/// After a user is deleted, no login with that name is accepted, and every
/// other user logs in as before.
pub proof fn law_login_after_delete(
    users: Map<Seq<char>, UserRecord>,
    deleted: Seq<char>,
    name: Seq<char>,
    password: Seq<char>,
)
    ensures
        !login_accepts(users.remove(deleted), deleted, password),
        name != deleted ==> login_accepts(users.remove(deleted), name, password) == login_accepts(
            users,
            name,
            password,
        ),
{
}

/// Every record of a user list with distinct names can be found under its
/// name once the list is loaded.
pub proof fn law_loaded_users_are_found(list: Seq<UserStruct>, i: int)
    requires
        distinct_users(list),
        0 <= i < list.len(),
    ensures
        users_map(list).contains_key(list[i].user@),
        users_map(list)[list[i].user@] == list[i]@,
{
    lemma_users_map_lookup(list);
}

/// Whether `name` is one of `names`.
pub fn contains_name(names: &Vec<String>, name: &String) -> (r: bool)
    ensures
        r == exists|i: int| 0 <= i < names@.len() && names@[i]@ == name@,
{
    let mut i: usize = 0;
    while i < names.len()
        invariant
            i <= names@.len(),
            forall|j: int| 0 <= j < i ==> names@[j]@ != name@,
        decreases names.len() - i,
    {
        if names[i] == *name {
            return true;
        }
        i = i + 1;
    }
    false
}

/// Checks a login against the user list: the user must exist and the
/// password match. The user logs in as an administrator where the name is
/// one of `admin_users`, as a plain user otherwise.
pub fn login_handle(umap: &AuthStruct, admin_users: &Vec<String>, login: &Login) -> (r: Option<
    User,
>)
    ensures
        r is Some <==> login_accepts(umap@, login.username@, login.password@),
        r matches Some(u) ==> u.name@ == login.username@ && u.auth == (if exists|i: int|
            0 <= i < admin_users@.len() && admin_users@[i]@ == login.username@ {
            AuthState::AuthAdmin
        } else {
            AuthState::AuthUser
        }),
{
    let entry = match umap.get(login.username.as_str()) {
        Some(e) => e,
        None => return None,
    };
    if !password_is(entry, &login.password) {
        return None;
    }
    let admin = contains_name(admin_users, &login.username);
    Some(User::new_user(login.username.as_str(), admin))
}

impl User {
    /// The user that Basic credentials authenticate: one whose record has
    /// the given password. Such a user is a plain user, whatever their
    /// rights elsewhere.
    pub fn from_basic(auth: &AuthStruct, basic: &BasicAuthRaw) -> (r: Option<User>)
        ensures
            r is Some <==> login_accepts(auth@, basic.username@, basic.password@),
            r matches Some(u) ==> u.auth == AuthState::AuthUser && u.name@
                == auth@[basic.username@].user,
    {
        match auth.get(basic.username.as_str()) {
            Some(uc) => {
                if password_is(uc, &basic.password) {
                    Some(User { auth: AuthState::AuthUser, name: uc.user.clone() })
                } else {
                    None
                }
            },
            None => None,
        }
    }
}

} // verus!
