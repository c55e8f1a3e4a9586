//! Users, their authorization levels, and the request-guard decisions
//! built on them.

use vstd::prelude::*;
use crate::outcome::{GuardOutcome, UNAUTHORIZED};
use crate::text::{
    first_match_from, lemma_char_match, lemma_first_match_bounds, lemma_split_at_only_char,
    matches_at, matches_at_exec, split_from, split_seq, split_str, str_eq, to_chars, views,
};

verus! {

/// What kind of authorization a user has.
#[derive(Debug, PartialEq, Eq, Structural, Clone, Copy)]
pub enum AuthState {
    AuthNotAuth,
    AuthUser,
    AuthAdmin,
}

/// The text that names an authorization level.
pub open spec fn auth_state_text(a: AuthState) -> Seq<char> {
    match a {
        AuthState::AuthNotAuth => "AuthNotAuth"@,
        AuthState::AuthUser => "AuthUser"@,
        AuthState::AuthAdmin => "AuthAdmin"@,
    }
}

/// The authorization level that a text names; any text that names none is
/// read as not authorized.
pub open spec fn parse_auth_state(s: Seq<char>) -> AuthState {
    if s == "AuthUser"@ {
        AuthState::AuthUser
    } else if s == "AuthAdmin"@ {
        AuthState::AuthAdmin
    } else {
        AuthState::AuthNotAuth
    }
}

impl AuthState {
    /// Reads an authorization level from its name. This never fails: text
    /// that names no level gives `AuthNotAuth`.
    pub fn from_str(input: &str) -> (r: Result<AuthState, ()>)
        ensures
            r == Ok::<AuthState, ()>(parse_auth_state(input@)),
    {
        if str_eq(input, "AuthUser") {
            Ok(AuthState::AuthUser)
        } else if str_eq(input, "AuthAdmin") {
            Ok(AuthState::AuthAdmin)
        } else {
            Ok(AuthState::AuthNotAuth)
        }
    }

    /// The name of the authorization level.
    pub fn to_string(&self) -> (r: String)
        ensures
            r@ == auth_state_text(*self),
    {
        match self {
            AuthState::AuthNotAuth => "AuthNotAuth".to_owned(),
            AuthState::AuthUser => "AuthUser".to_owned(),
            AuthState::AuthAdmin => "AuthAdmin".to_owned(),
        }
    }
}

/// The names of the authorization levels hold no `:`.
proof fn lemma_auth_state_text_has_no_colon(a: AuthState)
    ensures
        forall|i: int| 0 <= i < auth_state_text(a).len() ==> auth_state_text(a)[i] != ':',
{
    reveal_strlit("AuthNotAuth");
    reveal_strlit("AuthUser");
    reveal_strlit("AuthAdmin");
}

/// Printing an authorization level and reading it back gives the same level.
pub proof fn law_auth_state_round_trip(a: AuthState)
    ensures
        parse_auth_state(auth_state_text(a)) == a,
{
    reveal_strlit("AuthNotAuth");
    reveal_strlit("AuthUser");
    reveal_strlit("AuthAdmin");
    assert("AuthNotAuth"@.len() != "AuthUser"@.len());
    assert("AuthNotAuth"@.len() != "AuthAdmin"@.len());
    assert("AuthUser"@[4] != "AuthAdmin"@[4]);
}

/// A user as the wiki knows it once the request is authenticated.
#[derive(Debug)]
pub struct User {
    pub auth: AuthState,
    pub name: String,
}

/// The text that represents a user: `name:level`.
pub open spec fn user_text(name: Seq<char>, auth: AuthState) -> Seq<char> {
    name + seq![':'] + auth_state_text(auth)
}

/// The name and level that a text of the form `name:level[:...]` holds;
/// `None` where it holds no `:`.
pub open spec fn parse_user(s: Seq<char>) -> Option<(Seq<char>, AuthState)> {
    let parts = split_seq(s, seq![':']);
    if parts.len() >= 2 {
        Some((parts[0], parse_auth_state(parts[1])))
    } else {
        None
    }
}

impl User {
    /// A user that has not logged in.
    pub fn new_unauth() -> (u: User)
        ensures
            u.auth == AuthState::AuthNotAuth,
            u.name@ == Seq::<char>::empty(),
    {
        User { auth: AuthState::AuthNotAuth, name: String::new() }
    }

    /// A logged-in user, an administrator where `admin` holds.
    pub fn new_user(uname: &str, admin: bool) -> (u: User)
        ensures
            u.auth == (if admin {
                AuthState::AuthAdmin
            } else {
                AuthState::AuthUser
            }),
            u.name@ == uname@,
    {
        User {
            auth: if admin {
                AuthState::AuthAdmin
            } else {
                AuthState::AuthUser
            },
            name: uname.to_owned(),
        }
    }

    /// The text that represents the user: `name:level`.
    pub fn to_string(&self) -> (r: String)
        ensures
            r@ == user_text(self.name@, self.auth),
    {
        let mut r = self.name.clone();
        r.append(":");
        let level = self.auth.to_string();
        r.append(level.as_str());
        proof {
            reveal_strlit(":");
            assert(r@ =~= user_text(self.name@, self.auth));
        }
        r
    }

    /// Reads a user from `name:level`; the text after a second `:` is
    /// ignored. Fails only where the text holds no `:`.
    pub fn from_str(input: &str) -> (r: Result<User, ()>)
        ensures
            match r {
                Ok(u) => parse_user(input@) == Some((u.name@, u.auth)),
                Err(()) => parse_user(input@) is None,
            },
    {
        proof {
            reveal_strlit(":");
            assert(":"@ =~= seq![':']);
        }
        let parts = split_str(input, ":");
        if parts.len() < 2 {
            return Err(());
        }
        assert(views(parts@)[0] == parts@[0]@);
        assert(views(parts@)[1] == parts@[1]@);
        let auth = AuthState::from_str(parts[1].as_str());
        match auth {
            Ok(a) => Ok(User { auth: a, name: parts[0].clone() }),
            Err(()) => Err(()),
        }
    }
}

/// Splitting from `start` gives at least one piece.
proof fn lemma_split_nonempty(s: Seq<char>, p: Seq<char>, start: int)
    requires
        p.len() > 0,
        0 <= start <= s.len(),
    ensures
        split_from(s, p, start).len() >= 1,
{
    lemma_first_match_bounds(s, p, start);
}

/// Reading a user fails exactly where the text holds no `:`.
pub proof fn law_parse_user_fails_without_colon(s: Seq<char>)
    ensures
        parse_user(s) is None <==> !s.contains(':'),
{
    let p = seq![':'];
    lemma_first_match_bounds(s, p, 0);
    if s.contains(':') {
        let i = choose|i: int| 0 <= i < s.len() && s[i] == ':';
        lemma_char_match(s, ':', i);
        let m = first_match_from(s, p, 0)->0;
        lemma_split_nonempty(s, p, m + 1);
    } else {
        assert forall|j: int| 0 <= j implies !matches_at(s, p, j) by {
            lemma_char_match(s, ':', j);
        }
    }
}

/// Printing a user and reading it back gives the same user, for every user
/// whose name holds no `:`.
pub proof fn law_user_round_trip(name: Seq<char>, auth: AuthState)
    requires
        !name.contains(':'),
    ensures
        parse_user(user_text(name, auth)) == Some((name, auth)),
{
    lemma_auth_state_text_has_no_colon(auth);
    law_auth_state_round_trip(auth);
    let t = auth_state_text(auth);
    assert(!t.contains(':'));
    lemma_split_at_only_char(name, ':', t);
    assert(user_text(name, auth) =~= name + seq![':'] + t);
}

/// User has to be logged in as an administrator.
pub struct PageAdmin(pub User);

/// Only a logged-in administrator gets through; every other request goes
/// on to the next route.
pub open spec fn page_admin_outcome(logged_in: Option<User>, r: GuardOutcome<PageAdmin>) -> bool {
    match logged_in {
        Some(u) => if u.auth == AuthState::AuthAdmin {
            r == GuardOutcome::Success(PageAdmin(u))
        } else {
            r == GuardOutcome::<PageAdmin>::Forward
        },
        None => r == GuardOutcome::<PageAdmin>::Forward,
    }
}

impl PageAdmin {
    /// Lets the request through only for a logged-in administrator; any
    /// other request goes on to the next route.
    pub fn from_user(logged_in: Option<User>) -> (r: GuardOutcome<PageAdmin>)
        ensures
            page_admin_outcome(logged_in, r),
    {
        match logged_in {
            Some(user) => {
                if user.auth == AuthState::AuthAdmin {
                    GuardOutcome::Success(PageAdmin(user))
                } else {
                    GuardOutcome::Forward
                }
            },
            None => GuardOutcome::Forward,
        }
    }
}

/// Permission for a user to read the current page: they are logged in, or
/// the site allows reading without logging in.
#[derive(Debug)]
pub struct PageUser(pub User);

/// Whether a request may read a page, and as whom: on an admin page only an
/// administrator may; elsewhere any logged-in user may, and a visitor may
/// where the site's read setting is on (it lets visitors read pages). A
/// missing configuration lets no visitor read.
pub open spec fn page_user_outcome(
    logged_in: Option<User>,
    is_admin_page: bool,
    visitors_may_read: Option<bool>,
    r: GuardOutcome<PageUser>,
) -> bool {
    if is_admin_page {
        match logged_in {
            Some(u) => if u.auth == AuthState::AuthAdmin {
                r == GuardOutcome::Success(PageUser(u))
            } else {
                r == GuardOutcome::<PageUser>::Forward
            },
            None => r == GuardOutcome::<PageUser>::Forward,
        }
    } else {
        match logged_in {
            Some(u) => r == GuardOutcome::Success(PageUser(u)),
            None => if visitors_may_read == Some(true) {
                r matches GuardOutcome::Success(p) && p.0.auth == AuthState::AuthNotAuth
                    && p.0.name@ == Seq::<char>::empty()
            } else {
                r == GuardOutcome::<PageUser>::Forward
            },
        }
    }
}

impl PageUser {
    /// Decides whether the request may read the page. `logged_in` is the
    /// authenticated user, if any; `visitors_may_read` is the site's
    /// `authenticationequired_for_read` setting, which lets visitors read
    /// pages where it is true, and `None` where the configuration is not
    /// available.
    pub fn decide(
        logged_in: Option<User>,
        is_admin_page: bool,
        visitors_may_read: Option<bool>,
    ) -> (r: GuardOutcome<PageUser>)
        ensures
            page_user_outcome(logged_in, is_admin_page, visitors_may_read, r),
    {
        if is_admin_page {
            return match logged_in {
                Some(u) => {
                    if u.auth == AuthState::AuthAdmin {
                        GuardOutcome::Success(PageUser(u))
                    } else {
                        GuardOutcome::Forward
                    }
                },
                None => GuardOutcome::Forward,
            };
        }
        let need_auth = match visitors_may_read {
            Some(b) => !b,
            None => true,
        };
        match logged_in {
            Some(u) => GuardOutcome::Success(PageUser(u)),
            None => {
                if need_auth {
                    GuardOutcome::Forward
                } else {
                    GuardOutcome::Success(PageUser(User::new_unauth()))
                }
            },
        }
    }
}

/// Permission for a user to change pages: they are logged in, and an
/// administrator where the page is an admin page.
#[derive(Debug)]
pub struct PageWriter(pub User);

/// A logged-in user may change a page, on an admin page only an
/// administrator; every other request is refused as unauthorized.
pub open spec fn page_writer_outcome(
    logged_in: Option<User>,
    is_admin_page: bool,
    r: GuardOutcome<PageWriter>,
) -> bool {
    match logged_in {
        Some(u) => if !is_admin_page || u.auth == AuthState::AuthAdmin {
            r == GuardOutcome::Success(PageWriter(u))
        } else {
            r == GuardOutcome::<PageWriter>::Failure(UNAUTHORIZED)
        },
        None => r == GuardOutcome::<PageWriter>::Failure(UNAUTHORIZED),
    }
}

impl PageWriter {
    /// Lets a logged-in user through, on an admin page only an
    /// administrator; refuses every other request as unauthorized.
    pub fn decide(logged_in: Option<User>, is_admin_page: bool) -> (r: GuardOutcome<PageWriter>)
        ensures
            page_writer_outcome(logged_in, is_admin_page, r),
    {
        match logged_in {
            Some(u) => {
                if !is_admin_page || u.auth == AuthState::AuthAdmin {
                    GuardOutcome::Success(PageWriter(u))
                } else {
                    GuardOutcome::Failure(UNAUTHORIZED)
                }
            },
            None => GuardOutcome::Failure(UNAUTHORIZED),
        }
    }
}

/// Only administrators get through the admin guard, and as themselves.
pub proof fn law_admin_guard_admits_exactly_admins(logged_in: Option<User>, r: GuardOutcome<PageAdmin>)
    requires
        page_admin_outcome(logged_in, r),
    ensures
        r is Success <==> (logged_in is Some && logged_in->0.auth == AuthState::AuthAdmin),
        r matches GuardOutcome::Success(p) ==> logged_in == Some(p.0),
        !(r is Failure),
{
}

/// On a page that is not an admin page, a logged-in user reads as
/// themselves, whatever the site's read setting: the setting only concerns
/// requests with no logged-in user.
pub proof fn law_logged_in_user_reads_ordinary_pages(
    u: User,
    visitors_may_read: Option<bool>,
    r: GuardOutcome<PageUser>,
)
    requires
        page_user_outcome(Some(u), false, visitors_may_read, r),
    ensures
        r == GuardOutcome::Success(PageUser(u)),
{
}

/// A visitor reads, as a user that is not logged in, exactly on pages that
/// are not admin pages and where the site's read setting is on; otherwise
/// the request goes on to the next route. A missing setting admits no one.
pub proof fn law_visitor_reads_only_where_allowed(
    is_admin_page: bool,
    visitors_may_read: Option<bool>,
    r: GuardOutcome<PageUser>,
)
    requires
        page_user_outcome(None, is_admin_page, visitors_may_read, r),
    ensures
        r is Success <==> (!is_admin_page && visitors_may_read == Some(true)),
        r matches GuardOutcome::Success(p) ==> p.0.auth == AuthState::AuthNotAuth
            && p.0.name@.len() == 0,
        !(r is Success) ==> r is Forward,
{
}

/// On an admin page exactly administrators read, as themselves, whatever
/// the read setting.
pub proof fn law_admin_pages_are_read_by_admins(
    logged_in: Option<User>,
    visitors_may_read: Option<bool>,
    r: GuardOutcome<PageUser>,
)
    requires
        page_user_outcome(logged_in, true, visitors_may_read, r),
    ensures
        r is Success <==> (logged_in is Some && logged_in->0.auth == AuthState::AuthAdmin),
        r matches GuardOutcome::Success(p) ==> logged_in == Some(p.0),
        !(r is Success) ==> r is Forward,
{
}

/// A logged-in user may change a page that is not an admin page, as
/// themselves; a visitor may change no page; only administrators change
/// admin pages; every refusal is 401.
pub proof fn law_writer_guard(
    logged_in: Option<User>,
    is_admin_page: bool,
    r: GuardOutcome<PageWriter>,
)
    requires
        page_writer_outcome(logged_in, is_admin_page, r),
    ensures
        r is Success <==> (logged_in is Some && (!is_admin_page || logged_in->0.auth
            == AuthState::AuthAdmin)),
        r matches GuardOutcome::Success(p) ==> logged_in == Some(p.0),
        !(r is Success) ==> r == GuardOutcome::<PageWriter>::Failure(401),
{
}

/// Whether the current page is an admin page.
pub struct IsAdminPage(pub bool);

/// Some entry of `admin_pages` is a prefix of `path`.
pub open spec fn is_admin_path(path: Seq<char>, admin_pages: Seq<String>) -> bool {
    exists|i: int| 0 <= i < admin_pages.len() && admin_pages[i]@.is_prefix_of(path)
}

/// A path that starts with a configured admin page, the page itself
/// included, is an admin page; with no admin pages configured no path is.
pub proof fn law_admin_paths(path: Seq<char>, admin_pages: Seq<String>, i: int)
    ensures
        0 <= i < admin_pages.len() && path.len() >= admin_pages[i]@.len() && path.subrange(
            0,
            admin_pages[i]@.len() as int,
        ) == admin_pages[i]@ ==> is_admin_path(path, admin_pages),
        admin_pages.len() == 0 ==> !is_admin_path(path, admin_pages),
        is_admin_path(path, admin_pages) ==> exists|j: int|
            0 <= j < admin_pages.len() && #[trigger] admin_pages[j]@.len() <= path.len(),
{
    if 0 <= i < admin_pages.len() && path.len() >= admin_pages[i]@.len() && path.subrange(
        0,
        admin_pages[i]@.len() as int,
    ) == admin_pages[i]@ {
        assert(admin_pages[i]@.is_prefix_of(path));
    }
}

impl IsAdminPage {
    /// A page is an admin page where its path starts with one of the
    /// configured admin pages.
    pub fn for_path(path: &str, admin_pages: &Vec<String>) -> (r: IsAdminPage)
        ensures
            r.0 == is_admin_path(path@, admin_pages@),
    {
        let pc = to_chars(path);
        let mut i: usize = 0;
        while i < admin_pages.len()
            invariant
                i <= admin_pages.len(),
                pc@ == path@,
                forall|j: int| 0 <= j < i ==> !admin_pages@[j]@.is_prefix_of(path@),
            decreases admin_pages.len() - i,
        {
            let ec = to_chars(admin_pages[i].as_str());
            let m = matches_at_exec(&pc, &ec, 0);
            if m {
                assert(admin_pages@[i as int]@.is_prefix_of(path@));
                return IsAdminPage(true);
            }
            assert(!admin_pages@[i as int]@.is_prefix_of(path@)) by {
                if admin_pages@[i as int]@.is_prefix_of(path@) {
                    assert(pc@.subrange(0, ec@.len() as int) =~= ec@);
                }
            }
            i = i + 1;
        }
        IsAdminPage(false)
    }
}

} // verus!
