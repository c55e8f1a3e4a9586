use rustywiki::authstruct::{delete_user, login_handle, modify_user, AuthStruct, Login, UserStruct};
use rustywiki::basic::BasicAuthRaw;
use rustywiki::jsadmin::{rocket_route_user_delete, DelayMap, UserDelete};
use rustywiki::jsuser::{
    rocket_route_user_lock, rocket_route_user_unlock, rocket_route_wiki_save, PageStatus,
    UserModify, Wikilock,
};
use rustywiki::outcome::GuardOutcome;
use rustywiki::pagemap::PageMap;
use rustywiki::user::{AuthState, IsAdminPage, PageAdmin, PageUser, PageWriter, User};
use rustywiki::logs::LogUser;
use rustywiki::wikifile::PageRevisionStruct;
use rustywiki::config::ConfigurationStruct;

fn record(user: &str, password: &str, salt: &str) -> UserStruct {
    UserStruct {
        user: user.to_string(),
        password: password.to_string(),
        salt: salt.to_string(),
        comment: String::new(),
    }
}

fn users() -> AuthStruct {
    AuthStruct::from_user_list(vec![
        record("alice", "a1", "s1"),
        record("bob", "b1", "s2"),
        record("alice", "a2", "s3"),
    ])
}

#[test]
fn later_records_replace_earlier_ones() {
    let u = users();
    assert_eq!(u.users().len(), 2);
    assert_eq!(u.get("alice").unwrap().password, "a2");
    assert_eq!(u.get("bob").unwrap().salt, "s2");
    assert!(u.get("carol").is_none());
}

#[test]
fn modify_and_delete_users() {
    let mut u = users();
    let info = UserModify {
        user: "bob".to_string(),
        password: "b1".to_string(),
        new_password: "b2".to_string(),
        new_password_check: "b2".to_string(),
        comment: "changed".to_string(),
    };
    assert!(modify_user(&mut u, &info));
    let bob = u.get("bob").unwrap();
    assert_eq!(bob.password, "b2");
    assert_eq!(bob.salt, "s2");
    assert_eq!(bob.comment, "changed");
    let admins: Vec<String> = vec![];
    let login = |u: &AuthStruct, n: &str, p: &str| {
        login_handle(u, &admins, &Login { username: n.to_string(), password: p.to_string() })
    };
    assert!(login(&u, "bob", "b2").is_some());
    assert!(login(&u, "bob", "b1").is_none());
    assert!(login(&u, "alice", "a2").is_some());
    let info = UserModify {
        user: "carol".to_string(),
        password: String::new(),
        new_password: "c1".to_string(),
        new_password_check: "c1".to_string(),
        comment: String::new(),
    };
    assert!(modify_user(&mut u, &info));
    assert_eq!(u.get("carol").unwrap().salt, "");
    assert!(delete_user(&mut u, "carol"));
    assert!(!delete_user(&mut u, "carol"));
    assert!(u.get("carol").is_none());
    assert!(login(&u, "carol", "c1").is_none());
}

#[test]
fn login_checks_password_and_admin_list() {
    let u = users();
    let admins = vec!["alice".to_string()];
    let ok = |n: &str, p: &str| login_handle(&u, &admins, &Login { username: n.to_string(), password: p.to_string() });
    let a = ok("alice", "a2").unwrap();
    assert_eq!(a.auth, AuthState::AuthAdmin);
    assert_eq!(a.name, "alice");
    assert_eq!(ok("bob", "b1").unwrap().auth, AuthState::AuthUser);
    assert!(ok("alice", "a1").is_none());
    assert!(ok("nobody", "x").is_none());
}

#[test]
fn basic_credentials_authenticate_plain_users() {
    let u = users();
    let good = BasicAuthRaw { username: "alice".to_string(), password: "a2".to_string() };
    let user = User::from_basic(&u, &good).unwrap();
    assert_eq!(user.auth, AuthState::AuthUser);
    assert_eq!(user.name, "alice");
    let bad = BasicAuthRaw { username: "alice".to_string(), password: "a1".to_string() };
    assert!(User::from_basic(&u, &bad).is_none());
}

#[test]
fn basic_header_parsing() {
    // "user:pwd" in Base64
    match BasicAuthRaw::from_header(Some("Basic dXNlcjpwd2Q=")) {
        GuardOutcome::Success(b) => {
            assert_eq!(b.username, "user");
            assert_eq!(b.password, "pwd");
        }
        _ => panic!("expected credentials"),
    }
    match BasicAuthRaw::from_header(Some("  Basic \t dXNlcjpwd2Q=  ")) {
        GuardOutcome::Success(b) => assert_eq!(b.username, "user"),
        _ => panic!("expected credentials"),
    }
    assert!(matches!(BasicAuthRaw::from_header(None), GuardOutcome::Failure(401)));
    assert!(matches!(BasicAuthRaw::from_header(Some("Bearer dXNlcjpwd2Q=")), GuardOutcome::Failure(401)));
    assert!(matches!(BasicAuthRaw::from_header(Some("Basic")), GuardOutcome::Failure(401)));
    assert!(matches!(BasicAuthRaw::from_header(Some("Basic a b")), GuardOutcome::Failure(401)));
    assert!(matches!(BasicAuthRaw::from_header(Some("Basic !!!")), GuardOutcome::Failure(400)));
    // "user" without a colon
    assert!(matches!(BasicAuthRaw::from_header(Some("Basic dXNlcg==")), GuardOutcome::Failure(400)));
    assert!(matches!(BasicAuthRaw::from_decoded(vec![0xff, b':', b'a']), GuardOutcome::Failure(400)));
    assert!(matches!(BasicAuthRaw::from_decoded(b"a:b:c".to_vec()), GuardOutcome::Failure(400)));
    match BasicAuthRaw::from_decoded(b":".to_vec()) {
        GuardOutcome::Success(b) => {
            assert_eq!(b.username, "");
            assert_eq!(b.password, "");
        }
        _ => panic!("expected empty credentials"),
    }
}

fn lock(page: &str, token: &str) -> Wikilock {
    Wikilock { page: page.to_string(), lock: token.to_string() }
}

fn save_request(page: &str, token: &str) -> PageRevisionStruct {
    PageRevisionStruct {
        page: page.to_string(),
        revision: "000000002".to_string(),
        previous_revision: "000000001".to_string(),
        create_date: String::new(),
        revision_date: String::new(),
        revised_by: String::new(),
        comment: String::new(),
        lock: token.to_string(),
        data: "text".to_string(),
    }
}

#[test]
fn page_lock_protocol() {
    let mut m = PageMap::new();
    assert_eq!(rocket_route_user_lock(&mut m, &lock("", "t")), PageStatus::NoLockPage);
    assert_eq!(rocket_route_wiki_save(&m, &save_request("start", "t"), "joe", "now").err(), Some(PageStatus::NoLock));
    assert_eq!(rocket_route_user_lock(&mut m, &lock("start", "t")), PageStatus::Success);
    assert_eq!(rocket_route_user_lock(&mut m, &lock("start", "u")), PageStatus::AlreadyLocked);
    let saved = rocket_route_wiki_save(&m, &save_request("start", "t"), "joe", "2020/01/01").unwrap();
    assert_eq!(saved.revised_by, "joe");
    assert_eq!(saved.revision_date, "2020/01/01");
    assert_eq!(saved.revision, "000000002");
    assert_eq!(saved.previous_revision, "000000001");
    assert_eq!(saved.page, "start");
    assert_eq!(saved.data, "text");
    assert_eq!(rocket_route_wiki_save(&m, &save_request("start", "u"), "joe", "now").err(), Some(PageStatus::WrongLock));
    assert_eq!(rocket_route_wiki_save(&m, &save_request("", "u"), "joe", "now").err(), Some(PageStatus::NoLockOrPage));
    let mut no_rev = save_request("start", "t");
    no_rev.previous_revision = String::new();
    assert_eq!(rocket_route_wiki_save(&m, &no_rev, "joe", "now").err(), Some(PageStatus::NoRevision));
    assert_eq!(rocket_route_user_unlock(&mut m, &lock("start", "u")), PageStatus::LockMismatch);
    assert_eq!(rocket_route_user_unlock(&mut m, &lock("", "t")), PageStatus::BadPage);
    assert_eq!(rocket_route_user_unlock(&mut m, &lock("start", "t")), PageStatus::Success);
    assert_eq!(rocket_route_user_unlock(&mut m, &lock("start", "t")), PageStatus::LockNotFound);
    assert!(m.get("start").is_none());
}

#[test]
fn status_codes_and_reasons() {
    assert_eq!(PageStatus::Success.code(), 200);
    assert_eq!(PageStatus::NoRevision.code(), 519);
    assert_eq!(PageStatus::WrongLock.code(), 520);
    assert_eq!(PageStatus::NoLock.code(), 521);
    assert_eq!(PageStatus::WriteFailed.code(), 522);
    assert_eq!(PageStatus::LockNotFound.code(), 540);
    assert_eq!(PageStatus::LockMismatch.reason(), "lock doesn't match");
    assert_eq!(PageStatus::NoLockOrPage.reason(), "no lock or page");
}

#[test]
fn admin_user_delete() {
    let mut u = users();
    assert_eq!(rocket_route_user_delete(&mut u, &UserDelete { user: "bob".to_string() }), Ok(()));
    assert_eq!(
        rocket_route_user_delete(&mut u, &UserDelete { user: "bob".to_string() }),
        Err("Failed to Delete".to_string())
    );
    let _ = DelayMap::new();
}

#[test]
fn auth_state_and_user_text() {
    assert_eq!(AuthState::from_str("AuthAdmin"), Ok(AuthState::AuthAdmin));
    assert_eq!(AuthState::from_str("AuthUser"), Ok(AuthState::AuthUser));
    assert_eq!(AuthState::from_str("whatever"), Ok(AuthState::AuthNotAuth));
    assert_eq!(AuthState::AuthUser.to_string(), "AuthUser");
    let u = User::new_user("bob", true);
    assert_eq!(u.to_string(), "bob:AuthAdmin");
    let back = User::from_str(&u.to_string()).unwrap();
    assert_eq!(back.name, "bob");
    assert_eq!(back.auth, AuthState::AuthAdmin);
    assert!(User::from_str("bob").is_err());
    let extra = User::from_str("bob:AuthUser:more").unwrap();
    assert_eq!(extra.auth, AuthState::AuthUser);
    assert_eq!(User::from_str("bob:nope").unwrap().auth, AuthState::AuthNotAuth);
    let v = User::new_unauth();
    assert_eq!(v.name, "");
    assert_eq!(v.auth, AuthState::AuthNotAuth);
}

#[test]
fn request_guards() {
    let admin = || Some(User::new_user("root", true));
    let plain = || Some(User::new_user("joe", false));
    assert!(matches!(PageAdmin::from_user(admin()), GuardOutcome::Success(_)));
    assert!(matches!(PageAdmin::from_user(plain()), GuardOutcome::Forward));
    assert!(matches!(PageAdmin::from_user(None), GuardOutcome::Forward));

    assert!(matches!(PageUser::decide(plain(), true, Some(true)), GuardOutcome::Forward));
    assert!(matches!(PageUser::decide(admin(), true, Some(true)), GuardOutcome::Success(_)));
    assert!(matches!(PageUser::decide(plain(), false, Some(true)), GuardOutcome::Success(_)));
    // the read setting lets visitors read where it is true
    assert!(matches!(PageUser::decide(None, false, Some(false)), GuardOutcome::Forward));
    assert!(matches!(PageUser::decide(None, false, None), GuardOutcome::Forward));
    assert!(matches!(PageUser::decide(None, true, Some(true)), GuardOutcome::Forward));
    match PageUser::decide(None, false, Some(true)) {
        GuardOutcome::Success(p) => assert_eq!(p.0.auth, AuthState::AuthNotAuth),
        _ => panic!("visitors may read"),
    }

    assert!(matches!(PageWriter::decide(plain(), false), GuardOutcome::Success(_)));
    assert!(matches!(PageWriter::decide(plain(), true), GuardOutcome::Failure(401)));
    assert!(matches!(PageWriter::decide(admin(), true), GuardOutcome::Success(_)));
    assert!(matches!(PageWriter::decide(None, false), GuardOutcome::Failure(401)));

    // the logging setting lets visitors log where it is true
    assert!(matches!(LogUser::decide(None, Some(false)), GuardOutcome::Failure(401)));
    assert!(matches!(LogUser::decide(None, None), GuardOutcome::Failure(401)));
    match LogUser::decide(None, Some(true)) {
        GuardOutcome::Success(l) => assert_eq!(l.0.auth, AuthState::AuthNotAuth),
        _ => panic!("visitors may log"),
    }
    assert!(matches!(LogUser::decide(plain(), Some(false)), GuardOutcome::Success(_)));

    let pages = vec!["/jsAdmin".to_string(), "/page/_config".to_string()];
    assert!(IsAdminPage::for_path("/jsAdmin/MasterReset", &pages).0);
    assert!(!IsAdminPage::for_path("/jsUser/Wikilock", &pages).0);
    assert!(!IsAdminPage::for_path("/js", &pages).0);
    assert!(!IsAdminPage::for_path("/anything", &vec![]).0);
}

#[test]
fn default_configuration() {
    let c = ConfigurationStruct::default();
    assert!(!c.case_sensitive);
    assert!(c.admin_users.is_empty());
    assert_eq!(c.start_page, "");
}

#[test]
fn credentials_round_trip_non_ascii() {
    match BasicAuthRaw::from_decoded("jörg:pässwört".as_bytes().to_vec()) {
        GuardOutcome::Success(b) => {
            assert_eq!(b.username, "jörg");
            assert_eq!(b.password, "pässwört");
        }
        _ => panic!("expected credentials"),
    }
}
