use sync_auth::account::User;
use sync_auth::database::{account_from_lookup, hashed_password, StoreError, UserDatabase};
use sync_auth::digest::{calculate_md5, derive_hkey};
use sync_auth::server::{
    account_for_registration, folder_name, register_outcome, user_db_path, HttpError,
    LoginStep, RegisterOutcome, SimpleServerInner,
};
use sync_auth::session::{Session, SessionRegistry};

type Server = SimpleServerInner<(), (), String>;

fn fresh_server() -> Server {
    let db = UserDatabase::new(":memory:").expect("in-memory store");
    SimpleServerInner::with_database("/srv/sync", db)
}

fn login(server: &mut Server, name: &str, password: &str) -> Result<String, HttpError> {
    match server.get_host_key(name, password) {
        LoginStep::Ready(key) => Ok(key),
        LoginStep::NeedsSession { key, folder } => {
            let media = format!("{folder}/media");
            server.finish_host_key(name, key, folder, Ok(media))
        }
        LoginStep::Failed(e) => Err(e),
    }
}

#[test]
fn test() {
    let mut db = UserDatabase::new(":memory:").expect("open");
    let user = User {
        id: 0,
        name: None,
        email: "abc@gmai.com".to_string(),
        password: Some("123456".to_string()),
    };
    db.add_user(&user).expect("add");
    let found = db.verify_user("abc@gmai.com", "123456").expect("verify");
    let found = found.expect("account");
    assert_eq!(found.email, "abc@gmai.com");
    assert_eq!(found.name, None);
    assert_eq!(found.password, None);
}

#[test]
fn verify_user_wrong_password_is_none() {
    let mut db = UserDatabase::new(":memory:").expect("open");
    let user = User {
        id: 0,
        name: Some("Ann".to_string()),
        email: "ann@x.org".to_string(),
        password: Some("secret".to_string()),
    };
    db.add_user(&user).expect("add");
    assert!(db.verify_user("ann@x.org", "wrong").expect("verify").is_none());
    assert!(db.verify_user("nobody@x.org", "secret").expect("verify").is_none());
    let found = db.verify_user("ann@x.org", "secret").expect("verify").expect("account");
    assert_eq!(found.name, Some("Ann".to_string()));
}

#[test]
fn md5_of_password() {
    assert_eq!(calculate_md5("123456"), "e10adc3949ba59abbe56e057f20f883e");
    let user = User { id: 0, email: "a@b.com".to_string(), name: None, password: Some("pw".to_string()) };
    assert_eq!(hashed_password(&user), Some("8fe4c11451281c094a6578e6ddbf5eed".to_string()));
    let user = User { id: 0, email: "a@b.com".to_string(), name: None, password: None };
    assert_eq!(hashed_password(&user), None);
}

#[test]
fn session_key_of_name_and_password() {
    assert_eq!(derive_hkey("a@b.com", "pw"), "256a521246afe13efbd72ce0320760e0bc3bbf04");
}

#[test]
fn lookup_answers() {
    let r = account_from_lookup(Ok((7, "a@b.com".to_string(), None)));
    let u = r.expect("ok").expect("some");
    assert_eq!(u, User { id: 7, email: "a@b.com".to_string(), name: None, password: None });
    assert!(matches!(account_from_lookup(Err(StoreError::NoRows)), Ok(None)));
    match account_from_lookup(Err(StoreError::Failure("disk I/O error".to_string()))) {
        Err(StoreError::Failure(m)) => assert_eq!(m, "disk I/O error"),
        other => panic!("unexpected {other:?}"),
    }
}

#[test]
fn registration_account_is_trimmed() {
    let u = account_for_registration("  a@b.com ", "  ", " pw ");
    assert_eq!(u.id, 0);
    assert_eq!(u.email, "a@b.com");
    assert_eq!(u.name, None);
    assert_eq!(u.password, Some("pw".to_string()));
    let u = account_for_registration("a@b.com", " Ann ", "pw");
    assert_eq!(u.name, Some("Ann".to_string()));
}

#[test]
fn outcome_of_store_answer() {
    assert!(matches!(register_outcome(Ok(())), RegisterOutcome::Success));
    let conflict = StoreError::Failure("UNIQUE constraint failed: user.email".to_string());
    assert!(matches!(register_outcome(Err(conflict)), RegisterOutcome::AccountExists));
    match register_outcome(Err(StoreError::Failure("database is locked".to_string()))) {
        RegisterOutcome::Internal(m) => assert_eq!(m, "create account"),
        other => panic!("unexpected {other:?}"),
    }
    assert!(matches!(register_outcome(Err(StoreError::NoRows)), RegisterOutcome::Internal(_)));
}

#[test]
fn outcome_status_and_message() {
    assert_eq!(RegisterOutcome::Success.status(), 200);
    assert_eq!(RegisterOutcome::Success.message(), "success");
    assert_eq!(RegisterOutcome::EmptyPassword.status(), 400);
    assert_eq!(RegisterOutcome::EmptyPassword.message(), "empty_password");
    assert_eq!(RegisterOutcome::BadEmail.message(), "bad_email");
    assert_eq!(RegisterOutcome::AccountExists.status(), 400);
    assert_eq!(RegisterOutcome::AccountExists.message(), "account_exists");
    let internal = RegisterOutcome::Internal("boom".to_string());
    assert_eq!(internal.status(), 500);
    assert_eq!(internal.message(), "boom");
}

#[test]
fn register_then_login_gives_key() {
    let mut server = fresh_server();
    assert!(matches!(server.register("user@example.org", "User", "hunter2"), RegisterOutcome::Success));
    let key = login(&mut server, "user@example.org", "hunter2").expect("login");
    assert!(!key.is_empty());
    assert_eq!(key.len(), 40);
}

#[test]
fn register_twice_conflicts() {
    let mut server = fresh_server();
    assert!(matches!(server.register("a@b.com", "", "one"), RegisterOutcome::Success));
    assert!(matches!(server.register("a@b.com", "", "two"), RegisterOutcome::AccountExists));
}

#[test]
fn register_rejects_bad_input() {
    let mut server = fresh_server();
    assert!(matches!(server.register("a@b.com", "", ""), RegisterOutcome::EmptyPassword));
    assert!(matches!(server.register("a@b.com", "", "   "), RegisterOutcome::EmptyPassword));
    assert!(matches!(server.register("not-an-email", "", "pw"), RegisterOutcome::BadEmail));
    assert!(matches!(server.register("", "", "pw"), RegisterOutcome::BadEmail));
}

#[test]
fn wrong_password_is_forbidden() {
    let mut server = fresh_server();
    assert!(matches!(server.register("a@b.com", "", "pw"), RegisterOutcome::Success));
    assert!(matches!(login(&mut server, "a@b.com", "nope"), Err(HttpError::Forbidden(_))));
    assert!(matches!(login(&mut server, "z@b.com", "pw"), Err(HttpError::Forbidden(_))));
}

#[test]
fn login_twice_reuses_session() {
    let mut server = fresh_server();
    assert!(matches!(server.register("a@b.com", "", "pw"), RegisterOutcome::Success));
    let first = match server.get_host_key("a@b.com", "pw") {
        LoginStep::NeedsSession { key, folder } => {
            server.finish_host_key("a@b.com", key, folder, Ok("media".to_string())).expect("finish")
        }
        other => panic!("unexpected {other:?}"),
    };
    match server.get_host_key("a@b.com", "pw") {
        LoginStep::Ready(key) => assert_eq!(key, first),
        other => panic!("unexpected {other:?}"),
    }
    assert!(server.is_user_exists(&first));
}

#[test]
fn failed_media_is_internal() {
    let mut server = fresh_server();
    assert!(matches!(server.register("a@b.com", "", "pw"), RegisterOutcome::Success));
    match server.get_host_key("a@b.com", "pw") {
        LoginStep::NeedsSession { key, folder } => {
            let r = server.finish_host_key("a@b.com", key.clone(), folder, Err("no media".to_string()));
            assert!(matches!(r, Err(HttpError::Internal(_))));
            assert!(!server.is_user_exists(&key));
        }
        other => panic!("unexpected {other:?}"),
    }
}

#[test]
fn unknown_key_is_forbidden_and_op_not_run() {
    let mut server = fresh_server();
    let mut ran = false;
    let r: Result<u32, HttpError> = server.with_authenticated_user("deadbeef", |_s| {
        ran = true;
        Ok(1)
    });
    assert!(matches!(r, Err(HttpError::Forbidden(_))));
    assert!(!ran);
}

#[test]
fn example_session_flow() {
    let mut server = fresh_server();
    assert!(matches!(server.register("a@b.com", "", "pw"), RegisterOutcome::Success));
    let key = match server.get_host_key("a@b.com", "pw") {
        LoginStep::NeedsSession { key, folder } => {
            assert_eq!(folder, "/srv/sync/a@b.com");
            server.finish_host_key("a@b.com", key, folder, Ok("media".to_string())).expect("finish")
        }
        other => panic!("unexpected {other:?}"),
    };
    assert_eq!(key, "256a521246afe13efbd72ce0320760e0bc3bbf04");
    let r = server.with_authenticated_user(&key, |s| {
        assert_eq!(s.name, "a@b.com");
        assert_eq!(s.folder, "/srv/sync/a@b.com");
        assert!(s.col.is_none());
        assert!(s.sync_state.is_none());
        s.folder.push_str("/x");
        Ok(s.media.clone())
    });
    assert_eq!(r.expect("op"), "media");
    let r = server.with_authenticated_user(&key, |s| Ok(s.folder.clone()));
    assert_eq!(r.expect("op"), "/srv/sync/a@b.com/x");
}

#[test]
fn op_error_passes_through() {
    let mut server = fresh_server();
    assert!(matches!(server.register("a@b.com", "", "pw"), RegisterOutcome::Success));
    let key = login(&mut server, "a@b.com", "pw").expect("login");
    let r: Result<(), HttpError> =
        server.with_authenticated_user(&key, |_s| Err(HttpError::Internal("op failed".to_string())));
    match r {
        Err(HttpError::Internal(m)) => assert_eq!(m, "op failed"),
        other => panic!("unexpected {other:?}"),
    }
}

#[test]
fn registry_insert_keeps_first() {
    let mut reg: SessionRegistry<(), (), u8> = SessionRegistry::new();
    assert!(!reg.contains_key("k"));
    reg.insert_if_absent("k".to_string(), Session::new("a".to_string(), "/f/a".to_string(), 1));
    reg.insert_if_absent("k".to_string(), Session::new("b".to_string(), "/f/b".to_string(), 2));
    assert!(reg.contains_key("k"));
    let media = reg.with_session_mut("k", |s| s.media);
    assert_eq!(media, Some(1));
    assert_eq!(reg.with_session_mut("other", |s| s.media), None);
}

#[test]
fn port_default() {
    assert_eq!(sync_auth::config::default_port(), 8080);
}

#[test]
fn login_trims_like_register() {
    let mut server = fresh_server();
    assert!(matches!(server.register(" a@b.com ", "", " pw "), RegisterOutcome::Success));
    let key = login(&mut server, " a@b.com ", " pw ").expect("login");
    assert_eq!(key, "256a521246afe13efbd72ce0320760e0bc3bbf04");
}

#[test]
fn folder_names_stay_inside_base() {
    assert_eq!(folder_name("a@b.com"), "a@b.com");
    assert_eq!(folder_name(""), "%");
    assert_eq!(folder_name("."), "%2E");
    assert_eq!(folder_name(".."), "%2E%2E");
    assert_eq!(folder_name("../x@y.com"), "..%2Fx@y.com");
    assert_eq!(folder_name("a/b@c.com"), "a%2Fb@c.com");
    assert_eq!(folder_name("a%2Fb@c.com"), "a%252Fb@c.com");
    assert_eq!(folder_name("n\0l@c.com"), "n%00l@c.com");
    assert_eq!(folder_name("..a"), "..a");
}

#[test]
fn slash_in_name_logs_in_inside_base() {
    let mut server = fresh_server();
    assert!(matches!(server.register("a/b@c.com", "", "pw"), RegisterOutcome::Success));
    match server.get_host_key("a/b@c.com", "pw") {
        LoginStep::NeedsSession { key, folder } => {
            assert_eq!(folder, "/srv/sync/a%2Fb@c.com");
            assert_eq!(key.len(), 40);
        }
        other => panic!("unexpected {other:?}"),
    }
    assert!(matches!(server.get_host_key("a/b@c.com", "bad"), LoginStep::Failed(HttpError::Forbidden(_))));
}

#[test]
fn database_path_in_base() {
    assert_eq!(user_db_path("/srv/sync"), "/srv/sync/user.db");
}
