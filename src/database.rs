//! The credential store: accounts in a SQLite table, passwords kept as digests.
use vstd::prelude::*;
use crate::account::{opt_view, User};
use crate::digest::{calculate_md5, md5_hex_of};

verus! {

#[verifier::external_type_specification]
#[verifier::external_body]
pub struct ExConnection(rusqlite::Connection);

#[verifier::external_type_specification]
#[verifier::external_body]
pub struct ExSqlError(rusqlite::Error);

pub const SCHEMA_SQL: &'static str = "CREATE TABLE IF NOT EXISTS user (id INTEGER PRIMARY KEY AUTOINCREMENT, email TEXT NOT NULL UNIQUE, name TEXT, password TEXT);";

pub const ADD_USER_SQL: &'static str = "INSERT INTO user (email, name, password) VALUES (?1, ?2, ?3)";

pub const VERIFY_USER_SQL: &'static str = "SELECT id, email, name FROM user WHERE email = ?1 AND password = ?2";

/// What the storage engine reported, in the library's own terms.
#[derive(Debug)]
pub enum StoreError {
    /// A lookup matched no row.
    NoRows,
    /// Any other failure, with the engine's message.
    Failure(String),
}

/// Relies on rusqlite::Connection::open: opens or creates the database file.
#[verifier::external_body]
fn open_connection(path: &str) -> (r: Result<rusqlite::Connection, rusqlite::Error>) {
    rusqlite::Connection::open(path)
}

/// Relies on rusqlite::Connection::busy_timeout, which panics when the
/// timeout in milliseconds does not fit an `i32`.
#[verifier::external_body]
fn set_busy_timeout(db: &rusqlite::Connection, secs: u64) -> (r: Result<(), rusqlite::Error>)
    requires
        secs <= 2_000_000,
{
    db.busy_timeout(std::time::Duration::from_secs(secs))
}

/// Relies on rusqlite::Connection::pragma_update on the main schema.
#[verifier::external_body]
fn set_pragma(db: &rusqlite::Connection, name: &str, value: &str) -> (r: Result<(), rusqlite::Error>) {
    db.pragma_update(None, name, value)
}

/// Relies on rusqlite::Connection::execute_batch.
#[verifier::external_body]
fn run_batch(db: &rusqlite::Connection, sql: &str) -> (r: Result<(), rusqlite::Error>) {
    db.execute_batch(sql)
}

/// Relies on rusqlite::Connection::query_row: the first row that the query
/// gives for the two bound texts, read as its first three columns.
#[verifier::external_body]
fn query_account_row(db: &rusqlite::Connection, sql: &str, a: &str, b: &str) -> (r: Result<
    (u64, String, Option<String>),
    rusqlite::Error,
>) {
    db.query_row(sql, (a, b), |row| Ok((row.get(0)?, row.get(1)?, row.get(2)?)))
}

/// Relies on rusqlite::Connection::execute with three bound values.
#[verifier::external_body]
fn execute_insert(
    db: &rusqlite::Connection,
    sql: &str,
    a: &str,
    b: Option<&str>,
    c: Option<&str>,
) -> (r: Result<usize, rusqlite::Error>) {
    db.execute(sql, (a, b, c))
}

/// Relies on the variant `rusqlite::Error::QueryReturnedNoRows`.
#[verifier::external_body]
fn is_no_rows(e: &rusqlite::Error) -> (r: bool) {
    matches!(e, rusqlite::Error::QueryReturnedNoRows)
}

/// Relies on the `Display` text of `rusqlite::Error`.
#[verifier::external_body]
fn error_message(e: &rusqlite::Error) -> (r: String) {
    e.to_string()
}

fn store_error(e: &rusqlite::Error) -> (r: StoreError) {
    if is_no_rows(e) {
        StoreError::NoRows
    } else {
        StoreError::Failure(error_message(e))
    }
}

pub open spec fn opt_str_view(o: Option<&str>) -> Option<Seq<char>> {
    match o {
        Some(s) => Some(s@),
        None => None,
    }
}

fn as_opt_str(o: &Option<String>) -> (r: Option<&str>)
    ensures
        opt_str_view(r) == opt_view(*o),
{
    match o {
        Some(s) => Some(s.as_str()),
        None => None,
    }
}

/// The result of a credential lookup: a row is the account, no row is no
/// account, and any other failure is reported.
pub fn account_from_lookup(found: Result<(u64, String, Option<String>), StoreError>) -> (r: Result<
    Option<User>,
    StoreError,
>)
    ensures
        match found {
            Ok((id, email, name)) => r matches Ok(Some(u)) && u.id == id && u.email@ == email@
                && opt_view(u.name) == opt_view(name) && u.password is None,
            Err(StoreError::NoRows) => r matches Ok(None),
            Err(StoreError::Failure(m)) => r matches Err(StoreError::Failure(m2)) && m2@ == m@,
        },
{
    match found {
        Ok((id, email, name)) => Ok(Some(User::from_row(id, email, name))),
        Err(StoreError::NoRows) => Ok(None),
        Err(StoreError::Failure(m)) => Err(StoreError::Failure(m)),
    }
}

/// The password verifier stored for an account: the digest of its password, if any.
pub fn hashed_password(user: &User) -> (r: Option<String>)
    ensures
        match user.password {
            Some(p) => r matches Some(h) && h@ == md5_hex_of(p@),
            None => r is None,
        },
{
    match &user.password {
        Some(p) => Some(calculate_md5(p.as_str())),
        None => None,
    }
}

/// A request handed to the storage engine on this handle. Each entry is
/// built from the very values passed to the call; set-up steps and inserts
/// are recorded once the engine reported success, lookups whatever came back.
pub enum StoreRequest {
    /// The database file at this path was opened or created.
    Open(Seq<char>),
    /// Lock contention fails after this many seconds.
    BusyTimeout(nat),
    /// A pragma was set to a value.
    Pragma(Seq<char>, Seq<char>),
    /// A batch of statements was run.
    Batch(Seq<char>),
    /// A statement inserted an account row: email, name and password verifier.
    Insert(Seq<char>, Seq<char>, Option<Seq<char>>, Option<Seq<char>>),
    /// A statement looked up an account by email and password verifier.
    Lookup(Seq<char>, Seq<char>, Seq<char>),
}

/// What opening the store at `path` asks of the engine, in order: open the
/// file, wait zero seconds on a lock, hold the file exclusively, log ahead of
/// writes, and create the account table if it is missing.
pub open spec fn setup_requests(path: Seq<char>) -> Seq<StoreRequest> {
    seq![
        StoreRequest::Open(path),
        StoreRequest::BusyTimeout(0),
        StoreRequest::Pragma("locking_mode"@, "exclusive"@),
        StoreRequest::Pragma("journal_mode"@, "wal"@),
        StoreRequest::Batch(SCHEMA_SQL@),
    ]
}

/// The insert that storing `user` makes: its email, its name and the digest
/// of its password.
pub open spec fn insert_request(user: User) -> StoreRequest {
    StoreRequest::Insert(
        ADD_USER_SQL@,
        user.email@,
        opt_view(user.name),
        match user.password {
            Some(p) => Some(md5_hex_of(p@)),
            None => None,
        },
    )
}

/// The lookup that checking `email` and `password` makes: the email and the
/// digest of the password.
pub open spec fn lookup_request(email: Seq<char>, password: Seq<char>) -> StoreRequest {
    StoreRequest::Lookup(VERIFY_USER_SQL@, email, md5_hex_of(password))
}

/// The credential store: one connection, held exclusively, and the requests
/// handed to the engine on it.
pub struct UserDatabase {
    db: rusqlite::Connection,
    requests: Ghost<Seq<StoreRequest>>,
}

/// Opens the database with a zero busy timeout, exclusive locking and
/// write-ahead logging, and makes sure the account table exists. The first
/// step that fails ends the set-up with its error.
fn open_or_create_db(path: &str) -> (r: Result<(rusqlite::Connection, Ghost<Seq<StoreRequest>>), StoreError>)
    ensures
        r matches Ok((_, log)) ==> log@ == setup_requests(path@),
{
    let db = match open_connection(path) {
        Ok(db) => db,
        Err(e) => return Err(store_error(&e)),
    };
    let ghost mut log = seq![StoreRequest::Open(path@)];
    let timeout: u64 = 0;
    if let Err(e) = set_busy_timeout(&db, timeout) {
        return Err(store_error(&e));
    }
    proof {
        log = log.push(StoreRequest::BusyTimeout(timeout as nat));
    }
    let (name, value) = ("locking_mode", "exclusive");
    if let Err(e) = set_pragma(&db, name, value) {
        return Err(store_error(&e));
    }
    proof {
        log = log.push(StoreRequest::Pragma(name@, value@));
    }
    let (name, value) = ("journal_mode", "wal");
    if let Err(e) = set_pragma(&db, name, value) {
        return Err(store_error(&e));
    }
    proof {
        log = log.push(StoreRequest::Pragma(name@, value@));
    }
    let schema = SCHEMA_SQL;
    if let Err(e) = run_batch(&db, schema) {
        return Err(store_error(&e));
    }
    proof {
        log = log.push(StoreRequest::Batch(schema@));
        assert(log =~= setup_requests(path@));
    }
    Ok((db, Ghost(log)))
}

impl UserDatabase {
    /// The requests handed to the engine on this handle, oldest first.
    pub closed spec fn requests(&self) -> Seq<StoreRequest> {
        self.requests@
    }

    /// Opens or creates the credential store at `path`.
    pub fn new(path: &str) -> (r: Result<UserDatabase, StoreError>)
        ensures
            r matches Ok(db) ==> db.requests() == setup_requests(path@),
    {
        match open_or_create_db(path) {
            Ok((db, log)) => Ok(UserDatabase { db, requests: log }),
            Err(e) => Err(e),
        }
    }

    /// Looks up the account with this email whose stored verifier is the
    /// digest of `password`. No match is `Ok(None)`; only a storage failure
    /// is an error.
    pub fn verify_user(&mut self, email: &str, password: &str) -> (r: Result<Option<User>, StoreError>)
        ensures
            final(self).requests() == old(self).requests().push(lookup_request(email@, password@)),
            r matches Ok(Some(u)) ==> u.password is None,
            !(r matches Err(StoreError::NoRows)),
    {
        let hashed = calculate_md5(password);
        let sql = VERIFY_USER_SQL;
        let digest = hashed.as_str();
        let answer = query_account_row(&self.db, sql, email, digest);
        self.requests = Ghost(self.requests@.push(StoreRequest::Lookup(sql@, email@, digest@)));
        let found = match answer {
            Ok(row) => Ok(row),
            Err(e) => Err(store_error(&e)),
        };
        account_from_lookup(found)
    }

    /// Stores a new account with the digest of its password. A second account
    /// with the same email is refused by the table's uniqueness constraint,
    /// and that refusal comes back as the engine's failure.
    pub fn add_user(&mut self, user: &User) -> (r: Result<(), StoreError>)
        ensures
            r is Ok ==> final(self).requests() == old(self).requests().push(insert_request(*user)),
            r is Err ==> final(self).requests() == old(self).requests(),
            !(r matches Err(StoreError::NoRows)),
    {
        let hashed = hashed_password(user);
        let sql = ADD_USER_SQL;
        let email = user.email.as_str();
        let name = as_opt_str(&user.name);
        let verifier = as_opt_str(&hashed);
        match execute_insert(&self.db, sql, email, name, verifier) {
            Ok(_) => {
                self.requests = Ghost(
                    self.requests@.push(
                        StoreRequest::Insert(sql@, email@, opt_str_view(name), opt_str_view(verifier)),
                    ),
                );
                Ok(())
            },
            Err(e) => Err(StoreError::Failure(error_message(&e))),
        }
    }
}

} // verus!
