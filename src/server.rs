//! Registration, login and authenticated dispatch over the credential store
//! and the session registry.
use vstd::prelude::*;
use crate::account::{opt_view, User};
use crate::database::{insert_request, lookup_request, setup_requests, StoreError, StoreRequest, UserDatabase};
use crate::digest::{derive_hkey, session_key_of};
use crate::session::{Session, SessionRegistry};

verus! {

/// A visible ASCII character, which is never white space.
pub open spec fn printable_ascii(c: char) -> bool {
    '!' <= c && c <= '~'
}

/// A character with Unicode's White_Space property.
pub open spec fn is_white_space(c: char) -> bool {
    let n = c as u32;
    (0x09 <= n && n <= 0x0d) || n == 0x20 || n == 0x85 || n == 0xa0 || n == 0x1680 || (0x2000 <= n
        && n <= 0x200a) || n == 0x2028 || n == 0x2029 || n == 0x202f || n == 0x205f || n == 0x3000
}

/// Text with its leading white space removed.
pub open spec fn trim_start_of(s: Seq<char>) -> Seq<char>
    decreases s.len(),
{
    if s.len() > 0 && is_white_space(s[0]) {
        trim_start_of(s.drop_first())
    } else {
        s
    }
}

/// Text with its trailing white space removed.
pub open spec fn trim_end_of(s: Seq<char>) -> Seq<char>
    decreases s.len(),
{
    if s.len() > 0 && is_white_space(s.last()) {
        trim_end_of(s.drop_last())
    } else {
        s
    }
}

/// Text with leading and trailing white space removed.
pub open spec fn trim_of(s: Seq<char>) -> Seq<char> {
    trim_end_of(trim_start_of(s))
}

/// Whether a text is an email address that the validator accepts.
pub uninterp spec fn email_ok(s: Seq<char>) -> bool;

/// Relies on str::trim, which removes leading and trailing characters with
/// the White_Space property: a part of the input, empty for empty input.
#[verifier::external_body]
fn trim(s: &str) -> (r: &str)
    ensures
        r@ == trim_of(s@),
        s@.len() == 0 ==> r@.len() == 0,
        forall|k: int| 0 <= k < r@.len() ==> s@.contains(#[trigger] r@[k]),
        s@.len() > 0 && printable_ascii(s@[0]) && printable_ascii(s@.last()) ==> r@ == s@,
{
    s.trim()
}

/// Relies on validator::validate_email, which refuses a text that is empty
/// or holds no `@`.
#[verifier::external_body]
fn validate_email(s: &str) -> (r: bool)
    ensures
        r == email_ok(s@),
        s@.len() == 0 ==> !r,
        !s@.contains('@') ==> !r,
{
    validator::validate_email(s)
}

/// The storage engine's message for a second account with the same email.
pub const UNIQUE_EMAIL_VIOLATION: &'static str = "UNIQUE constraint failed: user.email";

/// Name of the credential database file inside the base folder.
pub const USER_DB_FILE: &'static str = "user.db";

/// How a registration ended.
#[derive(Debug)]
pub enum RegisterOutcome {
    Success,
    EmptyPassword,
    BadEmail,
    AccountExists,
    Internal(String),
}

impl RegisterOutcome {
    /// The HTTP status that reports this outcome.
    pub fn status(&self) -> (r: u16)
        ensures
            self is Success ==> r == 200,
            (self is EmptyPassword || self is BadEmail || self is AccountExists) ==> r == 400,
            self is Internal ==> r == 500,
    {
        match self {
            RegisterOutcome::Success => 200,
            RegisterOutcome::EmptyPassword => 400,
            RegisterOutcome::BadEmail => 400,
            RegisterOutcome::AccountExists => 400,
            RegisterOutcome::Internal(_) => 500,
        }
    }

    /// The message that reports this outcome.
    pub fn message(&self) -> (r: String)
        ensures
            self is Success ==> r@ == "success"@,
            self is EmptyPassword ==> r@ == "empty_password"@,
            self is BadEmail ==> r@ == "bad_email"@,
            self is AccountExists ==> r@ == "account_exists"@,
            self matches RegisterOutcome::Internal(m) ==> r@ == m@,
    {
        match self {
            RegisterOutcome::Success => String::from_str("success"),
            RegisterOutcome::EmptyPassword => String::from_str("empty_password"),
            RegisterOutcome::BadEmail => String::from_str("bad_email"),
            RegisterOutcome::AccountExists => String::from_str("account_exists"),
            RegisterOutcome::Internal(m) => m.clone(),
        }
    }
}

/// An authorization failure or an internal one, with context.
#[derive(Debug)]
pub enum HttpError {
    Forbidden(String),
    Internal(String),
}

/// What a login asks of its caller next.
#[derive(Debug)]
pub enum LoginStep {
    /// The session already exists: here is its key.
    Ready(String),
    /// The credentials are good and the session must be created: its folder
    /// is to be made and its media handle opened, then the login finished.
    NeedsSession { key: String, folder: String },
    /// The login failed.
    Failed(HttpError),
}

/// The private folder of an account inside the base folder.
pub open spec fn folder_of(base: Seq<char>, name: Seq<char>) -> Seq<char> {
    base + seq!['/'] + name
}

/// A name that can be a folder directly inside the base folder: not empty,
/// no separator or NUL, and not `.` or `..`.
pub open spec fn safe_folder_name(name: Seq<char>) -> bool {
    &&& name.len() > 0
    &&& !name.contains('/')
    &&& !name.contains('\0')
    &&& name != seq!['.']
    &&& name != seq!['.', '.']
}

/// One character of an account name as it appears in a folder name: the
/// separator, NUL and the escape character itself are percent-escaped.
pub open spec fn escape_char(c: char) -> Seq<char> {
    if c == '/' {
        "%2F"@
    } else if c == '\0' {
        "%00"@
    } else if c == '%' {
        "%25"@
    } else {
        seq![c]
    }
}

/// An account name with each character escaped.
pub open spec fn escape_chars(s: Seq<char>) -> Seq<char>
    decreases s.len(),
{
    if s.len() == 0 {
        seq![]
    } else {
        escape_chars(s.drop_last()) + escape_char(s.last())
    }
}

/// The folder name of an account: its escaped name, with the empty name and
/// the names `.` and `..` spelled out in escapes. Different names give
/// different folder names.
pub open spec fn folder_name_of(name: Seq<char>) -> Seq<char> {
    let e = escape_chars(name);
    if e.len() == 0 {
        "%"@
    } else if e == seq!['.'] {
        "%2E"@
    } else if e == seq!['.', '.'] {
        "%2E%2E"@
    } else {
        e
    }
}

proof fn lemma_escape_chars_safe(s: Seq<char>)
    ensures
        !escape_chars(s).contains('/'),
        !escape_chars(s).contains('\0'),
    decreases s.len(),
{
    reveal_strlit("%2F");
    reveal_strlit("%00");
    reveal_strlit("%25");
    if s.len() > 0 {
        lemma_escape_chars_safe(s.drop_last());
        let a = escape_chars(s.drop_last());
        let b = escape_char(s.last());
        assert(!b.contains('/') && !b.contains('\0'));
        assert forall|k: int| 0 <= k < (a + b).len() implies (a + b)[k] != '/' && (a + b)[k] != '\0' by {
            if k < a.len() {
                assert((a + b)[k] == a[k]);
            } else {
                assert((a + b)[k] == b[k - a.len()]);
            }
        }
    }
}

proof fn lemma_escape_char_shape(c: char)
    ensures
        escape_char(c).len() == 1 || escape_char(c).len() == 3,
        escape_char(c).len() == 1 ==> escape_char(c) == seq![c] && c != '%',
        escape_char(c).len() == 3 ==> escape_char(c)[0] == '%' && escape_char(c)[1] != '%'
            && escape_char(c)[2] != '%',
        forall|d: char| escape_char(c) == escape_char(d) ==> c == d,
{
    reveal_strlit("%2F");
    reveal_strlit("%00");
    reveal_strlit("%25");
    assert forall|d: char| escape_char(c) == escape_char(d) implies c == d by {
        reveal_strlit("%2F");
        reveal_strlit("%00");
        reveal_strlit("%25");
        if escape_char(c).len() == 1 {
            assert(escape_char(c)[0] == c);
            assert(escape_char(d)[0] == d);
        } else {
            assert(escape_char(c)[2] == escape_char(d)[2]);
        }
    }
}

/// In an escaped name every `%` starts an escape of three characters.
proof fn lemma_escape_percent(s: Seq<char>)
    ensures
        forall|k: int|
            0 <= k < escape_chars(s).len() && #[trigger] escape_chars(s)[k] == '%' ==> k + 2
                < escape_chars(s).len(),
    decreases s.len(),
{
    if s.len() > 0 {
        lemma_escape_percent(s.drop_last());
        lemma_escape_char_shape(s.last());
        let a = escape_chars(s.drop_last());
        let b = escape_char(s.last());
        assert forall|k: int| 0 <= k < (a + b).len() && #[trigger] (a + b)[k] == '%' implies k + 2 < (a
            + b).len() by {
            if k < a.len() {
                assert((a + b)[k] == a[k]);
            } else {
                assert((a + b)[k] == b[k - a.len()]);
            }
        }
    }
}

proof fn lemma_escape_chars_injective(s: Seq<char>, t: Seq<char>)
    requires
        escape_chars(s) == escape_chars(t),
    ensures
        s == t,
    decreases s.len() + t.len(),
{
    if s.len() == 0 || t.len() == 0 {
        assert(escape_chars(seq![]) == Seq::<char>::empty());
        if s.len() > 0 {
            lemma_escape_char_shape(s.last());
            assert(escape_chars(s).len() == escape_chars(s.drop_last()).len() + escape_char(
                s.last(),
            ).len());
        }
        if t.len() > 0 {
            lemma_escape_char_shape(t.last());
            assert(escape_chars(t).len() == escape_chars(t.drop_last()).len() + escape_char(
                t.last(),
            ).len());
        }
        assert(s =~= t);
    } else {
        let a = escape_chars(s.drop_last());
        let b = escape_chars(t.drop_last());
        let x = escape_char(s.last());
        let y = escape_char(t.last());
        lemma_escape_char_shape(s.last());
        lemma_escape_char_shape(t.last());
        lemma_escape_percent(s.drop_last());
        lemma_escape_percent(t.drop_last());
        let e = a + x;
        assert(e == b + y);
        if x.len() == 1 && y.len() == 3 {
            assert(e[e.len() - 3] == '%');
            assert(b.len() == e.len() - 3);
            assert(a.len() == e.len() - 1);
            assert(a[a.len() - 2] == e[e.len() - 3]);
            assert(false);
        } else if x.len() == 3 && y.len() == 1 {
            assert(e[e.len() - 3] == '%');
            assert(b.len() == e.len() - 1);
            assert(b[b.len() - 2] == e[e.len() - 3]);
            assert(false);
        }
        assert(x =~= e.subrange(e.len() - x.len(), e.len() as int));
        assert(y =~= e.subrange(e.len() - y.len(), e.len() as int));
        assert(a =~= e.subrange(0, a.len() as int));
        assert(b =~= e.subrange(0, b.len() as int));
        lemma_escape_chars_injective(s.drop_last(), t.drop_last());
        assert(s =~= s.drop_last().push(s.last()));
        assert(t =~= t.drop_last().push(t.last()));
    }
}

/// An escaped name whose third character from the end is `%` ends in an
/// escape, whose last character is a hex digit other than `E`.
proof fn lemma_escape_tail(s: Seq<char>)
    requires
        escape_chars(s).len() >= 3,
        escape_chars(s)[escape_chars(s).len() - 3] == '%',
    ensures
        escape_chars(s)[escape_chars(s).len() - 1] != 'E',
{
    reveal_strlit("%2F");
    reveal_strlit("%00");
    reveal_strlit("%25");
    lemma_escape_percent(s.drop_last());
    lemma_escape_char_shape(s.last());
    let a = escape_chars(s.drop_last());
    let x = escape_char(s.last());
    let e = a + x;
    if x.len() == 1 {
        assert(a[a.len() - 2] == e[e.len() - 3]);
        assert(false);
    } else {
        assert(x[2] == e[e.len() - 1]);
    }
}

proof fn lemma_escape_not_special(s: Seq<char>)
    ensures
        escape_chars(s) != "%"@,
        escape_chars(s) != "%2E"@,
        escape_chars(s) != "%2E%2E"@,
{
    reveal_strlit("%");
    reveal_strlit("%2E");
    reveal_strlit("%2E%2E");
    lemma_escape_percent(s);
    let e = escape_chars(s);
    if e == "%"@ {
        assert(e[0] == '%');
    }
    if e == "%2E"@ {
        assert(e[0] == '%' && e[2] == 'E');
        lemma_escape_tail(s);
    }
    if e == "%2E%2E"@ {
        assert(e[3] == '%' && e[5] == 'E');
        lemma_escape_tail(s);
    }
}

/// Different account names have different folder names.
pub proof fn lemma_folder_name_injective(name1: Seq<char>, name2: Seq<char>)
    requires
        folder_name_of(name1) == folder_name_of(name2),
    ensures
        name1 == name2,
{
    reveal_strlit("%");
    reveal_strlit("%2E");
    reveal_strlit("%2E%2E");
    let e1 = escape_chars(name1);
    let e2 = escape_chars(name2);
    lemma_escape_not_special(name1);
    lemma_escape_not_special(name2);
    assert("%"@.len() == 1 && "%2E"@.len() == 3 && "%2E%2E"@.len() == 6);
    assert(e1 == e2);
    lemma_escape_chars_injective(name1, name2);
}

/// The folder name of an account, which is always a safe folder name.
pub fn folder_name(name: &str) -> (r: String)
    ensures
        r@ == folder_name_of(name@),
        safe_folder_name(r@),
{
    let n = name.unicode_len();
    let mut out = String::new();
    let mut i: usize = 0;
    while i < n
        invariant
            n == name@.len(),
            i <= n,
            out@ == escape_chars(name@.subrange(0, i as int)),
        decreases n - i,
    {
        let c = name.get_char(i);
        let ghost prefix = name@.subrange(0, i as int + 1);
        assert(prefix.drop_last() =~= name@.subrange(0, i as int));
        assert(prefix.last() == c);
        if c == '/' {
            out.append("%2F");
        } else if c == '\0' {
            out.append("%00");
        } else if c == '%' {
            out.append("%25");
        } else {
            let one = name.substring_char(i, i + 1);
            assert(one@ =~= seq![c]);
            out.append(one);
        }
        i = i + 1;
    }
    assert(name@.subrange(0, n as int) =~= name@);
    proof {
        lemma_escape_chars_safe(name@);
        reveal_strlit("%");
        reveal_strlit("%2E");
        reveal_strlit("%2E%2E");
        reveal_strlit(".");
        reveal_strlit("..");
        assert("."@ =~= seq!['.']);
        assert(".."@ =~= seq!['.', '.']);
        assert(!"%"@.contains('/') && !"%"@.contains('\0'));
        assert(!"%2E"@.contains('/') && !"%2E"@.contains('\0'));
        assert(!"%2E%2E"@.contains('/') && !"%2E%2E"@.contains('\0'));
        assert("%"@[0] == '%' && seq!['.'][0] == '.' && seq!['.', '.'][0] == '.');
        assert("%"@ != seq!['.'] && "%"@ != seq!['.', '.']);
        assert("%2E"@ != seq!['.'] && "%2E"@ != seq!['.', '.']);
        assert("%2E%2E"@ != seq!['.'] && "%2E%2E"@ != seq!['.', '.']);
    }
    if out.as_str().unicode_len() == 0 {
        String::from_str("%")
    } else if out.eq(&String::from_str(".")) {
        String::from_str("%2E")
    } else if out.eq(&String::from_str("..")) {
        String::from_str("%2E%2E")
    } else {
        out
    }
}

/// The path of the credential database inside the base folder.
pub fn user_db_path(base_folder: &str) -> (r: String)
    ensures
        r@ == base_folder@ + "/"@ + USER_DB_FILE@,
{
    String::from_str(base_folder).concat("/").concat(USER_DB_FILE)
}

/// The account that a registration stores: trimmed email, the trimmed name
/// when it is not empty, and the trimmed password.
pub open spec fn registered_account(
    u: User,
    email: Seq<char>,
    name: Seq<char>,
    password: Seq<char>,
) -> bool {
    &&& u.id == 0
    &&& u.email@ == trim_of(email)
    &&& opt_view(u.name) == (if trim_of(name).len() == 0 {
        None::<Seq<char>>
    } else {
        Some(trim_of(name))
    })
    &&& opt_view(u.password) == Some(trim_of(password))
}

/// The outcome of a registration whose input was valid, from what the store
/// answered: a uniqueness violation on the email is a conflict, any other
/// failure is internal.
pub fn register_outcome(stored: Result<(), StoreError>) -> (r: RegisterOutcome)
    ensures
        stored is Ok ==> r is Success,
        stored matches Err(StoreError::Failure(m)) ==> (if m@ == UNIQUE_EMAIL_VIOLATION@ {
            r is AccountExists
        } else {
            r is Internal
        }),
        stored matches Err(StoreError::NoRows) ==> r is Internal,
        r matches RegisterOutcome::Internal(m) ==> m@ == "create account"@,
{
    match stored {
        Ok(()) => RegisterOutcome::Success,
        Err(StoreError::Failure(m)) => {
            if m.eq(&String::from_str(UNIQUE_EMAIL_VIOLATION)) {
                RegisterOutcome::AccountExists
            } else {
                RegisterOutcome::Internal(String::from_str("create account"))
            }
        },
        Err(StoreError::NoRows) => RegisterOutcome::Internal(String::from_str("create account")),
    }
}

/// The account that a registration of these (untrimmed) fields stores.
pub fn account_for_registration(email: &str, name: &str, password: &str) -> (r: User)
    ensures
        registered_account(r, email@, name@, password@),
{
    let email = trim(email);
    let name = trim(name);
    let password = trim(password);
    User {
        id: 0,
        email: String::from_str(email),
        name: if name.is_empty() {
            None
        } else {
            Some(String::from_str(name))
        },
        password: Some(String::from_str(password)),
    }
}

/// The step that a login takes from the credential lookup's answer.
pub open spec fn login_step_spec<C, S, M>(
    step: LoginStep,
    lookup: Result<Option<User>, StoreError>,
    sessions: Map<Seq<char>, Session<C, S, M>>,
    base: Seq<char>,
    name: Seq<char>,
    password: Seq<char>,
) -> bool {
    match lookup {
        Err(_) => step matches LoginStep::Failed(HttpError::Internal(_)),
        Ok(None) => step matches LoginStep::Failed(HttpError::Forbidden(_)),
        Ok(Some(_)) => if sessions.contains_key(session_key_of(name, password)) {
            step matches LoginStep::Ready(k) && k@ == session_key_of(name, password)
        } else {
            step matches LoginStep::NeedsSession { key, folder } && key@ == session_key_of(
                name,
                password,
            ) && folder@ == folder_of(base, folder_name_of(name))
        },
    }
}

/// The session key that a login step carries, if it got that far.
pub open spec fn step_key(step: LoginStep) -> Option<Seq<char>> {
    match step {
        LoginStep::Ready(k) => Some(k@),
        LoginStep::NeedsSession { key, folder } => Some(key@),
        LoginStep::Failed(_) => None,
    }
}

/// Two logins with the same name and password whose credentials were both
/// accepted carry the same session key, whatever sessions were live at each;
/// and once a session is live under that key, the later login reuses it
/// instead of asking for a new folder and media handle.
pub proof fn lemma_login_deterministic<C, S, M>(
    step1: LoginStep,
    step2: LoginStep,
    account1: User,
    account2: User,
    sessions1: Map<Seq<char>, Session<C, S, M>>,
    sessions2: Map<Seq<char>, Session<C, S, M>>,
    base: Seq<char>,
    name: Seq<char>,
    password: Seq<char>,
)
    requires
        login_step_spec(step1, Ok(Some(account1)), sessions1, base, name, password),
        login_step_spec(step2, Ok(Some(account2)), sessions2, base, name, password),
    ensures
        step_key(step1) is Some,
        step_key(step1) == step_key(step2),
        sessions2.contains_key(step_key(step1)->0) ==> step2 is Ready,
{
}

/// The first login of an account creates its session with no open
/// collection and no sync in progress, in a folder directly inside the base
/// folder whose name is the account's folder name; an authenticated operation under the
/// key that the login returned is then handed that session.
pub proof fn lemma_first_login_session<C, S, M>(
    step: LoginStep,
    account: User,
    sessions_before: Map<Seq<char>, Session<C, S, M>>,
    sessions_after: Map<Seq<char>, Session<C, S, M>>,
    base: Seq<char>,
    name: Seq<char>,
    password: Seq<char>,
    media: M,
)
    requires
        login_step_spec(step, Ok(Some(account)), sessions_before, base, name, password),
        step matches LoginStep::NeedsSession { key, folder } && fresh_session(
            sessions_after[key@],
            name,
            folder@,
            media,
        ),
    ensures
        !sessions_before.contains_key(session_key_of(name, password)),
        sessions_after[session_key_of(name, password)].folder@ == folder_of(
            base,
            folder_name_of(name),
        ),
        sessions_after[session_key_of(name, password)].name@ == name,
        sessions_after[session_key_of(name, password)].col is None,
        sessions_after[session_key_of(name, password)].sync_state is None,
{
}

/// A session as a login first creates it.
pub open spec fn fresh_session<C, S, M>(
    s: Session<C, S, M>,
    name: Seq<char>,
    folder: Seq<char>,
    media: M,
) -> bool {
    &&& s.name@ == name
    &&& s.folder@ == folder
    &&& s.media == media
    &&& s.col is None
    &&& s.sync_state is None
}

/// Server state: the base folder, the live sessions and the credential store.
pub struct SimpleServerInner<C, S, M> {
    base_folder: String,
    users: SessionRegistry<C, S, M>,
    user_db: UserDatabase,
}

impl<C, S, M> SimpleServerInner<C, S, M> {
    pub closed spec fn wf(&self) -> bool {
        self.users.wf()
    }

    /// The live sessions by session key.
    pub closed spec fn sessions(&self) -> Map<Seq<char>, Session<C, S, M>> {
        self.users@
    }

    pub closed spec fn base(&self) -> Seq<char> {
        self.base_folder@
    }

    /// The requests that the credential store accepted.
    pub closed spec fn store_log(&self) -> Seq<StoreRequest> {
        self.user_db.requests()
    }

    /// A server over an open credential store, with no session yet.
    pub fn with_database(base_folder: &str, user_db: UserDatabase) -> (r: SimpleServerInner<C, S, M>)
        ensures
            r.wf(),
            r.sessions() == Map::<Seq<char>, Session<C, S, M>>::empty(),
            r.base() == base_folder@,
            r.store_log() == user_db.requests(),
    {
        SimpleServerInner {
            base_folder: String::from_str(base_folder),
            users: SessionRegistry::new(),
            user_db,
        }
    }

    /// Opens the credential database inside an existing base folder.
    pub fn new_from_env(base_folder: &str) -> (r: Result<SimpleServerInner<C, S, M>, StoreError>)
        ensures
            r matches Ok(s) ==> s.wf() && s.sessions() == Map::<Seq<char>, Session<C, S, M>>::empty()
                && s.base() == base_folder@ && s.store_log() == setup_requests(
                base_folder@ + "/"@ + USER_DB_FILE@,
            ),
    {
        let path = user_db_path(base_folder);
        match UserDatabase::new(path.as_str()) {
            Ok(db) => Ok(SimpleServerInner::with_database(base_folder, db)),
            Err(e) => Err(e),
        }
    }

    /// Stores a new account.
    pub fn create_account(&mut self, account: &User) -> (r: Result<(), StoreError>)
        requires
            old(self).wf(),
        ensures
            final(self).wf(),
            final(self).sessions() == old(self).sessions(),
            final(self).base() == old(self).base(),
            r is Ok ==> final(self).store_log() == old(self).store_log().push(insert_request(*account)),
            r is Err ==> final(self).store_log() == old(self).store_log(),
            !(r matches Err(StoreError::NoRows)),
    {
        self.user_db.add_user(account)
    }

    /// The account with this email and password, if there is one.
    pub fn load_account_if(&mut self, name: &str, password: &str) -> (r: Result<Option<User>, StoreError>)
        requires
            old(self).wf(),
        ensures
            final(self).wf(),
            final(self).sessions() == old(self).sessions(),
            final(self).base() == old(self).base(),
            final(self).store_log() == old(self).store_log().push(lookup_request(name@, password@)),
            r matches Ok(Some(u)) ==> u.password is None,
            !(r matches Err(StoreError::NoRows)),
    {
        self.user_db.verify_user(name, password)
    }

    /// Whether a session is live under `key`.
    pub fn is_user_exists(&self, key: &str) -> (r: bool)
        requires
            self.wf(),
        ensures
            r == self.sessions().contains_key(key@),
    {
        self.users.contains_key(key)
    }

    /// Registers a fresh session for `name` under `hkey`, with its folder and
    /// media handle, unless one is live there already.
    pub fn create_user(&mut self, name: &str, hkey: &str, folder: String, media: M)
        requires
            old(self).wf(),
        ensures
            final(self).wf(),
            final(self).base() == old(self).base(),
            old(self).sessions().contains_key(hkey@) ==> final(self).sessions() == old(self).sessions(),
            !old(self).sessions().contains_key(hkey@) ==> final(self).sessions().dom() == old(self).sessions().dom().insert(hkey@),
            forall|q: Seq<char>|
                q != hkey@ && old(self).sessions().contains_key(q) ==> #[trigger] final(self).sessions()[q] == old(self).sessions()[q],
            !old(self).sessions().contains_key(hkey@) ==> fresh_session(
                final(self).sessions()[hkey@],
                name@,
                folder@,
                media,
            ),
            final(self).store_log() == old(self).store_log(),
    {
        let session = Session::new(String::from_str(name), folder, media);
        self.users.insert_if_absent(String::from_str(hkey), session);
    }

    /// Registers an account. An empty password or an email that the
    /// validator refuses is rejected before the store is touched; a second
    /// account with the same email is a conflict.
    pub fn register(&mut self, email: &str, name: &str, password: &str) -> (r: RegisterOutcome)
        requires
            old(self).wf(),
        ensures
            final(self).wf(),
            final(self).sessions() == old(self).sessions(),
            final(self).base() == old(self).base(),
            r is Success ==> exists|u: User|
                registered_account(u, email@, name@, password@) && final(self).store_log()
                    == old(self).store_log().push(insert_request(u)),
            !(r is Success) ==> final(self).store_log() == old(self).store_log(),
            trim_of(password@).len() == 0 ==> r is EmptyPassword,
            password@.len() == 0 ==> r is EmptyPassword,
            trim_of(password@).len() > 0 && !email_ok(trim_of(email@)) ==> r is BadEmail,
            trim_of(password@).len() > 0 && !email@.contains('@') ==> r is BadEmail,
            trim_of(password@).len() > 0 && email_ok(trim_of(email@)) ==> (r is Success
                || r is AccountExists || r is Internal),
            r matches RegisterOutcome::Internal(m) ==> m@ == "create account"@,
    {
        let trimmed_email = trim(email);
        let trimmed_password = trim(password);
        if trimmed_password.is_empty() {
            return RegisterOutcome::EmptyPassword;
        }
        if !validate_email(trimmed_email) {
            return RegisterOutcome::BadEmail;
        }
        proof {
            if !email@.contains('@') {
                assert(!trimmed_email@.contains('@'));
            }
        }
        let account = account_for_registration(email, name, password);
        register_outcome(self.create_account(&account))
    }

    /// The step that a login of `name` and `password` takes, given what the
    /// credential lookup answered.
    pub fn login_step_for(
        &self,
        lookup: Result<Option<User>, StoreError>,
        name: &str,
        password: &str,
    ) -> (r: LoginStep)
        requires
            self.wf(),
        ensures
            login_step_spec(r, lookup, self.sessions(), self.base(), name@, password@),
            r matches LoginStep::Ready(k) ==> k@.len() == 40,
            r matches LoginStep::NeedsSession { key, folder } ==> key@.len() == 40,
            r matches LoginStep::NeedsSession { key, folder } ==> folder@ == folder_of(
                self.base(),
                folder_name_of(name@),
            ) && safe_folder_name(folder_name_of(name@)),
    {
        match lookup {
            Err(_) => LoginStep::Failed(HttpError::Internal(String::from_str("load user fail"))),
            Ok(None) => LoginStep::Failed(
                HttpError::Forbidden(String::from_str("invalid user/pass in get_host_key")),
            ),
            Ok(Some(_)) => {
                let key = derive_hkey(name, password);
                if self.is_user_exists(key.as_str()) {
                    LoginStep::Ready(key)
                } else {
                    proof {
                        reveal_strlit("/");
                        assert("/"@ =~= seq!['/']);
                    }
                    let folder_name = folder_name(name);
                    let folder = self.base_folder.clone().concat("/").concat(folder_name.as_str());
                    assert(folder@ =~= folder_of(self.base(), folder_name_of(name@)));
                    LoginStep::NeedsSession { key, folder }
                }
            },
        }
    }

    /// The first half of a login: checks the credentials and says whether the
    /// session exists or must be created.
    pub fn get_host_key(&mut self, name: &str, password: &str) -> (r: LoginStep)
        requires
            old(self).wf(),
        ensures
            final(self).wf(),
            final(self).sessions() == old(self).sessions(),
            final(self).base() == old(self).base(),
            final(self).store_log() == old(self).store_log().push(
                lookup_request(trim_of(name@), trim_of(password@)),
            ),
            exists|lookup: Result<Option<User>, StoreError>|
                login_step_spec(
                    r,
                    lookup,
                    old(self).sessions(),
                    old(self).base(),
                    trim_of(name@),
                    trim_of(password@),
                ),
            r matches LoginStep::Ready(k) ==> k@.len() == 40,
            r matches LoginStep::NeedsSession { key, folder } ==> key@.len() == 40,
    {
        let name = trim(name);
        let password = trim(password);
        let lookup = self.load_account_if(name, password);
        let ghost g = lookup;
        let r = self.login_step_for(lookup, name, password);
        assert(login_step_spec(r, g, old(self).sessions(), old(self).base(), name@, password@));
        r
    }

    /// The second half of a login whose session must be created: registers
    /// the session, named by the trimmed account name, with its media handle and returns its key, or reports an
    /// internal failure when the folder or the media handle could not be made.
    pub fn finish_host_key(
        &mut self,
        name: &str,
        key: String,
        folder: String,
        media: Result<M, String>,
    ) -> (r: Result<String, HttpError>)
        requires
            old(self).wf(),
        ensures
            final(self).wf(),
            final(self).base() == old(self).base(),
            media is Err ==> (r matches Err(HttpError::Internal(_))),
            media is Err ==> final(self).sessions() == old(self).sessions(),
            media is Ok ==> (r matches Ok(k) && k@ == key@),
            media is Ok ==> final(self).sessions().contains_key(key@),
            (media is Ok && !old(self).sessions().contains_key(key@)) ==> final(self).sessions().dom() == old(self).sessions().dom().insert(key@) && fresh_session(
                final(self).sessions()[key@],
                trim_of(name@),
                folder@,
                media->Ok_0,
            ),
            old(self).sessions().contains_key(key@) ==> final(self).sessions() == old(self).sessions(),
            forall|q: Seq<char>|
                q != key@ && old(self).sessions().contains_key(q) ==> #[trigger] final(
                    self).sessions()[q] == old(self).sessions()[q],
            final(self).store_log() == old(self).store_log(),
    {
        let name = trim(name);
        match media {
            Ok(m) => {
                self.create_user(name, key.as_str(), folder, m);
                Ok(key)
            },
            Err(_) => Err(HttpError::Internal(String::from_str("create user fail"))),
        }
    }

    /// Runs `op` with exclusive access to the session under `sync_key` and
    /// returns its result unchanged; `Forbidden`, without running `op`, when
    /// no session is live under that key.
    pub fn with_authenticated_user<F, O>(&mut self, sync_key: &str, op: F) -> (r: Result<
        O,
        HttpError,
    >)
        where
            F: FnOnce(&mut Session<C, S, M>) -> Result<O, HttpError>,
        requires
            old(self).wf(),
            forall|s: &mut Session<C, S, M>| op.requires((s,)),
        ensures
            final(self).store_log() == old(self).store_log(),
            final(self).wf(),
            final(self).base() == old(self).base(),
            final(self).sessions().dom() == old(self).sessions().dom(),
            !old(self).sessions().contains_key(sync_key@) ==> (r matches Err(
                HttpError::Forbidden(_),
            )),
            !old(self).sessions().contains_key(sync_key@) ==> final(self).sessions() == old(
                self).sessions(),
            forall|q: Seq<char>|
                q != sync_key@ && old(self).sessions().contains_key(q) ==> #[trigger] final(self).sessions()[q] == old(self).sessions()[q],
            old(self).sessions().contains_key(sync_key@) ==> exists|s: &mut Session<C, S, M>|
                *s == old(self).sessions()[sync_key@] && *final(s) == final(self).sessions()[sync_key@]
                    && op.ensures((s,), r),
    {
        match self.users.with_session_mut(sync_key, op) {
            Some(r) => r,
            None => Err(HttpError::Forbidden(String::from_str("invalid hkey"))),
        }
    }
}

} // verus!
