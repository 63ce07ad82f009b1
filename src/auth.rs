use vstd::prelude::*;
use vstd::utf8::encode_utf8;
use crate::text::same_text;
use crate::user::User;

verus! {

broadcast use vstd::string::group_string_axioms;

/// What a username must match: letters, digits, `_` and `-`, at least one.
pub const USERNAME_PATTERN: &'static str = "^[a-zA-Z0-9_-]+$";

/// A character allowed in a username: an ASCII letter or digit, `_` or `-`.
pub open spec fn username_char(c: char) -> bool {
    ('a' <= c && c <= 'z') || ('A' <= c && c <= 'Z') || ('0' <= c && c <= '9') || c == '_' || c
        == '-'
}

/// What `USERNAME_PATTERN` accepts: one or more username characters.
pub open spec fn username_chars(s: Seq<char>) -> bool {
    s.len() > 0 && forall|i: int| 0 <= i < s.len() ==> username_char(#[trigger] s[i])
}

/// Whether `password` matches the bcrypt hash `hash`, as bcrypt::verify
/// decides it; `None` where the hash is malformed.
pub uninterp spec fn bcrypt_verdict(password: Seq<char>, hash: Seq<char>) -> Option<bool>;

/// Relies on regex::Regex::new to compile `pattern` and Regex::is_match to
/// test `text` against it. For the username pattern, whose `^` and `$`
/// anchor the whole text and whose class is ASCII only, the pattern compiles
/// and matches exactly the non-empty texts of username characters.
#[verifier::external_body]
fn regex_matches(pattern: &str, text: &str) -> (r: Option<bool>)
    ensures
        pattern@ == USERNAME_PATTERN@ ==> r == Some(username_chars(text@)),
{
    match regex::Regex::new(pattern) {
        Ok(re) => Some(re.is_match(text)),
        Err(_) => None,
    }
}

/// Relies on bcrypt::hash: a hash of `password` at work factor `cost` with
/// a random salt, which bcrypt::verify accepts for `password`; `None` where
/// hashing fails (a cost out of range, no randomness).
#[verifier::external_body]
fn bcrypt_hash(password: &str, cost: u32) -> (r: Option<String>)
    ensures
        r matches Some(h) ==> bcrypt_verdict(password@, h@) == Some(true),
{
    bcrypt::hash(password, cost).ok()
}

/// Relies on bcrypt::verify: whether `password` matches `hash`.
#[verifier::external_body]
fn bcrypt_verify(password: &str, hash: &str) -> (r: Option<bool>)
    ensures
        r == bcrypt_verdict(password@, hash@),
{
    bcrypt::verify(password, hash).ok()
}

/// Relies on bcrypt::DEFAULT_COST, the work factor bcrypt recommends.
#[verifier::external_body]
fn bcrypt_default_cost() -> (r: u32)
    ensures
        r == 12,
{
    bcrypt::DEFAULT_COST
}

#[derive(Debug, Clone, Copy, PartialEq, Eq, Structural)]
pub enum AuthError {
    EmptyField,
    UsernameTooLong,
    InvalidUsernameFormat,
    PasswordTooShort,
    PasswordTooLong,
    UserExists,
    UserNotFound,
    InvalidPassword,
    HashFailed,
    VerifyFailed,
}

/// The text shown to the client for each error.
pub open spec fn error_text(e: AuthError) -> Seq<char> {
    match e {
        AuthError::EmptyField => "Username and password cannot be empty"@,
        AuthError::UsernameTooLong => "Username too long (max 32 characters)"@,
        AuthError::InvalidUsernameFormat => "Username can only contain letters, numbers, underscores, and hyphens"@,
        AuthError::PasswordTooShort => "Password must be at least 8 characters long"@,
        AuthError::PasswordTooLong => "Password too long (max 128 characters)"@,
        AuthError::UserExists => "Username already exists"@,
        AuthError::UserNotFound => "Username not found"@,
        AuthError::InvalidPassword => "Invalid password"@,
        AuthError::HashFailed => "Failed to hash password"@,
        AuthError::VerifyFailed => "Password verification failed"@,
    }
}

impl AuthError {
    /// The text shown to the client.
    pub fn message(&self) -> (r: &'static str)
        ensures
            r@ == error_text(*self),
    {
        match self {
            AuthError::EmptyField => "Username and password cannot be empty",
            AuthError::UsernameTooLong => "Username too long (max 32 characters)",
            AuthError::InvalidUsernameFormat => "Username can only contain letters, numbers, underscores, and hyphens",
            AuthError::PasswordTooShort => "Password must be at least 8 characters long",
            AuthError::PasswordTooLong => "Password too long (max 128 characters)",
            AuthError::UserExists => "Username already exists",
            AuthError::UserNotFound => "Username not found",
            AuthError::InvalidPassword => "Invalid password",
            AuthError::HashFailed => "Failed to hash password",
            AuthError::VerifyFailed => "Password verification failed",
        }
    }
}

/// Length in bytes of the UTF-8 encoding.
pub open spec fn byte_len(s: Seq<char>) -> nat {
    encode_utf8(s).len()
}

/// The username rules, `format_ok` standing for the pattern match.
pub open spec fn username_check(u: Seq<char>, format_ok: bool) -> Result<(), AuthError> {
    if u.len() == 0 {
        Err(AuthError::EmptyField)
    } else if byte_len(u) > 32 {
        Err(AuthError::UsernameTooLong)
    } else if !format_ok {
        Err(AuthError::InvalidUsernameFormat)
    } else {
        Ok(())
    }
}

pub open spec fn username_verdict(u: Seq<char>) -> Result<(), AuthError> {
    username_check(u, username_chars(u))
}

pub open spec fn password_verdict(p: Seq<char>) -> Result<(), AuthError> {
    if p.len() == 0 {
        Err(AuthError::EmptyField)
    } else if byte_len(p) < 8 {
        Err(AuthError::PasswordTooShort)
    } else if byte_len(p) > 128 {
        Err(AuthError::PasswordTooLong)
    } else {
        Ok(())
    }
}

/// The format checks: an empty field first, then the username rules, then
/// the password rules.
pub open spec fn credentials_verdict(u: Seq<char>, p: Seq<char>) -> Result<(), AuthError> {
    if u.len() == 0 || p.len() == 0 {
        Err(AuthError::EmptyField)
    } else {
        match username_verdict(u) {
            Err(e) => Err(e),
            Ok(()) => password_verdict(p),
        }
    }
}

/// A stored account: username and password hash.
pub type Account = (Seq<char>, Seq<char>);

pub open spec fn known(v: Seq<Account>, u: Seq<char>) -> bool {
    exists|i: int| 0 <= i < v.len() && #[trigger] v[i].0 == u
}

pub open spec fn unique_accounts(v: Seq<Account>) -> bool {
    forall|i: int, j: int| 0 <= i < j < v.len() ==> #[trigger] v[i].0 != #[trigger] v[j].0
}

/// The hash stored for `u`, where `u` is known.
pub open spec fn hash_of(v: Seq<Account>, u: Seq<char>) -> Seq<char> {
    v[choose|i: int| 0 <= i < v.len() && #[trigger] v[i].0 == u].1
}

/// A successful registration of `u` with `p`: the checks passed, `u` was
/// new, and one account was added whose hash accepts `p`.
pub open spec fn registered(before: Seq<Account>, after: Seq<Account>, u: Seq<char>, p: Seq<char>) -> bool {
    &&& credentials_verdict(u, p) is Ok
    &&& !known(before, u)
    &&& after.len() == before.len() + 1
    &&& after.drop_last() == before
    &&& after.last().0 == u
    &&& bcrypt_verdict(p, after.last().1) == Some(true)
}

/// What login of `u` with `p` answers on the accounts `v`.
pub open spec fn login_outcome(v: Seq<Account>, u: Seq<char>, p: Seq<char>) -> Result<(), AuthError> {
    match credentials_verdict(u, p) {
        Err(e) => Err(e),
        Ok(()) => if !known(v, u) {
            Err(AuthError::UserNotFound)
        } else {
            match bcrypt_verdict(p, hash_of(v, u)) {
                Some(true) => Ok(()),
                Some(false) => Err(AuthError::InvalidPassword),
                None => Err(AuthError::VerifyFailed),
            }
        },
    }
}

/// Checks a username against the rules, `format_ok` being whether it matched
/// the username pattern.
pub fn check_username(username: &str, format_ok: bool) -> (r: Result<(), AuthError>)
    ensures
        r == username_check(username@, format_ok),
{
    if username.is_empty() {
        return Err(AuthError::EmptyField);
    }
    if username.as_bytes().len() > 32 {
        return Err(AuthError::UsernameTooLong);
    }
    if !format_ok {
        return Err(AuthError::InvalidUsernameFormat);
    }
    Ok(())
}

/// The accounts, with one hash per username, and the file that mirrors them.
pub struct AuthManager {
    file_path: String,
    users: Vec<(String, String)>,
    cost: u32,
}

impl View for AuthManager {
    type V = Seq<Account>;

    closed spec fn view(&self) -> Seq<Account> {
        self.users@.map_values(|a: (String, String)| (a.0@, a.1@))
    }
}

impl AuthManager {
    pub open spec fn wf(&self) -> bool {
        unique_accounts(self@) && 4 <= self.cost() <= 31
    }

    pub closed spec fn path(&self) -> Seq<char> {
        self.file_path@
    }

    pub closed spec fn cost(&self) -> u32 {
        self.cost
    }

    /// No accounts yet, hashing at bcrypt's default work factor.
    pub fn new(file_path: &str) -> (r: AuthManager)
        ensures
            r.wf(),
            r@.len() == 0,
            r.path() == file_path@,
            r.cost() == 12,
    {
        AuthManager { file_path: file_path.to_owned(), users: Vec::new(), cost: bcrypt_default_cost() }
    }

    /// No accounts yet, hashing at work factor `cost`.
    pub fn with_cost(file_path: &str, cost: u32) -> (r: AuthManager)
        requires
            4 <= cost <= 31,
        ensures
            r.wf(),
            r@.len() == 0,
            r.path() == file_path@,
            r.cost() == cost,
    {
        AuthManager { file_path: file_path.to_owned(), users: Vec::new(), cost }
    }

    fn position(&self, username: &str) -> (r: Option<usize>)
        ensures
            match r {
                Some(i) => i < self@.len() && self@[i as int].0 == username@,
                None => !known(self@, username@),
            },
    {
        let mut i: usize = 0;
        while i < self.users.len()
            invariant
                i <= self@.len(),
                self@.len() == self.users@.len(),
                forall|k: int| 0 <= k < i ==> self@[k].0 != username@,
            decreases self.users@.len() - i,
        {
            if same_text(self.users[i].0.as_str(), username) {
                return Some(i);
            }
            i += 1;
        }
        None
    }

    /// Adds a stored account as it was read back; false, with nothing changed,
    /// where the username is already there.
    pub fn restore_user(&mut self, username: String, hash: String) -> (r: bool)
        requires
            old(self).wf(),
        ensures
            final(self).wf(),
            r == !known(old(self)@, username@),
            r ==> final(self)@ == old(self)@.push((username@, hash@)),
            !r ==> final(self)@ == old(self)@,
            final(self).path() == old(self).path(),
            final(self).cost() == old(self).cost(),
    {
        let ghost before = self@;
        match self.position(username.as_str()) {
            Some(_) => false,
            None => {
                let ghost e = (username@, hash@);
                self.users.push((username, hash));
                assert(self@ =~= before.push(e));
                true
            },
        }
    }

    /// The accounts as they stand, for mirroring to the file.
    pub fn users(&self) -> (r: &Vec<(String, String)>)
        ensures
            r@.map_values(|a: (String, String)| (a.0@, a.1@)) == self@,
    {
        &self.users
    }

    pub fn file_path(&self) -> (r: &str)
        ensures
            r@ == self.path(),
    {
        self.file_path.as_str()
    }

    pub fn validate_username(&self, username: &str) -> (r: Result<(), AuthError>)
        ensures
            r == username_verdict(username@),
    {
        let format_ok = match regex_matches(USERNAME_PATTERN, username) {
            Some(b) => b,
            None => false,
        };
        check_username(username, format_ok)
    }

    pub fn validate_password(&self, password: &str) -> (r: Result<(), AuthError>)
        ensures
            r == password_verdict(password@),
    {
        if password.is_empty() {
            return Err(AuthError::EmptyField);
        }
        if password.as_bytes().len() < 8 {
            return Err(AuthError::PasswordTooShort);
        }
        if password.as_bytes().len() > 128 {
            return Err(AuthError::PasswordTooLong);
        }
        Ok(())
    }

    /// The format checks of a username and password, in their fixed order.
    pub fn validate_credentials(&self, username: &str, password: &str) -> (r: Result<(), AuthError>)
        ensures
            r == credentials_verdict(username@, password@),
    {
        if username.is_empty() || password.is_empty() {
            return Err(AuthError::EmptyField);
        }
        match self.validate_username(username) {
            Err(e) => Err(e),
            Ok(()) => self.validate_password(password),
        }
    }

    /// Creates an account. The format checks come first, then the username
    /// must be new; the password is kept only as a salted hash.
    pub fn register(&mut self, username: &str, password: &str) -> (r: Result<User, AuthError>)
        requires
            old(self).wf(),
        ensures
            final(self).wf(),
            final(self).path() == old(self).path(),
            final(self).cost() == old(self).cost(),
            match credentials_verdict(username@, password@) {
                Err(e) => r == Err::<User, AuthError>(e) && final(self)@ == old(self)@,
                Ok(()) => if known(old(self)@, username@) {
                    r == Err::<User, AuthError>(AuthError::UserExists) && final(self)@ == old(self)@
                } else {
                    match r {
                        Ok(user) => user.name@ == username@ && registered(
                            old(self)@,
                            final(self)@,
                            username@,
                            password@,
                        ),
                        Err(e) => e == AuthError::HashFailed && final(self)@ == old(self)@,
                    }
                },
            },
    {
        let ghost before = self@;
        match self.validate_credentials(username, password) {
            Err(e) => return Err(e),
            Ok(()) => {},
        }
        if self.position(username).is_some() {
            return Err(AuthError::UserExists);
        }
        match bcrypt_hash(password, self.cost) {
            None => Err(AuthError::HashFailed),
            Some(h) => {
                let ghost e = (username@, h@);
                self.users.push((username.to_owned(), h));
                assert(self@ =~= before.push(e));
                assert(self@.drop_last() =~= before);
                Ok(User::new(username.to_owned(), String::new()))
            },
        }
    }

    /// Checks a username and password against the stored accounts.
    pub fn login(&self, username: &str, password: &str) -> (r: Result<User, AuthError>)
        requires
            self.wf(),
        ensures
            r is Ok == login_outcome(self@, username@, password@) is Ok,
            r matches Ok(user) ==> user.name@ == username@,
            r matches Err(e) ==> login_outcome(self@, username@, password@) == Err::<(), AuthError>(e),
    {
        match self.validate_credentials(username, password) {
            Err(e) => return Err(e),
            Ok(()) => {},
        }
        match self.position(username) {
            None => Err(AuthError::UserNotFound),
            Some(i) => {
                proof {
                    let j = choose|j: int| 0 <= j < self@.len() && #[trigger] self@[j].0 == username@;
                    if j < i {
                        assert(self@[j].0 != self@[i as int].0);
                    } else if j > i {
                        assert(self@[i as int].0 != self@[j].0);
                    }
                    assert(hash_of(self@, username@) == self@[i as int].1);
                }
                match bcrypt_verify(password, self.users[i].1.as_str()) {
                    Some(true) => Ok(User::new(username.to_owned(), String::new())),
                    Some(false) => Err(AuthError::InvalidPassword),
                    None => Err(AuthError::VerifyFailed),
                }
            },
        }
    }
}

/// Registration followed at once by login with the same username and
/// password succeeds.
pub proof fn lemma_register_then_login(
    before: Seq<Account>,
    after: Seq<Account>,
    u: Seq<char>,
    p: Seq<char>,
)
    requires
        unique_accounts(before),
        registered(before, after, u, p),
    ensures
        login_outcome(after, u, p) == Ok::<(), AuthError>(()),
{
    let last = after.len() - 1;
    assert(after[last].0 == u);
    assert(known(after, u));
    assert forall|j: int| 0 <= j < after.len() && #[trigger] after[j].0 == u implies j == last by {
        if j != last {
            assert(after.drop_last()[j] == after[j]);
            assert(before[j].0 == u);
            assert(known(before, u));
        }
    }
    assert(hash_of(after, u) == after.last().1);
}

} // verus!
