//! The user store: user records, lookups by name, adding and removing users,
//! and password hashing with Argon2id.
use vstd::prelude::*;

use argon2::password_hash::rand_core::OsRng;
use argon2::password_hash::{PasswordHash, PasswordHasher, PasswordVerifier, SaltString};
use argon2::Argon2;

use crate::text::same_text;
use vstd::string::StringSliceAdditionalSpecFns;

verus! {

/// What a user may do.
#[derive(Debug, Clone, Copy, PartialEq, Eq, Structural)]
pub enum Permission {
    Read,
    Write,
}

/// A user record.
#[derive(Debug, Clone)]
pub struct User {
    pub username: String,
    pub password_hash: String,
    pub home_dir: String,
    pub permissions: Vec<Permission>,
}

/// The mathematical value of a [`User`].
pub struct UserView {
    pub username: Seq<char>,
    pub password_hash: Seq<char>,
    pub home_dir: Seq<char>,
    pub permissions: Seq<Permission>,
}

impl View for User {
    type V = UserView;

    open spec fn view(&self) -> UserView {
        UserView {
            username: self.username@,
            password_hash: self.password_hash@,
            home_dir: self.home_dir@,
            permissions: self.permissions@,
        }
    }
}

/// The users file: all user records, in order.
#[derive(Debug, Clone)]
pub struct UsersFile {
    pub users: Vec<User>,
}

/// The records of `v` as values.
pub open spec fn users_view(v: Seq<User>) -> Seq<UserView> {
    Seq::new(v.len(), |i: int| v[i]@)
}

impl View for UsersFile {
    type V = Seq<UserView>;

    open spec fn view(&self) -> Seq<UserView> {
        users_view(self.users@)
    }
}

/// Errors of the user store.
#[derive(Debug)]
pub enum UserError {
    /// A user of this name already exists.
    AlreadyExists(String),
    /// Hashing the password failed (the hasher's message).
    PasswordHashing(String),
    /// A stored hash is not a valid PHC string (the parser's message).
    InvalidHash(String),
}

impl UserError {
    /// The error's message.
    pub fn message(&self) -> (m: String)
        ensures
            match self {
                UserError::AlreadyExists(name) => m@ == "User '"@ + name@ + "' already exists"@,
                UserError::PasswordHashing(e) => m@ == "Password hashing failed: "@ + e@,
                UserError::InvalidHash(e) => m@ == "Invalid password hash: "@ + e@,
            },
    {
        match self {
            UserError::AlreadyExists(name) => {
                let mut m = String::from_str("User '");
                m.append(name.as_str());
                m.append("' already exists");
                m
            },
            UserError::PasswordHashing(e) => {
                let mut m = String::from_str("Password hashing failed: ");
                m.append(e.as_str());
                m
            },
            UserError::InvalidHash(e) => {
                let mut m = String::from_str("Invalid password hash: ");
                m.append(e.as_str());
                m
            },
        }
    }
}

/// Index of the first user named `name` in `us`, or `us.len()` when there is none.
pub open spec fn position(us: Seq<UserView>, name: Seq<char>) -> nat
    decreases us.len(),
{
    if us.len() == 0 {
        0
    } else if us[0].username == name {
        0
    } else {
        1 + position(us.drop_first(), name)
    }
}

/// Whether some user in `us` is named `name`.
pub open spec fn has_user(us: Seq<UserView>, name: Seq<char>) -> bool {
    exists|i: int| 0 <= i < us.len() && #[trigger] us[i].username == name
}

/// The first user named `name`, if any (what [`UsersFile::find_user`] returns).
pub open spec fn lookup(us: Seq<UserView>, name: Seq<char>) -> Option<UserView> {
    if position(us, name) < us.len() {
        Some(us[position(us, name) as int])
    } else {
        None
    }
}

/// `us` without the users named `name`, in order.
pub open spec fn without(us: Seq<UserView>, name: Seq<char>) -> Seq<UserView>
    decreases us.len(),
{
    if us.len() == 0 {
        seq![]
    } else if us.last().username == name {
        without(us.drop_last(), name)
    } else {
        without(us.drop_last(), name).push(us.last())
    }
}

/// No two users share a name.
pub open spec fn names_unique(us: Seq<UserView>) -> bool {
    forall|i: int, j: int|
        0 <= i < us.len() && 0 <= j < us.len() && i != j ==> #[trigger] us[i].username
            != #[trigger] us[j].username
}

// ---------------------------------------------------------------------------
// Argon2 (through the `argon2` crate)
// ---------------------------------------------------------------------------

#[verifier::external_type_specification]
#[verifier::external_body]
pub struct ExPasswordHashError(argon2::password_hash::Error);

/// Whether `PasswordHash::new` accepts `hash` as a PHC string.
pub uninterp spec fn phc_string_valid(hash: Seq<char>) -> bool;

/// Whether `Argon2::default().verify_password` accepts `password` against the
/// parsed PHC string `hash`.
pub uninterp spec fn argon2_accepts(password: Seq<char>, hash: Seq<char>) -> bool;

/// A PHC string of the Argon2id algorithm: it begins `$argon2id$`.
pub open spec fn argon2id_phc(hash: Seq<char>) -> bool {
    "$argon2id$"@.is_prefix_of(hash)
}

/// Hashes `password` with `Argon2::default()` (Argon2id, default parameters)
/// and a fresh salt drawn from `OsRng`, and writes the result as a PHC string.
/// The salt is random, so the string is not a function of the password; what
/// holds of every outcome is stated: hashing fails only for a password longer
/// than `argon2::MAX_PWD_LEN` bytes, the string it gives parses back and
/// verifies the same password (the verifier recomputes the hash from the
/// salt and parameters that the string holds), and it begins `$argon2id$`
/// (`PasswordHash`'s `Display` writes `$` and the algorithm's identifier
/// first, and the default algorithm is Argon2id).
#[verifier::external_body]
fn argon2_hash(password: &str) -> (r: Result<String, argon2::password_hash::Error>)
    ensures
        r is Ok <==> password.spec_bytes().len() <= 0xffff_ffff,
        r matches Ok(h) ==> phc_string_valid(h@) && argon2_accepts(password@, h@),
        r matches Ok(h) ==> argon2id_phc(h@),
{
    let salt = SaltString::generate(&mut OsRng);
    Argon2::default().hash_password(password.as_bytes(), &salt).map(|h| h.to_string())
}

/// Parses `hash` with `PasswordHash::new` and checks `password` against it
/// with `Argon2::default().verify_password`: an error when the string does
/// not parse, otherwise whether the password verifies.
#[verifier::external_body]
fn argon2_verify(password: &str, hash: &str) -> (r: Result<bool, argon2::password_hash::Error>)
    ensures
        r is Ok <==> phc_string_valid(hash@),
        r matches Ok(b) ==> b == argon2_accepts(password@, hash@),
{
    let parsed = PasswordHash::new(hash)?;
    Ok(Argon2::default().verify_password(password.as_bytes(), &parsed).is_ok())
}

/// The `Display` text of a `password_hash::Error`.
#[verifier::external_body]
fn hash_error_text(e: &argon2::password_hash::Error) -> String {
    e.to_string()
}

/// Hashes a password with Argon2id and a random salt. Success is owed for
/// every password of at most 2^32 - 1 bytes; the hash is an Argon2id PHC
/// string and verifies the password it was made from.
pub fn hash_password(password: &str) -> (r: Result<String, UserError>)
    ensures
        r is Ok <==> password.spec_bytes().len() <= 0xffff_ffff,
        r matches Ok(h) ==> phc_string_valid(h@) && argon2_accepts(password@, h@),
        r matches Ok(h) ==> argon2id_phc(h@),
        r matches Err(e) ==> e is PasswordHashing,
{
    match argon2_hash(password) {
        Ok(h) => Ok(h),
        Err(e) => Err(UserError::PasswordHashing(hash_error_text(&e))),
    }
}

/// Checks a password against a stored hash: an error when the hash is not a
/// PHC string, otherwise whether the password matches.
pub fn verify_password(password: &str, hash: &str) -> (r: Result<bool, UserError>)
    ensures
        r is Ok <==> phc_string_valid(hash@),
        r matches Ok(b) ==> b == argon2_accepts(password@, hash@),
        r matches Err(e) ==> e is InvalidHash,
{
    match argon2_verify(password, hash) {
        Ok(b) => Ok(b),
        Err(e) => Err(UserError::InvalidHash(hash_error_text(&e))),
    }
}

// ---------------------------------------------------------------------------
// Lemmas
// ---------------------------------------------------------------------------

proof fn lemma_position_at(us: Seq<UserView>, name: Seq<char>, i: int)
    requires
        0 <= i <= us.len(),
        forall|j: int| 0 <= j < i ==> us[j].username != name,
        i < us.len() ==> us[i].username == name,
    ensures
        position(us, name) == i,
    decreases i,
{
    if i > 0 {
        lemma_position_at(us.drop_first(), name, i - 1);
    }
}

proof fn lemma_position_bound(us: Seq<UserView>, name: Seq<char>)
    ensures
        position(us, name) <= us.len(),
        position(us, name) < us.len() ==> us[position(us, name) as int].username == name,
        forall|j: int| 0 <= j < position(us, name) ==> us[j].username != name,
    decreases us.len(),
{
    if us.len() > 0 && us[0].username != name {
        lemma_position_bound(us.drop_first(), name);
        assert forall|j: int| 0 <= j < position(us, name) implies us[j].username != name by {
            if j > 0 {
                assert(us[j] == us.drop_first()[j - 1]);
            }
        }
    }
}

/// The user found under a name bears that name.
pub proof fn lemma_lookup_named(us: Seq<UserView>, name: Seq<char>)
    ensures
        lookup(us, name) matches Some(u) ==> u.username == name,
{
    lemma_position_bound(us, name);
}

/// `position` finds a user exactly when one of that name exists.
pub proof fn lemma_position_has_user(us: Seq<UserView>, name: Seq<char>)
    ensures
        (position(us, name) < us.len()) == has_user(us, name),
{
    lemma_position_bound(us, name);
    if has_user(us, name) {
        let i = choose|i: int| 0 <= i < us.len() && #[trigger] us[i].username == name;
        assert(us[i].username == name);
    }
}

proof fn lemma_without_absent(us: Seq<UserView>, name: Seq<char>)
    ensures
        !has_user(without(us, name), name),
        without(us, name).len() <= us.len(),
        without(us, name).len() == us.len() <==> !has_user(us, name),
    decreases us.len(),
{
    if us.len() > 0 {
        let d = us.drop_last();
        lemma_without_absent(d, name);
        let r = without(us, name);
        let rd = without(d, name);
        if us.last().username != name {
            assert forall|i: int| 0 <= i < r.len() implies #[trigger] r[i].username != name by {
                if i < rd.len() {
                    assert(r[i] == rd[i]);
                    if rd[i].username == name {
                        assert(has_user(rd, name));
                    }
                }
            }
            if has_user(us, name) {
                let i = choose|i: int| 0 <= i < us.len() && #[trigger] us[i].username == name;
                assert(d[i].username == name);
                assert(has_user(d, name));
            }
            if has_user(d, name) {
                let i = choose|i: int| 0 <= i < d.len() && #[trigger] d[i].username == name;
                assert(us[i].username == name);
            }
        } else {
            assert(us[us.len() - 1].username == name);
            assert(has_user(us, name));
        }
    }
}

// ---------------------------------------------------------------------------
// The store
// ---------------------------------------------------------------------------

impl UsersFile {
    /// The first user named `username`.
    pub fn find_user(&self, username: &str) -> (r: Option<&User>)
        ensures
            r matches Some(u) ==> lookup(self@, username@) == Some(u@),
            r is None ==> lookup(self@, username@) is None,
    {
        let mut i: usize = 0;
        while i < self.users.len()
            invariant
                i <= self.users@.len(),
                forall|j: int| 0 <= j < i ==> self@[j].username != username@,
            decreases self.users@.len() - i,
        {
            if same_text(self.users[i].username.as_str(), username) {
                proof {
                    lemma_position_at(self@, username@, i as int);
                }
                return Some(&self.users[i]);
            }
            i = i + 1;
        }
        proof {
            lemma_position_at(self@, username@, i as int);
        }
        None
    }

    /// Whether some user is named `username`.
    fn contains(&self, username: &str) -> (b: bool)
        ensures
            b == has_user(self@, username@),
    {
        proof {
            lemma_position_has_user(self@, username@);
        }
        match self.find_user(username) {
            Some(_) => true,
            None => false,
        }
    }

    /// Adds a user with a freshly hashed password. Refused when a user of
    /// that name exists; otherwise the new record goes last, and success is
    /// owed unless the password is too long to hash.
    pub fn add_user(
        &mut self,
        username: String,
        password: &str,
        home_dir: String,
        permissions: Vec<Permission>,
    ) -> (r: Result<(), UserError>)
        ensures
            has_user(old(self)@, username@) ==> (r matches Err(UserError::AlreadyExists(n))
                && n@ == username@),
            !has_user(old(self)@, username@) ==> (r is Ok <==> password.spec_bytes().len()
                <= 0xffff_ffff),
            r is Ok ==> exists|h: Seq<char>|
                #![trigger argon2_accepts(password@, h)]
                phc_string_valid(h) && argon2_accepts(password@, h) && argon2id_phc(h) && final(self)@ == old(self)@.push(
                    UserView {
                        username: username@,
                        password_hash: h,
                        home_dir: home_dir@,
                        permissions: permissions@,
                    },
                ),
            r is Err ==> final(self)@ == old(self)@,
            r matches Err(e) ==> (e is AlreadyExists || e is PasswordHashing),
    {
        if self.contains(username.as_str()) {
            return Err(UserError::AlreadyExists(username));
        }
        let password_hash = hash_password(password)?;
        let user = User { username, password_hash, home_dir, permissions };
        self.users.push(user);
        assert(self@ =~= old(self)@.push(user@));
        Ok(())
    }

    /// Removes every user named `username`; true when one was removed.
    pub fn remove_user(&mut self, username: &str) -> (removed: bool)
        ensures
            final(self)@ == without(old(self)@, username@),
            removed == has_user(old(self)@, username@),
    {
        let ghost orig = self@;
        let mut rest: Vec<User> = Vec::new();
        std::mem::swap(&mut rest, &mut self.users);
        let len = rest.len();
        let mut k: usize = 0;
        while k < len
            invariant
                k <= len == orig.len(),
                rest@.len() == len - k,
                users_view(rest@) == orig.skip(k as int),
                users_view(self.users@) == without(orig.take(k as int), username@),
            decreases len - k,
        {
            let ghost old_rest = rest@;
            let u = rest.remove(0);
            proof {
                assert(users_view(old_rest)[0] == old_rest[0]@);
                assert(orig.skip(k as int)[0] == orig[k as int]);
                assert(u@ == orig[k as int]);
                assert forall|i: int| 0 <= i < rest@.len() implies #[trigger] users_view(rest@)[i]
                    == orig.skip(k + 1)[i] by {
                    assert(rest@[i] == old_rest[i + 1]);
                    assert(users_view(old_rest)[i + 1] == orig.skip(k as int)[i + 1]);
                }
                assert(orig.take(k + 1).drop_last() =~= orig.take(k as int));
                assert(orig.take(k + 1).last() == orig[k as int]);
            }
            if same_text(u.username.as_str(), username) {
            } else {
                self.users.push(u);
                assert(users_view(self.users@) =~= without(orig.take(k as int), username@).push(
                    u@,
                ));
            }
            k = k + 1;
            assert(users_view(rest@) =~= orig.skip(k as int));
        }
        assert(orig.take(len as int) =~= orig);
        proof {
            lemma_without_absent(orig, username@);
        }
        self.users.len() < len
    }

    /// Replaces the password hash of the first user named `username` with a
    /// fresh hash of `password`. `Ok(false)` when there is no such user.
    pub fn change_password(&mut self, username: &str, password: &str) -> (r: Result<
        bool,
        UserError,
    >)
        ensures
            !has_user(old(self)@, username@) ==> r == Ok::<bool, UserError>(false) && final(self)@
                == old(self)@,
            has_user(old(self)@, username@) ==> (r is Ok <==> password.spec_bytes().len()
                <= 0xffff_ffff),
            r matches Ok(b) ==> b == has_user(old(self)@, username@),
            r matches Ok(true) ==> exists|h: Seq<char>|
                #![trigger argon2_accepts(password@, h)]
                phc_string_valid(h) && argon2_accepts(password@, h) && argon2id_phc(h) && final(self)@ == old(self)@.update(
                    position(old(self)@, username@) as int,
                    UserView { password_hash: h, ..old(self)@[position(old(self)@, username@) as int] },
                ),
            r is Err ==> final(self)@ == old(self)@,
    {
        proof {
            lemma_position_has_user(self@, username@);
            lemma_position_bound(self@, username@);
        }
        let mut i: usize = 0;
        while i < self.users.len()
            invariant
                i <= self.users@.len(),
                self@ == old(self)@,
                forall|j: int| 0 <= j < i ==> self@[j].username != username@,
            decreases self.users@.len() - i,
        {
            if same_text(self.users[i].username.as_str(), username) {
                proof {
                    lemma_position_at(self@, username@, i as int);
                    assert(self@[i as int].username == username@);
                    assert(has_user(old(self)@, username@));
                }
                let h = hash_password(password)?;
                let mut u = self.users.remove(i);
                u.password_hash = h;
                self.users.insert(i, u);
                assert(self@ =~= old(self)@.update(
                    i as int,
                    UserView { password_hash: h@, ..old(self)@[i as int] },
                ));
                return Ok(true);
            }
            i = i + 1;
        }
        proof {
            lemma_position_at(self@, username@, i as int);
        }
        Ok(false)
    }
}

// ---------------------------------------------------------------------------
// Laws
// ---------------------------------------------------------------------------

/// Law: a user just added is the one found under its name, when no user of
/// that name existed before (which is when adding succeeds).
pub proof fn lemma_find_added(us: Seq<UserView>, u: UserView)
    requires
        !has_user(us, u.username),
    ensures
        lookup(us.push(u), u.username) == Some(u),
{
    lemma_position_has_user(us, u.username);
    lemma_position_bound(us, u.username);
    let s = us.push(u);
    assert forall|j: int| 0 <= j < us.len() implies s[j].username != u.username by {
        assert(s[j] == us[j]);
        if us[j].username == u.username {
            assert(has_user(us, u.username));
        }
    }
    lemma_position_at(s, u.username, us.len() as int);
}

/// Law: adding a user that does not exist keeps user names unique.
pub proof fn lemma_add_keeps_names_unique(us: Seq<UserView>, u: UserView)
    requires
        names_unique(us),
        !has_user(us, u.username),
    ensures
        names_unique(us.push(u)),
{
    let s = us.push(u);
    assert forall|i: int, j: int|
        0 <= i < s.len() && 0 <= j < s.len() && i != j implies #[trigger] s[i].username
            != #[trigger] s[j].username by {
        if i < us.len() && j < us.len() {
            assert(s[i] == us[i] && s[j] == us[j]);
        } else if i < us.len() {
            assert(s[i] == us[i]);
            if us[i].username == u.username {
                assert(has_user(us, u.username));
            }
        } else if j < us.len() {
            assert(s[j] == us[j]);
            if us[j].username == u.username {
                assert(has_user(us, u.username));
            }
        }
    }
}

/// Law: after a user is removed, no user of that name is found; the others
/// stay, in order, and removal reports whether there was one to remove.
pub proof fn lemma_removed_not_found(us: Seq<UserView>, name: Seq<char>)
    ensures
        lookup(without(us, name), name) is None,
        !has_user(without(us, name), name),
        (without(us, name).len() < us.len()) == has_user(us, name),
{
    lemma_without_absent(us, name);
    lemma_position_has_user(without(us, name), name);
}

} // verus!
