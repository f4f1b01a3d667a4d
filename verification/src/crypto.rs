//! The credential store: passwords are hashed with scrypt under a fresh
//! random salt and kept as PHC strings.

use vstd::prelude::*;
use rand_core::OsRng;
use scrypt::password_hash::{PasswordHash, PasswordHasher, PasswordVerifier, SaltString};
use scrypt::Scrypt;
use crate::models::users::{InsertableUser, InsertableUserView, User};
use crate::routes::users::{NewUser, NewUserView};
use crate::text::starts_with;

verus! {

/// The PHC string that scrypt, with its recommended parameters, computes for
/// a password under a salt; `None` where it refuses the salt.
pub uninterp spec fn scrypt_hash(password: Seq<char>, salt: Seq<char>) -> Option<Seq<char>>;

/// Whether scrypt accepts a password for a stored hash. A string that is no
/// PHC string accepts no password.
pub uninterp spec fn scrypt_verifies(password: Seq<char>, hash: Seq<char>) -> bool;

/// How every hash begins that scrypt computes under a salt: the name of the
/// algorithm, its recommended parameters, the salt, each after a `$`, and
/// the `$` before the output.
pub open spec fn phc_head(salt: Seq<char>) -> Seq<char> {
    "$scrypt$ln=15,r=8,p=1$"@ + salt + "$"@
}

/// The salt holds no `$`.
pub open spec fn no_separator(salt: Seq<char>) -> bool {
    forall|i: int| 0 <= i < salt.len() ==> #[trigger] salt[i] != '$'
}

/// A hash made under a salt: it begins as every such hash does, and the
/// salt holds no `$`.
pub open spec fn salted(hash: Seq<char>, salt: Seq<char>) -> bool {
    starts_with(hash, phc_head(salt)) && no_separator(salt)
}

/// A string that is no PHC string at the first glance: it is empty or does
/// not begin with `$`.
pub open spec fn malformed(hash: Seq<char>) -> bool {
    hash.len() == 0 || hash[0] != '$'
}

/// Calls `SaltString::generate` of `password-hash` with the operating
/// system's random number generator and returns the salt's text. The salt
/// is random. The contract claims that scrypt accepts it for every
/// password: the salt is sixteen bytes written as twenty-two characters of
/// the alphabet that `hash_password` asks for, and hashing with the
/// recommended parameters has no other way to fail.
#[verifier::external_body]
fn fresh_salt() -> (r: String)
    ensures
        forall|password: Seq<char>| #[trigger] scrypt_hash(password, r@) is Some,
{
    SaltString::generate(&mut OsRng).as_str().to_string()
}

/// Calls `PasswordHasher::hash_password` on `Scrypt` and renders the result
/// as a PHC string. The call is a function of the password and the salt
/// alone, so its result has a name. The contract claims two things more.
/// A hash that the call produced verifies the password it was made from,
/// since verification recomputes the hash from the salt and parameters that
/// the string carries and compares the two outputs. And the string is
/// written as algorithm, parameters, salt and output, each after a `$`,
/// with a salt that the call accepts only where it holds no `$`.
#[verifier::external_body]
fn scrypt_phc(password: &str, salt: &str) -> (r: Option<String>)
    ensures
        match r {
            Some(h) => scrypt_hash(password@, salt@) == Some(h@) && scrypt_verifies(
                password@,
                h@,
            ) && salted(h@, salt@),
            None => scrypt_hash(password@, salt@) is None,
        },
{
    match Scrypt.hash_password(password.as_bytes(), salt) {
        Ok(hash) => Some(hash.to_string()),
        Err(_) => None,
    }
}

/// Parses the stored hash with `PasswordHash::new` and calls
/// `PasswordVerifier::verify_password` on `Scrypt`. A hash that does not
/// parse, and any error of the verification, count as a password that does
/// not match; the parser refuses the empty string and every string that
/// does not begin with `$`. The call works with the cost parameters that
/// the stored hash names: it takes the time and the memory that they ask
/// for.
#[verifier::external_body]
fn scrypt_check(password: &str, hash: &str) -> (r: bool)
    ensures
        r == scrypt_verifies(password@, hash@),
        malformed(hash@) ==> !r,
{
    match PasswordHash::new(hash) {
        Ok(parsed) => Scrypt.verify_password(password.as_bytes(), &parsed).is_ok(),
        Err(_) => false,
    }
}

/// Hashes a password under the given salt. `None` where scrypt refuses the
/// salt.
pub fn encrypt_pw_with_salt(pw: &str, salt: &str) -> (r: Option<String>)
    ensures
        match r {
            Some(h) => scrypt_hash(pw@, salt@) == Some(h@) && scrypt_verifies(pw@, h@)
                && salted(h@, salt@),
            None => scrypt_hash(pw@, salt@) is None,
        },
{
    scrypt_phc(pw, salt)
}

/// Hashes a password under a fresh random salt. The result is the hash that
/// scrypt computes for the password under the salt that was drawn; it
/// carries that salt and verifies the password it was made from.
pub fn encrypt_pw(pw: &str) -> (r: String)
    ensures
        exists|salt: Seq<char>|
            #![trigger scrypt_hash(pw@, salt)]
            scrypt_hash(pw@, salt) == Some(r@) && salted(r@, salt),
        scrypt_verifies(pw@, r@),
{
    let salt = fresh_salt();
    assert(scrypt_hash(pw@, salt@) is Some);
    let hash = encrypt_pw_with_salt(pw, salt.as_str()).unwrap();
    assert(scrypt_hash(pw@, salt@) == Some(hash@) && salted(hash@, salt@));
    hash
}

/// Two hashes made under different salts are different strings, whatever
/// the passwords.
pub proof fn lemma_salted_hashes_differ(
    first: Seq<char>,
    first_salt: Seq<char>,
    second: Seq<char>,
    second_salt: Seq<char>,
)
    requires
        salted(first, first_salt),
        salted(second, second_salt),
        first_salt != second_salt,
    ensures
        first != second,
{
    let head = "$scrypt$ln=15,r=8,p=1$"@;
    let a = phc_head(first_salt);
    let b = phc_head(second_salt);
    let n = head.len() as int;
    if first == second {
        let h = first;
        assert(h.subrange(0, a.len() as int) == a);
        assert(h.subrange(0, b.len() as int) == b);
        assert forall|i: int| 0 <= i < a.len() implies h[i] == a[i] by {
            assert(h.subrange(0, a.len() as int)[i] == h[i]);
        }
        assert forall|i: int| 0 <= i < b.len() implies h[i] == b[i] by {
            assert(h.subrange(0, b.len() as int)[i] == h[i]);
        }
        reveal_strlit("$");
        assert(a.len() == n + first_salt.len() + 1);
        assert(b.len() == n + second_salt.len() + 1);
        if first_salt.len() == second_salt.len() {
            assert forall|i: int| 0 <= i < first_salt.len() implies first_salt[i]
                == second_salt[i] by {
                assert(a[n + i] == first_salt[i]);
                assert(b[n + i] == second_salt[i]);
                assert(h[n + i] == a[n + i]);
                assert(h[n + i] == b[n + i]);
            }
            assert(first_salt =~= second_salt);
        } else if first_salt.len() < second_salt.len() {
            let k = first_salt.len() as int;
            assert(a[n + k] == '$');
            assert(b[n + k] == second_salt[k]);
            assert(h[n + k] == a[n + k]);
            assert(h[n + k] == b[n + k]);
        } else {
            let k = second_salt.len() as int;
            assert(b[n + k] == '$');
            assert(a[n + k] == first_salt[k]);
            assert(h[n + k] == a[n + k]);
            assert(h[n + k] == b[n + k]);
        }
    }
}

impl User {
    /// Whether `password` is this user's password. A stored hash that is
    /// malformed matches no password.
    pub fn verify(&self, password: &str) -> (r: bool)
        ensures
            r == scrypt_verifies(password@, self.pw_hash@),
            malformed(self.pw_hash@) ==> !r,
    {
        scrypt_check(password, self.pw_hash.as_str())
    }
}

/// The user that a creation request asks for, once its password is hashed.
pub open spec fn insertable(new_user: NewUserView, pw_hash: Seq<char>, orig: bool)
    -> InsertableUserView {
    InsertableUserView {
        username: new_user.username,
        pw_hash,
        orig,
        manage_links: new_user.manage_links,
        manage_users: new_user.manage_users,
    }
}

impl InsertableUser {
    /// The user that a creation request asks for, with the hash of its
    /// password.
    pub fn with_hash(new_user: NewUser, pw_hash: String, orig: bool) -> (r: InsertableUser)
        ensures
            r@ == insertable(new_user@, pw_hash@, orig),
    {
        InsertableUser {
            username: new_user.username,
            pw_hash,
            orig,
            manage_links: new_user.manage_links,
            manage_users: new_user.manage_users,
        }
    }

    /// Hashes the password of a creation request under a fresh random salt
    /// and builds the user to insert: the request's name and permissions,
    /// with the hash that scrypt computes for its password under the salt
    /// that was drawn.
    pub fn new_from_plain(new_user: NewUser, orig: bool) -> (r: InsertableUser)
        ensures
            r@ == insertable(new_user@, r.pw_hash@, orig),
            exists|salt: Seq<char>|
                #![trigger scrypt_hash(new_user@.password, salt)]
                scrypt_hash(new_user@.password, salt) == Some(r.pw_hash@) && salted(
                    r.pw_hash@,
                    salt,
                ),
            scrypt_verifies(new_user@.password, r.pw_hash@),
    {
        let pw_hash = encrypt_pw(new_user.password.as_str());
        let ghost salt = choose|salt: Seq<char>|
            #![trigger scrypt_hash(new_user@.password, salt)]
            scrypt_hash(new_user@.password, salt) == Some(pw_hash@) && salted(pw_hash@, salt);
        let r = InsertableUser::with_hash(new_user, pw_hash, orig);
        assert(scrypt_hash(new_user@.password, salt) == Some(r.pw_hash@) && salted(
            r.pw_hash@,
            salt,
        ));
        r
    }
}

} // verus!
