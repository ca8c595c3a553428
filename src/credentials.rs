use vstd::prelude::*;
use crate::error::AppError;
use crate::users::User;
use crate::text::digit_chars;

verus! {

/// The bcrypt work factor of stored passwords.
pub const BCRYPT_COST: u32 = 8;

/// What `bcrypt::verify` answers for a password and a stored hash: `None` when
/// the hash is malformed.
pub uninterp spec fn bcrypt_check(password: Seq<char>, hash: Seq<char>) -> Option<bool>;

#[verifier::external_type_specification]
#[verifier::external_body]
pub struct ExBcryptError(bcrypt::BcryptError);

/// The start of a bcrypt hash of the given cost: `$2b$`, the cost in two
/// digits, `$`.
pub open spec fn bcrypt_prefix(cost: u32) -> Seq<char> {
    seq!['$', '2', 'b', '$', digit_chars()[(cost / 10) as int], digit_chars()[(cost % 10) as int], '$']
}

/// Relies on `bcrypt::hash`: hashes with a fresh random salt at the given cost,
/// which must lie in 4..=31, and formats the result as `$2b$`, the cost in two
/// digits, `$`, 22 salt characters and 31 hash characters. That result records
/// cost and salt, so `bcrypt::verify` of any password against it re-hashes
/// without error, and for the same password answers true.
#[verifier::external_body]
fn bcrypt_hash(password: &str, cost: u32) -> (r: Result<String, bcrypt::BcryptError>)
    ensures
        r is Ok ==> 4 <= cost <= 31,
        r is Ok ==> r->Ok_0@.len() == 60 && r->Ok_0@.take(7) == bcrypt_prefix(cost),
        r is Ok ==> bcrypt_check(password@, r->Ok_0@) == Some(true),
        r is Ok ==> forall|other: Seq<char>| #[trigger] bcrypt_check(other, r->Ok_0@) is Some,
{
    bcrypt::hash(password, cost)
}

/// Relies on `bcrypt::verify`: re-hashes the password with the stored cost and
/// salt and compares; fails on a malformed hash. It depends on its two
/// arguments alone.
#[verifier::external_body]
fn bcrypt_verify(password: &str, hash: &str) -> (r: Result<bool, bcrypt::BcryptError>)
    ensures
        match r {
            Ok(b) => bcrypt_check(password@, hash@) == Some(b),
            Err(_) => bcrypt_check(password@, hash@) is None,
        },
{
    bcrypt::verify(password, hash)
}

/// The phones whose accounts are administrators.
pub open spec fn is_admin_phone(phone: Seq<char>) -> bool {
    phone == "59157423"@ || phone == "58583886"@ || phone == "58945879"@
}

/// The role that a new account with this phone gets.
pub open spec fn role_for(phone: Seq<char>) -> Seq<char> {
    if is_admin_phone(phone) { "admin"@ } else { "user"@ }
}

/// Password hashing and checking, with an operator's master password that
/// opens every account.
#[derive(Clone)]
pub struct AuthService {
    master_password: String,
}

impl AuthService {
    pub closed spec fn master(&self) -> Seq<char> {
        self.master_password@
    }

    pub fn new(master_password: String) -> (r: AuthService)
        ensures
            r.master() == master_password@,
    {
        AuthService { master_password }
    }

    /// Hashes a password with bcrypt at cost 8: a 60-character hash starting
    /// `$2b$08$`, against which this password verifies and any other password
    /// can be checked without error.
    pub fn hash_password(&self, password: &str) -> (r: Result<String, AppError>)
        ensures
            match r {
                Ok(h) => {
                    &&& h@.len() == 60
                    &&& h@.take(7) == "$2b$08$"@
                    &&& bcrypt_check(password@, h@) == Some(true)
                    &&& forall|other: Seq<char>| #[trigger] bcrypt_check(other, h@) is Some
                },
                Err(e) => e is ServerError,
            },
    {
        match bcrypt_hash(password, BCRYPT_COST) {
            Ok(h) => {
                proof {
                    reveal_strlit("$2b$08$");
                    assert(digit_chars()[0] == '0' && digit_chars()[8] == '8');
                    assert(bcrypt_prefix(BCRYPT_COST) =~= "$2b$08$"@);
                }
                Ok(h)
            },
            Err(_) => Err(AppError::ServerError(String::from_str("Error al hashear contraseña"))),
        }
    }

    /// Checks a password against a stored bcrypt hash.
    pub fn verify_password(&self, password: &str, hash: &str) -> (r: Result<bool, AppError>)
        ensures
            match bcrypt_check(password@, hash@) {
                Some(b) => r == Ok::<bool, AppError>(b),
                None => r is Err && r->Err_0 is ServerError,
            },
    {
        match bcrypt_verify(password, hash) {
            Ok(b) => Ok(b),
            Err(_) => Err(AppError::ServerError(String::from_str("Error al verificar contraseña"))),
        }
    }

    /// The role of a new account: administrator for the listed phones.
    pub fn assign_role(&self, phone: &str) -> (r: String)
        ensures
            r@ == role_for(phone@),
    {
        if crate::text::same_text(phone, "59157423") || crate::text::same_text(phone, "58583886")
            || crate::text::same_text(phone, "58945879") {
            String::from_str("admin")
        } else {
            String::from_str("user")
        }
    }

    /// Checks login credentials: the master password is accepted for every
    /// account before the stored hash is consulted.
    pub fn verify_credentials(&self, user: &User, password: &str) -> (r: Result<bool, AppError>)
        ensures
            password@ == self.master() ==> r == Ok::<bool, AppError>(true),
            password@ != self.master() ==> match bcrypt_check(password@, user.password@) {
                Some(b) => r == Ok::<bool, AppError>(b),
                None => r is Err && r->Err_0 is ServerError,
            },
    {
        if crate::text::same_text(password, self.master_password.as_str()) {
            Ok(true)
        } else {
            self.verify_password(password, user.password.as_str())
        }
    }
}

} // verus!
