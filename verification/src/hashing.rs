//! Hashing secrets with Argon2, and checking secrets against stored hashes.
//!
//! The hashing itself is the `argon2` crate's, and a fresh salt comes from
//! the operating system through `rand_core`. What this module trusts of the
//! two is stated on the four private functions that call them.
//!
//! A stored text is handed to Argon2 only where it has the shape of a hash
//! that can be checked against: it parses as a hash string, it holds a salt
//! and a digest, and it asks for no more lanes than Argon2 has. Any other
//! text is a corrupt record.

use crate::secret::Secret;
use crate::text::{chars_of, decimal, is_number, parse_decimal, same_text};
use vstd::prelude::*;

verus! {

/// A salt: sixteen bytes, the length that the hash string format recommends.
pub type Salt = [u8; 16];

/// What checking a secret against a stored hash comes to.
#[derive(Clone, Copy, Debug, PartialEq, Eq, Structural)]
pub enum Verdict {
    /// The secret is the one that was hashed.
    Match,
    /// The secret is another one.
    Mismatch,
    /// The stored text cannot be checked against: it is no hash string, it
    /// lacks a salt or a digest, it asks for more lanes than Argon2 has, or
    /// it names an algorithm, a version or parameters that are not Argon2's.
    Unusable,
}

/// The most lanes that Argon2 works with: its degree of parallelism lies
/// between 1 and this.
pub const MAX_LANES: u32 = 0x00FF_FFFF;

/// What a text that parses as a hash string holds, as far as this library
/// looks at it.
#[derive(Debug, PartialEq, Eq)]
pub struct Shape {
    /// Whether the text holds a salt.
    pub salted: bool,
    /// Whether the text holds a digest.
    pub hashed: bool,
    /// The parameters of the text, each by its name and its value, in the
    /// order in which they stand. A name may stand more than once.
    pub params: Vec<(String, String)>,
}

/// A shape as a value.
pub struct ShapeView {
    pub salted: bool,
    pub hashed: bool,
    pub params: Seq<(Seq<char>, Seq<char>)>,
}

impl View for Shape {
    type V = ShapeView;

    open spec fn view(&self) -> ShapeView {
        ShapeView {
            salted: self.salted,
            hashed: self.hashed,
            params: Seq::new(self.params@.len(), |i: int| (self.params@[i].0@, self.params@[i].1@)),
        }
    }
}

/// Why a secret was not enrolled.
#[derive(Clone, Copy, Debug, PartialEq, Eq, Structural)]
pub enum EnrollError {
    /// The secret and its repetition differ.
    Mismatch,
    /// Hashing failed, or no salt could be had from the system.
    Hash,
}

/// Hashing failed.
#[derive(Clone, Copy, Debug, PartialEq, Eq, Structural)]
pub struct HashError;

/// What `argon2::PasswordHash::new` makes of `encoded`: nothing where it
/// does not parse as a hash string, and else what the parsed text holds.
pub uninterp spec fn phc_shape(encoded: Seq<char>) -> Option<ShapeView>;

/// What parsing `encoded` and then `verify_password` of Argon2 with its
/// default settings make of `secret`.
pub uninterp spec fn argon2_verdict(secret: Seq<char>, encoded: Seq<char>) -> Verdict;

/// Whether `value` writes a number of lanes that Argon2 works with: a
/// decimal number that is no more than the most.
pub open spec fn lanes_in_range(value: Seq<char>) -> bool {
    is_number(value) && decimal(value) <= MAX_LANES
}

/// Whether every parameter `p` among `params` writes a number of lanes
/// that Argon2 works with.
pub open spec fn all_lanes_in_range(params: Seq<(Seq<char>, Seq<char>)>) -> bool {
    forall|i: int|
        0 <= i < params.len() && (#[trigger] params[i]).0 == "p"@ ==> lanes_in_range(params[i].1)
}

/// Whether a text of this shape can be checked against: it parses, it holds
/// a salt and a digest, and wherever it says how many lanes it asks for,
/// these are no more than Argon2 has.
pub open spec fn usable(shape: Option<ShapeView>) -> bool {
    match shape {
        Some(s) => s.salted && s.hashed && all_lanes_in_range(s.params),
        None => false,
    }
}

/// Whether `encoded` can stand as the hash of a record.
pub open spec fn phc_wellformed(encoded: Seq<char>) -> bool {
    usable(phc_shape(encoded))
}

/// What checking `secret` against the stored text `encoded` comes to: what
/// Argon2 makes of it, where the text can be checked against.
pub open spec fn verdict(secret: Seq<char>, encoded: Seq<char>) -> Verdict {
    if phc_wellformed(encoded) {
        argon2_verdict(secret, encoded)
    } else {
        Verdict::Unusable
    }
}

/// The hash string that `hash_password` of Argon2 with its default settings
/// gives for `secret` and `salt`, if it gives one.
pub uninterp spec fn argon2_phc(secret: Seq<char>, salt: Seq<u8>) -> Option<Seq<char>>;

/// Calls `argon2::PasswordHash::new` and reads off the parsed text whether
/// it holds a salt, whether it holds a digest, and its parameters as its
/// own `iter` gives them. Trusted: that the answer depends on the text
/// alone.
#[verifier::external_body]
pub(crate) fn phc_parse(encoded: &str) -> (r: Option<Shape>)
    ensures
        match r {
            Some(shape) => phc_shape(encoded@) == Some(shape@),
            None => phc_shape(encoded@) is None,
        },
{
    let parsed = argon2::PasswordHash::new(encoded).ok()?;
    let params = parsed.params.iter();
    Some(
        Shape {
            salted: parsed.salt.is_some(),
            hashed: parsed.hash.is_some(),
            params: params.map(|(n, v)| (n.as_str().to_owned(), v.as_str().to_owned())).collect(),
        },
    )
}

/// Calls `argon2::PasswordHash::new` on the stored text and then
/// `verify_password` of `argon2::Argon2::default()`. `Ok` is a match, the
/// error `Password` a mismatch, and every other error, of either call, makes
/// the text unusable. Trusted: that the answer depends on the two texts
/// alone. A text with a parameter `p` of 536870912 or more is kept from
/// the call: Argon2 takes the last `p` of the text for its lanes and
/// multiplies them by 8 in 32 bits before it holds them to their maximum,
/// and a build that checks its arithmetic panics there. A stored text may
/// ask for more memory than the machine has; the call then ends the
/// process.
#[verifier::external_body]
pub(crate) fn argon2_check(secret: &str, encoded: &str) -> (v: Verdict)
    requires
        phc_wellformed(encoded@),
    ensures
        v == argon2_verdict(secret@, encoded@),
{
    let parsed = match argon2::PasswordHash::new(encoded) {
        Ok(parsed) => parsed,
        Err(_) => return Verdict::Unusable,
    };
    let hasher = argon2::Argon2::default();
    match argon2::PasswordVerifier::verify_password(&hasher, secret.as_bytes(), &parsed) {
        Ok(()) => Verdict::Match,
        Err(argon2::password_hash::Error::Password) => Verdict::Mismatch,
        Err(_) => Verdict::Unusable,
    }
}

/// Encodes the salt with `SaltString::encode_b64`, calls `hash_password` of
/// `argon2::Argon2::default()` and writes the hash out as a string. Trusted:
/// that the string depends on secret and salt alone; that it parses as a
/// hash string with a salt, a digest and the one parameter `p=1`, which is
/// what the default settings write; and that the secret it was made from
/// matches it, as the crate's documentation shows.
#[verifier::external_body]
pub(crate) fn argon2_encode(secret: &str, salt: &Salt) -> (r: Option<String>)
    ensures
        r is Some <==> argon2_phc(secret@, salt@) is Some,
        r matches Some(h) ==> argon2_phc(secret@, salt@) == Some(h@) && phc_wellformed(h@)
            && argon2_verdict(secret@, h@) == Verdict::Match,
{
    let salt = argon2::password_hash::SaltString::encode_b64(salt).ok()?;
    let hasher = argon2::Argon2::default();
    let hash = argon2::PasswordHasher::hash_password(&hasher, secret.as_bytes(), &salt).ok()?;
    Some(hash.to_string())
}

/// Asks the operating system for a salt, through `try_fill_bytes` of
/// `rand_core::OsRng`. Nothing is claimed of the bytes.
#[verifier::external_body]
pub(crate) fn os_random_salt() -> (r: Option<Salt>) {
    let mut salt = [0u8; 16];
    match rand_core::RngCore::try_fill_bytes(&mut rand_core::OsRng, &mut salt) {
        Ok(()) => Some(salt),
        Err(_) => None,
    }
}

/// Whether `value` writes a number of lanes that Argon2 works with.
pub fn is_lanes_in_range(value: &str) -> (r: bool)
    ensures
        r == lanes_in_range(value@),
{
    let chars = chars_of(value);
    match parse_decimal(chars.as_slice()) {
        Some(lanes) => lanes <= 0x00FF_FFFF,
        None => false,
    }
}

impl Shape {
    /// Whether a text of this shape can be checked against.
    pub fn is_usable(&self) -> (r: bool)
        ensures
            r == usable(Some(self@)),
    {
        if !self.salted || !self.hashed {
            return false;
        }
        let mut i: usize = 0;
        while i < self.params.len()
            invariant
                self.salted,
                self.hashed,
                i <= self.params@.len(),
                forall|k: int|
                    0 <= k < i && (#[trigger] self@.params[k]).0 == "p"@ ==> lanes_in_range(
                        self@.params[k].1,
                    ),
            decreases self.params@.len() - i,
        {
            if same_text(self.params[i].0.as_str(), "p") && !is_lanes_in_range(
                self.params[i].1.as_str(),
            ) {
                assert(self@.params[i as int].0 == "p"@ && !lanes_in_range(
                    self@.params[i as int].1,
                ));
                return false;
            }
            i += 1;
        }
        true
    }
}

/// Whether a text that parsed to `shape`, or did not parse, can be checked
/// against.
pub fn is_usable(shape: &Option<Shape>) -> (r: bool)
    ensures
        r == usable(
            match shape {
                Some(s) => Some(s@),
                None => None,
            },
        ),
{
    match shape {
        Some(s) => s.is_usable(),
        None => false,
    }
}

/// Whether `text` can stand as the hash of a record.
pub fn is_hash(text: &str) -> (r: bool)
    ensures
        r == phc_wellformed(text@),
{
    is_usable(&phc_parse(text))
}

/// Checks `secret` against the stored text `encoded`. A text that cannot
/// be checked against is not handed to Argon2.
pub fn check_secret(secret: &Secret, encoded: &str) -> (v: Verdict)
    ensures
        v == verdict(secret@, encoded@),
{
    if is_usable(&phc_parse(encoded)) {
        argon2_check(secret.as_str(), encoded)
    } else {
        Verdict::Unusable
    }
}

/// Hashes `secret` with the given salt.
pub fn hash_secret(secret: &Secret, salt: &Salt) -> (r: Result<String, HashError>)
    ensures
        match r {
            Ok(h) => argon2_phc(secret@, salt@) == Some(h@) && phc_wellformed(h@) && verdict(
                secret@,
                h@,
            ) == Verdict::Match,
            Err(_) => argon2_phc(secret@, salt@) is None,
        },
{
    match argon2_encode(secret.as_str(), salt) {
        Some(h) => Ok(h),
        None => Err(HashError),
    }
}

/// What enrolling `secret` with `salt` gives, where its repetition is
/// `confirm`: the hash string to store, or why there is none.
pub open spec fn enrolled(secret: Seq<char>, confirm: Seq<char>, salt: Seq<u8>) -> Result<
    Seq<char>,
    EnrollError,
> {
    if secret != confirm {
        Err(EnrollError::Mismatch)
    } else {
        match argon2_phc(secret, salt) {
            Some(h) => Ok(h),
            None => Err(EnrollError::Hash),
        }
    }
}

/// Enrolls a secret that was typed twice, with the given salt. The two must
/// be equal; nothing is hashed where they are not.
pub fn enroll_with_salt(secret: &Secret, confirm: &Secret, salt: &Salt) -> (r: Result<
    String,
    EnrollError,
>)
    ensures
        match r {
            Ok(h) => enrolled(secret@, confirm@, salt@) == Ok::<Seq<char>, EnrollError>(h@),
            Err(e) => enrolled(secret@, confirm@, salt@) == Err::<Seq<char>, EnrollError>(e),
        },
        r matches Ok(h) ==> phc_wellformed(h@) && verdict(secret@, h@) == Verdict::Match,
{
    if !secret.same_as(confirm) {
        return Err(EnrollError::Mismatch);
    }
    match hash_secret(secret, salt) {
        Ok(h) => Ok(h),
        Err(_) => Err(EnrollError::Hash),
    }
}

/// Enrolls a secret that was typed twice, with a fresh salt from the
/// operating system. The hash string that comes back is one that the secret
/// matches, whatever the salt was.
pub fn enroll(secret: &Secret, confirm: &Secret) -> (r: Result<String, EnrollError>)
    ensures
        secret@ != confirm@ <==> r == Err::<String, EnrollError>(EnrollError::Mismatch),
        r matches Ok(h) ==> phc_wellformed(h@) && verdict(secret@, h@) == Verdict::Match
            && exists|salt: Seq<u8>| argon2_phc(secret@, salt) == Some(h@),
{
    if !secret.same_as(confirm) {
        return Err(EnrollError::Mismatch);
    }
    match os_random_salt() {
        Some(salt) => enroll_with_salt(secret, confirm, &salt),
        None => Err(EnrollError::Hash),
    }
}

} // verus!
