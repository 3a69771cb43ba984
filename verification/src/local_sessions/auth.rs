//! Protecting a detached session with a secret.

use vstd::prelude::*;

use crate::secrets::{random_bytes, secrets_equal, wipe_text};
use crate::text::{clone_optional, optional_text};

verus! {

/// Why `argon2` gave no hash.
#[verifier::external_type_specification]
#[verifier::external_body]
pub struct ExHashError(argon2::password_hash::Error);

/// The verifier that Argon2, with its default parameters, makes of a secret
/// and a salt.
pub uninterp spec fn argon2_verifier(secret: Seq<char>, salt: Seq<u8>) -> Option<Seq<char>>;

/// Whether Argon2 finds that a verifier was made of a secret.
pub uninterp spec fn argon2_accepts(verifier: Seq<char>, secret: Seq<char>) -> bool;

/// Whether a text is the verifier that Argon2 makes of some secret and a salt of
/// the usual length.
pub open spec fn is_verifier(text: Seq<char>) -> bool {
    exists|secret: Seq<char>, salt: Seq<u8>|
        salt.len() == SALT_BYTES && #[trigger] argon2_verifier(secret, salt) == Some(text)
}

/// `Argon2::default().hash_password`, as a PHC string, with the salt encoded by
/// `SaltString::encode_b64`. The string depends on the secret and the salt
/// alone, and verifying the same secret against it succeeds: it is computed
/// again with the parameters and the salt that the string holds.
#[verifier::external_body]
fn hash_password(secret: &str, salt: &Vec<u8>) -> (result: Result<
    String,
    argon2::password_hash::Error,
>)
    requires
        salt@.len() == SALT_BYTES,
    ensures
        match result {
            Ok(verifier) => argon2_verifier(secret@, salt@) == Some(verifier@) && argon2_accepts(
                verifier@,
                secret@,
            ),
            Err(_) => argon2_verifier(secret@, salt@) is None,
        },
{
    let salt = argon2::password_hash::SaltString::encode_b64(salt)?;
    let argon2 = argon2::Argon2::default();
    let hash = argon2::PasswordHasher::hash_password(&argon2, secret.as_bytes(), &salt)?;
    Ok(hash.to_string())
}

/// `Argon2::default().verify_password` against a verifier that
/// `PasswordHash::new` reads; one that it cannot read verifies nothing. The
/// answer depends on the two texts alone. Only a verifier that Argon2 made with
/// its default parameters is handed over: reading other parameters can overflow.
#[verifier::external_body]
fn verify_password(verifier: &str, secret: &str) -> (result: bool)
    requires
        is_verifier(verifier@),
    ensures
        result == argon2_accepts(verifier@, secret@),
{
    argon2::PasswordHash::new(verifier).is_ok_and(
        |hash|
            argon2::PasswordVerifier::verify_password(
                &argon2::Argon2::default(),
                secret.as_bytes(),
                &hash,
            ).is_ok(),
    )
}

/// How many random bytes salt a secret.
pub const SALT_BYTES: usize = 16;

/// The longest wait after failed authentications, in seconds.
pub const MAX_FAILED_AUTHENTICATION_DELAY: u64 = 30;

/// The wait after a number of failed authentications, in seconds: one, doubled
/// by each failure after the first, up to half a minute.
pub open spec fn failed_delay(failures: nat) -> nat
    decreases failures,
{
    if failures <= 1 {
        1
    } else {
        let doubled = failed_delay((failures - 1) as nat) * 2;
        if doubled > MAX_FAILED_AUTHENTICATION_DELAY {
            MAX_FAILED_AUTHENTICATION_DELAY as nat
        } else {
            doubled
        }
    }
}

/// The wait after a number of failed authentications, in seconds.
pub fn failed_authentication_delay(failures: u32) -> (result: u64)
    ensures
        result == failed_delay(failures as nat),
{
    let mut delay: u64 = 1;
    let mut counted: u32 = 1;
    while counted < failures && delay < MAX_FAILED_AUTHENTICATION_DELAY
        invariant
            1 <= counted,
            counted <= failures || counted == 1,
            delay == failed_delay(counted as nat),
            1 <= delay <= MAX_FAILED_AUTHENTICATION_DELAY,
        decreases failures - counted,
    {
        delay = if delay * 2 > MAX_FAILED_AUTHENTICATION_DELAY {
            MAX_FAILED_AUTHENTICATION_DELAY
        } else {
            delay * 2
        };
        counted = counted + 1;
    }
    proof {
        if counted < failures {
            lemma_delay_stays(counted as nat, failures as nat);
        }
    }
    delay
}

proof fn lemma_delay_stays(reached: nat, failures: nat)
    requires
        1 <= reached <= failures,
        failed_delay(reached) == MAX_FAILED_AUTHENTICATION_DELAY,
    ensures
        failed_delay(failures) == MAX_FAILED_AUTHENTICATION_DELAY,
    decreases failures,
{
    if reached < failures {
        lemma_delay_stays(reached, (failures - 1) as nat);
    }
}

/// More failures never wait less, and no wait is outside a second and half a
/// minute.
pub proof fn law_delay_grows(fewer: nat, more: nat)
    requires
        fewer <= more,
    ensures
        1 <= failed_delay(fewer) <= failed_delay(more) <= MAX_FAILED_AUTHENTICATION_DELAY,
    decreases more,
{
    if fewer < more {
        law_delay_grows(fewer, (more - 1) as nat);
    } else if more > 1 {
        law_delay_grows((more - 1) as nat, (more - 1) as nat);
    }
}

/// A secret as someone typed it. It is overwritten when it is dropped.
pub struct SessionSecret {
    pub text: String,
}

impl Drop for SessionSecret {
    fn drop(&mut self)
        opens_invariants none
        no_unwind
    {
        wipe_text(&mut self.text);
    }
}

impl SessionSecret {
    /// A secret of the given text.
    pub fn new(secret: String) -> (result: SessionSecret)
        ensures
            result.text == secret,
    {
        SessionSecret { text: secret }
    }

    /// The text of the secret.
    pub fn expose(&self) -> (result: &str)
        ensures
            result@ == self.text@,
    {
        self.text.as_str()
    }

    /// Whether two secrets are the same, without telling by the time it takes
    /// how much of them agrees.
    pub fn equals(&self, other: &SessionSecret) -> (result: bool)
        ensures
            result == (self.text@ == other.text@),
    {
        secrets_equal(self.text.as_str(), other.text.as_str())
    }
}

/// Why a session got no protection.
#[derive(Clone, Copy, Debug, PartialEq, Eq, Structural)]
pub enum AuthenticationError {
    /// The secret is empty.
    EmptySecret,
    /// The system gave no random salt.
    NoRandomSalt,
    /// Hashing the secret failed.
    Hashing,
}

/// What a secret is verified against. It was made of one: nothing else can be
/// in its place.
pub struct SessionVerifier {
    made: String,
}

impl SessionVerifier {
    #[verifier::type_invariant]
    spec fn is_made(self) -> bool {
        is_verifier(self.made@)
    }

    /// The verifier as Argon2 writes it.
    pub closed spec fn text(self) -> Seq<char> {
        self.made@
    }

    /// What a secret is verified against, with the given salt.
    pub fn of(secret: &str, salt: &Vec<u8>) -> (result: Option<SessionVerifier>)
        requires
            salt@.len() == SALT_BYTES,
        ensures
            match argon2_verifier(secret@, salt@) {
                Some(text) => result matches Some(verifier) && verifier.text() == text
                    && argon2_accepts(text, secret@),
                None => result is None,
            },
    {
        match hash_password(secret, salt) {
            Ok(made) => Some(SessionVerifier { made }),
            Err(_) => None,
        }
    }

    /// Whether a secret verifies.
    pub fn accepts(&self, secret: &str) -> (result: bool)
        ensures
            result == argon2_accepts(self.text(), secret@),
    {
        proof {
            use_type_invariant(self);
        }
        verify_password(self.made.as_str(), secret)
    }

    /// A copy of the verifier.
    pub fn duplicate(&self) -> (result: SessionVerifier)
        ensures
            result == *self,
    {
        proof {
            use_type_invariant(self);
        }
        SessionVerifier { made: self.made.clone() }
    }
}

/// What tells one protection from every other. It is given out once, and whoever
/// makes a protection uses it up.
pub struct ProtectionIdentity {
    number: u64,
}

impl ProtectionIdentity {
    /// The number behind the identity.
    pub closed spec fn number(self) -> u64 {
        self.number
    }
}

/// Gives out identities for protections, each once. A process has one of these.
pub struct ProtectionIdentities {
    given: u64,
}

impl ProtectionIdentities {
    /// How many identities were given out: their numbers are those below.
    pub closed spec fn given(self) -> u64 {
        self.given
    }

    /// None was given out.
    pub fn new() -> (result: ProtectionIdentities)
        ensures
            result.given() == 0,
    {
        ProtectionIdentities { given: 0 }
    }

    /// An identity that was not given out before.
    pub fn give(&mut self) -> (result: ProtectionIdentity)
        requires
            old(self).given() < u64::MAX,
        ensures
            final(self).given() == old(self).given() + 1,
            result.number() == old(self).given(),
    {
        let number = self.given;
        self.given = number + 1;
        ProtectionIdentity { number }
    }
}

/// Identities that are given out one after the other differ: each is above all
/// that were given out before it.
pub proof fn law_identities_differ(
    identities: Seq<ProtectionIdentities>,
    given: Seq<ProtectionIdentity>,
    earlier: int,
    later: int,
)
    requires
        identities.len() == given.len() + 1,
        forall|i: int|
            0 <= i < given.len() ==> (#[trigger] given[i]).number() == identities[i].given()
                && identities[i + 1].given() == identities[i].given() + 1,
        0 <= earlier < later < given.len(),
    ensures
        given[earlier].number() < given[later].number(),
    decreases later,
{
    if earlier < later - 1 {
        law_identities_differ(identities, given, earlier, later - 1);
    }
    assert(given[later - 1].number() == identities[later - 1].given());
    assert(given[later].number() == identities[later].given());
}

/// The protection of a session: what its secret is verified against, and what
/// tells this protection from every other.
pub struct SessionAuthentication {
    verifier: SessionVerifier,
    identity: u64,
    key_envelope: Option<String>,
}

/// A proof that someone knew the secret of one protection. Only verifying the
/// secret makes one.
pub struct VerifiedSession {
    identity: u64,
}

impl VerifiedSession {
    /// The number of the protection that it was verified with.
    pub closed spec fn identity(self) -> u64 {
        self.identity
    }
}

impl SessionAuthentication {
    /// What the secret is verified against.
    pub closed spec fn verifier_text(self) -> Seq<char> {
        self.verifier.text()
    }

    /// The number that tells the protection from every other.
    pub closed spec fn identity(self) -> u64 {
        self.identity
    }

    /// The envelope for the key that its history is encrypted with.
    pub closed spec fn envelope(self) -> Option<Seq<char>> {
        optional_text(self.key_envelope)
    }

    /// Whether a secret opens the session.
    pub open spec fn opened_by(self, secret: Seq<char>) -> bool {
        argon2_accepts(self.verifier_text(), secret)
    }

    /// Protects a session with a secret and a fresh random salt.
    pub fn create(secret: &str, identity: ProtectionIdentity) -> (result: Result<
        SessionAuthentication,
        AuthenticationError,
    >)
        ensures
            secret@.len() == 0 <==> result == Err::<SessionAuthentication, AuthenticationError>(
                AuthenticationError::EmptySecret,
            ),
            result matches Ok(authentication) ==> {
                &&& authentication.identity() == identity.number()
                &&& authentication.envelope() is None
                &&& authentication.opened_by(secret@)
                &&& exists|salt: Seq<u8>|
                    salt.len() == SALT_BYTES && #[trigger] argon2_verifier(secret@, salt) == Some(
                        authentication.verifier_text(),
                    )
            },
            result == Err::<SessionAuthentication, AuthenticationError>(
                AuthenticationError::Hashing,
            ) ==> exists|salt: Seq<u8>|
                salt.len() == SALT_BYTES && #[trigger] argon2_verifier(secret@, salt) is None,
    {
        if secret.is_empty() {
            return Err(AuthenticationError::EmptySecret);
        }
        match random_bytes(SALT_BYTES) {
            Ok(salt) => SessionAuthentication::with_salt(secret, &salt, identity),
            Err(_) => Err(AuthenticationError::NoRandomSalt),
        }
    }

    /// Protects a session with a secret and the given salt.
    pub fn with_salt(secret: &str, salt: &Vec<u8>, identity: ProtectionIdentity) -> (result: Result<
        SessionAuthentication,
        AuthenticationError,
    >)
        requires
            salt@.len() == SALT_BYTES,
        ensures
            if secret@.len() == 0 {
                result == Err::<SessionAuthentication, AuthenticationError>(
                    AuthenticationError::EmptySecret,
                )
            } else {
                match argon2_verifier(secret@, salt@) {
                    Some(verifier) => result matches Ok(authentication) && {
                        &&& authentication.verifier_text() == verifier
                        &&& authentication.identity() == identity.number()
                        &&& authentication.envelope() is None
                        &&& authentication.opened_by(secret@)
                    },
                    None => result == Err::<SessionAuthentication, AuthenticationError>(
                        AuthenticationError::Hashing,
                    ),
                }
            },
    {
        if secret.is_empty() {
            return Err(AuthenticationError::EmptySecret);
        }
        match SessionVerifier::of(secret, salt) {
            Some(verifier) => Ok(
                SessionAuthentication {
                    verifier,
                    identity: identity.number,
                    key_envelope: None,
                },
            ),
            None => Err(AuthenticationError::Hashing),
        }
    }

    /// The protection with an envelope for the key that its history is
    /// encrypted with.
    pub fn with_key_envelope(self, envelope: String) -> (result: SessionAuthentication)
        ensures
            result.verifier_text() == self.verifier_text(),
            result.identity() == self.identity(),
            result.envelope() == Some(envelope@),
    {
        SessionAuthentication { key_envelope: Some(envelope), ..self }
    }

    /// The envelope for the key, where there is one.
    pub fn key_envelope(&self) -> (result: Option<&str>)
        ensures
            match result {
                Some(envelope) => self.envelope() == Some(envelope@),
                None => self.envelope() is None,
            },
    {
        match &self.key_envelope {
            Some(envelope) => Some(envelope.as_str()),
            None => None,
        }
    }

    /// Verifies a secret. What comes back authorizes with this protection, and
    /// with every copy of it.
    pub fn verify(&self, secret: &str) -> (result: Option<VerifiedSession>)
        ensures
            match result {
                Some(verified) => self.opened_by(secret@) && verified.identity()
                    == self.identity(),
                None => !self.opened_by(secret@),
            },
    {
        if self.verifier.accepts(secret) {
            Some(VerifiedSession { identity: self.identity })
        } else {
            None
        }
    }

    /// Whether a verification was one of this protection.
    pub fn authorizes(&self, authorization: &VerifiedSession) -> (result: bool)
        ensures
            result == (self.identity() == authorization.identity()),
    {
        self.identity == authorization.identity
    }

    /// A copy of the protection: what verifies for one authorizes with both.
    pub fn duplicate(&self) -> (result: SessionAuthentication)
        ensures
            result == *self,
    {
        SessionAuthentication {
            verifier: self.verifier.duplicate(),
            identity: self.identity,
            key_envelope: clone_optional(&self.key_envelope),
        }
    }
}

} // verus!
