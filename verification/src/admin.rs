//! Admin-override credential verification (Argon2id only) and the
//! time-bounded admin session.

use vstd::prelude::*;
use crate::ids::{AlynxisId, is_random_uuid};
use crate::clock::now_unix;
use crate::text::owned;
use vstd::string::StringSliceAdditionalSpecFns;

verus! {

/// `std::time::Instant`, a reading of the monotonic clock.
#[verifier::external_type_specification]
#[verifier::external_body]
pub struct ExInstant(std::time::Instant);

/// `std::time::SystemTime`, a reading of the wall clock.
#[verifier::external_type_specification]
#[verifier::external_body]
pub struct ExSystemTime(std::time::SystemTime);

/// What Argon2id verification of the secret `secret` against the stored
/// PHC-format hash string `phc` gives: `Err` (with the parse error's text)
/// when `phc` does not parse as a PHC hash, else whether the secret matches.
/// A function of its two arguments alone (the salt and parameters are part
/// of `phc`).
pub uninterp spec fn argon2id_check(secret: Seq<char>, phc: Seq<char>) -> Result<bool, Seq<char>>;

/// Parses `phc` with `argon2::password_hash::PasswordHash::new` and checks
/// `secret` with `Argon2::default().verify_password`; the outcome is named
/// by `argon2id_check`.
#[verifier::external_body]
fn argon2id_verify(secret: &str, phc: &str) -> (r: Result<bool, String>)
    ensures
        argon2id_check(secret@, phc@) == (match r {
            Ok(b) => Ok::<bool, Seq<char>>(b),
            Err(e) => Err::<bool, Seq<char>>(e@),
        }),
{
    match argon2::password_hash::PasswordHash::new(phc) {
        Ok(parsed) => Ok(argon2::password_hash::PasswordVerifier::verify_password(
            &argon2::Argon2::default(),
            secret.as_bytes(),
            &parsed,
        ).is_ok()),
        Err(e) => Err(e.to_string()),
    }
}

/// Hashes `secret` with `Argon2::default().hash_password` under a fresh
/// random salt (`SaltString::generate` over `rand`'s `OsRng`) and returns
/// the PHC string. The salt is random, so the string is not determined by
/// the secret; what holds of every outcome is that the hash verifies the
/// secret (password-hash's verifier recomputes the hash with the salt and
/// parameters recorded in the string), and that the string starts with
/// `$argon2id$v=19$` (the default algorithm's identifier and the default
/// version 0x13, written by `PasswordHash`'s `Display`). Hashing fails only
/// for a secret longer than `0xFFFFFFFF` bytes (argon2's `MAX_PWD_LEN`; the
/// default parameters and the generated 16-byte salt are always accepted).
/// The error text is not stated.
#[verifier::external_body]
fn argon2id_hash(secret: &str) -> (r: Result<String, String>)
    ensures
        secret.spec_bytes().len() <= 0xFFFF_FFFF ==> r is Ok,
        match r {
            Ok(h) => argon2id_check(secret@, h@) == Ok::<bool, Seq<char>>(true)
                && "$argon2id$v=19$"@.is_prefix_of(h@),
            Err(_) => true,
        },
{
    let salt = argon2::password_hash::SaltString::generate(&mut rand::rngs::OsRng);
    argon2::password_hash::PasswordHasher::hash_password(&argon2::Argon2::default(), secret.as_bytes(), &salt)
        .map(|h| h.to_string())
        .map_err(|e| e.to_string())
}

/// `std::time::Instant::now`. Nothing is promised of the value.
#[verifier::external_body]
fn instant_now() -> std::time::Instant {
    std::time::Instant::now()
}

/// `std::time::SystemTime::now`. Nothing is promised of the value.
#[verifier::external_body]
fn system_time_now() -> std::time::SystemTime {
    std::time::SystemTime::now()
}

/// The nanoseconds passed since `since` on the monotonic clock
/// (`Instant::elapsed`, read by `Duration::as_nanos`). Nothing is promised
/// of the value: it depends on the time of the call.
#[verifier::external_body]
fn nanos_since(since: &std::time::Instant) -> u128 {
    since.elapsed().as_nanos()
}

/// Errors of the admin layer.
#[derive(Debug)]
pub enum AlynxisError {
    /// A credential could not be set or checked.
    AdminCredential(String),
    /// The admin session is not authenticated or has expired.
    AdminSessionInvalid,
}

/// A stored credential: the self-describing PHC string of an Argon2id hash
/// and when it was set.
#[derive(Debug)]
pub struct StoredCredential {
    pub hash: String,
    pub created_at_unix: u64,
}

/// The admin credential's rules: how it is hashed and checked.
pub struct AdminCredentialStore;

impl AdminCredentialStore {
    /// A new credential for `secret`: its Argon2id hash under a fresh random
    /// salt, created now. The hash always verifies `secret` and is a PHC
    /// string starting `$argon2id$v=19$`. Succeeds for every secret of at
    /// most `0xFFFFFFFF` bytes; for a longer one it fails with
    /// `AdminCredential("argon2 hash failed: ...")`.
    pub fn new_credential(secret: &str) -> (r: Result<StoredCredential, AlynxisError>)
        ensures
            r matches Ok(c) ==> argon2id_check(secret@, c.hash@) == Ok::<bool, Seq<char>>(true)
                && "$argon2id$v=19$"@.is_prefix_of(c.hash@),
            secret.spec_bytes().len() <= 0xFFFF_FFFF ==> r is Ok,
            r matches Err(e) ==> e matches AlynxisError::AdminCredential(m)
                && "argon2 hash failed: "@.is_prefix_of(m@),
    {
        match argon2id_hash(secret) {
            Ok(hash) => Ok(StoredCredential { hash, created_at_unix: now_unix() }),
            Err(e) => {
                let mut m = owned("argon2 hash failed: ");
                m.append(e.as_str());
                proof {
                    reveal_strlit("argon2 hash failed: ");
                    assert(m@.subrange(0, "argon2 hash failed: "@.len() as int) =~= "argon2 hash failed: "@);
                }
                Err(AlynxisError::AdminCredential(m))
            },
        }
    }

    /// Whether `secret` matches the stored credential. Fails with
    /// `AdminCredential("stored argon2 hash unparsable: ...")` exactly when
    /// the stored hash is not a PHC string.
    pub fn verify(secret: &str, stored: &StoredCredential) -> (r: Result<bool, AlynxisError>)
        ensures
            match argon2id_check(secret@, stored.hash@) {
                Ok(b) => r matches Ok(x) && x == b,
                Err(t) => r matches Err(AlynxisError::AdminCredential(m)) && m@ == "stored argon2 hash unparsable: "@ + t,
            },
    {
        match argon2id_verify(secret, stored.hash.as_str()) {
            Ok(b) => Ok(b),
            Err(e) => {
                let mut m = owned("stored argon2 hash unparsable: ");
                m.append(e.as_str());
                Err(AlynxisError::AdminCredential(m))
            },
        }
    }
}

/// A persistent admin identity anchor.
#[derive(Debug, Clone, Copy, PartialEq, Eq, Structural)]
pub struct AdminIdentity {
    pub id: AlynxisId,
    pub created_at_unix: u64,
}

impl AdminIdentity {
    /// A new identity: fresh random (version-4 UUID) id, created now.
    pub fn generate() -> (r: AdminIdentity)
        ensures
            is_random_uuid(r.id.0),
    {
        AdminIdentity { id: AlynxisId::new(), created_at_unix: now_unix() }
    }
}

/// A time-bounded admin session: valid while active and until more than
/// its inactivity timeout passes without recorded activity.
pub struct AdminSession {
    identity: AdminIdentity,
    authenticated_at: std::time::SystemTime,
    last_activity: std::time::Instant,
    inactivity_timeout_nanos: u128,
    active: bool,
}

/// The content of an admin session.
pub struct AdminSessionView {
    pub identity: AdminIdentity,
    pub authenticated_at: std::time::SystemTime,
    pub last_activity: std::time::Instant,
    /// The inactivity timeout, in nanoseconds.
    pub inactivity_timeout_nanos: u128,
    pub active: bool,
}

impl AdminSessionView {
    /// Whether a session in this state is valid when `elapsed_nanos` have
    /// passed since its last recorded activity: it is active, and no more
    /// than its timeout has passed.
    pub open spec fn valid_after(self, elapsed_nanos: u128) -> bool {
        self.active && elapsed_nanos <= self.inactivity_timeout_nanos
    }
}

impl View for AdminSession {
    type V = AdminSessionView;

    closed spec fn view(&self) -> AdminSessionView {
        AdminSessionView {
            identity: self.identity,
            authenticated_at: self.authenticated_at,
            last_activity: self.last_activity,
            inactivity_timeout_nanos: self.inactivity_timeout_nanos,
            active: self.active,
        }
    }
}

impl AdminSession {
    /// Checks `secret` against the stored credential (`None`: nothing has
    /// been configured). On a match, a new active session for `identity`
    /// with this inactivity timeout (in nanoseconds), authenticated and last
    /// active now. Otherwise no session: `AdminCredential("no admin
    /// credential configured")`, `AdminCredential("incorrect credential")`,
    /// or the verification error.
    pub fn authenticate(
        secret: &str,
        stored: Option<&StoredCredential>,
        identity: AdminIdentity,
        inactivity_timeout_nanos: u128,
    ) -> (r: Result<AdminSession, AlynxisError>)
        ensures
            match stored {
                None => r matches Err(AlynxisError::AdminCredential(m)) && m@ == "no admin credential configured"@,
                Some(c) => match argon2id_check(secret@, c.hash@) {
                    Ok(true) => r matches Ok(s) && s@.active && s@.identity == identity
                        && s@.inactivity_timeout_nanos == inactivity_timeout_nanos,
                    Ok(false) => r matches Err(AlynxisError::AdminCredential(m)) && m@ == "incorrect credential"@,
                    Err(t) => r matches Err(AlynxisError::AdminCredential(m))
                        && m@ == "stored argon2 hash unparsable: "@ + t,
                },
            },
    {
        let c = match stored {
            None => {
                return Err(AlynxisError::AdminCredential(owned("no admin credential configured")));
            },
            Some(c) => c,
        };
        match AdminCredentialStore::verify(secret, c) {
            Ok(true) => Ok(AdminSession {
                identity,
                authenticated_at: system_time_now(),
                last_activity: instant_now(),
                inactivity_timeout_nanos,
                active: true,
            }),
            Ok(false) => Err(AlynxisError::AdminCredential(owned("incorrect credential"))),
            Err(e) => Err(e),
        }
    }

    /// The identity this session was opened for.
    pub fn identity(&self) -> (r: &AdminIdentity)
        ensures
            *r == self@.identity,
    {
        &self.identity
    }

    /// When this session was authenticated (wall clock).
    pub fn authenticated_at(&self) -> (r: std::time::SystemTime)
        ensures
            r == self@.authenticated_at,
    {
        self.authenticated_at
    }

    /// Resets the inactivity clock to `now` if the session is still active;
    /// an ended session is left as it is.
    pub fn record_activity_at(&mut self, now: std::time::Instant)
        ensures
            old(self)@.active ==> final(self)@ == (AdminSessionView { last_activity: now, ..old(self)@ }),
            !old(self)@.active ==> final(self)@ == old(self)@,
    {
        if self.active {
            self.last_activity = now;
        }
    }

    /// Resets the inactivity clock to the current time if the session is
    /// still active; an ended session is left as it is.
    pub fn record_activity(&mut self)
        ensures
            old(self)@.active ==> final(self)@ == (AdminSessionView { last_activity: final(self)@.last_activity, ..old(self)@ }),
            !old(self)@.active ==> final(self)@ == old(self)@,
    {
        self.record_activity_at(instant_now());
    }

    /// The nanoseconds passed since the last recorded activity, read from
    /// the monotonic clock now. Nothing is promised of the value.
    pub fn nanos_since_activity(&self) -> u128 {
        nanos_since(&self.last_activity)
    }

    /// Whether the session is valid when `elapsed_nanos` have passed since
    /// its last recorded activity: active, and no more than the inactivity
    /// timeout has passed.
    pub fn valid_after(&self, elapsed_nanos: u128) -> (r: bool)
        ensures
            r == self@.valid_after(elapsed_nanos),
    {
        self.active && elapsed_nanos <= self.inactivity_timeout_nanos
    }

    /// Whether the session is valid now (`valid_after` the time passed since
    /// the last recorded activity, read from the clock). An ended session is
    /// never valid, and an active one whose timeout is the largest value
    /// always is; otherwise the answer depends on the clock.
    pub fn is_valid(&self) -> (r: bool)
        ensures
            r ==> self@.active,
            self@.active && self@.inactivity_timeout_nanos == u128::MAX ==> r,
    {
        let elapsed = self.nanos_since_activity();
        self.valid_after(elapsed)
    }

    /// Whether the session is still active (not ended).
    pub fn is_active(&self) -> (r: bool)
        ensures
            r == self@.active,
    {
        self.active
    }

    /// Ends the session at once; it is never valid again.
    pub fn end(&mut self)
        ensures
            final(self)@ == (AdminSessionView { active: false, ..old(self)@ }),
    {
        self.active = false;
    }

    /// Sets a new inactivity timeout (in nanoseconds) and resets the
    /// inactivity clock to `now`, but only from a session valid after
    /// `elapsed_nanos`: otherwise `AdminSessionInvalid` and nothing changes.
    pub fn set_inactivity_timeout_at(
        &mut self,
        new_timeout_nanos: u128,
        elapsed_nanos: u128,
        now: std::time::Instant,
    ) -> (r: Result<(), AlynxisError>)
        ensures
            r is Ok <==> old(self)@.valid_after(elapsed_nanos),
            r is Err ==> (r matches Err(AlynxisError::AdminSessionInvalid) && final(self)@ == old(self)@),
            r is Ok ==> final(self)@ == (AdminSessionView {
                inactivity_timeout_nanos: new_timeout_nanos,
                last_activity: now,
                ..old(self)@
            }),
    {
        if !self.valid_after(elapsed_nanos) {
            return Err(AlynxisError::AdminSessionInvalid);
        }
        self.inactivity_timeout_nanos = new_timeout_nanos;
        self.record_activity_at(now);
        Ok(())
    }

    /// Sets a new inactivity timeout (in nanoseconds) and resets the
    /// inactivity clock, but only from a currently valid session (see
    /// `set_inactivity_timeout_at`, to which it hands the time passed since
    /// the last activity and the current instant): otherwise
    /// `AdminSessionInvalid` and nothing changes.
    pub fn set_inactivity_timeout(&mut self, new_timeout_nanos: u128) -> (r: Result<(), AlynxisError>)
        ensures
            !old(self)@.active ==> r matches Err(AlynxisError::AdminSessionInvalid),
            old(self)@.active && old(self)@.inactivity_timeout_nanos == u128::MAX ==> r is Ok,
            r is Err ==> (r matches Err(AlynxisError::AdminSessionInvalid) && final(self)@ == old(self)@),
            r is Ok ==> old(self)@.active && final(self)@ == (AdminSessionView {
                inactivity_timeout_nanos: new_timeout_nanos,
                last_activity: final(self)@.last_activity,
                ..old(self)@
            }),
    {
        let elapsed = self.nanos_since_activity();
        let now = instant_now();
        self.set_inactivity_timeout_at(new_timeout_nanos, elapsed, now)
    }
}

/// Ending a session is final: whatever time has passed, an ended session
/// is not valid.
pub proof fn law_ended_session_is_never_valid(before: AdminSessionView, after: AdminSessionView, elapsed_nanos: u128)
    requires
        after == (AdminSessionView { active: false, ..before }),
    ensures
        !after.valid_after(elapsed_nanos),
{
}

/// Recording activity never revives an ended session: it stays exactly as
/// it was, inactive.
pub proof fn law_activity_does_not_revive(ended: AdminSessionView, after: AdminSessionView)
    requires
        !ended.active,
        ended.active ==> after == (AdminSessionView { last_activity: after.last_activity, ..ended }),
        !ended.active ==> after == ended,
    ensures
        !after.active,
        after == ended,
{
}

/// A freshly authenticated session, and one whose activity was just
/// recorded, is valid for exactly as long as its timeout: after `e`
/// nanoseconds it is valid if and only if `e` is at most the timeout.
pub proof fn law_active_session_valid_within_timeout(s: AdminSessionView, elapsed_nanos: u128)
    requires
        s.active,
    ensures
        s.valid_after(elapsed_nanos) <==> elapsed_nanos <= s.inactivity_timeout_nanos,
        s.valid_after(0),
{
}

} // verus!
