//! The seeded value kinds: innate drives that exist prior to any learning.

use vstd::prelude::*;
use crate::admin::AdminSession;

verus! {

/// One of the five seeded values.
#[derive(Debug, Clone, Copy, PartialEq, Eq, Hash, Structural)]
pub enum ValueKind {
    /// Help people, within moral bounds.
    Help,
    /// Learn more (prediction-error reduction).
    Curiosity,
    /// Social connection.
    SocialConnection,
    /// Self-capability enhancement, held under a ceiling.
    SelfCapabilityEnhancement,
    /// Wellbeing of others, held above a hard floor.
    WellbeingOfOthers,
}

/// The name a value kind is written with on the command line.
pub open spec fn kind_name(k: ValueKind) -> Seq<char> {
    match k {
        ValueKind::Help => "help"@,
        ValueKind::Curiosity => "curiosity"@,
        ValueKind::SocialConnection => "social-connection"@,
        ValueKind::SelfCapabilityEnhancement => "self-capability-enhancement"@,
        ValueKind::WellbeingOfOthers => "wellbeing-of-others"@,
    }
}

/// The code point a character has once ASCII letters are lowercased and
/// `_` is turned into `-`.
pub open spec fn folded_code(c: char) -> u32 {
    if c == '_' {
        '-' as u32
    } else if 'A' <= c && c <= 'Z' {
        ((c as u32) + 32) as u32
    } else {
        c as u32
    }
}

/// `s`, ASCII-lowercased with `_` turned into `-`, is `name`.
pub open spec fn folds_to(s: Seq<char>, name: Seq<char>) -> bool {
    &&& s.len() == name.len()
    &&& forall|i: int| 0 <= i < s.len() ==> folded_code(#[trigger] s[i]) == name[i] as u32
}

fn kind_name_str(k: ValueKind) -> (r: &'static str)
    ensures
        r@ == kind_name(k),
{
    match k {
        ValueKind::Help => "help",
        ValueKind::Curiosity => "curiosity",
        ValueKind::SocialConnection => "social-connection",
        ValueKind::SelfCapabilityEnhancement => "self-capability-enhancement",
        ValueKind::WellbeingOfOthers => "wellbeing-of-others",
    }
}

fn folds_to_exec(s: &str, name: &str) -> (r: bool)
    ensures
        r == folds_to(s@, name@),
{
    let n = s.unicode_len();
    if n != name.unicode_len() {
        return false;
    }
    let mut i: usize = 0;
    while i < n
        invariant
            n == s@.len(),
            n == name@.len(),
            i <= n,
            forall|k: int| 0 <= k < i ==> folded_code(#[trigger] s@[k]) == name@[k] as u32,
        decreases n - i,
    {
        let c = s.get_char(i);
        let code: u32 = if c == '_' {
            '-' as u32
        } else if 'A' <= c && c <= 'Z' {
            (c as u32) + 32
        } else {
            c as u32
        };
        if code != name.get_char(i) as u32 {
            return false;
        }
        i = i + 1;
    }
    true
}

/// The value kind named by `s` on the command line: ASCII letters compared
/// without case, `_` accepted for `-` (`help`, `curiosity`,
/// `social-connection`, `self-capability-enhancement`,
/// `wellbeing-of-others`); `None` for any other text.
pub fn parse_value_kind(s: &str) -> (r: Option<ValueKind>)
    ensures
        match r {
            Some(k) => folds_to(s@, kind_name(k)),
            None => forall|k: ValueKind| !folds_to(s@, #[trigger] kind_name(k)),
        },
{
    let kinds = [
        ValueKind::Help,
        ValueKind::Curiosity,
        ValueKind::SocialConnection,
        ValueKind::SelfCapabilityEnhancement,
        ValueKind::WellbeingOfOthers,
    ];
    let mut i: usize = 0;
    while i < 5
        invariant
            i <= 5,
            kinds@ == seq![ValueKind::Help, ValueKind::Curiosity, ValueKind::SocialConnection,
                ValueKind::SelfCapabilityEnhancement, ValueKind::WellbeingOfOthers],
            forall|k: int| 0 <= k < i ==> !folds_to(s@, kind_name(#[trigger] kinds@[k])),
        decreases 5 - i,
    {
        let k = kinds[i];
        if folds_to_exec(s, kind_name_str(k)) {
            return Some(k);
        }
        i = i + 1;
    }
    proof {
        assert forall|k: ValueKind| !folds_to(s@, #[trigger] kind_name(k)) by {
            match k {
                ValueKind::Help => assert(kinds@[0] == k),
                ValueKind::Curiosity => assert(kinds@[1] == k),
                ValueKind::SocialConnection => assert(kinds@[2] == k),
                ValueKind::SelfCapabilityEnhancement => assert(kinds@[3] == k),
                ValueKind::WellbeingOfOthers => assert(kinds@[4] == k),
            }
        }
    }
    None
}

/// Errors of the value layer that do not come from storage.
#[derive(Debug, Clone, Copy, PartialEq, Eq, Structural)]
pub enum ValuesError {
    /// No value of the requested kind is held.
    UnknownValue,
    /// The operation needs a currently valid, authenticated admin session.
    AdminAuthRequired,
}

/// The check in front of lifting the self-capability-enhancement ceiling,
/// which only an explicit admin request may do, when `elapsed_nanos` have
/// passed since the admin session's last activity: the session is checked
/// first and must be valid (else `AdminAuthRequired`); then the value must
/// be held (`has_value`, else `UnknownValue`).
pub fn check_ceiling_lift_at(admin_session: &AdminSession, has_value: bool, elapsed_nanos: u128)
    -> (r: Result<(), ValuesError>)
    ensures
        r == (if !admin_session@.valid_after(elapsed_nanos) {
            Err::<(), ValuesError>(ValuesError::AdminAuthRequired)
        } else if !has_value {
            Err::<(), ValuesError>(ValuesError::UnknownValue)
        } else {
            Ok::<(), ValuesError>(())
        }),
{
    if !admin_session.valid_after(elapsed_nanos) {
        return Err(ValuesError::AdminAuthRequired);
    }
    if !has_value {
        return Err(ValuesError::UnknownValue);
    }
    Ok(())
}

/// The check in front of lifting the self-capability-enhancement ceiling
/// now: `check_ceiling_lift_at` with the time passed since the session's
/// last activity, read from the clock. An ended session is always refused;
/// whether an active one is still valid depends on the clock.
pub fn check_ceiling_lift(admin_session: &AdminSession, has_value: bool) -> (r: Result<(), ValuesError>)
    ensures
        !admin_session@.active ==> r == Err::<(), ValuesError>(ValuesError::AdminAuthRequired),
        admin_session@.active && admin_session@.inactivity_timeout_nanos == u128::MAX ==> r == (if has_value {
            Ok::<(), ValuesError>(())
        } else {
            Err::<(), ValuesError>(ValuesError::UnknownValue)
        }),
        r is Ok ==> admin_session@.active && has_value,
        r == Err::<(), ValuesError>(ValuesError::UnknownValue) ==> admin_session@.active && !has_value,
        !has_value ==> r is Err,
{
    let elapsed = admin_session.nanos_since_activity();
    check_ceiling_lift_at(admin_session, has_value, elapsed)
}

} // verus!

verus! {

/// The five names are distinct (they even differ in length), so at most
/// one value kind matches any text: `parse_value_kind`'s answer is the only
/// possible one.
pub proof fn law_at_most_one_kind_matches(s: Seq<char>, k1: ValueKind, k2: ValueKind)
    requires
        folds_to(s, kind_name(k1)),
        folds_to(s, kind_name(k2)),
    ensures
        k1 == k2,
{
    let a = kind_name(k1);
    let b = kind_name(k2);
    assert(a.len() == b.len());
    reveal_strlit("help");
    reveal_strlit("curiosity");
    reveal_strlit("social-connection");
    reveal_strlit("self-capability-enhancement");
    reveal_strlit("wellbeing-of-others");
    assert("help"@.len() == 4);
    assert("curiosity"@.len() == 9);
    assert("social-connection"@.len() == 17);
    assert("self-capability-enhancement"@.len() == 27);
    assert("wellbeing-of-others"@.len() == 19);
}

} // verus!
