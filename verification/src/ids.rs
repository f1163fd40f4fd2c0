//! Identifiers shared by every part of the system.

use vstd::prelude::*;
use crate::text::{debug_quoted, debug_quote};

verus! {

/// The `uuid` crate's UUID type, carried through unchanged.
#[verifier::external_type_specification]
#[verifier::external_body]
pub struct ExUuid(uuid::Uuid);

/// The lowercase hexadecimal digit of `d`, for `d` below 16.
pub open spec fn hex_digit(d: u128) -> char {
    if d < 10 {
        ('0' as int + d) as char
    } else {
        ('a' as int + (d - 10)) as char
    }
}

/// Hexadecimal digit `k` of `bits`, counting from the most significant
/// (0) to the least significant (31).
pub open spec fn nibble(bits: u128, k: int) -> u128 {
    (bits >> ((124 - 4 * k) as u128)) & 0xf
}

/// Which of the 32 digits stands at position `p` of the hyphenated text.
pub open spec fn digit_index(p: int) -> int {
    if p < 8 {
        p
    } else if p < 13 {
        p - 1
    } else if p < 18 {
        p - 2
    } else if p < 23 {
        p - 3
    } else {
        p - 4
    }
}

/// The text that the `uuid` crate's `Display` gives for the UUID whose
/// 128 bits (big-endian, as `Uuid::from_u128` and `Uuid::as_u128` read
/// them) are `bits`: its 32 lowercase hexadecimal digits, most significant
/// first, grouped 8-4-4-4-12 by hyphens.
pub open spec fn uuid_text(bits: u128) -> Seq<char> {
    Seq::new(36, |p: int|
        if p == 8 || p == 13 || p == 18 || p == 23 {
            '-'
        } else {
            hex_digit(nibble(bits, digit_index(p)))
        })
}

/// The 128 bits of the version-5 (SHA-1, name-based) UUID that
/// `uuid::Uuid::new_v5` derives from the namespace UUID with bits
/// `namespace` and the UTF-8 bytes of `name`.
pub uninterp spec fn uuid_v5_bits(namespace: u128, name: Seq<char>) -> u128;

/// `bits` are those of a random (version 4, RFC 4122 variant) UUID: the
/// version digit (bits 76 to 79) is 4 and the two variant bits (62 and 63)
/// are `10`. The other 122 bits are free.
pub open spec fn is_random_uuid(bits: u128) -> bool {
    &&& (bits >> 76u128) & 0xf == 4
    &&& (bits >> 62u128) & 0x3 == 2
}

/// A fresh random UUID from `uuid::Uuid::new_v4`, as its 128 bits. The
/// random bits come from the operating system and nothing is promised of
/// them; `new_v4` always sets the version to 4 and the variant to RFC 4122.
#[verifier::external_body]
fn fresh_uuid_bits() -> (r: u128)
    ensures
        is_random_uuid(r),
{
    uuid::Uuid::new_v4().as_u128()
}

/// `uuid::Uuid::new_v5` on the namespace with bits `namespace` and the
/// bytes of `name`; the result is named by `uuid_v5_bits`, a function of
/// the two arguments alone.
#[verifier::external_body]
pub(crate) fn uuid_new_v5(namespace: u128, name: &str) -> (r: u128)
    ensures
        r == uuid_v5_bits(namespace, name@),
{
    uuid::Uuid::new_v5(&uuid::Uuid::from_u128(namespace), name.as_bytes()).as_u128()
}

/// `Display` of `uuid::Uuid` (lowercase hyphenated form) for the UUID with
/// bits `bits`, as `uuid_text` spells it out.
#[verifier::external_body]
fn uuid_to_text(bits: u128) -> (r: String)
    ensures
        r@ == uuid_text(bits),
{
    uuid::Uuid::from_u128(bits).to_string()
}

/// What `uuid::Uuid::parse_str` gives for the text `s`: the bits of the
/// parsed UUID (as `Uuid::as_u128` reads them), or the text of its parse
/// error. A function of `s` alone.
pub uninterp spec fn uuid_parsed(s: Seq<char>) -> Result<u128, Seq<char>>;

/// `uuid::Uuid::parse_str` on `s`; the outcome is named by `uuid_parsed`.
#[verifier::external_body]
fn parse_uuid(s: &str) -> (r: Result<u128, String>)
    ensures
        uuid_parsed(s@) == (match r {
            Ok(b) => Ok::<u128, Seq<char>>(b),
            Err(e) => Err::<u128, Seq<char>>(e@),
        }),
{
    match uuid::Uuid::parse_str(s) {
        Ok(u) => Ok(u.as_u128()),
        Err(e) => Err(e.to_string()),
    }
}

/// The message for a stored id text `s` that does not parse, with the
/// parser's error text `err`.
pub open spec fn malformed_id_message(s: Seq<char>, err: Seq<char>) -> Seq<char> {
    "malformed stored UUID "@ + debug_quoted(s) + ": "@ + err
}

/// Every text of `ts` parses as a UUID.
pub open spec fn ids_parse(ts: Seq<String>) -> bool {
    forall|i: int| 0 <= i < ts.len() ==> (#[trigger] uuid_parsed(ts[i]@)) is Ok
}

/// The identifiers that the texts of `ts` parse to, in order.
pub open spec fn parsed_ids(ts: Seq<String>) -> Seq<AlynxisId> {
    Seq::new(ts.len(), |i: int| AlynxisId(uuid_parsed(ts[i]@)->Ok_0))
}

/// The identifier that the text `s` parses to (meaningful when it parses).
pub open spec fn parsed_id(s: Seq<char>) -> AlynxisId {
    AlynxisId(uuid_parsed(s)->Ok_0)
}

/// The identifier stored as the text `s`, or the message saying why `s`
/// does not parse.
pub fn parse_stored_id(s: &str) -> (r: Result<AlynxisId, String>)
    ensures
        match uuid_parsed(s@) {
            Ok(b) => r == Ok::<AlynxisId, String>(AlynxisId(b)),
            Err(t) => r matches Err(m) && m@ == malformed_id_message(s@, t),
        },
{
    match parse_uuid(s) {
        Ok(b) => Ok(AlynxisId(b)),
        Err(e) => {
            let mut m = String::from_str("malformed stored UUID ");
            let q = debug_quote(s);
            m.append(q.as_str());
            m.append(": ");
            m.append(e.as_str());
            proof {
                reveal_strlit("malformed stored UUID ");
                reveal_strlit(": ");
            }
            Err(m)
        },
    }
}

/// The identifiers stored as the texts of `ts`, in order; the message for
/// the first text that does not parse otherwise.
pub fn parse_stored_ids(ts: &Vec<String>) -> (r: Result<Vec<AlynxisId>, String>)
    ensures
        r is Ok <==> ids_parse(ts@),
        r matches Ok(v) ==> v@ == parsed_ids(ts@),
{
    let mut out: Vec<AlynxisId> = Vec::new();
    let mut i: usize = 0;
    while i < ts.len()
        invariant
            i <= ts.len(),
            out@.len() == i,
            forall|k: int| 0 <= k < i ==> (#[trigger] uuid_parsed(ts@[k]@)) is Ok,
            forall|k: int| 0 <= k < i ==> out@[k] == parsed_ids(ts@)[k],
        decreases ts.len() - i,
    {
        match parse_stored_id(ts[i].as_str()) {
            Ok(id) => {
                out.push(id);
            },
            Err(m) => {
                return Err(m);
            },
        }
        i = i + 1;
    }
    assert(out@ =~= parsed_ids(ts@));
    Ok(out)
}

/// An identifier: the 128 bits of a UUID.
#[derive(Debug, Clone, Copy, PartialEq, Eq, Hash, Structural)]
pub struct AlynxisId(pub u128);

impl AlynxisId {
    /// A fresh random identifier: a version-4 UUID with random bits.
    pub fn new() -> (r: Self)
        ensures
            is_random_uuid(r.0),
    {
        AlynxisId(fresh_uuid_bits())
    }

    /// The identifier with exactly these 128 bits.
    pub fn from_u128(bits: u128) -> (r: Self)
        ensures
            r.0 == bits,
    {
        AlynxisId(bits)
    }

    /// The 128 bits of this identifier.
    pub fn as_u128(&self) -> (r: u128)
        ensures
            r == self.0,
    {
        self.0
    }

    /// The identifier of a `uuid::Uuid` (its bits, read by `Uuid::as_u128`).
    #[verifier::external_body]
    pub fn from_uuid(id: uuid::Uuid) -> Self {
        AlynxisId(id.as_u128())
    }

    /// The `uuid::Uuid` with this identifier's bits (`Uuid::from_u128`).
    #[verifier::external_body]
    pub fn as_uuid(&self) -> uuid::Uuid {
        uuid::Uuid::from_u128(self.0)
    }

    /// The lowercase hyphenated UUID text of this identifier.
    pub fn to_string(&self) -> (r: String)
        ensures
            r@ == uuid_text(self.0),
    {
        uuid_to_text(self.0)
    }
}

} // verus!
