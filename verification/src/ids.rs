//! Identifiers: the `uuid` crate's `Uuid`, seen by the verifier as sixteen bytes.

use uuid::Uuid;
use vstd::prelude::*;

verus! {

/// Trusted: `uuid::Uuid`, carried as an opaque value.
#[verifier::external_type_specification]
#[verifier::external_body]
pub struct ExUuid(uuid::Uuid);

/// Trusted: `uuid::Error`, carried as an opaque value.
#[verifier::external_type_specification]
#[verifier::external_body]
pub struct ExUuidError(uuid::Error);

/// The bytes that an identifier holds, in the order in which they travel.
pub uninterp spec fn uuid_bytes(id: Uuid) -> Seq<u8>;

/// Trusted: `Uuid::as_bytes`. A `Uuid` is a wrapper around a `[u8; 16]`, and
/// `as_bytes` hands out that array; the contract takes it as the definition of
/// `uuid_bytes`.
#[verifier::external_body]
pub(crate) fn id_to_bytes(id: &Uuid) -> (out: [u8; 16])
    ensures
        out@ == uuid_bytes(*id),
{
    *id.as_bytes()
}

/// Trusted: `Uuid::from_slice`. It fails exactly when the slice is not sixteen
/// bytes long, and otherwise copies the slice into the identifier.
#[verifier::external_body]
pub(crate) fn id_from_slice(b: &[u8]) -> (out: Result<Uuid, uuid::Error>)
    ensures
        out.is_ok() <==> b@.len() == 16,
        out matches Ok(id) ==> uuid_bytes(id) == b@,
{
    Uuid::from_slice(b)
}

/// Trusted: `==` on `Uuid`, which the crate derives for its one field, the byte
/// array: two identifiers are equal exactly when their bytes are.
#[verifier::external_body]
pub(crate) fn same_id(a: &Uuid, b: &Uuid) -> (out: bool)
    ensures
        out == (uuid_bytes(*a) == uuid_bytes(*b)),
{
    a == b
}

/// Whether sixteen bytes carry the marks of a random identifier: the version
/// number four in the high half of the seventh byte, and the bits `10` at the
/// top of the ninth.
pub open spec fn is_random_id(b: Seq<u8>) -> bool {
    &&& b.len() == 16
    &&& b[6] & 0xf0 == 0x40
    &&& b[8] & 0xc0 == 0x80
}

/// Trusted: `Uuid::new_v4`, a random identifier. Which one comes back is left
/// open; the crate sets the version and variant bits of every one it makes.
#[verifier::external_body]
pub(crate) fn fresh_id() -> (out: Uuid)
    ensures
        is_random_id(uuid_bytes(out)),
{
    Uuid::new_v4()
}

} // verus!
