use vstd::prelude::*;
use uuid::Uuid;

verus! {

/// Identifier of a participant record: the 128 bits of a UUID.
#[derive(Clone, Copy, Debug, PartialEq, Eq, Hash, Structural)]
pub struct ParticipantId(pub u128);

/// Whether the 128 bits carry the version nibble of a random UUID
/// (version 4) and the RFC 4122 variant.
pub open spec fn is_random_uuid(bits: u128) -> bool {
    &&& (bits >> 76) & 0xf == 4
    &&& (bits >> 62) & 0x3 == 2
}

/// `Uuid::new_v4`, read by `as_u128`: random bits but for the version,
/// which is 4, and the variant, which is RFC 4122.
#[verifier::external_body]
fn random_uuid_bits() -> (bits: u128)
    ensures
        is_random_uuid(bits),
{
    Uuid::new_v4().as_u128()
}

impl ParticipantId {
    /// The identifier as 128 bits.
    pub open spec fn bits(self) -> u128 {
        self.0
    }

    /// Draws a fresh random identifier.
    pub fn generate() -> (id: ParticipantId)
        ensures
            is_random_uuid(id.bits()),
    {
        ParticipantId(random_uuid_bits())
    }

    /// Whether the identifier has the shape of a random (version 4) UUID.
    pub fn is_random(self) -> (b: bool)
        ensures
            b == is_random_uuid(self.bits()),
    {
        (self.0 >> 76) & 0xf == 4 && (self.0 >> 62) & 0x3 == 2
    }
}

} // verus!
