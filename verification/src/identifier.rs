//! Resource identifiers: 32 opaque bytes that name an addressable resource.

use vstd::prelude::*;

verus! {

/// Identifies an addressable resource. Two identifiers are equal when their
/// bytes are.
#[derive(Clone, Copy, Debug, Eq, Hash)]
pub struct ResourceIdentifier {
    pub bytes: [u8; 32],
}

/// An array whose first `n` bytes are those of `bytes`.
pub open spec fn array_of(bytes: Seq<u8>, n: nat) -> [u8; 32]
    decreases n,
{
    if n == 0 {
        vstd::array::spec_array_fill_for_copy_type::<u8, 32>(0)
    } else {
        vstd::array::spec_array_update(array_of(bytes, (n - 1) as nat), n - 1, bytes[n - 1])
    }
}

/// The first `n` bytes of `array_of(bytes, n)` are those of `bytes`.
proof fn lemma_array_of(bytes: Seq<u8>, n: nat)
    requires
        n <= 32,
        bytes.len() >= n,
    ensures
        forall|i: int| 0 <= i < n ==> array_of(bytes, n)@[i] == bytes[i],
    decreases n,
{
    if n > 0 {
        lemma_array_of(bytes, (n - 1) as nat);
    }
}

impl ResourceIdentifier {
    /// The identifier whose bytes are the 32 bytes of `bytes`.
    pub open spec fn from_seq(bytes: Seq<u8>) -> ResourceIdentifier {
        ResourceIdentifier { bytes: array_of(bytes, 32) }
    }

    /// `from_seq` is the inverse of taking an identifier's bytes.
    pub proof fn lemma_from_seq(bytes: Seq<u8>)
        requires
            bytes.len() == 32,
        ensures
            Self::from_seq(bytes).bytes@ == bytes,
            forall|id: ResourceIdentifier| id.bytes@ == bytes ==> id == Self::from_seq(bytes),
    {
        lemma_array_of(bytes, 32);
        assert(Self::from_seq(bytes).bytes@ =~= bytes);
        assert forall|id: ResourceIdentifier| id.bytes@ == bytes implies id == Self::from_seq(
            bytes,
        ) by {
            id.lemma_equal_by_bytes(Self::from_seq(bytes));
        }
    }

    /// The identifier made of `bytes`.
    pub fn new(bytes: [u8; 32]) -> (id: ResourceIdentifier)
        ensures
            id.bytes == bytes,
    {
        ResourceIdentifier { bytes }
    }

    /// The identifier's bytes.
    pub fn to_bytes(&self) -> (bytes: [u8; 32])
        ensures
            bytes == self.bytes,
    {
        self.bytes
    }

    /// Two identifiers with the same bytes are the same identifier.
    pub proof fn lemma_equal_by_bytes(self, other: ResourceIdentifier)
        ensures
            (self == other) <==> (self.bytes@ == other.bytes@),
    {
        if self.bytes@ == other.bytes@ {
            assert forall|i: int| 0 <= i < 32 implies self.bytes[i] == other.bytes[i] by {
                assert(self.bytes@[i] == other.bytes@[i]);
            }
            assert(self.bytes =~= other.bytes);
        }
    }
}

impl PartialEq for ResourceIdentifier {
    fn eq(&self, other: &ResourceIdentifier) -> (equal: bool) {
        let mut i: usize = 0;
        while i < 32
            invariant
                i <= 32,
                forall|j: int| 0 <= j < i ==> self.bytes[j] == other.bytes[j],
            decreases 32 - i,
        {
            if self.bytes[i] != other.bytes[i] {
                return false;
            }
            i += 1;
        }
        assert(self.bytes =~= other.bytes);
        true
    }
}

impl vstd::std_specs::cmp::PartialEqSpecImpl for ResourceIdentifier {
    open spec fn obeys_eq_spec() -> bool {
        true
    }

    open spec fn eq_spec(&self, other: &ResourceIdentifier) -> bool {
        *self == *other
    }
}

} // verus!
