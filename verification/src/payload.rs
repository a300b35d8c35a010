//! What a target declares in its dry run, and the declaration's wire format:
//! a little-endian `u32` count, then one 34-byte record per resource
//! (32 identifier bytes, a signer byte, a writable byte).

use vstd::prelude::*;
use vstd::arithmetic::div_mod::{lemma_fundamental_div_mod, lemma_fundamental_div_mod_converse};
use crate::error::CallError;
use crate::identifier::ResourceIdentifier;

verus! {

/// One resource that the target will touch, with the permissions it asks for.
#[derive(Clone, Copy, Debug, PartialEq, Eq)]
pub struct IAccountMeta {
    pub pubkey: ResourceIdentifier,
    pub signer: bool,
    pub writable: bool,
}

/// The descriptor of a resource that is read and neither written nor signed
/// for.
pub open spec fn read_only(key: ResourceIdentifier) -> IAccountMeta {
    IAccountMeta { pubkey: key, signer: false, writable: false }
}

/// The target's declaration. The order of the resources is significant.
#[derive(Clone, Debug, PartialEq, Eq)]
pub struct PreflightPayload {
    pub accounts: Vec<IAccountMeta>,
}

impl View for PreflightPayload {
    type V = Seq<IAccountMeta>;

    open spec fn view(&self) -> Seq<IAccountMeta> {
        self.accounts@
    }
}

/// The four bytes of `n`, least significant first.
pub open spec fn le32(n: nat) -> Seq<u8> {
    seq![
        (n % 256) as u8,
        (n / 256 % 256) as u8,
        (n / 256 / 256 % 256) as u8,
        (n / 256 / 256 / 256 % 256) as u8,
    ]
}

/// The number that the first four bytes of `bytes` spell, least significant
/// first.
pub open spec fn count_of(bytes: Seq<u8>) -> nat
    recommends
        bytes.len() >= 4,
{
    (bytes[0] as nat) + 256 * (bytes[1] as nat) + 65536 * (bytes[2] as nat) + 16777216 * (
    bytes[3] as nat)
}

/// The byte that stands for a flag.
pub open spec fn flag_byte(flag: bool) -> u8 {
    if flag {
        1
    } else {
        0
    }
}

/// The 34 bytes of one record.
pub open spec fn record_bytes(descriptor: IAccountMeta) -> Seq<u8> {
    descriptor.pubkey.bytes@ + seq![flag_byte(descriptor.signer), flag_byte(descriptor.writable)]
}

/// A declaration that the wire format can carry: its count fits in a `u32`.
pub open spec fn well_formed(descriptors: Seq<IAccountMeta>) -> bool {
    descriptors.len() <= u32::MAX
}

/// The encoding of a declaration: byte `i` is a byte of the count while
/// `i < 4`, and afterwards byte `(i - 4) % 34` of record `(i - 4) / 34`.
pub open spec fn encode_spec(descriptors: Seq<IAccountMeta>) -> Seq<u8> {
    Seq::new(
        4 + 34 * descriptors.len(),
        |i: int|
            if i < 4 {
                le32(descriptors.len())[i]
            } else {
                record_bytes(descriptors[(i - 4) / 34])[(i - 4) % 34]
            },
    )
}

/// Whether the two flag bytes of record `k` are each 0 or 1.
pub open spec fn flags_valid_at(bytes: Seq<u8>, k: int) -> bool {
    bytes[4 + 34 * k + 32] <= 1 && bytes[4 + 34 * k + 33] <= 1
}

/// Bytes that are the encoding of some declaration: the count is there, the
/// length is exactly what the count announces, and every flag byte is 0 or 1.
pub open spec fn well_encoded(bytes: Seq<u8>) -> bool {
    &&& bytes.len() >= 4
    &&& bytes.len() == 4 + 34 * count_of(bytes)
    &&& forall|k: int| 0 <= k < count_of(bytes) ==> #[trigger] flags_valid_at(bytes, k)
}

/// The record that stands at position `k` of `bytes`.
pub open spec fn record_at(bytes: Seq<u8>, k: int) -> IAccountMeta {
    IAccountMeta {
        pubkey: ResourceIdentifier::from_seq(bytes.subrange(4 + 34 * k, 4 + 34 * k + 32)),
        signer: bytes[4 + 34 * k + 32] == 1,
        writable: bytes[4 + 34 * k + 33] == 1,
    }
}

/// The declaration that well-encoded bytes carry.
pub open spec fn decode_spec(bytes: Seq<u8>) -> Seq<IAccountMeta> {
    Seq::new(count_of(bytes), |k: int| record_at(bytes, k))
}

impl PreflightPayload {
    /// Whether the wire format can carry this declaration.
    pub open spec fn well_formed(&self) -> bool {
        well_formed(self@)
    }

    /// Encodes the declaration. Fails only when it holds more resources than
    /// a `u32` can count.
    pub fn encode(&self) -> (result: Result<Vec<u8>, CallError>)
        ensures
            result is Ok <==> self.well_formed(),
            result matches Ok(bytes) ==> bytes@ == encode_spec(self@),
            result matches Err(e) ==> e == CallError::FormatError,
    {
        let n = self.accounts.len();
        if n > 0xffff_ffff {
            return Err(CallError::FormatError);
        }
        let ghost expected = encode_spec(self@);
        let mut out: Vec<u8> = Vec::new();
        out.push((n % 256) as u8);
        out.push((n / 256 % 256) as u8);
        out.push((n / 256 / 256 % 256) as u8);
        out.push((n / 256 / 256 / 256 % 256) as u8);
        let mut i: usize = 0;
        while i < n
            invariant
                n == self.accounts@.len(),
                n <= u32::MAX,
                i <= n,
                expected == encode_spec(self@),
                out@.len() == 4 + 34 * i,
                forall|j: int| 0 <= j < out@.len() ==> out@[j] == expected[j],
            decreases n - i,
        {
            let descriptor = self.accounts[i];
            let ghost before = out@;
            out.extend_from_slice(&descriptor.pubkey.bytes);
            out.push(if descriptor.signer { 1u8 } else { 0u8 });
            out.push(if descriptor.writable { 1u8 } else { 0u8 });
            proof {
                assert(out@ =~= before + record_bytes(descriptor));
                assert forall|j: int| 0 <= j < out@.len() implies out@[j] == expected[j] by {
                    if j >= before.len() {
                        assert((j - 4) / 34 == i as int);
                        assert((j - 4) % 34 == j - 4 - 34 * i);
                    }
                }
            }
            i += 1;
        }
        assert(out@ =~= expected);
        Ok(out)
    }

    /// Decodes a declaration. Succeeds exactly on the bytes that `encode`
    /// produces, and gives back the declaration that encodes to them.
    pub fn decode(bytes: &[u8]) -> (result: Result<PreflightPayload, CallError>)
        ensures
            result is Ok <==> well_encoded(bytes@),
            result matches Ok(payload) ==> payload@ == decode_spec(bytes@),
            result matches Err(e) ==> e == CallError::FormatError,
    {
        if bytes.len() < 4 {
            return Err(CallError::FormatError);
        }
        let count: u64 = (bytes[0] as u64) + 256 * (bytes[1] as u64) + 65536 * (bytes[2] as u64)
            + 16777216 * (bytes[3] as u64);
        assert(count == count_of(bytes@));
        if (bytes.len() - 4) as u64 != 34 * count {
            return Err(CallError::FormatError);
        }
        let n: usize = (bytes.len() - 4) / 34;
        assert(n == count);
        let mut accounts: Vec<IAccountMeta> = Vec::new();
        let mut k: usize = 0;
        while k < n
            invariant
                n == count_of(bytes@),
                n <= u32::MAX,
                bytes@.len() == 4 + 34 * n,
                bytes@.len() <= usize::MAX,
                k <= n,
                accounts@.len() == k,
                forall|j: int| 0 <= j < k ==> #[trigger] flags_valid_at(bytes@, j),
                forall|j: int|
                    0 <= j < k ==> #[trigger] record_bytes(accounts@[j]) == bytes@.subrange(
                        4 + 34 * j,
                        4 + 34 * j + 34,
                    ),
            decreases n - k,
        {
            let at: usize = 4 + 34 * k;
            let mut id = [0u8; 32];
            let mut b: usize = 0;
            while b < 32
                invariant
                    b <= 32,
                    at + 34 <= bytes@.len() <= usize::MAX,
                    forall|c: int| 0 <= c < b ==> id[c] == bytes@[at + c],
                decreases 32 - b,
            {
                id[b] = bytes[at + b];
                b += 1;
            }
            let signer = bytes[at + 32];
            let writable = bytes[at + 33];
            if signer > 1 || writable > 1 {
                assert(!flags_valid_at(bytes@, k as int));
                return Err(CallError::FormatError);
            }
            let descriptor = IAccountMeta {
                pubkey: ResourceIdentifier { bytes: id },
                signer: signer == 1,
                writable: writable == 1,
            };
            assert(record_bytes(descriptor) =~= bytes@.subrange(at as int, at + 34));
            accounts.push(descriptor);
            k += 1;
        }
        let payload = PreflightPayload { accounts };
        proof {
            let encoded = encode_spec(payload@);
            assert(encoded.len() == bytes@.len());
            assert forall|i: int| 0 <= i < encoded.len() implies encoded[i] == bytes@[i] by {
                if i >= 4 {
                    let j = (i - 4) / 34;
                    let c = (i - 4) % 34;
                    assert(0 <= j < n);
                    assert(i == 4 + 34 * j + c);
                    assert(record_bytes(payload@[j]) == bytes@.subrange(
                        4 + 34 * j,
                        4 + 34 * j + 34,
                    ));
                    assert(bytes@.subrange(4 + 34 * j, 4 + 34 * j + 34)[c] == bytes@[i]);
                } else {
                    lemma_le32_of_count(bytes@);
                }
            }
            assert(encoded =~= bytes@);
            lemma_decode_encode(payload@);
        }
        Ok(payload)
    }
}

/// Writing out the number that four bytes spell gives back those bytes.
pub proof fn lemma_le32_of_count(bytes: Seq<u8>)
    requires
        bytes.len() >= 4,
    ensures
        count_of(bytes) <= u32::MAX,
        le32(count_of(bytes)) == bytes.subrange(0, 4),
{
    let n = count_of(bytes) as int;
    let q3 = bytes[3] as int;
    let q2 = 256 * q3 + bytes[2];
    let q1 = 256 * q2 + bytes[1];
    assert(n == 256 * q1 + bytes[0]);
    lemma_fundamental_div_mod_converse(n, 256, q1, bytes[0] as int);
    lemma_fundamental_div_mod_converse(q1, 256, q2, bytes[1] as int);
    lemma_fundamental_div_mod_converse(q2, 256, q3, bytes[2] as int);
    lemma_fundamental_div_mod_converse(q3, 256, 0, bytes[3] as int);
    assert(le32(count_of(bytes)) =~= bytes.subrange(0, 4));
}

/// The four bytes of a number that fits in a `u32` spell that number.
pub proof fn lemma_count_of_le32(n: nat)
    requires
        n <= u32::MAX,
    ensures
        count_of(le32(n)) == n,
{
    let q1 = n as int / 256;
    let q2 = q1 / 256;
    let q3 = q2 / 256;
    lemma_fundamental_div_mod(n as int, 256);
    lemma_fundamental_div_mod(q1, 256);
    lemma_fundamental_div_mod(q2, 256);
    lemma_fundamental_div_mod(q3, 256);
    assert(0 <= q3 < 256);
    assert(q3 / 256 == 0);
}

/// Position `i` of an encoding, past the count, is byte `i - 4 - 34 * k` of
/// record `k`.
proof fn lemma_encoded_byte(descriptors: Seq<IAccountMeta>, k: int, c: int)
    requires
        0 <= k < descriptors.len(),
        0 <= c < 34,
    ensures
        encode_spec(descriptors)[4 + 34 * k + c] == record_bytes(descriptors[k])[c],
{
    let i = 4 + 34 * k + c;
    assert((i - 4) / 34 == k);
    assert((i - 4) % 34 == c);
}

/// The count in front of an encoding is the number of its records.
pub proof fn lemma_encoded_count(descriptors: Seq<IAccountMeta>)
    requires
        well_formed(descriptors),
    ensures
        encode_spec(descriptors).len() == 4 + 34 * descriptors.len(),
        count_of(encode_spec(descriptors)) == descriptors.len(),
{
    let n = descriptors.len();
    let encoded = encode_spec(descriptors);
    assert(encoded.subrange(0, 4) =~= le32(n));
    lemma_count_of_le32(n);
    assert(count_of(encoded) == count_of(le32(n)));
}

/// Decoding inverts encoding: every declaration that the wire format can
/// carry encodes to well-encoded bytes, and those bytes carry the declaration.
pub proof fn lemma_decode_encode(descriptors: Seq<IAccountMeta>)
    requires
        well_formed(descriptors),
    ensures
        well_encoded(encode_spec(descriptors)),
        decode_spec(encode_spec(descriptors)) == descriptors,
{
    let encoded = encode_spec(descriptors);
    lemma_encoded_count(descriptors);
    assert forall|k: int| 0 <= k < descriptors.len() implies flags_valid_at(encoded, k)
        && record_at(encoded, k) == descriptors[k] by {
        let d = descriptors[k];
        lemma_encoded_byte(descriptors, k, 32);
        lemma_encoded_byte(descriptors, k, 33);
        let id_bytes = encoded.subrange(4 + 34 * k, 4 + 34 * k + 32);
        assert forall|c: int| 0 <= c < 32 implies id_bytes[c] == d.pubkey.bytes@[c] by {
            lemma_encoded_byte(descriptors, k, c);
        }
        assert(id_bytes =~= d.pubkey.bytes@);
        ResourceIdentifier::lemma_from_seq(id_bytes);
    }
    assert(decode_spec(encoded) =~= descriptors);
}

/// Encoding inverts decoding: well-encoded bytes carry a declaration that the
/// wire format can carry, and that declaration encodes to the same bytes.
pub proof fn lemma_encode_decode(bytes: Seq<u8>)
    requires
        well_encoded(bytes),
    ensures
        well_formed(decode_spec(bytes)),
        encode_spec(decode_spec(bytes)) == bytes,
{
    let descriptors = decode_spec(bytes);
    let encoded = encode_spec(descriptors);
    assert(count_of(bytes) <= u32::MAX);
    assert forall|i: int| 0 <= i < encoded.len() implies encoded[i] == bytes[i] by {
        if i >= 4 {
            let k = (i - 4) / 34;
            let c = (i - 4) % 34;
            assert(i == 4 + 34 * k + c);
            assert(flags_valid_at(bytes, k));
            let id_bytes = bytes.subrange(4 + 34 * k, 4 + 34 * k + 32);
            ResourceIdentifier::lemma_from_seq(id_bytes);
            if c < 32 {
                assert(id_bytes[c] == bytes[i]);
            }
        } else {
            lemma_le32_of_count(bytes);
            assert(bytes.subrange(0, 4)[i] == bytes[i]);
        }
    }
    assert(encoded =~= bytes);
}

/// Two declarations with the same encoding are the same declaration.
pub proof fn lemma_encode_injective(first: Seq<IAccountMeta>, second: Seq<IAccountMeta>)
    requires
        well_formed(first),
        well_formed(second),
        encode_spec(first) == encode_spec(second),
    ensures
        first == second,
{
    lemma_decode_encode(first);
    lemma_decode_encode(second);
}

} // verus!
