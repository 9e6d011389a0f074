//! The 32-byte hashes that name blocks and transactions.

use vstd::prelude::*;

verus! {

/// A block hash or transaction id as the node reports it.
#[derive(Clone, Copy, Debug, Eq)]
pub struct Hash32 {
    pub bytes: [u8; 32],
}

impl PartialEq for Hash32 {
    fn eq(&self, other: &Hash32) -> (r: bool) {
        let mut i: usize = 0;
        while i < 32
            invariant
                i <= 32,
                forall|j: int| 0 <= j < i ==> self.bytes[j] == other.bytes[j],
            decreases 32 - i,
        {
            if self.bytes[i] != other.bytes[i] {
                return false;
            }
            i += 1;
        }
        assert(self.bytes =~= other.bytes);
        true
    }
}

impl vstd::std_specs::cmp::PartialEqSpecImpl for Hash32 {
    open spec fn obeys_eq_spec() -> bool {
        true
    }

    open spec fn eq_spec(&self, other: &Hash32) -> bool {
        *self == *other
    }
}

/// The sixteen lower-case hexadecimal digits, by value.
pub open spec fn hex_digits() -> Seq<char> {
    seq!['0', '1', '2', '3', '4', '5', '6', '7', '8', '9', 'a', 'b', 'c', 'd', 'e', 'f']
}

/// Two lower-case hexadecimal digits for each byte, the high half first.
pub open spec fn lower_hex(bytes: Seq<u8>) -> Seq<char> {
    Seq::new(
        2 * bytes.len(),
        |i: int|
            if i % 2 == 0 {
                hex_digits()[bytes[i / 2] as int / 16]
            } else {
                hex_digits()[bytes[i / 2] as int % 16]
            },
    )
}

/// Formats 32 bytes with the `Display` impl of `kaspa_hashes::Hash`, which
/// hex-encodes them in lower case, two digits per byte in byte order.
#[verifier::external_body]
fn hash_text(bytes: &[u8; 32]) -> (text: String)
    ensures
        text@ == lower_hex(bytes@),
{
    kaspa_hashes::Hash::from_bytes(*bytes).to_string()
}

impl Hash32 {
    /// Whether every byte is zero: the value the node puts where it has no hash to give.
    pub open spec fn is_zero_spec(&self) -> bool {
        forall|i: int| 0 <= i < 32 ==> self.bytes[i] == 0
    }

    /// The all-zero hash.
    pub fn zero() -> (z: Hash32)
        ensures
            z.is_zero_spec(),
    {
        Hash32 { bytes: [0u8; 32] }
    }

    /// Tests for the all-zero hash.
    pub fn is_zero(&self) -> (r: bool)
        ensures
            r == self.is_zero_spec(),
    {
        let mut i: usize = 0;
        while i < 32
            invariant
                i <= 32,
                forall|j: int| 0 <= j < i ==> self.bytes[j] == 0,
            decreases 32 - i,
        {
            if self.bytes[i] != 0 {
                return false;
            }
            i += 1;
        }
        true
    }

    /// The hash as 64 lower-case hexadecimal digits.
    pub fn to_hex(&self) -> (text: String)
        ensures
            text@ == lower_hex(self.bytes@),
    {
        hash_text(&self.bytes)
    }
}

/// Any two all-zero hashes are the same hash.
pub proof fn zero_hash_is_unique(a: Hash32, b: Hash32)
    requires
        a.is_zero_spec(),
        b.is_zero_spec(),
    ensures
        a == b,
{
    assert(a.bytes =~= b.bytes);
}

} // verus!
