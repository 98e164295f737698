//! The hash that names a blob.

use vstd::prelude::*;
use vstd::arithmetic::power::pow;

verus! {

/// The number of bytes in a hash.
pub const HASH_LEN: usize = 32;

/// The hash of a blob's content, as its raw bytes.
#[derive(Clone, Copy, Debug, PartialEq, Eq, Hash)]
pub struct BlobHash {
    pub bytes: [u8; 32],
}

impl View for BlobHash {
    type V = Seq<u8>;

    open spec fn view(&self) -> Seq<u8> {
        self.bytes@
    }
}

/// The hash with the given bytes, where there are as many as a hash has.
pub open spec fn hash_of(bytes: Seq<u8>) -> BlobHash {
    choose|hash: BlobHash| hash@ == bytes
}

/// A hash is determined by its bytes.
pub broadcast proof fn lemma_hash_of_view(hash: BlobHash)
    ensures
        hash_of(#[trigger] hash@) == hash,
{
    let other = hash_of(hash@);
    assert(other@ == hash@);
    assert forall|i: int| 0 <= i < 32 implies other.bytes[i] == hash.bytes[i] by {
        assert(other@[i] == hash@[i]);
    }
    assert(other.bytes =~= hash.bytes);
}

/// The number that bytes stand for, the first byte weighing most.
pub open spec fn bytes_number(bytes: Seq<u8>) -> int
    decreases bytes.len(),
{
    if bytes.len() == 0 {
        0
    } else {
        bytes_number(bytes.drop_last()) * 256 + bytes.last()
    }
}

/// A digit in base 32: a letter from `a` on, and after `z` a figure from `2` on.
pub open spec fn base32_digit(value: int) -> char {
    if value < 26 {
        (0x61 + value) as char
    } else {
        (0x32 + value - 26) as char
    }
}

/// The text of a hash: its bits in groups of five, from the first on, each as a digit in base 32.
/// The last group is filled up with zeros.
pub open spec fn hash_text(bytes: Seq<u8>) -> Seq<char> {
    Seq::new(
        52,
        |i: int| base32_digit(bytes_number(bytes) * 16 / pow(32, (51 - i) as nat) % 32),
    )
}

/// `<Hash as Display>::fmt`, by way of `to_string`, of the `Hash` with the given bytes: the bytes in
/// base 32 without padding, in lower case.
#[verifier::external_body]
pub(crate) fn hash_to_text(hash: &BlobHash) -> (res: String)
    ensures
        res@ == hash_text(hash@),
{
    iroh_base::hash::Hash::from_bytes(hash.bytes).to_string()
}

impl BlobHash {
    /// The hash with the given bytes, if there are as many as a hash has.
    pub fn from_slice(bytes: &[u8]) -> (res: Option<BlobHash>)
        ensures
            res is Some <==> bytes@.len() == HASH_LEN,
            res matches Some(hash) ==> hash@ == bytes@ && hash == hash_of(bytes@),
    {
        if bytes.len() != HASH_LEN {
            return None;
        }
        let mut copy: [u8; 32] = [0u8; 32];
        let mut i: usize = 0;
        while i < HASH_LEN
            invariant
                i <= HASH_LEN,
                bytes@.len() == HASH_LEN,
                forall|j: int| 0 <= j < i ==> copy@[j] == bytes@[j],
            decreases HASH_LEN - i,
        {
            copy[i] = bytes[i];
            i += 1;
        }
        let hash = BlobHash { bytes: copy };
        proof {
            assert(hash@ =~= bytes@);
            lemma_hash_of_view(hash);
        }
        Some(hash)
    }

    /// The bytes of the hash.
    pub fn as_slice(&self) -> (res: &[u8])
        ensures
            res@ == self@,
    {
        self.bytes.as_slice()
    }

    /// Whether two hashes are the same.
    pub fn same(&self, other: &BlobHash) -> (res: bool)
        ensures
            res == (*self == *other),
            res == (self@ == other@),
    {
        let mut i: usize = 0;
        while i < HASH_LEN
            invariant
                i <= HASH_LEN,
                forall|j: int| 0 <= j < i ==> self@[j] == other@[j],
            decreases HASH_LEN - i,
        {
            if self.bytes[i] != other.bytes[i] {
                assert(self@[i as int] != other@[i as int]);
                return false;
            }
            i += 1;
        }
        proof {
            assert(self@ =~= other@);
            lemma_hash_of_view(*self);
            lemma_hash_of_view(*other);
        }
        true
    }
}

} // verus!
