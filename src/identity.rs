//! Derivation of the storage keys of polls and candidates.
//!
//! A poll key is a namespace byte followed by the poll id as eight
//! little-endian bytes. A candidate key is another namespace byte, the poll id
//! in the same fixed-width form, then the UTF-8 bytes of the candidate name.
//! Because the id always takes eight bytes, the split between id and name is
//! unambiguous, so distinct inputs never share a key.
use vstd::bytes::{lemma_auto_spec_u64_to_from_le_bytes, spec_u64_to_le_bytes, u64_to_le_bytes};
use vstd::prelude::*;
use vstd::utf8::{decode_utf8, encode_utf8};

use crate::error::VoteError;

verus! {

broadcast use vstd::utf8::encode_utf8_decode_utf8;

/// The longest candidate name or poll description, in UTF-8 bytes.
pub const MAX_TEXT_LEN: usize = 32;

/// First byte of every poll key.
pub const POLL_TAG: u8 = 0x50;

/// First byte of every candidate key.
pub const CANDIDATE_TAG: u8 = 0x43;

/// Length of a text in UTF-8 bytes.
pub open spec fn text_len(s: Seq<char>) -> nat {
    encode_utf8(s).len()
}

/// Whether a text fits the bound on names and descriptions.
pub open spec fn text_fits(s: Seq<char>) -> bool {
    text_len(s) <= MAX_TEXT_LEN
}

/// The key of the poll with id `poll_id`.
pub open spec fn poll_key(poll_id: u64) -> Seq<u8> {
    seq![POLL_TAG] + spec_u64_to_le_bytes(poll_id)
}

/// The key of the candidate named `name` under the poll with id `poll_id`.
pub open spec fn candidate_key(poll_id: u64, name: Seq<char>) -> Seq<u8> {
    seq![CANDIDATE_TAG] + spec_u64_to_le_bytes(poll_id) + encode_utf8(name)
}

/// Whether `s` is at most `MAX_TEXT_LEN` bytes long in UTF-8.
pub fn fits(s: &str) -> (r: bool)
    ensures
        r == text_fits(s@),
{
    s.as_bytes().len() <= MAX_TEXT_LEN
}

/// A derived storage key.
#[derive(Debug, Clone, PartialEq, Eq, Hash)]
pub struct Key {
    bytes: Vec<u8>,
}

impl View for Key {
    type V = Seq<u8>;

    closed spec fn view(&self) -> Seq<u8> {
        self.bytes@
    }
}

impl Key {
    /// The bytes of the key.
    pub fn as_bytes(&self) -> (r: &[u8])
        ensures
            r@ == self@,
    {
        self.bytes.as_slice()
    }

    /// Whether two keys hold the same bytes.
    pub fn same_as(&self, other: &Key) -> (r: bool)
        ensures
            r == (self@ == other@),
    {
        if self.bytes.len() != other.bytes.len() {
            return false;
        }
        let n = self.bytes.len();
        let mut i: usize = 0;
        while i < n
            invariant
                n == self@.len(),
                n == other@.len(),
                i <= n,
                forall|j: int| 0 <= j < i ==> self@[j] == other@[j],
            decreases n - i,
        {
            if self.bytes[i] != other.bytes[i] {
                return false;
            }
            i = i + 1;
        }
        assert(self@ =~= other@);
        true
    }
}

/// Derives the key of the poll with id `poll_id`.
pub fn derive_poll_key(poll_id: u64) -> (k: Key)
    ensures
        k@ == poll_key(poll_id),
{
    let mut bytes: Vec<u8> = Vec::new();
    bytes.push(POLL_TAG);
    let mut id_bytes = u64_to_le_bytes(poll_id);
    bytes.append(&mut id_bytes);
    assert(bytes@ =~= poll_key(poll_id));
    Key { bytes }
}

/// Derives the key of the candidate named `candidate_name` under the poll with
/// id `poll_id`. Fails with `IdentityTooLong` when the name is longer than
/// `MAX_TEXT_LEN` bytes.
pub fn derive_candidate_key(poll_id: u64, candidate_name: &str) -> (r: Result<Key, VoteError>)
    ensures
        match r {
            Ok(k) => text_fits(candidate_name@) && k@ == candidate_key(poll_id, candidate_name@),
            Err(e) => !text_fits(candidate_name@) && e == VoteError::IdentityTooLong,
        },
{
    if !fits(candidate_name) {
        return Err(VoteError::IdentityTooLong);
    }
    let mut bytes: Vec<u8> = Vec::new();
    bytes.push(CANDIDATE_TAG);
    let mut id_bytes = u64_to_le_bytes(poll_id);
    bytes.append(&mut id_bytes);
    let name_bytes = candidate_name.as_bytes();
    let n = name_bytes.len();
    let ghost prefix = bytes@;
    let mut i: usize = 0;
    while i < n
        invariant
            n == name_bytes@.len(),
            i <= n,
            bytes@ =~= prefix + name_bytes@.subrange(0, i as int),
        decreases n - i,
    {
        bytes.push(name_bytes[i]);
        i = i + 1;
    }
    assert(name_bytes@.subrange(0, n as int) =~= name_bytes@);
    assert(bytes@ =~= candidate_key(poll_id, candidate_name@));
    Ok(Key { bytes })
}

/// Two poll ids give the same poll key exactly when they are equal: the key
/// is determined by the id, and distinct ids never share a key.
pub proof fn lemma_poll_key_injective(id1: u64, id2: u64)
    ensures
        poll_key(id1) == poll_key(id2) <==> id1 == id2,
{
    lemma_auto_spec_u64_to_from_le_bytes();
    if poll_key(id1) == poll_key(id2) {
        assert(spec_u64_to_le_bytes(id1) =~= poll_key(id1).subrange(1, 9));
        assert(spec_u64_to_le_bytes(id2) =~= poll_key(id2).subrange(1, 9));
    }
}

/// Two pairs of poll id and name give the same candidate key exactly when
/// they are equal: the key is determined by the pair, and pairs that differ
/// in either part never share a key.
pub proof fn lemma_candidate_key_injective(id1: u64, name1: Seq<char>, id2: u64, name2: Seq<char>)
    ensures
        candidate_key(id1, name1) == candidate_key(id2, name2) <==> (id1 == id2 && name1 == name2),
{
    lemma_auto_spec_u64_to_from_le_bytes();
    let k1 = candidate_key(id1, name1);
    let k2 = candidate_key(id2, name2);
    if k1 == k2 {
        assert(spec_u64_to_le_bytes(id1) =~= k1.subrange(1, 9));
        assert(spec_u64_to_le_bytes(id2) =~= k2.subrange(1, 9));
        assert(encode_utf8(name1) =~= k1.subrange(9, k1.len() as int));
        assert(encode_utf8(name2) =~= k2.subrange(9, k2.len() as int));
        assert(decode_utf8(encode_utf8(name1)) == name1);
        assert(decode_utf8(encode_utf8(name2)) == name2);
    }
}

/// No poll key is a candidate key.
pub proof fn lemma_key_namespaces_disjoint(id1: u64, id2: u64, name: Seq<char>)
    ensures
        poll_key(id1) != candidate_key(id2, name),
{
    assert(poll_key(id1)[0] == POLL_TAG);
    assert(candidate_key(id2, name)[0] == CANDIDATE_TAG);
}

} // verus!
