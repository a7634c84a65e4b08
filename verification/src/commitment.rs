//! The commitment scheme: a SHA-256 digest over the serialized identity
//! state followed by the sixteen little-endian bytes of a nonce.

use crate::error::ProtocolError;
use crate::state::{UserObject, UserObjectView};
use k256::sha2::{Digest, Sha256};
use crate::little_endian::{
    le_bytes, lemma_le_bytes_injective, lemma_le_bytes_len, lemma_u128_fits, lemma_u64_fits,
    u128_le_bytes,
};
use vstd::prelude::*;

verus! {

/// The tickets one after another, sixteen little-endian bytes each.
pub open spec fn tickets_encoding(tickets: Seq<u128>) -> Seq<u8>
    decreases tickets.len(),
{
    if tickets.len() == 0 {
        Seq::empty()
    } else {
        tickets_encoding(tickets.drop_last()) + le_bytes(tickets.last() as nat, 16)
    }
}

/// The serialized form of an identity state: one byte for the ban flag (0 or
/// 1), the number of tickets as eight little-endian bytes, the tickets, and
/// the internal nonce as sixteen little-endian bytes. Field order and widths
/// are fixed.
pub open spec fn state_encoding(state: UserObjectView) -> Seq<u8> {
    seq![if state.is_banned { 1u8 } else { 0u8 }]
        + le_bytes(state.tickets.len(), 8)
        + tickets_encoding(state.tickets)
        + le_bytes(state.current_internal_nonce as nat, 16)
}

/// The bytes that are hashed: the serialized state, then the nonce.
pub open spec fn commitment_preimage(state: UserObjectView, nonce: u128) -> Seq<u8> {
    state_encoding(state) + le_bytes(nonce as nat, 16)
}

/// The SHA-256 digest of `data`, as `sha2::Sha256` computes it.
pub uninterp spec fn sha256(data: Seq<u8>) -> Seq<u8>;

/// Whether `bincode::serialize` returns `Ok` for the triple of an identity
/// state's fields. bincode reports failure through its result; nothing is
/// assumed here about when it does.
pub uninterp spec fn bincode_accepts(
    is_banned: bool,
    tickets: Seq<u128>,
    current_internal_nonce: u128,
) -> bool;

/// The commitment to `state` under `nonce`, or the encoding failure.
pub open spec fn commitment(state: UserObjectView, nonce: u128) -> Result<Seq<u8>, ProtocolError> {
    if bincode_accepts(state.is_banned, state.tickets, state.current_internal_nonce) {
        Ok(sha256(commitment_preimage(state, nonce)))
    } else {
        Err(ProtocolError::EncodingError)
    }
}

/// An outcome of committing, with the digest as a byte sequence.
pub open spec fn digest_view(r: Result<[u8; 32], ProtocolError>) -> Result<Seq<u8>, ProtocolError> {
    match r {
        Ok(digest) => Ok(digest@),
        Err(e) => Err(e),
    }
}

/// `bincode::ErrorKind`, the error that bincode boxes; carried, never read.
#[verifier::external_type_specification]
#[verifier::external_body]
pub struct ExBincodeErrorKind(bincode::ErrorKind);

/// `bincode::serialize` on the triple (ban flag, tickets, internal nonce),
/// which bincode lays out as it does a struct of these three fields: the
/// fields in order, nothing between them.
///
/// Trusted: the bytes of an `Ok` result are `state_encoding`. bincode's own
/// account of this function is little endian, fixed-width integers written
/// directly, lengths as `u64`, no limit; a `bool` is one byte, 0 or 1.
/// Whether the result is `Ok` is `bincode_accepts`.
#[verifier::external_body]
fn bincode_state(is_banned: bool, tickets: &Vec<u128>, current_internal_nonce: u128) -> (r: Result<
    Vec<u8>,
    Box<bincode::ErrorKind>,
>)
    ensures
        r is Ok == bincode_accepts(is_banned, tickets@, current_internal_nonce),
        r matches Ok(bytes) ==> bytes@ == state_encoding(
            UserObjectView { is_banned, tickets: tickets@, current_internal_nonce },
        ),
{
    bincode::serialize(&(is_banned, tickets, current_internal_nonce))
}

/// `Sha256::digest` of the `sha2` crate that `k256` re-exports.
///
/// Trusted: the digest is a function of the bytes alone, named `sha256`.
#[verifier::external_body]
fn sha256_digest(data: &[u8]) -> (digest: [u8; 32])
    ensures
        digest@ == sha256(data@),
{
    Sha256::digest(data).into()
}

/// Appends the sixteen little-endian bytes of `nonce` to a serialized state.
pub fn preimage(encoded_state: Vec<u8>, nonce: u128) -> (bytes: Vec<u8>)
    ensures
        bytes@ == encoded_state@ + le_bytes(nonce as nat, 16),
{
    let mut bytes = encoded_state;
    let mut tail = u128_le_bytes(nonce);
    bytes.append(&mut tail);
    bytes
}

/// Commits to `object_to_commit` under `external_commitment_randomness`.
///
/// The result is a function of the state's fields and the nonce alone: the
/// SHA-256 digest of the serialized state followed by the nonce. The only
/// failure is `EncodingError`, where the state cannot be serialized.
pub fn compute_commitment(object_to_commit: &UserObject, external_commitment_randomness: u128) -> (r:
    Result<[u8; 32], ProtocolError>)
    ensures
        digest_view(r) == commitment(object_to_commit@, external_commitment_randomness),
{
    match bincode_state(
        object_to_commit.is_banned,
        &object_to_commit.tickets,
        object_to_commit.current_internal_nonce,
    ) {
        Ok(encoded_state) => {
            let bytes = preimage(encoded_state, external_commitment_randomness);
            Ok(sha256_digest(bytes.as_slice()))
        },
        Err(_) => Err(ProtocolError::EncodingError),
    }
}

/// Two concatenations that agree, split at the same place, agree part by part.
proof fn lemma_split_equal(a1: Seq<u8>, b1: Seq<u8>, a2: Seq<u8>, b2: Seq<u8>)
    requires
        a1 + b1 == a2 + b2,
        a1.len() == a2.len(),
    ensures
        a1 == a2,
        b1 == b2,
{
    let whole = a1 + b1;
    let cut = a1.len() as int;
    assert(a1 =~= whole.subrange(0, cut));
    assert(a2 =~= (a2 + b2).subrange(0, cut));
    assert(b1 =~= whole.subrange(cut, whole.len() as int));
    assert(b2 =~= (a2 + b2).subrange(cut, whole.len() as int));
}

/// Every ticket takes sixteen bytes.
pub proof fn lemma_tickets_encoding_len(tickets: Seq<u128>)
    ensures
        tickets_encoding(tickets).len() == 16 * tickets.len(),
    decreases tickets.len(),
{
    if tickets.len() > 0 {
        lemma_le_bytes_len(tickets.last() as nat, 16);
        lemma_tickets_encoding_len(tickets.drop_last());
    }
}

/// Ticket lists of one length with the same bytes are the same list.
pub proof fn lemma_tickets_encoding_injective(a: Seq<u128>, b: Seq<u128>)
    requires
        a.len() == b.len(),
        tickets_encoding(a) == tickets_encoding(b),
    ensures
        a == b,
    decreases a.len(),
{
    if a.len() > 0 {
        lemma_tickets_encoding_len(a.drop_last());
        lemma_tickets_encoding_len(b.drop_last());
        lemma_split_equal(
            tickets_encoding(a.drop_last()),
            le_bytes(a.last() as nat, 16),
            tickets_encoding(b.drop_last()),
            le_bytes(b.last() as nat, 16),
        );
        lemma_u128_fits(a.last());
        lemma_u128_fits(b.last());
        lemma_le_bytes_injective(a.last() as nat, b.last() as nat, 16);
        lemma_tickets_encoding_injective(a.drop_last(), b.drop_last());
        assert(a =~= a.drop_last().push(a.last()));
        assert(b =~= b.drop_last().push(b.last()));
    } else {
        assert(a =~= b);
    }
}

/// The encoding is unambiguous: the bytes that are hashed determine the
/// state and the nonce. Two commitments over different states or nonces
/// are therefore digests of different byte strings.
pub proof fn lemma_preimage_injective(s1: UserObject, n1: u128, s2: UserObject, n2: u128)
    requires
        commitment_preimage(s1@, n1) == commitment_preimage(s2@, n2),
    ensures
        s1@ == s2@,
        n1 == n2,
{
    let v1 = s1@;
    let v2 = s2@;
    let len1 = s1.tickets.len();
    let len2 = s2.tickets.len();
    assert(v1.tickets.len() == len1 && v2.tickets.len() == len2);
    let flag1 = seq![if v1.is_banned { 1u8 } else { 0u8 }];
    let flag2 = seq![if v2.is_banned { 1u8 } else { 0u8 }];
    let count1 = le_bytes(v1.tickets.len(), 8);
    let count2 = le_bytes(v2.tickets.len(), 8);
    let list1 = tickets_encoding(v1.tickets);
    let list2 = tickets_encoding(v2.tickets);
    let inner1 = le_bytes(v1.current_internal_nonce as nat, 16);
    let inner2 = le_bytes(v2.current_internal_nonce as nat, 16);
    let outer1 = le_bytes(n1 as nat, 16);
    let outer2 = le_bytes(n2 as nat, 16);
    let whole1 = commitment_preimage(v1, n1);
    let whole2 = commitment_preimage(v2, n2);
    lemma_le_bytes_len(v1.tickets.len(), 8);
    lemma_le_bytes_len(v2.tickets.len(), 8);
    lemma_le_bytes_len(v1.current_internal_nonce as nat, 16);
    lemma_le_bytes_len(v2.current_internal_nonce as nat, 16);
    lemma_le_bytes_len(n1 as nat, 16);
    lemma_le_bytes_len(n2 as nat, 16);
    lemma_tickets_encoding_len(v1.tickets);
    lemma_tickets_encoding_len(v2.tickets);

    // The first nine bytes hold the flag and the number of tickets.
    assert(flag1 + count1 =~= whole1.subrange(0, 9));
    assert(flag2 + count2 =~= whole2.subrange(0, 9));
    lemma_split_equal(flag1, count1, flag2, count2);
    assert(flag1[0] == flag2[0]);
    lemma_u64_fits(len1 as u64);
    lemma_u64_fits(len2 as u64);
    lemma_le_bytes_injective(v1.tickets.len(), v2.tickets.len(), 8);

    // With equal lengths the remaining parts line up.
    lemma_split_equal(state_encoding(v1), outer1, state_encoding(v2), outer2);
    lemma_u128_fits(n1);
    lemma_u128_fits(n2);
    lemma_le_bytes_injective(n1 as nat, n2 as nat, 16);
    lemma_split_equal(flag1 + count1 + list1, inner1, flag2 + count2 + list2, inner2);
    lemma_u128_fits(v1.current_internal_nonce);
    lemma_u128_fits(v2.current_internal_nonce);
    lemma_le_bytes_injective(
        v1.current_internal_nonce as nat,
        v2.current_internal_nonce as nat,
        16,
    );
    lemma_split_equal(flag1 + count1, list1, flag2 + count2, list2);
    lemma_tickets_encoding_injective(v1.tickets, v2.tickets);
}

/// Committing is deterministic: two outcomes of committing to states with
/// equal fields, under equal nonces, are the same, byte for byte.
pub proof fn lemma_commitment_deterministic(
    s1: UserObject,
    n1: u128,
    first: Result<[u8; 32], ProtocolError>,
    s2: UserObject,
    n2: u128,
    second: Result<[u8; 32], ProtocolError>,
)
    requires
        s1.is_banned == s2.is_banned,
        s1.tickets@ == s2.tickets@,
        s1.current_internal_nonce == s2.current_internal_nonce,
        n1 == n2,
        digest_view(first) == commitment(s1@, n1),
        digest_view(second) == commitment(s2@, n2),
    ensures
        first == second,
{
    if let Ok(a) = first {
        let b = second->Ok_0;
        assert(a@ == b@);
        assert(a =~= b);
    }
}

} // verus!
