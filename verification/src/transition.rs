//! The state transition: from a private input to the public journal, or to
//! the one failure that rejects the run.

use crate::ban::{evaluate, tickets_overlap};
use crate::commitment::{commitment, compute_commitment};
use crate::error::ProtocolError;
use crate::signature::{signature_check, verify};
use crate::state::{
    journal_view, Journal, JournalView, PrivateInput, PrivateInputView, UserObject, UserObjectView,
};
use vstd::prelude::*;

verus! {

/// The identity state after the revocation list has been applied: the ban
/// flag is raised where a ticket is revoked and is never lowered; nothing
/// else changes.
pub open spec fn updated_state(state: UserObjectView, callback_tickets: Seq<u128>)
    -> UserObjectView {
    UserObjectView {
        is_banned: state.is_banned || tickets_overlap(state.tickets, callback_tickets),
        tickets: state.tickets,
        current_internal_nonce: state.current_internal_nonce,
    }
}

/// What a transition on `input` produces. The checks come in a fixed order:
/// the prior commitment is recomputed and compared with the claimed one
/// before the server's authorization is looked at, and the ban is decided
/// last.
pub open spec fn transition_outcome(input: PrivateInputView) -> Result<JournalView, ProtocolError> {
    match commitment(input.user_object, input.old_external_commitment_nonce) {
        Err(e) => Err(e),
        Ok(recomputed) => if recomputed != input.committed_object_hash_from_server {
            Err(ProtocolError::CommitmentMismatch)
        } else {
            match signature_check(recomputed, input.server_signature, input.server_verifying_key) {
                Err(e) => Err(e),
                Ok(false) => Err(ProtocolError::InvalidServerAuthorization),
                Ok(true) => {
                    let updated = updated_state(input.user_object, input.callback_tickets);
                    if updated.is_banned {
                        Err(ProtocolError::BannedIdentity)
                    } else {
                        match commitment(updated, input.new_external_commitment_nonce) {
                            Err(e) => Err(e),
                            Ok(new_commitment) => Ok(
                                JournalView {
                                    new_commitment,
                                    old_nonce: input.user_object.current_internal_nonce,
                                    new_ticket: input.new_ticket,
                                },
                            ),
                        }
                    }
                },
            }
        },
    }
}

/// Whether two digests hold the same bytes.
pub fn digests_equal(left: &[u8; 32], right: &[u8; 32]) -> (same: bool)
    ensures
        same == (left@ == right@),
{
    let mut i: usize = 0;
    while i < 32
        invariant
            i <= 32,
            forall|k: int| 0 <= k < i ==> left@[k] == right@[k],
        decreases 32 - i,
    {
        if left[i] != right[i] {
            return false;
        }
        i += 1;
    }
    assert(left@ =~= right@);
    true
}

/// Rejects a run whose recomputed prior commitment is not the claimed one.
pub fn require_matching_commitment(recomputed: &[u8; 32], claimed: &[u8; 32]) -> (r: Result<
    (),
    ProtocolError,
>)
    ensures
        recomputed@ == claimed@ ==> r == Ok::<(), ProtocolError>(()),
        recomputed@ != claimed@ ==> r == Err::<(), ProtocolError>(
            ProtocolError::CommitmentMismatch,
        ),
{
    if digests_equal(recomputed, claimed) {
        Ok(())
    } else {
        Err(ProtocolError::CommitmentMismatch)
    }
}

/// Decides the authorization from the outcome of the signature check: a
/// signature that does not hold is `InvalidServerAuthorization`, malformed
/// material keeps its own error.
pub fn require_authorization(outcome: Result<bool, ProtocolError>) -> (r: Result<(), ProtocolError>)
    ensures
        r == match outcome {
            Ok(true) => Ok::<(), ProtocolError>(()),
            Ok(false) => Err(ProtocolError::InvalidServerAuthorization),
            Err(e) => Err(e),
        },
{
    match outcome {
        Ok(true) => Ok(()),
        Ok(false) => Err(ProtocolError::InvalidServerAuthorization),
        Err(e) => Err(e),
    }
}

/// Copies `state` and raises the copy's ban flag where one of its tickets is
/// on the revocation list. The input is left as it was.
pub fn apply_ban_list(state: &UserObject, callback_tickets: &[u128]) -> (updated: UserObject)
    ensures
        updated@ == updated_state(state@, callback_tickets@),
{
    let mut updated = state.clone();
    let revoked = evaluate(updated.tickets.as_slice(), callback_tickets);
    updated.is_banned = updated.is_banned || revoked;
    updated
}

/// Rejects a banned identity: it completes no further transition.
pub fn require_not_banned(state: &UserObject) -> (r: Result<(), ProtocolError>)
    ensures
        r == if state.is_banned {
            Err::<(), ProtocolError>(ProtocolError::BannedIdentity)
        } else {
            Ok(())
        },
{
    if state.is_banned {
        Err(ProtocolError::BannedIdentity)
    } else {
        Ok(())
    }
}

/// Runs the transition: exactly one of a journal or a failure comes out.
pub fn execute_transition(input: PrivateInput) -> (r: Result<Journal, ProtocolError>)
    ensures
        journal_view(r) == transition_outcome(input@),
{
    let recomputed = match compute_commitment(
        &input.user_object,
        input.old_external_commitment_nonce,
    ) {
        Ok(digest) => digest,
        Err(e) => { return Err(e); },
    };
    match require_matching_commitment(&recomputed, &input.committed_object_hash_from_server) {
        Ok(()) => {},
        Err(e) => { return Err(e); },
    }
    let checked = verify(
        &recomputed,
        input.server_signature.as_slice(),
        input.server_verifying_key.as_slice(),
    );
    match require_authorization(checked) {
        Ok(()) => {},
        Err(e) => { return Err(e); },
    }
    let updated = apply_ban_list(&input.user_object, input.callback_tickets.as_slice());
    match require_not_banned(&updated) {
        Ok(()) => {},
        Err(e) => { return Err(e); },
    }
    let new_commitment = match compute_commitment(&updated, input.new_external_commitment_nonce) {
        Ok(digest) => digest,
        Err(e) => { return Err(e); },
    };
    Ok(
        Journal {
            new_commitment,
            old_nonce: input.user_object.current_internal_nonce,
            new_ticket: input.new_ticket,
        },
    )
}

/// Ban monotonicity: a revoked ticket raises the flag, a raised flag stays
/// raised whatever the revocation list holds, and applying the list changes
/// nothing but the flag.
pub proof fn lemma_ban_monotone(state: UserObject, callback_tickets: Seq<u128>)
    ensures
        tickets_overlap(state.tickets@, callback_tickets) ==> updated_state(
            state@,
            callback_tickets,
        ).is_banned,
        state.is_banned ==> updated_state(state@, callback_tickets).is_banned,
        updated_state(state@, callback_tickets).tickets == state.tickets@,
        updated_state(state@, callback_tickets).current_internal_nonce
            == state.current_internal_nonce,
{
}

/// No journal for a banned identity: where the state is banned already, or
/// holds a revoked ticket, the transition fails.
pub proof fn lemma_banned_identity_gets_no_journal(input: PrivateInput)
    requires
        input.user_object.is_banned || tickets_overlap(
            input.user_object.tickets@,
            input.callback_tickets@,
        ),
    ensures
        transition_outcome(input@) is Err,
{
}

/// Commitment binding precedes authorization: where the recomputed prior
/// commitment is not the claimed one, the failure is `CommitmentMismatch`
/// whatever the signature and the key are, also where the signature holds
/// over the claimed digest.
pub proof fn lemma_commitment_checked_before_authorization(input: PrivateInput)
    requires
        commitment(input.user_object@, input.old_external_commitment_nonce) matches Ok(recomputed)
            && recomputed != input.committed_object_hash_from_server@,
    ensures
        transition_outcome(input@) == Err::<JournalView, ProtocolError>(
            ProtocolError::CommitmentMismatch,
        ),
{
}

/// A well-formed signature that does not hold over the matching commitment
/// is answered with `InvalidServerAuthorization`.
pub proof fn lemma_unverified_signature_is_rejected(input: PrivateInput)
    requires
        commitment(input.user_object@, input.old_external_commitment_nonce) == Ok::<
            Seq<u8>,
            ProtocolError,
        >(input.committed_object_hash_from_server@),
        signature_check(
            input.committed_object_hash_from_server@,
            input.server_signature@,
            input.server_verifying_key@,
        ) == Ok::<bool, ProtocolError>(false),
    ensures
        transition_outcome(input@) == Err::<JournalView, ProtocolError>(
            ProtocolError::InvalidServerAuthorization,
        ),
{
}

/// When a journal is produced, and what it holds: the state serializes, the
/// claimed commitment is the recomputed one, the signature holds over it,
/// the identity is neither banned nor holds a revoked ticket. The journal
/// then carries the commitment to the unchanged state under the fresh
/// nonce, the identity's internal nonce and the new ticket.
pub proof fn lemma_journal(input: PrivateInput)
    ensures
        transition_outcome(input@) is Ok <==> {
            &&& commitment(input.user_object@, input.old_external_commitment_nonce) == Ok::<
                Seq<u8>,
                ProtocolError,
            >(input.committed_object_hash_from_server@)
            &&& signature_check(
                input.committed_object_hash_from_server@,
                input.server_signature@,
                input.server_verifying_key@,
            ) == Ok::<bool, ProtocolError>(true)
            &&& !input.user_object.is_banned
            &&& !tickets_overlap(input.user_object.tickets@, input.callback_tickets@)
        },
        transition_outcome(input@) matches Ok(journal) ==> {
            &&& commitment(input.user_object@, input.new_external_commitment_nonce) == Ok::<
                Seq<u8>,
                ProtocolError,
            >(journal.new_commitment)
            &&& journal.old_nonce == input.user_object.current_internal_nonce
            &&& journal.new_ticket == input.new_ticket
        },
{
    let state = input.user_object@;
    let updated = updated_state(state, input.callback_tickets@);
    if !updated.is_banned {
        assert(updated == state);
    }
}

} // verus!
