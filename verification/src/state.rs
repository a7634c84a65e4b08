//! The values of a protocol run: the private identity state, the private
//! input bundle and the public journal, each with its mathematical view.

use crate::error::ProtocolError;
use vstd::prelude::*;

verus! {

/// The private identity state that lives with the user.
///
/// Within one run `is_banned` only ever goes from false to true. New
/// tickets are appended, so the order of `tickets` is significant.
#[derive(Debug, PartialEq, Eq)]
pub struct UserObject {
    pub is_banned: bool,
    pub tickets: Vec<u128>,
    pub current_internal_nonce: u128,
}

/// Mathematical value of a [`UserObject`].
pub struct UserObjectView {
    pub is_banned: bool,
    pub tickets: Seq<u128>,
    pub current_internal_nonce: u128,
}

impl View for UserObject {
    type V = UserObjectView;

    open spec fn view(&self) -> UserObjectView {
        UserObjectView {
            is_banned: self.is_banned,
            tickets: self.tickets@,
            current_internal_nonce: self.current_internal_nonce,
        }
    }
}

impl Clone for UserObject {
    fn clone(&self) -> (copy: Self)
        ensures
            copy@ == self@,
    {
        UserObject {
            is_banned: self.is_banned,
            tickets: self.tickets.clone(),
            current_internal_nonce: self.current_internal_nonce,
        }
    }
}

/// Everything a transition is computed from. All of it is secret except
/// what the journal reveals.
#[derive(Debug, PartialEq, Eq)]
pub struct PrivateInput {
    /// The current identity state.
    pub user_object: UserObject,
    /// The nonce under which the previous commitment was opened.
    pub old_external_commitment_nonce: u128,
    /// The fresh nonce for the next commitment.
    pub new_external_commitment_nonce: u128,
    /// The commitment that the server claims to have attested.
    pub committed_object_hash_from_server: [u8; 32],
    /// The server's fixed-width ECDSA signature over that commitment.
    pub server_signature: Vec<u8>,
    /// The server's SEC1-encoded verifying key.
    pub server_verifying_key: Vec<u8>,
    /// The newly minted ticket that the run reveals.
    pub new_ticket: u128,
    /// The revocation list in force.
    pub callback_tickets: Vec<u128>,
}

/// Mathematical value of a [`PrivateInput`].
pub struct PrivateInputView {
    pub user_object: UserObjectView,
    pub old_external_commitment_nonce: u128,
    pub new_external_commitment_nonce: u128,
    pub committed_object_hash_from_server: Seq<u8>,
    pub server_signature: Seq<u8>,
    pub server_verifying_key: Seq<u8>,
    pub new_ticket: u128,
    pub callback_tickets: Seq<u128>,
}

impl View for PrivateInput {
    type V = PrivateInputView;

    open spec fn view(&self) -> PrivateInputView {
        PrivateInputView {
            user_object: self.user_object@,
            old_external_commitment_nonce: self.old_external_commitment_nonce,
            new_external_commitment_nonce: self.new_external_commitment_nonce,
            committed_object_hash_from_server: self.committed_object_hash_from_server@,
            server_signature: self.server_signature@,
            server_verifying_key: self.server_verifying_key@,
            new_ticket: self.new_ticket,
            callback_tickets: self.callback_tickets@,
        }
    }
}

impl Clone for PrivateInput {
    fn clone(&self) -> (copy: Self)
        ensures
            copy@ == self@,
    {
        PrivateInput {
            user_object: self.user_object.clone(),
            old_external_commitment_nonce: self.old_external_commitment_nonce,
            new_external_commitment_nonce: self.new_external_commitment_nonce,
            committed_object_hash_from_server: self.committed_object_hash_from_server,
            server_signature: self.server_signature.clone(),
            server_verifying_key: self.server_verifying_key.clone(),
            new_ticket: self.new_ticket,
            callback_tickets: self.callback_tickets.clone(),
        }
    }
}

/// The public output of a successful transition. It discloses exactly these
/// three values and is never changed after it is made.
#[derive(Debug, Clone, Copy, PartialEq, Eq)]
pub struct Journal {
    /// The commitment to the updated state under the fresh nonce.
    pub new_commitment: [u8; 32],
    /// The identity's internal nonce, carried through for replay prevention.
    /// It is not the nonce under which a commitment is opened.
    pub old_nonce: u128,
    /// The newly issued ticket.
    pub new_ticket: u128,
}

/// Mathematical value of a [`Journal`].
pub struct JournalView {
    pub new_commitment: Seq<u8>,
    pub old_nonce: u128,
    pub new_ticket: u128,
}

impl View for Journal {
    type V = JournalView;

    open spec fn view(&self) -> JournalView {
        JournalView {
            new_commitment: self.new_commitment@,
            old_nonce: self.old_nonce,
            new_ticket: self.new_ticket,
        }
    }
}

/// An outcome that holds a journal, with the journal as its mathematical
/// value.
pub open spec fn journal_view(r: Result<Journal, ProtocolError>) -> Result<
    JournalView,
    ProtocolError,
> {
    match r {
        Ok(journal) => Ok(journal@),
        Err(e) => Err(e),
    }
}

} // verus!
