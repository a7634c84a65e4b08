//! The values that cross the boundary of the core: the request bundle with
//! its decimal strings, the ticket list handed back to the caller, and the
//! journal in its interchange form.

use crate::decimal::{
    decimal_text, format_u128, lemma_decimal_round_trip, parse_u128, parsed_decimal,
};
use crate::error::ProtocolError;
use crate::state::{journal_view, Journal, JournalView, UserObject, UserObjectView};
use vstd::prelude::*;

verus! {

/// The request bundle as it arrives: 128-bit integers are decimal strings.
#[derive(Debug, PartialEq, Eq)]
pub struct ProofRequest {
    /// The revocation list in force.
    pub callback_tickets: Vec<String>,
    /// The tickets that the identity holds.
    pub existing_tickets: Vec<String>,
    /// Whether the identity is banned already.
    pub is_banned: bool,
    /// The nonce under which the previous commitment was opened.
    pub old_nonce: String,
}

/// Mathematical value of a [`ProofRequest`].
pub struct ProofRequestView {
    pub callback_tickets: Seq<Seq<char>>,
    pub existing_tickets: Seq<Seq<char>>,
    pub is_banned: bool,
    pub old_nonce: Seq<char>,
}

impl View for ProofRequest {
    type V = ProofRequestView;

    open spec fn view(&self) -> ProofRequestView {
        ProofRequestView {
            callback_tickets: texts_of(self.callback_tickets@),
            existing_tickets: texts_of(self.existing_tickets@),
            is_banned: self.is_banned,
            old_nonce: self.old_nonce@,
        }
    }
}

/// What a request decodes to: the identity state to commit to, the nonce
/// that opens the previous commitment, and the revocation list.
#[derive(Debug, PartialEq, Eq)]
pub struct Opening {
    pub user_object: UserObject,
    pub old_nonce: u128,
    pub callback_tickets: Vec<u128>,
}

/// Mathematical value of an [`Opening`].
pub struct OpeningView {
    pub user_object: UserObjectView,
    pub old_nonce: u128,
    pub callback_tickets: Seq<u128>,
}

impl View for Opening {
    type V = OpeningView;

    open spec fn view(&self) -> OpeningView {
        OpeningView {
            user_object: self.user_object@,
            old_nonce: self.old_nonce,
            callback_tickets: self.callback_tickets@,
        }
    }
}

/// The journal in its interchange form, for readers without 128-bit
/// integers.
#[derive(Debug, PartialEq, Eq)]
pub struct JournalOut {
    pub new_commitment: [u8; 32],
    pub replay_nonce: String,
    pub new_ticket: String,
}

/// Mathematical value of a [`JournalOut`].
pub struct JournalOutView {
    pub new_commitment: Seq<u8>,
    pub replay_nonce: Seq<char>,
    pub new_ticket: Seq<char>,
}

impl View for JournalOut {
    type V = JournalOutView;

    open spec fn view(&self) -> JournalOutView {
        JournalOutView {
            new_commitment: self.new_commitment@,
            replay_nonce: self.replay_nonce@,
            new_ticket: self.new_ticket@,
        }
    }
}

/// The character sequences of a list of strings.
pub open spec fn texts_of(strings: Seq<String>) -> Seq<Seq<char>> {
    strings.map_values(|s: String| s@)
}

/// The tickets that a list of strings names: every entry that parses, in
/// order; an entry that does not parse is passed over.
pub open spec fn parsed_tickets(texts: Seq<Seq<char>>) -> Seq<u128>
    decreases texts.len(),
{
    if texts.len() == 0 {
        Seq::empty()
    } else {
        match parsed_decimal(texts.last()) {
            Ok(ticket) => parsed_tickets(texts.drop_last()).push(ticket),
            Err(_) => parsed_tickets(texts.drop_last()),
        }
    }
}

/// The decimal texts of a list of tickets, one for one.
pub open spec fn ticket_texts(tickets: Seq<u128>) -> Seq<Seq<char>> {
    tickets.map_values(|t: u128| decimal_text(t as nat))
}

/// The tickets of the state: those of the request, or the two fallback
/// tickets where the request names none.
pub open spec fn tickets_or(tickets: Seq<u128>, fallback: Seq<u128>) -> Seq<u128> {
    if tickets.len() == 0 {
        fallback
    } else {
        tickets
    }
}

/// What a request decodes to, given the fallback tickets and the internal
/// nonce drawn for the run. The only failure is an old nonce that does not
/// parse.
pub open spec fn decoded_request(
    request: ProofRequestView,
    fallback_tickets: Seq<u128>,
    internal_nonce: u128,
) -> Result<OpeningView, ProtocolError> {
    match parsed_decimal(request.old_nonce) {
        Err(e) => Err(e),
        Ok(old_nonce) => Ok(
            OpeningView {
                user_object: UserObjectView {
                    is_banned: request.is_banned,
                    tickets: tickets_or(
                        parsed_tickets(request.existing_tickets),
                        fallback_tickets,
                    ),
                    current_internal_nonce: internal_nonce,
                },
                old_nonce,
                callback_tickets: parsed_tickets(request.callback_tickets),
            },
        ),
    }
}

/// An outcome of decoding a request, as its mathematical value.
pub open spec fn opening_view(r: Result<Opening, ProtocolError>) -> Result<
    OpeningView,
    ProtocolError,
> {
    match r {
        Ok(opening) => Ok(opening@),
        Err(e) => Err(e),
    }
}

/// The interchange form of a journal: the digest as it is, the two
/// integers as decimal text.
pub open spec fn journal_text(journal: JournalView) -> JournalOutView {
    JournalOutView {
        new_commitment: journal.new_commitment,
        replay_nonce: decimal_text(journal.old_nonce as nat),
        new_ticket: decimal_text(journal.new_ticket as nat),
    }
}

/// What the interchange form of a journal reads back to.
pub open spec fn parsed_journal(out: JournalOutView) -> Result<JournalView, ProtocolError> {
    match (parsed_decimal(out.replay_nonce), parsed_decimal(out.new_ticket)) {
        (Ok(old_nonce), Ok(new_ticket)) => Ok(
            JournalView { new_commitment: out.new_commitment, old_nonce, new_ticket },
        ),
        _ => Err(ProtocolError::InvalidNumericInput),
    }
}

/// Reads a list of decimal strings as tickets, passing over every entry
/// that is not a decimal 128-bit unsigned integer.
pub fn parse_ticket_list(texts: &Vec<String>) -> (tickets: Vec<u128>)
    ensures
        tickets@ == parsed_tickets(texts_of(texts@)),
{
    let ghost all = texts_of(texts@);
    let mut tickets: Vec<u128> = Vec::new();
    let mut i: usize = 0;
    assert(all.take(0) =~= Seq::<Seq<char>>::empty());
    while i < texts.len()
        invariant
            i <= texts@.len(),
            all == texts_of(texts@),
            tickets@ == parsed_tickets(all.take(i as int)),
        decreases texts@.len() - i,
    {
        let parsed = parse_u128(texts[i].as_str());
        proof {
            assert(all.take(i + 1).drop_last() =~= all.take(i as int));
            assert(all.take(i + 1).last() == texts@[i as int]@);
        }
        match parsed {
            Ok(ticket) => { tickets.push(ticket); },
            Err(_) => {},
        }
        i += 1;
    }
    assert(all.take(texts@.len() as int) =~= all);
    tickets
}

/// Writes a list of tickets as decimal strings, one for one.
pub fn format_ticket_list(tickets: &[u128]) -> (texts: Vec<String>)
    ensures
        texts_of(texts@) == ticket_texts(tickets@),
{
    let mut texts: Vec<String> = Vec::new();
    let mut i: usize = 0;
    while i < tickets.len()
        invariant
            i <= tickets@.len(),
            texts@.len() == i,
            forall|k: int| 0 <= k < i ==> (#[trigger] texts@[k])@ == decimal_text(tickets@[k] as nat),
        decreases tickets@.len() - i,
    {
        texts.push(format_u128(tickets[i]));
        i += 1;
    }
    assert(texts_of(texts@) =~= ticket_texts(tickets@));
    texts
}

/// The ticket list that the caller retains after a run: the tickets held
/// so far, then the new one.
pub fn updated_ticket_list(tickets: &[u128], new_ticket: u128) -> (updated: Vec<u128>)
    ensures
        updated@ == tickets@.push(new_ticket),
{
    let mut updated: Vec<u128> = Vec::new();
    let mut i: usize = 0;
    while i < tickets.len()
        invariant
            i <= tickets@.len(),
            updated@ == tickets@.take(i as int),
        decreases tickets@.len() - i,
    {
        updated.push(tickets[i]);
        assert(tickets@.take(i + 1) =~= tickets@.take(i as int).push(tickets@[i as int]));
        i += 1;
    }
    assert(tickets@.take(tickets@.len() as int) =~= tickets@);
    updated.push(new_ticket);
    updated
}

/// Decodes a request into the identity state, the old nonce and the
/// revocation list.
///
/// Ticket strings that do not parse are passed over. Where no ticket is
/// left, the state holds the two `fallback_tickets`. An old nonce that does
/// not parse is `InvalidNumericInput`. The internal nonce of the state is
/// `internal_nonce`; the caller draws it, and the fallback tickets, for
/// this run.
pub fn decode_request(request: &ProofRequest, fallback_tickets: [u128; 2], internal_nonce: u128) -> (r:
    Result<Opening, ProtocolError>)
    ensures
        opening_view(r) == decoded_request(request@, fallback_tickets@, internal_nonce),
{
    let mut tickets = parse_ticket_list(&request.existing_tickets);
    if tickets.len() == 0 {
        tickets.push(fallback_tickets[0]);
        tickets.push(fallback_tickets[1]);
        assert(tickets@ =~= fallback_tickets@);
    }
    let callback_tickets = parse_ticket_list(&request.callback_tickets);
    let old_nonce = match parse_u128(request.old_nonce.as_str()) {
        Ok(nonce) => nonce,
        Err(e) => { return Err(e); },
    };
    Ok(
        Opening {
            user_object: UserObject {
                is_banned: request.is_banned,
                tickets,
                current_internal_nonce: internal_nonce,
            },
            old_nonce,
            callback_tickets,
        },
    )
}

/// Writes a journal in its interchange form: the digest as it is, the two
/// integers as decimal strings.
pub fn encode_journal(journal: &Journal) -> (out: JournalOut)
    ensures
        out@ == journal_text(journal@),
{
    JournalOut {
        new_commitment: journal.new_commitment,
        replay_nonce: format_u128(journal.old_nonce),
        new_ticket: format_u128(journal.new_ticket),
    }
}

/// Reads a journal back from its interchange form; `InvalidNumericInput`
/// where one of the two strings is not a decimal 128-bit unsigned integer.
pub fn decode_journal(out: &JournalOut) -> (r: Result<Journal, ProtocolError>)
    ensures
        journal_view(r) == parsed_journal(out@),
{
    let old_nonce = match parse_u128(out.replay_nonce.as_str()) {
        Ok(nonce) => nonce,
        Err(e) => { return Err(e); },
    };
    let new_ticket = match parse_u128(out.new_ticket.as_str()) {
        Ok(ticket) => ticket,
        Err(e) => { return Err(e); },
    };
    Ok(Journal { new_commitment: out.new_commitment, old_nonce, new_ticket })
}

/// Round trip of a ticket list: the decimal strings of any tickets read
/// back to the same tickets, none passed over.
pub proof fn lemma_ticket_list_round_trip(tickets: Seq<u128>)
    ensures
        parsed_tickets(ticket_texts(tickets)) == tickets,
    decreases tickets.len(),
{
    let texts = ticket_texts(tickets);
    if tickets.len() > 0 {
        lemma_decimal_round_trip(tickets.last());
        lemma_ticket_list_round_trip(tickets.drop_last());
        assert(texts.drop_last() =~= ticket_texts(tickets.drop_last()));
        assert(texts.last() == decimal_text(tickets.last() as nat));
        assert(tickets =~= tickets.drop_last().push(tickets.last()));
    } else {
        assert(parsed_tickets(texts) =~= tickets);
    }
}

/// Round trip of a journal: its interchange form reads back to the same
/// journal, whatever the two integers are.
pub proof fn lemma_journal_round_trip(journal: Journal)
    ensures
        parsed_journal(journal_text(journal@)) == Ok::<JournalView, ProtocolError>(journal@),
{
    lemma_decimal_round_trip(journal.old_nonce);
    lemma_decimal_round_trip(journal.new_ticket);
}

} // verus!
