use simple_core::boundary::{
    decode_journal, decode_request, encode_journal, format_ticket_list, parse_ticket_list,
    updated_ticket_list, JournalOut, ProofRequest,
};
use simple_core::{Journal, ProtocolError, UserObject};

fn strings(items: &[&str]) -> Vec<String> {
    items.iter().map(|s| s.to_string()).collect()
}

fn request(callback: &[&str], existing: &[&str], is_banned: bool, old_nonce: &str) -> ProofRequest {
    ProofRequest {
        callback_tickets: strings(callback),
        existing_tickets: strings(existing),
        is_banned,
        old_nonce: old_nonce.to_string(),
    }
}

#[test]
fn ticket_list_parses_in_order() {
    assert_eq!(parse_ticket_list(&strings(&["1001", "1002"])), vec![1001, 1002]);
    assert_eq!(parse_ticket_list(&strings(&[])), Vec::<u128>::new());
}

#[test]
fn ticket_list_passes_over_invalid_entries() {
    assert_eq!(parse_ticket_list(&strings(&["1001", "x", "", "1002", "-3"])), vec![1001, 1002]);
    assert_eq!(parse_ticket_list(&strings(&["x", "y"])), Vec::<u128>::new());
    assert_eq!(
        parse_ticket_list(&strings(&["340282366920938463463374607431768211456", "5"])),
        vec![5]
    );
}

#[test]
fn ticket_list_formats_one_for_one() {
    assert_eq!(format_ticket_list(&[1001, 1002, 0]), strings(&["1001", "1002", "0"]));
    assert_eq!(format_ticket_list(&[]), Vec::<String>::new());
    assert_eq!(
        format_ticket_list(&[u128::MAX]),
        strings(&["340282366920938463463374607431768211455"])
    );
}

#[test]
fn ticket_list_round_trips() {
    let tickets = vec![0, 1, 1001, u128::MAX, 1u128 << 100];
    assert_eq!(parse_ticket_list(&format_ticket_list(&tickets)), tickets);
}

#[test]
fn updated_list_appends_the_new_ticket() {
    assert_eq!(updated_ticket_list(&[1001, 1002], 7777), vec![1001, 1002, 7777]);
    assert_eq!(updated_ticket_list(&[], 1), vec![1]);
}

#[test]
fn request_decodes_to_state_nonce_and_revocation_list() {
    let r = request(&["9999"], &["1001", "1002"], false, "42");
    let opening = decode_request(&r, [1, 2], 555).unwrap();
    assert_eq!(
        opening.user_object,
        UserObject { is_banned: false, tickets: vec![1001, 1002], current_internal_nonce: 555 }
    );
    assert_eq!(opening.old_nonce, 42);
    assert_eq!(opening.callback_tickets, vec![9999]);
}

#[test]
fn request_without_tickets_gets_the_fallback_tickets() {
    let r = request(&[], &[], true, "0");
    let opening = decode_request(&r, [11, 22], 3).unwrap();
    assert_eq!(
        opening.user_object,
        UserObject { is_banned: true, tickets: vec![11, 22], current_internal_nonce: 3 }
    );
    let r = request(&["bad"], &["also bad"], false, "0");
    let opening = decode_request(&r, [11, 22], 3).unwrap();
    assert_eq!(opening.user_object.tickets, vec![11, 22]);
    assert_eq!(opening.callback_tickets, Vec::<u128>::new());
}

#[test]
fn request_with_bad_old_nonce_is_rejected() {
    let r = request(&["9999"], &["1001"], false, "forty-two");
    assert_eq!(decode_request(&r, [1, 2], 555), Err(ProtocolError::InvalidNumericInput));
    let r = request(&["9999"], &["1001"], false, "");
    assert_eq!(decode_request(&r, [1, 2], 555), Err(ProtocolError::InvalidNumericInput));
}

#[test]
fn journal_encodes_integers_as_decimal_strings() {
    let journal = Journal { new_commitment: [9u8; 32], old_nonce: 555, new_ticket: u128::MAX };
    let out = encode_journal(&journal);
    assert_eq!(
        out,
        JournalOut {
            new_commitment: [9u8; 32],
            replay_nonce: "555".to_string(),
            new_ticket: "340282366920938463463374607431768211455".to_string(),
        }
    );
}

#[test]
fn journal_round_trips() {
    let journal = Journal { new_commitment: [3u8; 32], old_nonce: u128::MAX, new_ticket: 0 };
    assert_eq!(decode_journal(&encode_journal(&journal)), Ok(journal));
}

#[test]
fn journal_with_bad_number_is_rejected() {
    let out = JournalOut {
        new_commitment: [0u8; 32],
        replay_nonce: "5.5".to_string(),
        new_ticket: "1".to_string(),
    };
    assert_eq!(decode_journal(&out), Err(ProtocolError::InvalidNumericInput));
    let out = JournalOut {
        new_commitment: [0u8; 32],
        replay_nonce: "5".to_string(),
        new_ticket: "340282366920938463463374607431768211456".to_string(),
    };
    assert_eq!(decode_journal(&out), Err(ProtocolError::InvalidNumericInput));
}
