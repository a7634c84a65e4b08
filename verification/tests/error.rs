use simple_core::ProtocolError;

#[test]
fn every_failure_has_its_own_message() {
    let all = [
        ProtocolError::EncodingError,
        ProtocolError::CommitmentMismatch,
        ProtocolError::InvalidKeyEncoding,
        ProtocolError::InvalidSignatureEncoding,
        ProtocolError::InvalidServerAuthorization,
        ProtocolError::BannedIdentity,
        ProtocolError::InvalidNumericInput,
    ];
    for (i, a) in all.iter().enumerate() {
        assert!(!a.message().is_empty());
        for b in all.iter().skip(i + 1) {
            assert_ne!(a, b);
            assert_ne!(a.message(), b.message());
        }
    }
}

#[test]
fn messages_are_fixed() {
    assert_eq!(ProtocolError::EncodingError.message(), "serialization error");
    assert_eq!(ProtocolError::CommitmentMismatch.message(), "commitment mismatch");
    assert_eq!(ProtocolError::InvalidKeyEncoding.message(), "bad server vk");
    assert_eq!(ProtocolError::InvalidSignatureEncoding.message(), "bad sig bytes");
    assert_eq!(ProtocolError::InvalidServerAuthorization.message(), "server sig invalid");
    assert_eq!(
        ProtocolError::BannedIdentity.message(),
        "BANNED: user ticket was matched in callback list"
    );
    assert_eq!(
        ProtocolError::InvalidNumericInput.message(),
        "invalid number (not a decimal u128)"
    );
}
