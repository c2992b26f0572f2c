use voice_core::error::{ValidationError, VoiceError};

#[test]
fn test_validation_error_display() {
    let err = ValidationError::new("test_field", "test message");
    assert_eq!(err.to_string(), "test_field: test message");
}

#[test]
fn test_voice_error_validation() {
    let err = VoiceError::validation("field", "message");
    assert!(matches!(err, VoiceError::Validation { .. }));
}

#[test]
fn errors_describe_themselves() {
    assert_eq!(
        VoiceError::validation("name", "too long").to_string(),
        "Validation error in name: too long"
    );
    assert_eq!(VoiceError::sync("bad handshake").to_string(), "Sync error: bad handshake");
    assert_eq!(
        VoiceError::database_op("locked").to_string(),
        "Database operation failed: locked"
    );
    assert!(matches!(VoiceError::database_op("locked"), VoiceError::Storage(_)));
    assert_eq!(VoiceError::Network("refused".to_string()).to_string(), "Network error: refused");
    assert_eq!(VoiceError::Tls("pin".to_string()).to_string(), "TLS error: pin");
    assert_eq!(VoiceError::Config("key".to_string()).to_string(), "Configuration error: key");
    assert_eq!(VoiceError::NotFound("note".to_string()).to_string(), "Not found: note");
    assert_eq!(VoiceError::Conflict("both".to_string()).to_string(), "Conflict: both");
    assert_eq!(VoiceError::Other("plain".to_string()).to_string(), "plain");
    let from: VoiceError = ValidationError::new("f", "m").into();
    assert_eq!(from.to_string(), "Validation error in f: m");
}
