use voice_core::config::Config;
use voice_core::error::VoiceError;
use voice_core::tls::{
    compute_fingerprint_from_der, compute_fingerprint_from_pem, ensure_server_certificate,
    format_fingerprint, generate_self_signed_cert, trust_peer, verify_fingerprint, TOFUVerifier,
    CERT_VALIDITY_DAYS,
};

const TEST_CERT_PEM: &str = r#"-----BEGIN CERTIFICATE-----
MIIBkTCB+wIJAKHBfpIgb5OJMA0GCSqGSIb3DQEBCwUAMBExDzANBgNVBAMMBnZv
aWNlMB4XDTIxMDEwMTAwMDAwMFoXDTMxMDEwMTAwMDAwMFowETEPMA0GA1UEAwwG
dm9pY2UwXDANBgkqhkiG9w0BAQEFAANLADBIAkEAyA8dF9VzOdqmGqKJLqJBNnvS
9BgqA8L5rqZxVQ8jFnqe5T0lKLqaA9xVtJvA8eHKjqhMvREXGVCrOqPeGhqZrwID
AQABo1MwUTAdBgNVHQ4EFgQUvCgqF3jqPmqTEYCTiEzxJqG6hwowHwYDVR0jBBgw
FoAUvCgqF3jqPmqTEYCTiEzxJqG6hwowDwYDVR0TAQH/BAUwAwEB/zANBgkqhkiG
9w0BAQsFAANBAJBF3J8cLqJBNnvS9BgqA8L5rqZxVQ8jFnqe5T0lKLqaA9xVtJvA
8eHKjqhMvREXGVCrOqPeGhqZrw8dF9VzOdqmGqI=
-----END CERTIFICATE-----"#;

const SMALL_PEM: &str = "-----BEGIN CERTIFICATE-----\nAA\n EC\n-----END CERTIFICATE-----\n";
const SMALL_FP: &str = "SHA256:ae:4b:32:80:e5:6e:2f:af:83:f4:14:a6:e3:da:be:9d:5f:be:18:97:65:44:c0:5f:ed:12:1a:cc:b8:5b:53:fc";
const PEER: &str = "0123456789abcdef0123456789abcdef";

fn tls_text(r: Result<String, VoiceError>) -> String {
    match r {
        Err(VoiceError::Tls(m)) => m,
        other => panic!("expected a TLS error, got {:?}", other),
    }
}

fn config_with_peer(fingerprint: Option<&str>) -> Config {
    let mut config = Config::new("/tmp/voice", None);
    config.add_peer(PEER, "desk", "https://desk:8384", fingerprint, false).unwrap();
    config
}

#[test]
fn test_compute_fingerprint_from_pem() {
    let result = compute_fingerprint_from_pem(TEST_CERT_PEM.as_bytes());
    assert!(result.is_ok());
    let fingerprint = result.unwrap();
    assert!(fingerprint.starts_with("SHA256:"));
    let parts: Vec<&str> = fingerprint[7..].split(':').collect();
    assert_eq!(parts.len(), 32);
    assert_eq!(
        fingerprint,
        "SHA256:a1:dd:b4:aa:2f:3c:2b:85:12:66:53:3a:8b:fe:76:a7:3b:24:ae:5e:4c:e2:5c:21:86:9e:51:30:a3:ab:7f:f9"
    );
}

#[test]
fn test_fingerprint_format() {
    let der_data = vec![0u8; 32];
    let fingerprint = compute_fingerprint_from_der(&der_data);
    assert!(fingerprint.starts_with("SHA256:"));
    assert_eq!(
        fingerprint,
        "SHA256:66:68:7a:ad:f8:62:bd:77:6c:8f:c1:8b:8e:9f:8e:20:08:97:14:85:6e:e2:33:b3:90:2a:59:1d:0d:5f:29:25"
    );
}

#[test]
fn fingerprint_of_nothing_and_of_a_digest() {
    assert_eq!(
        compute_fingerprint_from_der(&[]),
        "SHA256:e3:b0:c4:42:98:fc:1c:14:9a:fb:f4:c8:99:6f:b9:24:27:ae:41:e4:64:9b:93:4c:a4:95:99:1b:78:52:b8:55"
    );
    assert_eq!(format_fingerprint(&[]), "SHA256:");
    assert_eq!(format_fingerprint(&[0x0f]), "SHA256:0f");
    assert_eq!(format_fingerprint(&[0xab, 0x00, 0xff]), "SHA256:ab:00:ff");
    assert_eq!(CERT_VALIDITY_DAYS, 3650);
}

#[test]
fn pem_is_read_between_the_markers() {
    assert_eq!(compute_fingerprint_from_pem(SMALL_PEM.as_bytes()).unwrap(), SMALL_FP);
    let noisy = format!("junk\n{}-----END CERTIFICATE-----", SMALL_PEM);
    assert_eq!(compute_fingerprint_from_pem(noisy.as_bytes()).unwrap(), SMALL_FP);
}

#[test]
fn pem_errors() {
    assert_eq!(tls_text(compute_fingerprint_from_pem(b"nothing here")), "No certificate found in PEM");
    assert_eq!(
        tls_text(compute_fingerprint_from_pem(b"-----BEGIN CERTIFICATE-----\nAAEC")),
        "Invalid PEM format"
    );
    assert_eq!(
        tls_text(compute_fingerprint_from_pem(
            b"-----END CERTIFICATE-----\n-----BEGIN CERTIFICATE-----\nAAEC"
        )),
        "Invalid PEM format"
    );
    let bad = tls_text(compute_fingerprint_from_pem(
        b"-----BEGIN CERTIFICATE-----\n!!\n-----END CERTIFICATE-----",
    ));
    assert!(bad.starts_with("Invalid base64 in PEM: "));
    let bytes = tls_text(compute_fingerprint_from_pem(&[0xff, 0xfe]));
    assert!(bytes.starts_with("Invalid PEM encoding: "));
}

#[test]
fn fingerprints_are_compared_whatever_the_case() {
    assert!(verify_fingerprint(SMALL_PEM.as_bytes(), SMALL_FP).unwrap());
    assert!(verify_fingerprint(SMALL_PEM.as_bytes(), &SMALL_FP.to_uppercase()).unwrap());
    assert!(!verify_fingerprint(SMALL_PEM.as_bytes(), "SHA256:00").unwrap());
    assert!(verify_fingerprint(b"", SMALL_FP).is_err());
}

#[test]
fn first_certificate_is_trusted_and_pinned() {
    let mut config = config_with_peer(None);
    let (trusted, fingerprint, problem) =
        TOFUVerifier::new(&config).verify_peer(PEER, SMALL_PEM.as_bytes());
    assert!(trusted);
    assert_eq!(fingerprint, SMALL_FP);
    assert_eq!(problem, None);
    assert_eq!(config.get_peer(PEER).unwrap().certificate_fingerprint, None);
    let (trusted, fingerprint, problem) = trust_peer(&mut config, PEER, SMALL_PEM.as_bytes());
    assert!(trusted);
    assert_eq!(fingerprint, SMALL_FP);
    assert_eq!(problem, None);
    assert_eq!(config.get_peer(PEER).unwrap().certificate_fingerprint.as_deref(), Some(SMALL_FP));
    let (again, _, problem) = trust_peer(&mut config, PEER, SMALL_PEM.as_bytes());
    assert!(again);
    assert_eq!(problem, None);
}

#[test]
fn another_certificate_is_refused_and_the_pin_stays() {
    let mut config = config_with_peer(Some(SMALL_FP));
    let (trusted, fingerprint, problem) = trust_peer(&mut config, PEER, TEST_CERT_PEM.as_bytes());
    assert!(!trusted);
    assert!(fingerprint.starts_with("SHA256:a1:dd"));
    assert_eq!(
        problem.unwrap(),
        format!(
            "Certificate fingerprint mismatch! Expected: {}, Got: {}. This could indicate a man-in-the-middle attack or the peer regenerated their certificate.",
            SMALL_FP, fingerprint
        )
    );
    assert_eq!(config.get_peer(PEER).unwrap().certificate_fingerprint.as_deref(), Some(SMALL_FP));
    let (trusted, _, _) = TOFUVerifier::new(&config).verify_peer(PEER, TEST_CERT_PEM.as_bytes());
    assert!(!trusted);
    let upper = config_with_peer(Some(&SMALL_FP.to_uppercase()));
    let (trusted, _, _) = TOFUVerifier::new(&upper).verify_peer(PEER, SMALL_PEM.as_bytes());
    assert!(!trusted);
}

#[test]
fn unknown_peers_and_unreadable_certificates_are_refused() {
    let mut config = config_with_peer(None);
    let (trusted, fingerprint, problem) =
        trust_peer(&mut config, "ffffffffffffffffffffffffffffffff", SMALL_PEM.as_bytes());
    assert!(!trusted);
    assert_eq!(fingerprint, SMALL_FP);
    assert_eq!(problem.as_deref(), Some("Unknown peer"));
    let (trusted, fingerprint, problem) = trust_peer(&mut config, PEER, b"no pem");
    assert!(!trusted);
    assert_eq!(fingerprint, "");
    assert_eq!(
        problem.as_deref(),
        Some("Failed to compute fingerprint: TLS error: No certificate found in PEM")
    );
    assert_eq!(config.get_peer(PEER).unwrap().certificate_fingerprint, None);
}

#[test]
fn certificates_are_not_made_here() {
    match generate_self_signed_cert("a.crt", "a.key", "desk", None) {
        Err(VoiceError::Tls(m)) => assert_eq!(
            m,
            "Certificate generation is not implemented. Please generate certificates using openssl."
        ),
        other => panic!("expected a TLS error, got {:?}", other),
    }
    let config = Config::new("/etc/voice", None);
    let found = ensure_server_certificate(&config, false, true, true, SMALL_PEM.as_bytes()).unwrap();
    assert_eq!(found.0, "/etc/voice/certs/server.crt");
    assert_eq!(found.1, "/etc/voice/certs/server.key");
    assert_eq!(found.2, SMALL_FP);
    for (force, cert, key) in [(true, true, true), (false, false, true), (false, true, false)] {
        match ensure_server_certificate(&config, force, cert, key, SMALL_PEM.as_bytes()) {
            Err(VoiceError::Tls(m)) => assert_eq!(
                m,
                "Server certificate not found at /etc/voice/certs/server.crt. Please generate certificates using: openssl req -x509 -newkey rsa:2048 -keyout /etc/voice/certs/server.key -out /etc/voice/certs/server.crt -days 3650 -nodes"
            ),
            other => panic!("expected a TLS error, got {:?}", other),
        }
    }
    assert!(ensure_server_certificate(&config, false, true, true, b"").is_err());
}
