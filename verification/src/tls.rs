//! Transport identity: the fingerprint of a certificate, and trust on first use.
//!
//! A peer is known by the SHA-256 fingerprint of its certificate. The first certificate
//! that a peer shows is trusted and its fingerprint kept; from then on the peer must show
//! a certificate of that very fingerprint.

use crate::codec::{
    base64_decode, base64_standard, decode_error_text, lowercase, sha256, sha256_digest,
    to_lowercase, utf8_error_text, utf8_text,
};
use crate::config::{find_peer, with_fingerprint, Config, PeerConfigView};
use crate::error::{prefixed, ErrorView, VoiceError, VoiceResult};
use crate::text::{
    char_is_space, chars_of, find_first, first_occurrence, is_space, lower_hex_digit, starts_with,
    str_eq, string_of,
};
use vstd::prelude::*;
use vstd::string::*;
use vstd::utf8::{decode_utf8, valid_utf8};

verus! {

/// For how many days a certificate of this device is valid: ten years.
pub const CERT_VALIDITY_DAYS: u32 = 3650;

// ----------------------------------------------------------------------------
// Fingerprints
// ----------------------------------------------------------------------------

/// The two lower-case hexadecimal digits of a byte.
pub open spec fn hex_pair(b: u8) -> Seq<char> {
    seq![lower_hex_digit((b / 16) as nat), lower_hex_digit((b % 16) as nat)]
}

/// The bytes in hexadecimal, two digits each, with a colon between one byte and the next.
pub open spec fn hex_pairs(bytes: Seq<u8>) -> Seq<char>
    decreases bytes.len(),
{
    if bytes.len() == 0 {
        Seq::empty()
    } else if bytes.len() == 1 {
        hex_pair(bytes[0])
    } else {
        hex_pairs(bytes.drop_last()) + seq![':'] + hex_pair(bytes.last())
    }
}

/// How a digest is shown: `SHA256:` and the bytes in hexadecimal.
pub open spec fn fingerprint_text(digest: Seq<u8>) -> Seq<char> {
    "SHA256:"@ + hex_pairs(digest)
}

/// The fingerprint of a certificate in DER: its SHA-256 digest, shown.
pub open spec fn fingerprint_of(der: Seq<u8>) -> Seq<char> {
    fingerprint_text(sha256(der))
}

fn hex_char(n: u8) -> (c: char)
    requires
        n < 16,
    ensures
        c == lower_hex_digit(n as nat),
{
    if n == 0 {
        '0'
    } else if n == 1 {
        '1'
    } else if n == 2 {
        '2'
    } else if n == 3 {
        '3'
    } else if n == 4 {
        '4'
    } else if n == 5 {
        '5'
    } else if n == 6 {
        '6'
    } else if n == 7 {
        '7'
    } else if n == 8 {
        '8'
    } else if n == 9 {
        '9'
    } else if n == 10 {
        'a'
    } else if n == 11 {
        'b'
    } else if n == 12 {
        'c'
    } else if n == 13 {
        'd'
    } else if n == 14 {
        'e'
    } else {
        'f'
    }
}

/// Shows a digest.
pub fn format_fingerprint(digest: &[u8]) -> (s: String)
    ensures
        s@ == fingerprint_text(digest@),
{
    let mut s = String::from_str("SHA256:");
    let mut i: usize = 0;
    assert(digest@.take(0) =~= Seq::<u8>::empty());
    while i < digest.len()
        invariant
            i <= digest.len(),
            s@ == "SHA256:"@ + hex_pairs(digest@.take(i as int)),
        decreases digest.len() - i,
    {
        let b = digest[i];
        let ghost before = s@;
        let ghost done = hex_pairs(digest@.take(i as int));
        proof {
            assert(digest@.take(i + 1).drop_last() =~= digest@.take(i as int));
            assert(digest@.take(i + 1).last() == b);
            if i == 0 {
                assert(digest@.take(1)[0] == b);
            }
        }
        if i > 0 {
            s.push(':');
        }
        s.push(hex_char(b / 16));
        s.push(hex_char(b % 16));
        proof {
            if i == 0 {
                assert(done =~= Seq::<char>::empty());
                assert(s@ =~= "SHA256:"@ + hex_pair(b));
            } else {
                assert(s@ =~= "SHA256:"@ + (done + seq![':'] + hex_pair(b)));
            }
        }
        i += 1;
    }
    assert(digest@.take(digest@.len() as int) =~= digest@);
    s
}

/// The fingerprint of a certificate in DER.
pub fn compute_fingerprint_from_der(der_data: &[u8]) -> (s: String)
    ensures
        s@ == fingerprint_of(der_data@),
{
    let digest = sha256_digest(der_data);
    format_fingerprint(digest.as_slice())
}

// ----------------------------------------------------------------------------
// Certificates in PEM
// ----------------------------------------------------------------------------

/// The line that opens a certificate in PEM.
pub open spec fn begin_marker() -> Seq<char> {
    "-----BEGIN CERTIFICATE-----"@
}

/// The line that closes a certificate in PEM.
pub open spec fn end_marker() -> Seq<char> {
    "-----END CERTIFICATE-----"@
}

/// `s` without its white space.
pub open spec fn without_spaces(s: Seq<char>) -> Seq<char>
    decreases s.len(),
{
    if s.len() == 0 {
        Seq::empty()
    } else if is_space(s.last()) {
        without_spaces(s.drop_last())
    } else {
        without_spaces(s.drop_last()).push(s.last())
    }
}

/// What stands between the first opening line and the first closing line, without its
/// white space; none where a line is missing or the closing line comes first.
pub open spec fn pem_payload(text: Seq<char>) -> Option<Seq<char>> {
    let b = first_occurrence(text, begin_marker(), 0);
    let e = first_occurrence(text, end_marker(), 0);
    if b < 0 || e < b + begin_marker().len() {
        None
    } else {
        Some(without_spaces(text.subrange(b + begin_marker().len(), e)))
    }
}

/// The fingerprint of the certificate that `pem` holds, where it holds one that can be
/// read.
pub open spec fn pem_fingerprint(pem: Seq<u8>) -> Option<Seq<char>> {
    if !valid_utf8(pem) {
        None
    } else {
        match pem_payload(decode_utf8(pem)) {
            None => None,
            Some(payload) => match base64_standard(payload) {
                None => None,
                Some(der) => Some(fingerprint_of(der)),
            },
        }
    }
}

/// Whether `r` is a TLS error whose text begins with `head`.
pub open spec fn tls_error<T>(r: VoiceResult<T>, head: Seq<char>) -> bool {
    match r {
        Ok(_) => false,
        Err(e) => match e@ {
            ErrorView::Tls(m) => starts_with(m, head),
            _ => false,
        },
    }
}

/// Whether `r` is what reading the fingerprint of a certificate in PEM gives: the
/// fingerprint, or a TLS error that says what is wrong.
pub open spec fn pem_outcome(r: VoiceResult<String>, pem: Seq<u8>) -> bool {
    if !valid_utf8(pem) {
        tls_error(r, "Invalid PEM encoding: "@)
    } else {
        let text = decode_utf8(pem);
        let b = first_occurrence(text, begin_marker(), 0);
        let e = first_occurrence(text, end_marker(), 0);
        if b < 0 {
            r matches Err(err) && err@ == ErrorView::Tls("No certificate found in PEM"@)
        } else if e < b + begin_marker().len() {
            r matches Err(err) && err@ == ErrorView::Tls("Invalid PEM format"@)
        } else {
            match pem_fingerprint(pem) {
                Some(f) => r matches Ok(s) && s@ == f,
                None => tls_error(r, "Invalid base64 in PEM: "@),
            }
        }
    }
}

fn strip_spaces(s: &Vec<char>, from: usize, to: usize) -> (r: Vec<char>)
    requires
        from <= to <= s.len(),
    ensures
        r@ == without_spaces(s@.subrange(from as int, to as int)),
{
    let mut r: Vec<char> = Vec::new();
    let mut i: usize = from;
    let ghost part = s@.subrange(from as int, to as int);
    assert(part.take(0) =~= Seq::<char>::empty());
    while i < to
        invariant
            from <= i <= to <= s.len(),
            part == s@.subrange(from as int, to as int),
            r@ == without_spaces(part.take(i - from)),
        decreases to - i,
    {
        proof {
            assert(part.take(i + 1 - from).drop_last() =~= part.take(i - from));
            assert(part.take(i + 1 - from).last() == s@[i as int]);
        }
        if !char_is_space(s[i]) {
            r.push(s[i]);
        }
        i += 1;
    }
    assert(part.take(to - from) =~= part);
    r
}

/// The fingerprint of the certificate that `pem_data` holds.
///
/// The certificate stands between the first line `-----BEGIN CERTIFICATE-----` and the
/// first line `-----END CERTIFICATE-----`, in Base64; white space in it is passed over.
pub fn compute_fingerprint_from_pem(pem_data: &[u8]) -> (r: VoiceResult<String>)
    ensures
        pem_outcome(r, pem_data@),
        r is Ok <==> pem_fingerprint(pem_data@) is Some,
{
    let text = match utf8_text(pem_data) {
        Ok(t) => t,
        Err(e) => {
            let m = prefixed("Invalid PEM encoding: ", utf8_error_text(&e).as_str());
            assert(m@.subrange(0, "Invalid PEM encoding: "@.len() as int)
                =~= "Invalid PEM encoding: "@);
            return Err(VoiceError::Tls(m));
        },
    };
    let chars = chars_of(text);
    let begin = chars_of("-----BEGIN CERTIFICATE-----");
    let end = chars_of("-----END CERTIFICATE-----");
    let start = match find_first(&chars, &begin) {
        Some(i) => i + begin.len(),
        None => {
            return Err(VoiceError::Tls(String::from_str("No certificate found in PEM")));
        },
    };
    let stop = match find_first(&chars, &end) {
        Some(i) => i,
        None => {
            return Err(VoiceError::Tls(String::from_str("Invalid PEM format")));
        },
    };
    if stop < start {
        return Err(VoiceError::Tls(String::from_str("Invalid PEM format")));
    }
    let payload = strip_spaces(&chars, start, stop);
    let payload_text = string_of(&payload);
    match base64_decode(payload_text.as_str()) {
        Ok(der) => Ok(compute_fingerprint_from_der(der.as_slice())),
        Err(e) => {
            let m = prefixed("Invalid base64 in PEM: ", decode_error_text(&e).as_str());
            assert(m@.subrange(0, "Invalid base64 in PEM: "@.len() as int)
                =~= "Invalid base64 in PEM: "@);
            Err(VoiceError::Tls(m))
        },
    }
}

/// Whether the certificate that `pem_data` holds has the fingerprint `expected`, whatever
/// the case of the letters.
pub fn verify_fingerprint(pem_data: &[u8], expected_fingerprint: &str) -> (r: VoiceResult<bool>)
    ensures
        match pem_fingerprint(pem_data@) {
            Some(f) => r == Ok::<bool, VoiceError>(
                lowercase(f) == lowercase(expected_fingerprint@),
            ),
            None => r is Err,
        },
{
    let actual = match compute_fingerprint_from_pem(pem_data) {
        Ok(f) => f,
        Err(e) => {
            return Err(e);
        },
    };
    let a = to_lowercase(actual.as_str());
    let b = to_lowercase(expected_fingerprint);
    Ok(str_eq(a.as_str(), b.as_str()))
}

// ----------------------------------------------------------------------------
// Trust on first use
// ----------------------------------------------------------------------------

/// What a certificate that a peer shows is worth.
pub enum Trust {
    /// The peer has shown no certificate before: this one is trusted.
    FirstUse,
    /// The certificate has the fingerprint that was kept.
    Pinned,
    /// The certificate has another fingerprint than the one that was kept.
    Mismatch,
    /// No peer of that identifier is configured.
    UnknownPeer,
    /// The certificate cannot be read.
    Unreadable,
}

/// What a certificate of the fingerprint `fingerprint` is worth when the peer `peer_id`
/// shows it.
pub open spec fn trust_of(
    peers: Seq<PeerConfigView>,
    peer_id: Seq<char>,
    fingerprint: Option<Seq<char>>,
) -> Trust {
    match fingerprint {
        None => Trust::Unreadable,
        Some(actual) => match find_peer(peers, peer_id) {
            None => Trust::UnknownPeer,
            Some(p) => match p.certificate_fingerprint {
                None => Trust::FirstUse,
                Some(stored) => if stored == actual {
                    Trust::Pinned
                } else {
                    Trust::Mismatch
                },
            },
        },
    }
}

/// What is said of a certificate that has another fingerprint than the one that was kept.
pub open spec fn mismatch_text(stored: Seq<char>, actual: Seq<char>) -> Seq<char> {
    "Certificate fingerprint mismatch! Expected: "@ + stored + ", Got: "@ + actual
        + ". This could indicate a man-in-the-middle attack or the peer regenerated their certificate."@
}

/// Whether the text `message` is what is said, if anything, of a certificate of the
/// fingerprint `fingerprint` shown by the peer `peer_id`.
pub open spec fn verdict_text(
    message: Option<Seq<char>>,
    peers: Seq<PeerConfigView>,
    peer_id: Seq<char>,
    fingerprint: Option<Seq<char>>,
) -> bool {
    match trust_of(peers, peer_id, fingerprint) {
        Trust::FirstUse => message is None,
        Trust::Pinned => message is None,
        Trust::Mismatch => message == Some(
            mismatch_text(
                find_peer(peers, peer_id)->0.certificate_fingerprint->0,
                fingerprint->0,
            ),
        ),
        Trust::UnknownPeer => message == Some("Unknown peer"@),
        Trust::Unreadable => match message {
            Some(m) => starts_with(m, "Failed to compute fingerprint: TLS error: "@),
            None => false,
        },
    }
}

/// Whether `r` is the verdict on the certificate `pem` shown by the peer `peer_id`:
/// whether it is trusted, its fingerprint (empty where it cannot be read), and what is
/// wrong where it is not trusted.
pub open spec fn is_verdict(
    r: (bool, String, Option<String>),
    peers: Seq<PeerConfigView>,
    peer_id: Seq<char>,
    pem: Seq<u8>,
) -> bool {
    let trust = trust_of(peers, peer_id, pem_fingerprint(pem));
    &&& r.0 == (trust is FirstUse || trust is Pinned)
    &&& r.1@ == match pem_fingerprint(pem) {
        Some(f) => f,
        None => Seq::empty(),
    }
    &&& verdict_text(crate::text::opt_text(r.2), peers, peer_id, pem_fingerprint(pem))
}

/// Judges the certificates that peers show, by the fingerprints that the configuration
/// keeps.
pub struct TOFUVerifier<'a> {
    config: &'a Config,
}

fn judge(config: &Config, peer_id: &str, peer_cert_pem: &[u8]) -> (r: (bool, String, Option<String>))
    ensures
        is_verdict(r, config.peer_list(), peer_id@, peer_cert_pem@),
{
    let actual = match compute_fingerprint_from_pem(peer_cert_pem) {
        Ok(f) => f,
        Err(e) => {
            let ghost head = "Failed to compute fingerprint: TLS error: "@;
            let shown = e.to_string();
            let mut m = String::from_str("Failed to compute fingerprint: ");
            m.append(shown.as_str());
            proof {
                assert(e@ is Tls);
                assert(m@ =~= "Failed to compute fingerprint: "@ + ("TLS error: "@ + e@->Tls_0));
                reveal_strlit("Failed to compute fingerprint: TLS error: ");
                reveal_strlit("Failed to compute fingerprint: ");
                reveal_strlit("TLS error: ");
                assert(m@.subrange(0, head.len() as int) =~= head);
            }
            return (false, String::new(), Some(m));
        },
    };
    let peer = match config.get_peer(peer_id) {
        Some(p) => p,
        None => {
            return (false, actual, Some(String::from_str("Unknown peer")));
        },
    };
    match &peer.certificate_fingerprint {
        None => (true, actual, None),
        Some(stored) => {
            if str_eq(actual.as_str(), stored.as_str()) {
                (true, actual, None)
            } else {
                let mut m = String::from_str("Certificate fingerprint mismatch! Expected: ");
                m.append(stored.as_str());
                m.append(", Got: ");
                m.append(actual.as_str());
                m.append(
                    ". This could indicate a man-in-the-middle attack or the peer regenerated their certificate.",
                );
                (false, actual, Some(m))
            }
        },
    }
}

impl<'a> TOFUVerifier<'a> {
    /// The configuration by which the verifier judges.
    pub closed spec fn config(&self) -> Config {
        *self.config
    }

    /// A verifier that judges by the fingerprints that `config` keeps.
    pub fn new(config: &'a Config) -> (v: Self)
        ensures
            v.config() == *config,
    {
        TOFUVerifier { config }
    }

    /// Judges the certificate that the peer `peer_id` shows.
    ///
    /// The first certificate of a peer is trusted. Once a fingerprint is kept for the
    /// peer, only a certificate of exactly that fingerprint is. Returns whether the
    /// certificate is trusted, its fingerprint, and what is wrong where it is not.
    pub fn verify_peer(&self, peer_id: &str, peer_cert_pem: &[u8]) -> (r: (
        bool,
        String,
        Option<String>,
    ))
        ensures
            is_verdict(r, self.config().peer_list(), peer_id@, peer_cert_pem@),
    {
        judge(self.config, peer_id, peer_cert_pem)
    }
}

/// Judges the certificate that the peer `peer_id` shows and, where it is the first one of
/// the peer, keeps its fingerprint.
///
/// A certificate of another fingerprint than the one kept is refused, and the fingerprint
/// that was kept stays.
pub fn trust_peer(config: &mut Config, peer_id: &str, peer_cert_pem: &[u8]) -> (r: (
    bool,
    String,
    Option<String>,
))
    ensures
        is_verdict(r, old(config).peer_list(), peer_id@, peer_cert_pem@),
        final(config).dir() == old(config).dir(),
        final(config).peer_list() == match trust_of(
            old(config).peer_list(),
            peer_id@,
            pem_fingerprint(peer_cert_pem@),
        ) {
            Trust::FirstUse => with_fingerprint(
                old(config).peer_list(),
                peer_id@,
                pem_fingerprint(peer_cert_pem@)->0,
            ),
            _ => old(config).peer_list(),
        },
        trust_of(old(config).peer_list(), peer_id@, pem_fingerprint(peer_cert_pem@)) is Mismatch
            ==> !r.0 && final(config).data() == old(config).data(),
{
    let first = match config.get_peer(peer_id) {
        Some(p) => p.certificate_fingerprint.is_none(),
        None => false,
    };
    let r = judge(config, peer_id, peer_cert_pem);
    if r.0 && first {
        config.update_peer_certificate(peer_id, r.1.as_str());
    }
    r
}

/// Makes a certificate for this device, signed by itself.
///
/// This library makes no certificates: the call fails, and says how to make one.
pub fn generate_self_signed_cert(
    cert_path: &str,
    key_path: &str,
    common_name: &str,
    device_id: Option<&str>,
) -> (r: VoiceResult<(String, String)>)
    ensures
        r matches Err(e) && e@ == ErrorView::Tls(
            "Certificate generation is not implemented. Please generate certificates using openssl."@,
        ),
{
    Err(
        VoiceError::Tls(
            String::from_str(
                "Certificate generation is not implemented. Please generate certificates using openssl.",
            ),
        ),
    )
}

/// What is said where this device has no certificate.
pub open spec fn missing_certificate_text(cert_path: Seq<char>, key_path: Seq<char>) -> Seq<char> {
    "Server certificate not found at "@ + cert_path
        + ". Please generate certificates using: openssl req -x509 -newkey rsa:2048 -keyout "@
        + key_path + " -out "@ + cert_path + " -days 3650 -nodes"@
}

/// The certificate of this device: where it lies, where its key lies, and its fingerprint.
///
/// The two files are `server.crt` and `server.key` in the directory of the certificates.
/// The caller says whether they are there and hands over what the first one holds. The
/// call fails where one is missing or a new certificate is asked for, and where the
/// certificate cannot be read.
pub fn ensure_server_certificate(
    config: &Config,
    force_regenerate: bool,
    cert_present: bool,
    key_present: bool,
    cert_pem: &[u8],
) -> (r: VoiceResult<(String, String, String)>)
    ensures
        ({
            let cert_path = config.dir() + "/certs"@ + "/server.crt"@;
            let key_path = config.dir() + "/certs"@ + "/server.key"@;
            if force_regenerate || !cert_present || !key_present {
                match r {
                    Ok(_) => false,
                    Err(e) => e@ == ErrorView::Tls(missing_certificate_text(cert_path, key_path)),
                }
            } else {
                match pem_fingerprint(cert_pem@) {
                    Some(f) => match r {
                        Ok(found) => found.0@ == cert_path && found.1@ == key_path && found.2@
                            == f,
                        Err(_) => false,
                    },
                    None => r is Err,
                }
            }
        }),
{
    let dir = config.certs_dir();
    let cert_path = prefixed(dir.as_str(), "/server.crt");
    let key_path = prefixed(dir.as_str(), "/server.key");
    if force_regenerate || !cert_present || !key_present {
        let mut m = String::from_str("Server certificate not found at ");
        m.append(cert_path.as_str());
        m.append(
            ". Please generate certificates using: openssl req -x509 -newkey rsa:2048 -keyout ",
        );
        m.append(key_path.as_str());
        m.append(" -out ");
        m.append(cert_path.as_str());
        m.append(" -days 3650 -nodes");
        return Err(VoiceError::Tls(m));
    }
    match compute_fingerprint_from_pem(cert_pem) {
        Ok(f) => Ok((cert_path, key_path, f)),
        Err(e) => Err(e),
    }
}

} // verus!
