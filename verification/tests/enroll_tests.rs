use microtak_admin_cli::enroll::{
    build_csr, certificate_from_reply, enrolled_message, enrollment_failure, enrollment_url,
    urlencoding_minimal, wrap_pem_certificate,
};
use microtak_admin_cli::error::AdminError;

#[test]
fn wraps_a_bare_base64_cert_into_valid_pem() {
    let wrapped = wrap_pem_certificate("bm90LWEtcmVhbC1jZXJ0");
    assert!(wrapped.starts_with("-----BEGIN CERTIFICATE-----\n"));
    assert!(wrapped.ends_with("-----END CERTIFICATE-----\n"));
    assert!(wrapped.contains("bm90LWEtcmVhbC1jZXJ0"));
}

#[test]
fn minimal_encoding_keeps_only_letters_and_digits() {
    assert_eq!(urlencoding_minimal("deadBEEF0123"), "deadBEEF0123");
    assert_eq!(urlencoding_minimal("a b&c=d/é"), "abcd");
    let once = urlencoding_minimal("x-y_z!");
    assert_eq!(urlencoding_minimal(&once), once);
}

#[test]
fn enrollment_url_carries_the_token_only_when_given() {
    assert_eq!(
        enrollment_url("http://server:8446", None),
        "http://server:8446/Marti/api/tls/signClient/v2"
    );
    assert_eq!(
        enrollment_url("http://server:8446", Some("ab cd")),
        "http://server:8446/Marti/api/tls/signClient/v2?token=abcd"
    );
}

#[test]
fn enrollment_reply_is_armored_or_refused() {
    let pem = certificate_from_reply(r#"{"signedCert": "QUJD"}"#).ok().unwrap();
    assert_eq!(pem, "-----BEGIN CERTIFICATE-----\nQUJD\n-----END CERTIFICATE-----\n");
    assert!(matches!(certificate_from_reply("{}"), Err(AdminError::SignedCertMissing)));
    assert!(matches!(certificate_from_reply("<html>"), Err(AdminError::EnrollmentReplyUnparsable)));
}

#[test]
fn enrollment_messages() {
    assert_eq!(
        enrollment_failure("403 Forbidden", "token required").message(),
        "enrollment failed (403 Forbidden): token required"
    );
    assert_eq!(
        enrolled_message("dev1", "device.pem", "device.key"),
        "Enrolled 'dev1'. Certificate: device.pem, key: device.key"
    );
}

#[test]
fn build_csr_produces_a_pem_request() {
    let (pem, _key) = build_csr("my-device").ok().unwrap();
    assert!(pem.starts_with("-----BEGIN CERTIFICATE REQUEST-----"));
    assert!(pem.trim_end().ends_with("-----END CERTIFICATE REQUEST-----"));
}

#[test]
fn csr_subject_holds_only_the_common_name() {
    let dn = microtak_admin_cli::enroll::csr_subject("my-device");
    assert_eq!(
        dn.get(&rcgen::DnType::CommonName),
        Some(&rcgen::DnValue::Utf8String("my-device".to_string()))
    );
    assert_eq!(dn.iter().count(), 1);
}

fn base64_decode(text: &str) -> Vec<u8> {
    let alphabet = b"ABCDEFGHIJKLMNOPQRSTUVWXYZabcdefghijklmnopqrstuvwxyz0123456789+/";
    let mut bits: u32 = 0;
    let mut count = 0;
    let mut out = Vec::new();
    for c in text.bytes() {
        if c == b'=' {
            break;
        }
        let v = alphabet.iter().position(|&a| a == c).unwrap() as u32;
        bits = (bits << 6) | v;
        count += 6;
        if count >= 8 {
            count -= 8;
            out.push((bits >> count) as u8 & 0xff);
        }
    }
    out
}

fn contains(haystack: &[u8], needle: &[u8]) -> bool {
    haystack.windows(needle.len()).any(|w| w == needle)
}

#[test]
fn csr_request_carries_the_subject_and_the_key_it_returns() {
    let (pem, key) = build_csr("my-device").ok().unwrap();
    let body: String = pem.lines().filter(|l| !l.starts_with("-----")).collect();
    let der = base64_decode(&body);
    let mut cn = vec![0x06, 0x03, 0x55, 0x04, 0x03, 0x0c, 9];
    cn.extend_from_slice(b"my-device");
    assert!(contains(&der, &cn), "subject must be CN=my-device");
    assert!(!contains(&der, b"rcgen self signed cert"));
    assert!(contains(&der, &key.public_key_der()), "CSR must carry the returned key");
    let (pem2, key2) = build_csr("my-device").ok().unwrap();
    assert_ne!(pem, pem2);
    assert_ne!(key.public_key_der(), key2.public_key_der());
    assert!(!contains(&base64_decode(&pem2.lines().filter(|l| !l.starts_with("-----")).collect::<String>()), &key.public_key_der()));
}
