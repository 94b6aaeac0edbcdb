use cert_inspector::cert::{
    accept_certificate, decode_certificate, extract_dns_names, AltName, AltNames,
    CertParseError, Certificate, SanLookup,
};
use cert_inspector::report::{
    bundle_info, cert_info, render_name_list, render_report, report_certificate,
    report_sections, InfoError,
};

const CA_0: &str = "-----BEGIN CERTIFICATE-----\n\
MIHjMIG7oAMCAQICAQEwCgYIKoZIzj0EAwIwFDESMBAGA1UEAwwJVGVzdCBDQSAx\n\
MB4XDTI1MDExMDEzMTg1OVoXDTI2MDExMDEzMTg1OVowFDESMBAGA1UEAwwJVGVz\n\
dCBDQSAxMFkwEwYHKoZIzj0CAQYIKoZIzj0DAQcDQgAEvht8mWuGYXEzQjgyVVym\n\
abQiYhcXD+6P8L3rxaMhkHPo8J1e2trS+kWOA0wEL6BTII++iUEYhia17kX09YNk\n\
wTAKBggqhkjOPQQDAgMXADAUAggSNFZ4kKvN7wIID+3LqYdlQyE=\n\
-----END CERTIFICATE-----\n";
const CA_1: &str = "-----BEGIN CERTIFICATE-----\n\
MIHjMIG7oAMCAQICAQIwCgYIKoZIzj0EAwIwFDESMBAGA1UEAwwJVGVzdCBDQSAy\n\
MB4XDTI1MDExMDEzMTkwMFoXDTI3MDExMDEzMTkwMFowFDESMBAGA1UEAwwJVGVz\n\
dCBDQSAyMFkwEwYHKoZIzj0CAQYIKoZIzj0DAQcDQgAEvht8mWuGYXEzQjgyVVym\n\
abQiYhcXD+6P8L3rxaMhkHPo8J1e2trS+kWOA0wEL6BTII++iUEYhia17kX09YNk\n\
wTAKBggqhkjOPQQDAgMXADAUAggSNFZ4kKvN7wIID+3LqYdlQyE=\n\
-----END CERTIFICATE-----\n";
const CA_2: &str = "-----BEGIN CERTIFICATE-----\n\
MIHjMIG7oAMCAQICAQMwCgYIKoZIzj0EAwIwFDESMBAGA1UEAwwJVGVzdCBDQSAz\n\
MB4XDTI1MDExMDEzMTkwMFoXDTI4MDExMDEzMTkwMFowFDESMBAGA1UEAwwJVGVz\n\
dCBDQSAzMFkwEwYHKoZIzj0CAQYIKoZIzj0DAQcDQgAEvht8mWuGYXEzQjgyVVym\n\
abQiYhcXD+6P8L3rxaMhkHPo8J1e2trS+kWOA0wEL6BTII++iUEYhia17kX09YNk\n\
wTAKBggqhkjOPQQDAgMXADAUAggSNFZ4kKvN7wIID+3LqYdlQyE=\n\
-----END CERTIFICATE-----\n";
const CA_3: &str = "-----BEGIN CERTIFICATE-----\n\
MIHjMIG7oAMCAQICAQQwCgYIKoZIzj0EAwIwFDESMBAGA1UEAwwJVGVzdCBDQSA0\n\
MB4XDTI1MDExMDEzMTkwMVoXDTI5MDEwOTEzMTkwMVowFDESMBAGA1UEAwwJVGVz\n\
dCBDQSA0MFkwEwYHKoZIzj0CAQYIKoZIzj0DAQcDQgAEvht8mWuGYXEzQjgyVVym\n\
abQiYhcXD+6P8L3rxaMhkHPo8J1e2trS+kWOA0wEL6BTII++iUEYhia17kX09YNk\n\
wTAKBggqhkjOPQQDAgMXADAUAggSNFZ4kKvN7wIID+3LqYdlQyE=\n\
-----END CERTIFICATE-----\n";
const CA_4: &str = "-----BEGIN CERTIFICATE-----\n\
MIHjMIG7oAMCAQICAQUwCgYIKoZIzj0EAwIwFDESMBAGA1UEAwwJVGVzdCBDQSA1\n\
MB4XDTI1MDExMDEzMTkwMloXDTMwMDEwOTEzMTkwMlowFDESMBAGA1UEAwwJVGVz\n\
dCBDQSA1MFkwEwYHKoZIzj0CAQYIKoZIzj0DAQcDQgAEvht8mWuGYXEzQjgyVVym\n\
abQiYhcXD+6P8L3rxaMhkHPo8J1e2trS+kWOA0wEL6BTII++iUEYhia17kX09YNk\n\
wTAKBggqhkjOPQQDAgMXADAUAggSNFZ4kKvN7wIID+3LqYdlQyE=\n\
-----END CERTIFICATE-----\n";
const SAN_MIXED: &str = "3082015d30820134a003020102020101300a06082a8648ce3d04030230163114301206035504030c0b73616e\
    2e6578616d706c65301e170d3235303131303133313835395a170d3236303131303133313835395a30163114\
    301206035504030c0b73616e2e6578616d706c653059301306072a8648ce3d020106082a8648ce3d03010703\
    420004be1b7c996b86617133423832555ca669b4226217170fee8ff0bdebc5a3219073e8f09d5edadad2fa45\
    8e034c042fa053208fbe8941188626b5ee45f4f58364c1a3733071306f0603551d1104683066820b6578616d\
    706c652e636f6d820f7777772e6578616d706c652e636f6d8704c0000201871020010db80000000000000000\
    0000000187050102030405811161646d696e406578616d706c652e636f6d861468747470733a2f2f6578616d\
    706c652e636f6d2f300a06082a8648ce3d040302031700301402081234567890abcdef02080fedcba9876543\
    21";
const SAN_EMPTY_IP: &str = "3081f83081d0a003020102020101300a06082a8648ce3d04030230163114301206035504030c0b6f64642e65\
    78616d706c65301e170d3235303131303133313835395a170d3236303131303133313835395a301631143012\
    06035504030c0b6f64642e6578616d706c653059301306072a8648ce3d020106082a8648ce3d030107034200\
    04be1b7c996b86617133423832555ca669b4226217170fee8ff0bdebc5a3219073e8f09d5edadad2fa458e03\
    4c042fa053208fbe8941188626b5ee45f4f58364c1a30f300d300b0603551d11040430028700300a06082a86\
    48ce3d040302031700301402081234567890abcdef02080fedcba987654321";
const SAN_TWICE: &str = "3082011b3081f3a003020102020101300a06082a8648ce3d04030230183116301406035504030c0d74776963\
    652e6578616d706c65301e170d3235303131303133313835395a170d3236303131303133313835395a301831\
    16301406035504030c0d74776963652e6578616d706c653059301306072a8648ce3d020106082a8648ce3d03\
    010703420004be1b7c996b86617133423832555ca669b4226217170fee8ff0bdebc5a3219073e8f09d5edada\
    d2fa458e034c042fa053208fbe8941188626b5ee45f4f58364c1a32e302c30140603551d11040d300b820961\
    2e6578616d706c6530140603551d11040d300b8209622e6578616d706c65300a06082a8648ce3d0403020317\
    00301402081234567890abcdef02080fedcba987654321";
const SAN_UNREADABLE: &str = "3081ff3081d7a003020102020101300a06082a8648ce3d04030230193117301506035504030c0e62726f6b65\
    6e2e6578616d706c65301e170d3235303131303133313835395a170d3236303131303133313835395a301931\
    17301506035504030c0e62726f6b656e2e6578616d706c653059301306072a8648ce3d020106082a8648ce3d\
    03010703420004be1b7c996b86617133423832555ca669b4226217170fee8ff0bdebc5a3219073e8f09d5eda\
    dad2fa458e034c042fa053208fbe8941188626b5ee45f4f58364c1a310300e300c0603551d11040504036162\
    63300a06082a8648ce3d040302031700301402081234567890abcdef02080fedcba987654321";
const SAN_QUOTE: &str = "308201013081d9a003020102020101300a06082a8648ce3d04030230183116301406035504030c0d71756f74\
    652e6578616d706c65301e170d3235303131303133313835395a170d3236303131303133313835395a301831\
    16301406035504030c0d71756f74652e6578616d706c653059301306072a8648ce3d020106082a8648ce3d03\
    010703420004be1b7c996b86617133423832555ca669b4226217170fee8ff0bdebc5a3219073e8f09d5edada\
    d2fa458e034c042fa053208fbe8941188626b5ee45f4f58364c1a314301230100603551d1104093007820561\
    22625c63300a06082a8648ce3d040302031700301402081234567890abcdef02080fedcba987654321";
const TWO_RDN: &str = "3081fc3081e2a003020102020109300a06082a8648ce3d0403023038310b3009060355040613024652311430\
    12060355040a0c0b4578616d706c65204f72673113301106035504030c0a49737375696e67204341301e170d\
    3235303131303133313835395a170d3236303131303133313835395a30173115301306035504030c0c6c6561\
    662e6578616d706c653059301306072a8648ce3d020106082a8648ce3d03010703420004be1b7c996b866171\
    33423832555ca669b4226217170fee8ff0bdebc5a3219073e8f09d5edadad2fa458e034c042fa053208fbe89\
    41188626b5ee45f4f58364c1300a06082a8648ce3d0403020309003006020101020102";
const CA_0_DER: &str = "3081e33081bba003020102020101300a06082a8648ce3d04030230143112301006035504030c095465737420\
    43412031301e170d3235303131303133313835395a170d3236303131303133313835395a3014311230100603\
    5504030c095465737420434120313059301306072a8648ce3d020106082a8648ce3d03010703420004be1b7c\
    996b86617133423832555ca669b4226217170fee8ff0bdebc5a3219073e8f09d5edadad2fa458e034c042fa0\
    53208fbe8941188626b5ee45f4f58364c1300a06082a8648ce3d040302031700301402081234567890abcdef\
    02080fedcba987654321";

fn bytes_of(hex: &str) -> Vec<u8> {
    let digits: Vec<u8> = hex.bytes().map(|c| (c as char).to_digit(16).unwrap() as u8).collect();
    digits.chunks(2).map(|pair| pair[0] * 16 + pair[1]).collect()
}

fn ca_bundle() -> String {
    [CA_0, CA_1, CA_2, CA_3, CA_4].concat()
}

fn plain(subject: &str, san: AltNames) -> Certificate {
    Certificate {
        subject: subject.to_string(),
        issuer: "CN=Issuer".to_string(),
        not_before: "Jan  1 00:00:00 2025 +00:00".to_string(),
        not_after: "Jan  1 00:00:00 2026 +00:00".to_string(),
        san,
    }
}

#[test]
fn test_cert_info_0() {
    let mut buf = CA_0.as_bytes();
    let cert = rustls_pemfile::certs(&mut buf).next().unwrap().unwrap();

    let res = cert_info(cert.as_ref()).unwrap();

    let lines = res.trim_end().split("\n").collect::<Vec<&str>>();
    assert_eq!(lines.len(), 5);
    assert_eq!(lines[0], "Subject:     CN=Test CA 1");
    assert_eq!(lines[1], "Issuer:      CN=Test CA 1");
    assert_eq!(lines[2], "Not Before:  Jan 10 13:18:59 2025 +00:00");
    assert_eq!(lines[3], "Not After:   Jan 10 13:18:59 2026 +00:00");
    assert_eq!(lines[4], "DNS names:   []");
}

#[test]
fn test_cert_info_1() {
    let mut buf = CA_1.as_bytes();
    let cert = rustls_pemfile::certs(&mut buf).next().unwrap().unwrap();

    let res = cert_info(cert.as_ref()).unwrap();

    let lines = res.trim_end().split("\n").collect::<Vec<&str>>();
    assert_eq!(lines.len(), 5);
    assert_eq!(lines[0], "Subject:     CN=Test CA 2");
    assert_eq!(lines[1], "Issuer:      CN=Test CA 2");
    assert_eq!(lines[2], "Not Before:  Jan 10 13:19:00 2025 +00:00");
    assert_eq!(lines[3], "Not After:   Jan 10 13:19:00 2027 +00:00");
    assert_eq!(lines[4], "DNS names:   []");
}

#[test]
fn test_cert_info_2() {
    let mut buf = CA_2.as_bytes();
    let cert = rustls_pemfile::certs(&mut buf).next().unwrap().unwrap();

    let res = cert_info(cert.as_ref()).unwrap();

    let lines = res.trim_end().split("\n").collect::<Vec<&str>>();
    assert_eq!(lines.len(), 5);
    assert_eq!(lines[0], "Subject:     CN=Test CA 3");
    assert_eq!(lines[1], "Issuer:      CN=Test CA 3");
    assert_eq!(lines[2], "Not Before:  Jan 10 13:19:00 2025 +00:00");
    assert_eq!(lines[3], "Not After:   Jan 10 13:19:00 2028 +00:00");
    assert_eq!(lines[4], "DNS names:   []");
}

#[test]
fn test_cert_info_3() {
    let mut buf = CA_3.as_bytes();
    let cert = rustls_pemfile::certs(&mut buf).next().unwrap().unwrap();

    let res = cert_info(cert.as_ref()).unwrap();

    let lines = res.trim_end().split("\n").collect::<Vec<&str>>();
    assert_eq!(lines.len(), 5);
    assert_eq!(lines[0], "Subject:     CN=Test CA 4");
    assert_eq!(lines[1], "Issuer:      CN=Test CA 4");
    assert_eq!(lines[2], "Not Before:  Jan 10 13:19:01 2025 +00:00");
    assert_eq!(lines[3], "Not After:   Jan  9 13:19:01 2029 +00:00");
    assert_eq!(lines[4], "DNS names:   []");
}

#[test]
fn test_cert_info_4() {
    let mut buf = CA_4.as_bytes();
    let cert = rustls_pemfile::certs(&mut buf).next().unwrap().unwrap();

    let res = cert_info(cert.as_ref()).unwrap();

    let lines = res.trim_end().split("\n").collect::<Vec<&str>>();
    assert_eq!(lines.len(), 5);
    assert_eq!(lines[0], "Subject:     CN=Test CA 5");
    assert_eq!(lines[1], "Issuer:      CN=Test CA 5");
    assert_eq!(lines[2], "Not Before:  Jan 10 13:19:02 2025 +00:00");
    assert_eq!(lines[3], "Not After:   Jan  9 13:19:02 2030 +00:00");
    assert_eq!(lines[4], "DNS names:   []");
}

#[test]
fn cert_info_prints_exactly_five_lines() {
    assert_eq!(
        cert_info(&bytes_of(CA_0_DER)),
        Ok("Subject:     CN=Test CA 1\n\
            Issuer:      CN=Test CA 1\n\
            Not Before:  Jan 10 13:18:59 2025 +00:00\n\
            Not After:   Jan 10 13:18:59 2026 +00:00\n\
            DNS names:   []\n"
            .to_string())
    );
}

#[test]
fn cert_info_lists_alternative_names_in_order() {
    let res = cert_info(&bytes_of(SAN_MIXED)).unwrap();
    let lines = res.trim_end().split("\n").collect::<Vec<&str>>();
    assert_eq!(lines.len(), 5);
    assert_eq!(lines[0], "Subject:     CN=san.example");
    assert_eq!(
        lines[4],
        "DNS names:   [\"example.com\", \"www.example.com\", \"192.0.2.1\", \"2001:db8::1\", \
         \"invalid (len=5)\", \"RFC822Name(\\\"admin@example.com\\\")\", \
         \"URI(\\\"https://example.com/\\\")\"]"
    );
}

#[test]
fn cert_info_escapes_names_inside_the_list() {
    let res = cert_info(&bytes_of(SAN_QUOTE)).unwrap();
    let lines = res.trim_end().split("\n").collect::<Vec<&str>>();
    assert_eq!(lines[4], "DNS names:   [\"a\\\"b\\\\c\"]");
}

#[test]
fn cert_info_joins_the_parts_of_a_distinguished_name() {
    let res = cert_info(&bytes_of(TWO_RDN)).unwrap();
    let lines = res.trim_end().split("\n").collect::<Vec<&str>>();
    assert_eq!(lines[0], "Subject:     CN=leaf.example");
    assert_eq!(lines[1], "Issuer:      C=FR, O=Example Org, CN=Issuing CA");
}

#[test]
fn cert_info_reports_an_address_of_no_octets_as_invalid() {
    let res = cert_info(&bytes_of(SAN_EMPTY_IP)).unwrap();
    let lines = res.trim_end().split("\n").collect::<Vec<&str>>();
    assert_eq!(lines[4], "DNS names:   [\"invalid (len=0)\"]");
}

#[test]
fn cert_info_reports_no_names_for_unreadable_extension() {
    let res = cert_info(&bytes_of(SAN_UNREADABLE)).unwrap();
    let lines = res.trim_end().split("\n").collect::<Vec<&str>>();
    assert_eq!(lines[4], "DNS names:   []");
}

#[test]
fn cert_info_rejects_malformed_der() {
    assert_eq!(cert_info(b""), Err(CertParseError::Malformed));
    assert_eq!(cert_info(b"\x30\x03\x02\x01\x01"), Err(CertParseError::Malformed));
    let der = bytes_of(CA_0_DER);
    assert_eq!(cert_info(&der[..der.len() - 1]), Err(CertParseError::Malformed));
}

#[test]
fn cert_info_rejects_trailing_data() {
    let mut der = bytes_of(CA_0_DER);
    der.push(0);
    assert_eq!(cert_info(&der), Err(CertParseError::TrailingData));
}

#[test]
fn cert_info_rejects_repeated_alternative_name_extension() {
    assert_eq!(cert_info(&bytes_of(SAN_TWICE)), Err(CertParseError::DuplicateSan));
}

#[test]
fn cert_info_is_the_same_on_every_run() {
    let der = bytes_of(SAN_MIXED);
    assert_eq!(cert_info(&der), cert_info(&der));
}

#[test]
fn decode_certificate_extracts_the_fields() {
    assert_eq!(
        decode_certificate(&bytes_of(CA_0_DER)),
        Ok(Certificate {
            subject: "CN=Test CA 1".to_string(),
            issuer: "CN=Test CA 1".to_string(),
            not_before: "Jan 10 13:18:59 2025 +00:00".to_string(),
            not_after: "Jan 10 13:18:59 2026 +00:00".to_string(),
            san: AltNames::Absent,
        })
    );
}

#[test]
fn decode_certificate_keeps_alternative_names_as_found() {
    let cert = decode_certificate(&bytes_of(SAN_MIXED)).unwrap();
    assert_eq!(
        cert.san,
        AltNames::Names(vec![
            AltName::Dns("example.com".to_string()),
            AltName::Dns("www.example.com".to_string()),
            AltName::Ip(vec![192, 0, 2, 1]),
            AltName::Ip(vec![0x20, 0x01, 0x0d, 0xb8, 0, 0, 0, 0, 0, 0, 0, 0, 0, 0, 0, 1]),
            AltName::Ip(vec![1, 2, 3, 4, 5]),
            AltName::Other("RFC822Name(\"admin@example.com\")".to_string()),
            AltName::Other("URI(\"https://example.com/\")".to_string()),
        ])
    );
}

#[test]
fn decode_certificate_tells_unreadable_from_absent() {
    assert_eq!(decode_certificate(&bytes_of(SAN_UNREADABLE)).unwrap().san, AltNames::Unreadable);
    assert_eq!(decode_certificate(&bytes_of(TWO_RDN)).unwrap().san, AltNames::Absent);
}

#[test]
fn accept_certificate_refuses_trailing_data_first() {
    let s = || "x".to_string();
    assert_eq!(
        accept_certificate(1, s(), s(), s(), s(), SanLookup::Repeated),
        Err(CertParseError::TrailingData)
    );
    assert_eq!(
        accept_certificate(0, s(), s(), s(), s(), SanLookup::Repeated),
        Err(CertParseError::DuplicateSan)
    );
    assert_eq!(
        accept_certificate(0, "a".to_string(), "b".to_string(), "c".to_string(), "d".to_string(), SanLookup::Unreadable),
        Ok(Certificate {
            subject: "a".to_string(),
            issuer: "b".to_string(),
            not_before: "c".to_string(),
            not_after: "d".to_string(),
            san: AltNames::Unreadable,
        })
    );
}

#[test]
fn accept_certificate_admits_every_lookup_but_a_repeated_one() {
    let s = || "x".to_string();
    let names = vec![AltName::Dns("a.example".to_string()), AltName::Ip(vec![1, 2, 3, 4])];
    assert_eq!(
        accept_certificate(0, s(), s(), s(), s(), SanLookup::Absent).unwrap().san,
        AltNames::Absent
    );
    assert_eq!(
        accept_certificate(0, s(), s(), s(), s(), SanLookup::Names(names.clone())).unwrap().san,
        AltNames::Names(names)
    );
    assert_eq!(
        accept_certificate(0, s(), s(), s(), s(), SanLookup::Names(vec![])).unwrap().san,
        AltNames::Names(vec![])
    );
    assert!(accept_certificate(0, s(), s(), s(), s(), SanLookup::Repeated).is_err());
}

#[test]
fn repeated_extension_yields_no_certificate_and_no_names() {
    let der = bytes_of(SAN_TWICE);
    assert_eq!(decode_certificate(&der), Err(CertParseError::DuplicateSan));
    assert_eq!(cert_info(&der), Err(CertParseError::DuplicateSan));
    assert_eq!(
        report_sections(&vec![Some(der)]),
        Err(InfoError {
            index: 0,
            reason: CertParseError::DuplicateSan,
            printed: "Certificate 0:\n".to_string(),
        })
    );
}

#[test]
fn extract_dns_names_renders_each_kind_of_entry() {
    let san = AltNames::Names(vec![
        AltName::Dns("a.example".to_string()),
        AltName::Ip(vec![10, 0, 0, 255]),
        AltName::Ip(vec![0, 0, 0, 0, 0, 0, 0, 0, 0, 0, 0, 0, 0, 0, 0, 1]),
        AltName::Ip(vec![1, 2, 3]),
        AltName::Other("URI(\"urn:x\")".to_string()),
        AltName::Dns(String::new()),
    ]);
    assert_eq!(
        extract_dns_names(&plain("CN=a", san)),
        vec!["a.example", "10.0.0.255", "::1", "invalid (len=3)", "URI(\"urn:x\")", ""]
    );
}

#[test]
fn extract_dns_names_is_empty_without_readable_extension() {
    let none: Vec<String> = vec![];
    assert_eq!(extract_dns_names(&plain("CN=a", AltNames::Absent)), none);
    assert_eq!(extract_dns_names(&plain("CN=a", AltNames::Unreadable)), none);
    assert_eq!(extract_dns_names(&plain("CN=a", AltNames::Names(vec![]))), none);
}

#[test]
fn render_name_list_brackets_and_separates() {
    assert_eq!(render_name_list(&vec![]), "[]");
    assert_eq!(render_name_list(&vec!["\"a\"".to_string()]), "[\"a\"]");
    assert_eq!(
        render_name_list(&vec!["x".to_string(), "y".to_string(), "z".to_string()]),
        "[x, y, z]"
    );
}

#[test]
fn render_report_pads_labels_to_one_width() {
    let text = render_report("S", "I", "B", "A", &vec!["\"n\"".to_string()]);
    assert_eq!(
        text,
        "Subject:     S\nIssuer:      I\nNot Before:  B\nNot After:   A\nDNS names:   [\"n\"]\n"
    );
    for line in text.lines() {
        assert!(line[..13].ends_with(' '));
        assert!(!line[13..].starts_with(' '));
    }
}

#[test]
fn report_certificate_quotes_each_name() {
    let cert = plain(
        "CN=q",
        AltNames::Names(vec![
            AltName::Dns("tab\there".to_string()),
            AltName::Ip(vec![127, 0, 0, 1]),
        ]),
    );
    assert_eq!(
        report_certificate(&cert),
        "Subject:     CN=q\n\
         Issuer:      CN=Issuer\n\
         Not Before:  Jan  1 00:00:00 2025 +00:00\n\
         Not After:   Jan  1 00:00:00 2026 +00:00\n\
         DNS names:   [\"tab\\there\", \"127.0.0.1\"]\n"
    );
}

#[test]
fn report_certificate_without_extension_lists_nothing() {
    let text = report_certificate(&plain("CN=none", AltNames::Absent));
    assert_eq!(text.lines().last(), Some("DNS names:   []"));
}

#[test]
fn bundle_info_reports_each_certificate_under_its_index() {
    let text = bundle_info(ca_bundle().as_bytes()).unwrap();
    let mut expected = String::new();
    for (i, pem) in [CA_0, CA_1, CA_2, CA_3, CA_4].iter().enumerate() {
        let mut buf = pem.as_bytes();
        let cert = rustls_pemfile::certs(&mut buf).next().unwrap().unwrap();
        expected.push_str(&format!("Certificate {i}:\n"));
        expected.push_str(&cert_info(cert.as_ref()).unwrap());
    }
    assert_eq!(text, expected);
    assert_eq!(text.lines().count(), 30);
    assert_eq!(text.lines().next(), Some("Certificate 0:"));
    assert_eq!(text.lines().nth(24), Some("Certificate 4:"));
    assert_eq!(text.lines().nth(25), Some("Subject:     CN=Test CA 5"));
}

#[test]
fn bundle_info_is_the_same_on_every_run() {
    let bundle = ca_bundle();
    assert_eq!(bundle_info(bundle.as_bytes()), bundle_info(bundle.as_bytes()));
}

#[test]
fn bundle_info_of_nothing_prints_nothing() {
    assert_eq!(bundle_info(b""), Ok(String::new()));
    assert_eq!(bundle_info(b"no certificates here\n"), Ok(String::new()));
}

#[test]
fn bundle_info_passes_over_other_sections_without_counting_them() {
    let bundle = format!("-----BEGIN PUBLIC KEY-----\nAQID\n-----END PUBLIC KEY-----\n{CA_1}");
    let text = bundle_info(bundle.as_bytes()).unwrap();
    assert_eq!(text.lines().next(), Some("Certificate 0:"));
    assert_eq!(text.lines().nth(1), Some("Subject:     CN=Test CA 2"));
}

#[test]
fn bundle_info_counts_but_skips_a_section_that_cannot_be_extracted() {
    let bundle = format!(
        "{CA_0}-----BEGIN CERTIFICATE-----\n!!!!\n-----END CERTIFICATE-----\n{CA_2}"
    );
    let text = bundle_info(bundle.as_bytes()).unwrap();
    let headings: Vec<&str> = text.lines().filter(|l| l.starts_with("Certificate ")).collect();
    assert_eq!(headings, vec!["Certificate 0:", "Certificate 2:"]);
    assert_eq!(text.lines().count(), 12);
    assert_eq!(text.lines().nth(7), Some("Subject:     CN=Test CA 3"));
}

#[test]
fn bundle_info_stops_at_a_certificate_that_does_not_decode() {
    let bundle = format!("{CA_0}-----BEGIN CERTIFICATE-----\nAQID\n-----END CERTIFICATE-----\n{CA_2}");
    let first = cert_info(&bytes_of(CA_0_DER)).unwrap();
    assert_eq!(
        bundle_info(bundle.as_bytes()),
        Err(InfoError {
            index: 1,
            reason: CertParseError::Malformed,
            printed: format!("Certificate 0:\n{first}Certificate 1:\n"),
        })
    );
}

#[test]
fn report_sections_numbers_sections_from_zero() {
    let sections = vec![None, Some(bytes_of(CA_0_DER)), None, Some(bytes_of(TWO_RDN))];
    let text = report_sections(&sections).unwrap();
    let headings: Vec<&str> = text.lines().filter(|l| l.starts_with("Certificate ")).collect();
    assert_eq!(headings, vec!["Certificate 1:", "Certificate 3:"]);
}

#[test]
fn report_sections_reports_the_first_failure_only() {
    let mut trailing = bytes_of(CA_0_DER);
    trailing.push(7);
    let sections = vec![None, Some(bytes_of(SAN_TWICE)), Some(trailing), Some(vec![])];
    assert_eq!(
        report_sections(&sections),
        Err(InfoError {
            index: 1,
            reason: CertParseError::DuplicateSan,
            printed: "Certificate 1:\n".to_string(),
        })
    );
}

#[test]
fn report_sections_of_nothing_is_empty() {
    assert_eq!(report_sections(&vec![]), Ok(String::new()));
    assert_eq!(report_sections(&vec![None, None]), Ok(String::new()));
}
