//! Decoding of one DER-encoded X.509 certificate into the fields that are reported:
//! subject, issuer, validity, and the entries of the subject alternative name extension.
//!
//! The DER decoder is `x509-parser`. What it returns is named here by uninterpreted
//! functions of the certificate's bytes; the rules that decide which certificates are
//! accepted and how an entry is rendered are stated and proved over those names.

use crate::ip::{dotted_decimal, format_ip, ip_text, ipv6_text};
use crate::text::{decimal, string_views};
use oid_registry::OID_X509_EXT_SUBJECT_ALT_NAME;
use vstd::prelude::*;
use x509_parser::certificate::X509Certificate;
use x509_parser::extensions::{GeneralName, ParsedExtension};
use x509_parser::prelude::FromDer;

verus! {

/// One entry of a subject alternative name extension.
#[derive(Debug, Clone, PartialEq, Eq)]
pub enum AltName {
    /// A DNS name, as written in the certificate.
    Dns(String),
    /// An IP address, as the octets found in the certificate.
    Ip(Vec<u8>),
    /// Any other kind of general name, in the decoder's debug form.
    Other(String),
}

/// An [`AltName`] as a mathematical value.
pub enum AltNameView {
    Dns(Seq<char>),
    Ip(Seq<u8>),
    Other(Seq<char>),
}

impl View for AltName {
    type V = AltNameView;

    open spec fn view(&self) -> AltNameView {
        match self {
            AltName::Dns(name) => AltNameView::Dns(name@),
            AltName::Ip(octets) => AltNameView::Ip(octets@),
            AltName::Other(debug) => AltNameView::Other(debug@),
        }
    }
}

/// What looking up the subject alternative name extension of a certificate found.
/// A lookup is what the decoder hands over; a [`Certificate`] holds its outcome as
/// [`AltNames`], which has no place for a repeated extension.
#[derive(Debug, Clone, PartialEq, Eq)]
pub enum SanLookup {
    /// The certificate has no such extension.
    Absent,
    /// The certificate has the extension more than once.
    Repeated,
    /// The certificate has the extension once, but its content is not a list of
    /// general names.
    Unreadable,
    /// The certificate has the extension once, with these entries in this order.
    Names(Vec<AltName>),
}

/// A [`SanLookup`] as a mathematical value.
pub enum SanLookupView {
    Absent,
    Repeated,
    Unreadable,
    Names(Seq<AltNameView>),
}

/// Each entry as a mathematical value, in order.
pub open spec fn alt_name_views(names: Seq<AltName>) -> Seq<AltNameView> {
    names.map_values(|n: AltName| n@)
}

impl View for SanLookup {
    type V = SanLookupView;

    open spec fn view(&self) -> SanLookupView {
        match self {
            SanLookup::Absent => SanLookupView::Absent,
            SanLookup::Repeated => SanLookupView::Repeated,
            SanLookup::Unreadable => SanLookupView::Unreadable,
            SanLookup::Names(names) => SanLookupView::Names(alt_name_views(names@)),
        }
    }
}

/// The subject alternative names of an accepted certificate. A certificate that
/// repeats the extension is refused, so there is no value for that.
#[derive(Debug, Clone, PartialEq, Eq)]
pub enum AltNames {
    /// The certificate has no subject alternative name extension.
    Absent,
    /// The certificate has the extension once, but its content is not a list of
    /// general names.
    Unreadable,
    /// The certificate has the extension once, with these entries in this order.
    Names(Vec<AltName>),
}

/// An [`AltNames`] as a mathematical value.
pub enum AltNamesView {
    Absent,
    Unreadable,
    Names(Seq<AltNameView>),
}

impl View for AltNames {
    type V = AltNamesView;

    open spec fn view(&self) -> AltNamesView {
        match self {
            AltNames::Absent => AltNamesView::Absent,
            AltNames::Unreadable => AltNamesView::Unreadable,
            AltNames::Names(names) => AltNamesView::Names(alt_name_views(names@)),
        }
    }
}

/// The reported fields of a decoded certificate.
#[derive(Debug, Clone, PartialEq, Eq)]
pub struct Certificate {
    /// The subject's distinguished name as text, such as `CN=Test CA 1`.
    pub subject: String,
    /// The issuer's distinguished name as text.
    pub issuer: String,
    /// Start of the validity period, such as `Jan 10 13:18:59 2025 +00:00`.
    pub not_before: String,
    /// End of the validity period, in the same form.
    pub not_after: String,
    /// The subject alternative names.
    pub san: AltNames,
}

/// A [`Certificate`] as a mathematical value.
pub struct CertificateView {
    pub subject: Seq<char>,
    pub issuer: Seq<char>,
    pub not_before: Seq<char>,
    pub not_after: Seq<char>,
    pub san: AltNamesView,
}

impl View for Certificate {
    type V = CertificateView;

    open spec fn view(&self) -> CertificateView {
        CertificateView {
            subject: self.subject@,
            issuer: self.issuer@,
            not_before: self.not_before@,
            not_after: self.not_after@,
            san: self.san@,
        }
    }
}

/// Why a buffer was not accepted as a certificate.
#[derive(Debug, Clone, Copy, PartialEq, Eq)]
pub enum CertParseError {
    /// The buffer does not start with a well-formed DER certificate.
    Malformed,
    /// Bytes follow the certificate.
    TrailingData,
    /// The subject alternative name extension occurs more than once.
    DuplicateSan,
}

/// `x509_parser::certificate::X509Certificate`, a decoded certificate that borrows from
/// the buffer it was decoded from. It is carried from the decoder to the accessors
/// below as an opaque value, and nothing in between can change it.
#[verifier::external_type_specification]
#[verifier::external_body]
pub struct ExX509Certificate<'a>(X509Certificate<'a>);

/// Whether `X509Certificate::from_der` accepts a buffer, and if so how many of its
/// bytes, counted from the start, make up the certificate.
pub uninterp spec fn x509_extent(der: Seq<u8>) -> Option<nat>;

/// The bytes that a certificate was decoded from (its `as_raw`), for a value that is
/// as `X509Certificate::from_der` returned it; `None` for any other value of the type.
pub uninterp spec fn x509_source(cert: X509Certificate<'_>) -> Option<Seq<u8>>;

/// The text that `x509-parser` displays for the subject of the certificate with these
/// bytes.
pub uninterp spec fn x509_subject(raw: Seq<u8>) -> Seq<char>;

/// The text that `x509-parser` displays for the issuer of the certificate with these
/// bytes.
pub uninterp spec fn x509_issuer(raw: Seq<u8>) -> Seq<char>;

/// The text that `x509-parser` displays for the start of validity of the certificate
/// with these bytes.
pub uninterp spec fn x509_not_before(raw: Seq<u8>) -> Seq<char>;

/// The text that `x509-parser` displays for the end of validity of the certificate
/// with these bytes.
pub uninterp spec fn x509_not_after(raw: Seq<u8>) -> Seq<char>;

/// What `x509-parser` finds when asked for the one subject alternative name extension
/// of the certificate with these bytes.
pub uninterp spec fn x509_san(raw: Seq<u8>) -> SanLookupView;

/// Calls `X509Certificate::from_der`. On success the decoder returns the certificate
/// and the input that follows it; the certificate's raw bytes are the input before
/// that rest, and the value handed on is the decoder's own. Any decoder error becomes
/// `None`.
#[verifier::external_body]
fn parse_der<'a>(der: &'a [u8]) -> (parsed: Option<(X509Certificate<'a>, usize)>)
    ensures
        match parsed {
            Some((cert, rest)) => rest <= der.len() && x509_extent(der@) == Some(
                (der.len() - rest) as nat,
            ) && x509_source(cert) == Some(der@.take(der.len() - rest)),
            None => x509_extent(der@) is None,
        },
{
    X509Certificate::from_der(der).ok().map(|(rest, cert)| (cert, rest.len()))
}

/// Formats the certificate's `subject` with its `Display`. Asked only of a certificate as
/// the decoder returned it.
#[verifier::external_body]
fn subject_text(cert: &X509Certificate<'_>) -> (text: String)
    requires
        x509_source(*cert) is Some,
    ensures
        text@ == x509_subject(x509_source(*cert)->0),
{
    cert.subject.to_string()
}

/// Formats the certificate's `issuer` with its `Display`. Asked only of a certificate as
/// the decoder returned it.
#[verifier::external_body]
fn issuer_text(cert: &X509Certificate<'_>) -> (text: String)
    requires
        x509_source(*cert) is Some,
    ensures
        text@ == x509_issuer(x509_source(*cert)->0),
{
    cert.issuer.to_string()
}

/// Formats the certificate's `validity.not_before` with its `Display`. Asked only of a certificate as
/// the decoder returned it.
#[verifier::external_body]
fn not_before_text(cert: &X509Certificate<'_>) -> (text: String)
    requires
        x509_source(*cert) is Some,
    ensures
        text@ == x509_not_before(x509_source(*cert)->0),
{
    cert.validity.not_before.to_string()
}

/// Formats the certificate's `validity.not_after` with its `Display`. Asked only of a certificate as
/// the decoder returned it.
#[verifier::external_body]
fn not_after_text(cert: &X509Certificate<'_>) -> (text: String)
    requires
        x509_source(*cert) is Some,
    ensures
        text@ == x509_not_after(x509_source(*cert)->0),
{
    cert.validity.not_after.to_string()
}

/// Calls `get_extension_unique` for the subject alternative name identifier, and
/// `parsed_extension` on the extension found. An error of the first (the extension is
/// there twice or more) is `Repeated`, no extension `Absent`, parsed content of any
/// other shape `Unreadable`. The general names are handed on in their order: a DNS
/// name as its string, an IP address as its bytes, any other as its `Debug` text.
/// Asked only of a certificate as the decoder returned it.
#[verifier::external_body]
fn san_lookup(cert: &X509Certificate<'_>) -> (san: SanLookup)
    requires
        x509_source(*cert) is Some,
    ensures
        san@ == x509_san(x509_source(*cert)->0),
{
    match cert.get_extension_unique(&OID_X509_EXT_SUBJECT_ALT_NAME) {
        Err(_) => SanLookup::Repeated,
        Ok(None) => SanLookup::Absent,
        Ok(Some(ext)) => match ext.parsed_extension() {
            ParsedExtension::SubjectAlternativeName(san) => SanLookup::Names(
                san.general_names.iter().map(|name| match name {
                    GeneralName::DNSName(dns) => AltName::Dns(dns.to_string()),
                    GeneralName::IPAddress(octets) => AltName::Ip(octets.to_vec()),
                    other => AltName::Other(format!("{other:?}")),
                }).collect(),
            ),
            _ => SanLookup::Unreadable,
        },
    }
}

/// The text reported for one entry: a DNS name verbatim, an IP address rendered from
/// its octets, any other entry in its debug form.
pub open spec fn alt_name_text(name: AltNameView) -> Seq<char> {
    match name {
        AltNameView::Dns(dns) => dns,
        AltNameView::Ip(octets) => ip_text(octets),
        AltNameView::Other(debug) => debug,
    }
}

/// The names reported for a certificate: one text per entry of its subject alternative
/// name extension, in the order of the entries; none where the extension is absent or
/// unreadable.
pub open spec fn dns_names(san: AltNamesView) -> Seq<Seq<char>> {
    match san {
        AltNamesView::Names(names) => names.map_values(|n: AltNameView| alt_name_text(n)),
        AltNamesView::Absent => Seq::empty(),
        AltNamesView::Unreadable => Seq::empty(),
    }
}

/// The alternative names that a lookup admits: a repeated extension admits none, not
/// even an empty list.
pub open spec fn admitted_names(lookup: SanLookupView) -> Option<AltNamesView> {
    match lookup {
        SanLookupView::Absent => Some(AltNamesView::Absent),
        SanLookupView::Unreadable => Some(AltNamesView::Unreadable),
        SanLookupView::Names(names) => Some(AltNamesView::Names(names)),
        SanLookupView::Repeated => None,
    }
}

/// An IP address among the alternative names is never an error: four octets are
/// reported as an IPv4 address in dotted decimal, sixteen as an IPv6 address in
/// colon-separated hexadecimal, and any other number as `invalid (len=N)`.
pub proof fn lemma_ip_entry_text(san: AltNamesView, i: int)
    requires
        san matches AltNamesView::Names(names) && 0 <= i < names.len() && names[i] is Ip,
    ensures
        dns_names(san).len() == san->Names_0.len(),
        ({
            let octets = san->Names_0[i]->Ip_0;
            dns_names(san)[i] == if octets.len() == 4 {
                dotted_decimal(octets)
            } else if octets.len() == 16 {
                ipv6_text(octets)
            } else {
                "invalid (len="@ + decimal(octets.len()) + ")"@
            }
        }),
{
}

/// What a certificate is decoded to, given what the decoder made of it: bytes after
/// the certificate and a repeated subject alternative name extension are refused.
pub open spec fn accepted_certificate(
    trailing: nat,
    subject: Seq<char>,
    issuer: Seq<char>,
    not_before: Seq<char>,
    not_after: Seq<char>,
    san: SanLookupView,
) -> Result<CertificateView, CertParseError> {
    if trailing != 0 {
        Err(CertParseError::TrailingData)
    } else {
        match admitted_names(san) {
            None => Err(CertParseError::DuplicateSan),
            Some(names) => Ok(
                CertificateView { subject, issuer, not_before, not_after, san: names },
            ),
        }
    }
}

/// A certificate that repeats the subject alternative name extension is never
/// decoded: the buffer is refused, and no list of names comes of it.
pub proof fn lemma_repeated_san_is_refused(der: Seq<u8>)
    requires
        x509_extent(der) matches Some(extent) && x509_san(der.take(extent as int)) is Repeated,
    ensures
        decoded(der) is Err,
        x509_extent(der)->0 == der.len() ==> decoded(der) == Err::<CertificateView, _>(
            CertParseError::DuplicateSan,
        ),
{
}

/// What the buffer `der` decodes to.
pub open spec fn decoded(der: Seq<u8>) -> Result<CertificateView, CertParseError> {
    match x509_extent(der) {
        None => Err(CertParseError::Malformed),
        Some(extent) => {
            let raw = der.take(extent as int);
            accepted_certificate(
                (der.len() - extent) as nat,
                x509_subject(raw),
                x509_issuer(raw),
                x509_not_before(raw),
                x509_not_after(raw),
                x509_san(raw),
            )
        },
    }
}

/// The outcome of decoding as a mathematical value.
pub open spec fn decoding_view(outcome: Result<Certificate, CertParseError>) -> Result<
    CertificateView,
    CertParseError,
> {
    match outcome {
        Ok(cert) => Ok(cert@),
        Err(e) => Err(e),
    }
}

/// Lists the names to report for a certificate, from its subject alternative name
/// extension: each DNS name verbatim, each IP address as text (see [`format_ip`]),
/// each other entry in its debug form, in the order of the entries. A certificate
/// without the extension, or with one that cannot be read, has no names.
pub fn extract_dns_names(cert: &Certificate) -> (names: Vec<String>)
    ensures
        string_views(names@) == dns_names(cert@.san),
{
    let mut names: Vec<String> = Vec::new();
    match &cert.san {
        AltNames::Names(entries) => {
            let mut i: usize = 0;
            while i < entries.len()
                invariant
                    i <= entries.len(),
                    names.len() == i,
                    forall|k: int| 0 <= k < i ==> (#[trigger] names[k])@ == alt_name_text(entries[k]@),
                decreases entries.len() - i,
            {
                let text = match &entries[i] {
                    AltName::Dns(dns) => dns.clone(),
                    AltName::Ip(octets) => format_ip(octets.as_slice()),
                    AltName::Other(debug) => debug.clone(),
                };
                names.push(text);
                i += 1;
            }
        },
        AltNames::Absent => {},
        AltNames::Unreadable => {},
    }
    names
}

/// Accepts or refuses what the decoder returned for a buffer: `trailing` is the number
/// of bytes that follow the certificate. A certificate followed by anything, or one
/// that repeats the subject alternative name extension, is refused.
pub fn accept_certificate(
    trailing: usize,
    subject: String,
    issuer: String,
    not_before: String,
    not_after: String,
    san: SanLookup,
) -> (r: Result<Certificate, CertParseError>)
    ensures
        decoding_view(r) == accepted_certificate(
            trailing as nat,
            subject@,
            issuer@,
            not_before@,
            not_after@,
            san@,
        ),
{
    if trailing != 0 {
        return Err(CertParseError::TrailingData);
    }
    let san = match san {
        SanLookup::Repeated => {
            return Err(CertParseError::DuplicateSan);
        },
        SanLookup::Absent => AltNames::Absent,
        SanLookup::Unreadable => AltNames::Unreadable,
        SanLookup::Names(names) => AltNames::Names(names),
    };
    Ok(Certificate { subject, issuer, not_before, not_after, san })
}

/// Decodes one DER-encoded certificate. The buffer must hold exactly one well-formed
/// certificate, with nothing after it, and with at most one subject alternative name
/// extension.
pub fn decode_certificate(der: &[u8]) -> (r: Result<Certificate, CertParseError>)
    ensures
        decoding_view(r) == decoded(der@),
{
    match parse_der(der) {
        None => Err(CertParseError::Malformed),
        Some((cert, rest)) => accept_certificate(
            rest,
            subject_text(&cert),
            issuer_text(&cert),
            not_before_text(&cert),
            not_after_text(&cert),
            san_lookup(&cert),
        ),
    }
}

} // verus!
