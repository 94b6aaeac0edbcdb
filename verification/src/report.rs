//! The textual report: five labelled lines per certificate, and one such report under
//! a heading for each certificate of a bundle.

use crate::cert::{
    decode_certificate, decoded, dns_names, extract_dns_names, AltNamesView, CertParseError,
    Certificate, CertificateView,
};
use crate::text::{decimal, joined, push_decimal, push_joined, string_views};
use vstd::prelude::*;

verus! {

/// The text that `Debug` of `str` gives for a string: the string in double quotes,
/// with the characters that need it escaped.
pub uninterp spec fn debug_quoted(s: Seq<char>) -> Seq<char>;

/// Formats the string with `Debug` of `str`.
#[verifier::external_body]
fn quote(s: &str) -> (text: String)
    ensures
        text@ == debug_quoted(s@),
{
    format!("{s:?}")
}

/// What `rustls_pemfile::certs` yields for a buffer, item by item: the DER bytes of a
/// certificate section, or `None` for an item that is an error.
pub uninterp spec fn pemfile_certs(input: Seq<u8>) -> Seq<Option<Seq<u8>>>;

/// Each section as a mathematical value, in order.
pub open spec fn section_views(sections: Seq<Option<Vec<u8>>>) -> Seq<Option<Seq<u8>>> {
    sections.map_values(
        |s: Option<Vec<u8>>|
            match s {
                Some(der) => Some(der@),
                None => None,
            },
    )
}

/// Calls `rustls_pemfile::certs` on the buffer and collects what it yields, in order:
/// a certificate as its bytes, an error as `None`.
#[verifier::external_body]
fn certificate_sections(input: &[u8]) -> (sections: Vec<Option<Vec<u8>>>)
    ensures
        section_views(sections@) == pemfile_certs(input@),
{
    let mut reader = input;
    rustls_pemfile::certs(&mut reader).map(|item| item.ok().map(|der| der.to_vec())).collect()
}

/// A list of already quoted names as it is printed: in square brackets, separated by
/// a comma and a space; `[]` when there is none.
pub open spec fn name_list(quoted: Seq<Seq<char>>) -> Seq<char> {
    "["@ + joined(quoted, ", "@) + "]"@
}

/// The five lines of a report, each closed by a line feed.
pub open spec fn report_text(
    subject: Seq<char>,
    issuer: Seq<char>,
    not_before: Seq<char>,
    not_after: Seq<char>,
    quoted_names: Seq<Seq<char>>,
) -> Seq<char> {
    "Subject:     "@ + subject + "\n"@ + "Issuer:      "@ + issuer + "\n"@ + "Not Before:  "@
        + not_before + "\n"@ + "Not After:   "@ + not_after + "\n"@ + "DNS names:   "@ + name_list(
        quoted_names,
    ) + "\n"@
}

/// The names of a certificate as they appear in the list: each in its quoted form.
pub open spec fn quoted_names(san: AltNamesView) -> Seq<Seq<char>> {
    dns_names(san).map_values(|n: Seq<char>| debug_quoted(n))
}

/// The report of a decoded certificate.
pub open spec fn certificate_report(cert: CertificateView) -> Seq<char> {
    report_text(cert.subject, cert.issuer, cert.not_before, cert.not_after, quoted_names(cert.san))
}

/// The report of the certificate in the buffer `der`, or why there is none.
pub open spec fn info_text(der: Seq<u8>) -> Result<Seq<char>, CertParseError> {
    match decoded(der) {
        Ok(cert) => Ok(certificate_report(cert)),
        Err(e) => Err(e),
    }
}

/// The outcome of reporting one certificate as a mathematical value.
pub open spec fn info_view(outcome: Result<String, CertParseError>) -> Result<
    Seq<char>,
    CertParseError,
> {
    match outcome {
        Ok(text) => Ok(text@),
        Err(e) => Err(e),
    }
}

/// The line that precedes the report of certificate `index` of a bundle.
pub open spec fn heading(index: nat) -> Seq<char> {
    "Certificate "@ + decimal(index) + ":\n"@
}

/// Section `index` of a bundle holds a certificate that cannot be decoded.
pub open spec fn fails_at(sections: Seq<Option<Seq<u8>>>, index: int) -> bool {
    &&& 0 <= index < sections.len()
    &&& sections[index] matches Some(der)
    &&& decoded(der) is Err
}

/// The first of the first `n` sections that holds an undecodable certificate.
pub open spec fn first_failure(sections: Seq<Option<Seq<u8>>>, n: nat) -> Option<int>
    decreases n,
{
    if n == 0 {
        None
    } else {
        match first_failure(sections, (n - 1) as nat) {
            Some(index) => Some(index),
            None => if fails_at(sections, n - 1) {
                Some(n - 1)
            } else {
                None
            },
        }
    }
}

/// What one section contributes to the output: nothing where the section is an error,
/// else the heading with the section's index and the report of its certificate.
pub open spec fn section_text(section: Option<Seq<u8>>, index: nat) -> Seq<char> {
    match section {
        None => Seq::empty(),
        Some(der) => heading(index) + match info_text(der) {
            Ok(report) => report,
            Err(_) => Seq::empty(),
        },
    }
}

/// The output for the first `n` sections of a bundle.
pub open spec fn sections_text(sections: Seq<Option<Seq<u8>>>, n: nat) -> Seq<char>
    decreases n,
{
    if n == 0 {
        Seq::empty()
    } else {
        sections_text(sections, (n - 1) as nat) + section_text(sections[n - 1], (n - 1) as nat)
    }
}

/// A bundle could not be reported in full: one of its certificates does not decode.
#[derive(Debug, Clone, PartialEq, Eq)]
pub struct InfoError {
    /// The index of the certificate, counted over all sections of the bundle.
    pub index: usize,
    /// Why the certificate was refused.
    pub reason: CertParseError,
    /// The output up to the failure: the reports before it and its own heading.
    pub printed: String,
}

/// An [`InfoError`] as a mathematical value.
pub struct InfoErrorView {
    pub index: int,
    pub reason: CertParseError,
    pub printed: Seq<char>,
}

impl View for InfoError {
    type V = InfoErrorView;

    open spec fn view(&self) -> InfoErrorView {
        InfoErrorView { index: self.index as int, reason: self.reason, printed: self.printed@ }
    }
}

/// The output for the sections of a bundle: the reports of all certificates, or the
/// first failure with what precedes it.
pub open spec fn sections_report(sections: Seq<Option<Seq<u8>>>) -> Result<
    Seq<char>,
    InfoErrorView,
> {
    match first_failure(sections, sections.len()) {
        None => Ok(sections_text(sections, sections.len())),
        Some(index) => Err(
            InfoErrorView {
                index,
                reason: decoded(sections[index]->0)->Err_0,
                printed: sections_text(sections, index as nat) + heading(index as nat),
            },
        ),
    }
}

/// The output of `info` for the bundle `input`.
pub open spec fn bundle_report(input: Seq<u8>) -> Result<Seq<char>, InfoErrorView> {
    sections_report(pemfile_certs(input))
}

/// An outcome of `info` as a mathematical value.
pub open spec fn outcome_view(outcome: Result<String, InfoError>) -> Result<
    Seq<char>,
    InfoErrorView,
> {
    match outcome {
        Ok(text) => Ok(text@),
        Err(e) => Err(e@),
    }
}

/// A failure among the first sections stays the first failure however many sections
/// follow.
proof fn lemma_first_failure_found(sections: Seq<Option<Seq<u8>>>, index: nat, n: nat)
    requires
        index < n <= sections.len(),
        first_failure(sections, index) is None,
        fails_at(sections, index as int),
    ensures
        first_failure(sections, n) == Some(index as int),
    decreases n,
{
    if n > index + 1 {
        lemma_first_failure_found(sections, index, (n - 1) as nat);
    }
}

/// Renders a list of names that are already quoted: `[a, b]`, or `[]` when empty.
pub fn render_name_list(quoted: &Vec<String>) -> (text: String)
    ensures
        text@ == name_list(string_views(quoted@)),
{
    let mut text = String::new();
    text.append("[");
    push_joined(&mut text, quoted, ", ");
    text.append("]");
    text
}

/// Renders the five lines of a report in their fixed order, each label padded to the
/// same width and each line closed by a line feed.
pub fn render_report(
    subject: &str,
    issuer: &str,
    not_before: &str,
    not_after: &str,
    quoted_names: &Vec<String>,
) -> (text: String)
    ensures
        text@ == report_text(
            subject@,
            issuer@,
            not_before@,
            not_after@,
            string_views(quoted_names@),
        ),
{
    let mut text = String::new();
    text.append("Subject:     ");
    text.append(subject);
    text.append("\n");
    text.append("Issuer:      ");
    text.append(issuer);
    text.append("\n");
    text.append("Not Before:  ");
    text.append(not_before);
    text.append("\n");
    text.append("Not After:   ");
    text.append(not_after);
    text.append("\n");
    text.append("DNS names:   ");
    let list = render_name_list(quoted_names);
    text.append(list.as_str());
    text.append("\n");
    text
}

/// Renders the report of a decoded certificate.
pub fn report_certificate(cert: &Certificate) -> (text: String)
    ensures
        text@ == certificate_report(cert@),
{
    let names = extract_dns_names(cert);
    let mut quoted: Vec<String> = Vec::new();
    let mut i: usize = 0;
    while i < names.len()
        invariant
            i <= names.len(),
            quoted.len() == i,
            forall|k: int| 0 <= k < i ==> (#[trigger] quoted[k])@ == debug_quoted(names[k]@),
        decreases names.len() - i,
    {
        quoted.push(quote(names[i].as_str()));
        i += 1;
    }
    assert(string_views(quoted@) =~= quoted_names(cert@.san));
    render_report(
        cert.subject.as_str(),
        cert.issuer.as_str(),
        cert.not_before.as_str(),
        cert.not_after.as_str(),
        &quoted,
    )
}

/// Decodes one DER-encoded certificate and renders its report: the lines `Subject:`,
/// `Issuer:`, `Not Before:`, `Not After:` and `DNS names:`, in this order.
pub fn cert_info(der: &[u8]) -> (r: Result<String, CertParseError>)
    ensures
        info_view(r) == info_text(der@),
{
    match decode_certificate(der) {
        Ok(cert) => Ok(report_certificate(&cert)),
        Err(e) => Err(e),
    }
}

/// Renders the output of `info` for the sections read from a bundle, in order. A
/// section that is `None` takes up its index and prints nothing. Each certificate is
/// printed as the heading `Certificate <index>:` and its report. The first certificate
/// that does not decode ends the output with an error.
pub fn report_sections(sections: &Vec<Option<Vec<u8>>>) -> (r: Result<String, InfoError>)
    ensures
        outcome_view(r) == sections_report(section_views(sections@)),
{
    let ghost views = section_views(sections@);
    let mut out = String::new();
    let mut i: usize = 0;
    while i < sections.len()
        invariant
            i <= sections.len(),
            views == section_views(sections@),
            first_failure(views, i as nat) is None,
            out@ == sections_text(views, i as nat),
        decreases sections.len() - i,
    {
        assert(views[i as int] == match sections[i as int] {
            Some(der) => Some(der@),
            None => None,
        });
        match &sections[i] {
            None => {},
            Some(der) => {
                out.append("Certificate ");
                push_decimal(&mut out, i);
                out.append(":\n");
                assert(out@ =~= sections_text(views, i as nat) + heading(i as nat));
                match cert_info(der.as_slice()) {
                    Ok(report) => {
                        out.append(report.as_str());
                        assert(out@ =~= sections_text(views, i as nat) + section_text(
                            views[i as int],
                            i as nat,
                        ));
                    },
                    Err(reason) => {
                        proof {
                            lemma_first_failure_found(views, i as nat, views.len());
                        }
                        return Err(InfoError { index: i, reason, printed: out });
                    },
                }
            },
        }
        i += 1;
    }
    Ok(out)
}

/// Renders the output of `info` for a bundle: for each certificate section, the heading
/// `Certificate <index>:` followed by the certificate's report. Sections that cannot be
/// extracted are passed over but counted; a certificate that is extracted but does not
/// decode ends the output with an error.
pub fn bundle_info(bundle: &[u8]) -> (r: Result<String, InfoError>)
    ensures
        outcome_view(r) == bundle_report(bundle@),
{
    report_sections(&certificate_sections(bundle))
}

/// A certificate without a subject alternative name extension reports an empty list
/// of names: the last line of its report is `DNS names:   []`.
pub proof fn lemma_absent_san_reports_no_names(cert: CertificateView)
    requires
        cert.san is Absent,
    ensures
        certificate_report(cert) == "Subject:     "@ + cert.subject + "\n"@ + "Issuer:      "@
            + cert.issuer + "\n"@ + "Not Before:  "@ + cert.not_before + "\n"@ + "Not After:   "@
            + cert.not_after + "\n"@ + "DNS names:   []\n"@,
{
    reveal_strlit("[");
    reveal_strlit("]");
    reveal_strlit("\n");
    reveal_strlit("DNS names:   ");
    reveal_strlit("DNS names:   []\n");
}

/// The output of `info` is a function of the bundle's contents alone: two runs on the
/// same contents print the same.
pub proof fn lemma_info_repeatable(
    bundle: Seq<u8>,
    first: Result<String, InfoError>,
    second: Result<String, InfoError>,
)
    requires
        outcome_view(first) == bundle_report(bundle),
        outcome_view(second) == bundle_report(bundle),
    ensures
        outcome_view(first) == outcome_view(second),
{
}

} // verus!
