//! Inspection and splitting of PEM certificate bundles.
//!
//! A bundle is a file of concatenated PEM blocks, one per certificate. The library
//! splits a bundle into one PEM text per certificate ([`split_bundle`]) and reports the
//! subject, issuer, validity and alternative names of each certificate
//! ([`cert_info`], [`bundle_info`]).
//!
//! Every function here is a pure computation on bytes and strings: a caller reads the
//! bundle, hands its contents over, and writes or prints what comes back.

pub mod bundle;
pub mod cert;
pub mod ip;
pub mod report;
pub mod text;

pub use bundle::{parse_bundle, split_bundle, BundleError, OutputFile, PemBlock};
pub use cert::{
    decode_certificate, extract_dns_names, AltName, AltNames, CertParseError, Certificate,
};
pub use ip::format_ip;
pub use report::{bundle_info, cert_info, InfoError};
