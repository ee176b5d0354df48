//! The library's own error type and the text each error is reported with.

use vstd::prelude::*;
use vstd::string::StringExecFns;

use crate::text::owned;

verus! {

/// Everything the tool can refuse or fail on outside of transport errors.
pub enum AdminError {
    /// `--resolve` did not have the form `HOST:PORT:ADDRESS`.
    MalformedResolve { spec: String },
    /// The `ADDRESS` and `PORT` of `--resolve` do not form a socket address.
    InvalidResolveAddress { address: String, port: String },
    /// The admin API answered with a non-success status.
    ServerStatus { status: String, message: String },
    /// The enrollment endpoint answered with a non-success status.
    EnrollmentRejected { status: String, body: String },
    /// A mint reply was not JSON.
    MintReplyUnparsable,
    /// A token mint reply had no string `token` member.
    TokenFieldMissing,
    /// A user mint reply had no string `password` member.
    PasswordFieldMissing,
    /// The enrollment reply was not JSON.
    EnrollmentReplyUnparsable,
    /// The enrollment reply had no string `signedCert` member.
    SignedCertMissing,
    /// Key generation failed.
    KeyGeneration,
    /// The CSR parameters could not be built.
    CsrParams,
    /// The CSR could not be signed and serialized.
    CsrSerialization,
    /// The CSR could not be PEM-encoded.
    CsrEncoding,
    /// The payload does not fit in any QR code.
    QrEncoding,
    /// `--pdf` was given without an enrollment URL.
    HandoutNeedsUrl,
}

/// The text an error is reported with.
pub open spec fn error_text(e: AdminError) -> Seq<char> {
    match e {
        AdminError::MalformedResolve { spec } =>
            "--resolve must be in the form HOST:PORT:ADDRESS, got '"@ + spec@ + "'"@,
        AdminError::InvalidResolveAddress { address, port } =>
            "'"@ + address@ + ":"@ + port@ + "' is not a valid address:port"@,
        AdminError::ServerStatus { status, message } =>
            "server returned "@ + status@ + ": "@ + message@,
        AdminError::EnrollmentRejected { status, body } =>
            "enrollment failed ("@ + status@ + "): "@ + body@,
        AdminError::MintReplyUnparsable => "parsing mint response"@,
        AdminError::TokenFieldMissing => "mint response had no 'token' field"@,
        AdminError::PasswordFieldMissing => "mint response had no 'password' field"@,
        AdminError::EnrollmentReplyUnparsable => "parsing enrollment response"@,
        AdminError::SignedCertMissing => "enrollment response had no 'signedCert' field"@,
        AdminError::KeyGeneration => "generating a keypair"@,
        AdminError::CsrParams => "building CSR params"@,
        AdminError::CsrSerialization => "serializing CSR"@,
        AdminError::CsrEncoding => "PEM-encoding CSR"@,
        AdminError::QrEncoding => "encoding QR code"@,
        AdminError::HandoutNeedsUrl =>
            "--pdf requires --enrollment-url so the handout has a real URL to show"@,
    }
}

impl AdminError {
    /// The text this error is reported with.
    pub fn message(&self) -> (r: String)
        ensures
            r@ == error_text(*self),
    {
        match self {
            AdminError::MalformedResolve { spec } => {
                let mut r = owned("--resolve must be in the form HOST:PORT:ADDRESS, got '");
                r.append(spec.as_str());
                r.append("'");
                r
            },
            AdminError::InvalidResolveAddress { address, port } => {
                let mut r = owned("'");
                r.append(address.as_str());
                r.append(":");
                r.append(port.as_str());
                r.append("' is not a valid address:port");
                r
            },
            AdminError::ServerStatus { status, message } => {
                let mut r = owned("server returned ");
                r.append(status.as_str());
                r.append(": ");
                r.append(message.as_str());
                r
            },
            AdminError::EnrollmentRejected { status, body } => {
                let mut r = owned("enrollment failed (");
                r.append(status.as_str());
                r.append("): ");
                r.append(body.as_str());
                r
            },
            AdminError::MintReplyUnparsable => owned("parsing mint response"),
            AdminError::TokenFieldMissing => owned("mint response had no 'token' field"),
            AdminError::PasswordFieldMissing => owned("mint response had no 'password' field"),
            AdminError::EnrollmentReplyUnparsable => owned("parsing enrollment response"),
            AdminError::SignedCertMissing => owned("enrollment response had no 'signedCert' field"),
            AdminError::KeyGeneration => owned("generating a keypair"),
            AdminError::CsrParams => owned("building CSR params"),
            AdminError::CsrSerialization => owned("serializing CSR"),
            AdminError::CsrEncoding => owned("PEM-encoding CSR"),
            AdminError::QrEncoding => owned("encoding QR code"),
            AdminError::HandoutNeedsUrl => owned(
                "--pdf requires --enrollment-url so the handout has a real URL to show",
            ),
        }
    }
}

} // verus!
