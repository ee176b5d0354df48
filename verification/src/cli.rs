//! The commands and arguments the tool accepts, as plain data.

use vstd::prelude::*;

verus! {

/// A parsed command line.
pub struct Cli {
    pub command: Command,
}

/// Connection settings shared by every command that talks to the admin API
/// over mutual TLS (all but `enroll`).
#[derive(Clone)]
pub struct AdminConnection {
    /// Base URL of the admin API.
    pub server: String,
    /// Path of the admin device's client certificate (PEM).
    pub cert: String,
    /// Path of the admin device's private key (PEM).
    pub key: String,
    /// Path of the server's CA certificate (PEM).
    pub ca: String,
    /// Optional curl-style `HOST:PORT:ADDRESS` resolution override.
    pub resolve: Option<String>,
}

/// The top-level commands.
pub enum Command {
    /// Enroll a new device.
    Enroll(EnrollArgs),
    /// Manage enrollment invite tokens.
    Token { command: TokenCommand },
    /// Manage password accounts.
    User { command: UserCommand },
    /// Manage mission roles.
    Mission { command: MissionCommand },
}

/// Arguments of `enroll`.
pub struct EnrollArgs {
    /// Base URL of the unauthenticated enrollment endpoint.
    pub enrollment_url: String,
    /// Common Name to enroll as.
    pub cn: String,
    /// Enrollment invite token, once enrollment is locked down.
    pub token: Option<String>,
    /// Where to write the signed certificate.
    pub out_cert: String,
    /// Where to write the private key.
    pub out_key: String,
}

/// `token` subcommands.
pub enum TokenCommand {
    /// Mint a new token, optionally shown as a QR code and/or a handout PDF.
    Mint {
        conn: AdminConnection,
        expires_in_secs: Option<i64>,
        note: Option<String>,
        qr: bool,
        enrollment_url: Option<String>,
        pdf: Option<String>,
    },
    /// List all tokens.
    List { conn: AdminConnection },
    /// Revoke a token.
    Revoke { conn: AdminConnection, token: String },
    /// Write a handout PDF for an existing token without contacting the server.
    Pdf { token: String, enrollment_url: String, note: Option<String>, out: String },
}

/// `user` subcommands.
pub enum UserCommand {
    /// Mint a password account (server-generated password when none given).
    Mint { conn: AdminConnection, username: String, password: Option<String> },
    /// List all accounts.
    List { conn: AdminConnection },
    /// Revoke an account.
    Revoke { conn: AdminConnection, username: String },
}

/// A mission role that can be assigned.
#[derive(Clone, Copy, PartialEq, Eq, Structural)]
pub enum RoleArg {
    Owner,
    Subscriber,
}

/// The wire name of a role.
pub open spec fn role_name(role: RoleArg) -> Seq<char> {
    match role {
        RoleArg::Owner => "owner"@,
        RoleArg::Subscriber => "subscriber"@,
    }
}

impl RoleArg {
    /// The role's wire name, as it is sent and shown.
    pub fn to_string(&self) -> (r: String)
        ensures
            r@ == role_name(*self),
    {
        match self {
            RoleArg::Owner => crate::text::owned("owner"),
            RoleArg::Subscriber => crate::text::owned("subscriber"),
        }
    }
}

/// `mission` subcommands.
pub enum MissionCommand {
    /// List all missions.
    List { conn: AdminConnection },
    /// Show one mission with its role assignments.
    Get { conn: AdminConnection, name: String },
    /// Assign or change an identity's role on a mission.
    SetRole { conn: AdminConnection, mission: String, uid: String, role: RoleArg },
    /// Revoke an identity's role on a mission.
    RevokeRole { conn: AdminConnection, mission: String, uid: String },
}

} // verus!
