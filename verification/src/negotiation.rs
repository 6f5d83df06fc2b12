//! The decisions of connection setup: the encryption level agreed in
//! PRELOGIN, and what the login response's tokens make of the session.
use vstd::prelude::*;
use crate::bulk::Collation;
use crate::config::opt_view;
use crate::error::{owned, Error};
use crate::session::{process_env_change, routing_view, session_after, EnvChange, SessionView};
use crate::text::{chars_of, push_str_chars, string_of};
use vstd::string::StrSliceExecFns;

verus! {

// ---------------------------------------------------------------------------
// Encryption
// ---------------------------------------------------------------------------

/// The ENCRYPTION option of a PRELOGIN packet.
#[derive(Debug, Clone, Copy, PartialEq, Eq, Structural)]
pub enum EncryptionLevel {
    /// Encryption for the login only.
    Off,
    /// Encryption for the whole session.
    On,
    /// No encryption at all.
    NotSupported,
    /// Encryption required by the sender.
    Required,
}

/// The level a client asks for: none when TLS is switched off, the whole
/// session when encryption is wanted, else the login only.
pub open spec fn client_encryption_spec(no_tls: bool, encrypt: bool) -> EncryptionLevel {
    if no_tls {
        EncryptionLevel::NotSupported
    } else if encrypt {
        EncryptionLevel::On
    } else {
        EncryptionLevel::Off
    }
}

/// The level a client offers in PRELOGIN.
pub fn client_encryption(no_tls: bool, encrypt: bool) -> (r: EncryptionLevel)
    ensures
        r == client_encryption_spec(no_tls, encrypt),
{
    if no_tls {
        EncryptionLevel::NotSupported
    } else if encrypt {
        EncryptionLevel::On
    } else {
        EncryptionLevel::Off
    }
}

/// The TDS 7.x agreement: no encryption when neither side supports it,
/// login-only when both ask for that, a refusal when the client wants
/// encryption the server does not offer, and full encryption otherwise.
/// `None` is the refusal.
pub open spec fn negotiated_spec(client: EncryptionLevel, server: EncryptionLevel) -> Option<
    EncryptionLevel,
> {
    match (client, server) {
        (EncryptionLevel::NotSupported, EncryptionLevel::NotSupported) => Some(
            EncryptionLevel::NotSupported,
        ),
        (EncryptionLevel::Off, EncryptionLevel::Off) => Some(EncryptionLevel::Off),
        (EncryptionLevel::On, EncryptionLevel::Off) => None,
        (EncryptionLevel::On, EncryptionLevel::NotSupported) => None,
        _ => Some(EncryptionLevel::On),
    }
}

/// The encryption level agreed from the client's offer and the server's
/// PRELOGIN answer.
pub fn negotiate_encryption(client: EncryptionLevel, server: EncryptionLevel) -> (r: Result<
    EncryptionLevel,
    Error,
>)
    ensures
        match negotiated_spec(client, server) {
            Some(level) => r == Ok::<EncryptionLevel, Error>(level),
            None => r matches Err(Error::Protocol(m)) && m@
                == "Server does not support requested encryption level"@,
        },
{
    match (client, server) {
        (EncryptionLevel::NotSupported, EncryptionLevel::NotSupported) => Ok(
            EncryptionLevel::NotSupported,
        ),
        (EncryptionLevel::Off, EncryptionLevel::Off) => Ok(EncryptionLevel::Off),
        (EncryptionLevel::On, EncryptionLevel::Off) | (EncryptionLevel::On, EncryptionLevel::NotSupported) => Err(
            Error::Protocol(owned("Server does not support requested encryption level")),
        ),
        _ => Ok(EncryptionLevel::On),
    }
}

/// A client that asks for encryption of the whole session gets it or is
/// refused; it never ends up with less.
pub proof fn law_requested_encryption_is_kept(server: EncryptionLevel)
    ensures
        negotiated_spec(EncryptionLevel::On, server) is None || negotiated_spec(EncryptionLevel::On, server)
            == Some(EncryptionLevel::On),
        negotiated_spec(EncryptionLevel::On, server) is None <==> (server == EncryptionLevel::Off || server
            == EncryptionLevel::NotSupported),
{
}

/// Whether a TLS handshake follows PRELOGIN at the agreed level, and
/// whether it protects the login only (the session then goes on in plain
/// text).
pub fn tls_plan(negotiated: EncryptionLevel) -> (r: (bool, bool))
    ensures
        r.0 == (negotiated != EncryptionLevel::NotSupported),
        r.1 == (negotiated == EncryptionLevel::Off),
{
    let use_tls = match negotiated {
        EncryptionLevel::NotSupported => false,
        _ => true,
    };
    let login_only = match negotiated {
        EncryptionLevel::Off => true,
        _ => false,
    };
    (use_tls, login_only)
}

/// The name of a level, as its variant is written.
pub open spec fn level_name(level: EncryptionLevel) -> Seq<char> {
    match level {
        EncryptionLevel::Off => "Off"@,
        EncryptionLevel::On => "On"@,
        EncryptionLevel::NotSupported => "NotSupported"@,
        EncryptionLevel::Required => "Required"@,
    }
}

fn level_name_str(level: EncryptionLevel) -> (r: &'static str)
    ensures
        r@ == level_name(level),
{
    match level {
        EncryptionLevel::Off => "Off",
        EncryptionLevel::On => "On",
        EncryptionLevel::NotSupported => "NotSupported",
        EncryptionLevel::Required => "Required",
    }
}

/// The refusal of a connection without TLS to a server that wants
/// encryption.
pub open spec fn needs_tls_text(level: EncryptionLevel) -> Seq<char> {
    "Server requires encryption (level: "@ + level_name(level)
        + ") but TLS feature is disabled. Either enable the 'tls' feature or configure the server to allow unencrypted connections."@
}

/// For a connection without TLS: the server must answer PRELOGIN with
/// `NotSupported`.
pub fn require_unencrypted(server: EncryptionLevel) -> (r: Result<(), Error>)
    ensures
        r is Ok <==> server == EncryptionLevel::NotSupported,
        r matches Err(e) ==> e matches Error::Config(m) && m@ == needs_tls_text(server),
{
    match server {
        EncryptionLevel::NotSupported => Ok(()),
        _ => {
            let mut msg = chars_of("Server requires encryption (level: ");
            push_str_chars(&mut msg, level_name_str(server));
            push_str_chars(
                &mut msg,
                ") but TLS feature is disabled. Either enable the 'tls' feature or configure the server to allow unencrypted connections.",
            );
            Err(Error::Config(string_of(msg.as_slice())))
        },
    }
}

// ---------------------------------------------------------------------------
// Login response
// ---------------------------------------------------------------------------

/// What the login response has told the client so far.
pub struct LoginState {
    /// The TDS version of the LOGINACK.
    pub server_version: Option<u32>,
    /// The current database.
    pub database: Option<String>,
    /// A redirect: host and port.
    pub routing: Option<(String, u16)>,
    /// The server's default collation.
    pub collation: Option<Collation>,
}

/// The abstract content of a [`LoginState`].
pub ghost struct LoginView {
    pub server_version: Option<u32>,
    pub session: SessionView,
}

impl View for LoginState {
    type V = LoginView;

    open spec fn view(&self) -> LoginView {
        LoginView {
            server_version: self.server_version,
            session: SessionView {
                database: opt_view(self.database),
                routing: routing_view(self.routing),
                collation: self.collation,
            },
        }
    }
}

impl LoginState {
    /// Nothing learnt yet.
    pub fn new() -> (r: Self)
        ensures
            r@ == (LoginView {
                server_version: None,
                session: SessionView { database: None, routing: None, collation: None },
            }),
    {
        LoginState { server_version: None, database: None, routing: None, collation: None }
    }
}

/// An ERROR token: the server's message and where it arose.
pub struct ServerMessage {
    pub number: i32,
    pub state: u8,
    pub class: u8,
    pub message: String,
    pub server: String,
    pub procedure: String,
    pub line: i32,
}

/// A server error as the client reports it: an empty server or procedure
/// name is no name.
pub struct ServerError {
    pub number: i32,
    pub state: u8,
    pub class: u8,
    pub message: String,
    pub server: Option<String>,
    pub procedure: Option<String>,
    pub line: u32,
}

/// Whether `e` reports the server message `m`.
pub open spec fn reports(e: ServerError, m: ServerMessage) -> bool {
    &&& e.number == m.number
    &&& e.state == m.state
    &&& e.class == m.class
    &&& e.message@ == m.message@
    &&& name_or_none(e.server, m.server)
    &&& name_or_none(e.procedure, m.procedure)
    &&& e.line == m.line as u32
}

/// The error the client reports for an ERROR token.
pub fn server_error(m: ServerMessage) -> (r: ServerError)
    ensures
        reports(r, m),
{
    let ServerMessage { number, state, class, message, server, procedure, line } = m;
    ServerError {
        number,
        state,
        class,
        message,
        server: non_empty(server),
        procedure: non_empty(procedure),
        line: line as u32,
    }
}

/// A token of the login response.
pub enum LoginToken {
    /// LOGINACK with the TDS version the server speaks.
    LoginAck { tds_version: u32 },
    /// ENVCHANGE.
    EnvChange(EnvChange),
    /// An SSPI challenge.
    Sspi,
    /// ERROR.
    Error(ServerMessage),
    /// INFO.
    Info,
    /// FEATUREEXTACK.
    FeatureExtAck,
    /// DONE, with its error flag.
    Done { error: bool },
    /// Any other token.
    Other,
}

/// What the client does after a token of the login response.
pub enum LoginStep {
    /// Go on with the next token.
    Continue,
    /// Answer the SSPI challenge, then read the next message.
    AnswerSspi,
    /// Login is complete.
    Finished,
    /// Login failed.
    Failed(Error),
    /// The server refused the login with an error.
    Refused(ServerError),
}

/// Whether `o` names `s`: `None` for an empty name.
pub open spec fn name_or_none(o: Option<String>, s: String) -> bool {
    match o {
        Some(n) => s@.len() > 0 && n@ == s@,
        None => s@.len() == 0,
    }
}

fn non_empty(s: String) -> (r: Option<String>)
    ensures
        name_or_none(r, s),
{
    if s.as_str().unicode_len() == 0 {
        None
    } else {
        Some(s)
    }
}

/// Handles one token of the login response: LOGINACK and ENVCHANGE update
/// the state; an SSPI challenge is answered when a negotiator exists and
/// fails otherwise; ERROR refuses the login; DONE ends it, failed when its
/// error flag is set; other tokens are passed over.
pub fn login_step(state: &mut LoginState, token: LoginToken, has_negotiator: bool) -> (r: LoginStep)
    ensures
        match token {
            LoginToken::LoginAck { tds_version } => r is Continue && final(state)@ == (LoginView {
                server_version: Some(tds_version),
                ..old(state)@
            }),
            LoginToken::EnvChange(e) => r is Continue && final(state)@ == (LoginView {
                session: session_after(e, old(state)@.session),
                ..old(state)@
            }),
            LoginToken::Sspi => final(state)@ == old(state)@ && (if has_negotiator {
                r is AnswerSspi
            } else {
                r matches LoginStep::Failed(Error::Protocol(m)) && m@
                    == "server sent SSPI challenge but no negotiator is configured"@
            }),
            LoginToken::Error(m) => final(state)@ == old(state)@ && (r matches LoginStep::Refused(e)
                && reports(e, m)),
            LoginToken::Done { error } => final(state)@ == old(state)@ && (if error {
                r matches LoginStep::Failed(Error::Protocol(m)) && m@ == "login failed"@
            } else {
                r is Finished
            }),
            _ => r is Continue && final(state)@ == old(state)@,
        },
{
    match token {
        LoginToken::LoginAck { tds_version } => {
            state.server_version = Some(tds_version);
            LoginStep::Continue
        },
        LoginToken::EnvChange(e) => {
            process_env_change(&e, &mut state.database, &mut state.routing, &mut state.collation);
            LoginStep::Continue
        },
        LoginToken::Sspi => {
            if has_negotiator {
                LoginStep::AnswerSspi
            } else {
                LoginStep::Failed(
                    Error::Protocol(owned("server sent SSPI challenge but no negotiator is configured")),
                )
            }
        },
        LoginToken::Error(m) => LoginStep::Refused(server_error(m)),
        LoginToken::Done { error } => {
            if error {
                LoginStep::Failed(Error::Protocol(owned("login failed")))
            } else {
                LoginStep::Finished
            }
        },
        _ => LoginStep::Continue,
    }
}

} // verus!
