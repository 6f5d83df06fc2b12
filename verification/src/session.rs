//! Session state a client keeps from the server's ENVCHANGE tokens, and the
//! statements and checks around transactions and logins.
use vstd::prelude::*;
use crate::bulk::Collation;
use crate::config::{opt_view, Config, Credentials};
use crate::error::{owned, Error};
use crate::text::{chars_of, push_str_chars, string_of};
use crate::validation::{is_identifier, validate_identifier};
use crate::wire::{le8, u64_of};

verus! {

/// An ENVCHANGE token as the client reads it.
#[derive(Debug, Clone, PartialEq, Eq)]
pub enum EnvChange {
    /// The current database changed.
    Database(String),
    /// The server asks the client to reconnect elsewhere.
    Routing { host: String, port: u16 },
    /// The server's default collation (its wire bytes).
    SqlCollation(Vec<u8>),
    /// A transaction began; the value holds its descriptor.
    BeginTransaction(Vec<u8>),
    /// The transaction was committed.
    CommitTransaction,
    /// The transaction was rolled back.
    RollbackTransaction,
    /// Another change (language, packet size, ...), with its new value.
    Other(String),
}

/// The transaction descriptor after an ENVCHANGE: the first eight bytes of a
/// BeginTransaction value (little endian), zero after a commit or rollback;
/// anything else leaves it.
pub open spec fn descriptor_after(env: EnvChange, descriptor: u64) -> u64 {
    match env {
        EnvChange::BeginTransaction(data) => if data@.len() >= 8 {
            u64_of(data@)
        } else {
            descriptor
        },
        EnvChange::CommitTransaction => 0,
        EnvChange::RollbackTransaction => 0,
        _ => descriptor,
    }
}

/// Tracks the transaction descriptor through BEGIN, COMMIT and ROLLBACK
/// seen as ENVCHANGE tokens (also when they come from raw SQL).
pub fn process_transaction_env_change(env: &EnvChange, transaction_descriptor: &mut u64)
    ensures
        *final(transaction_descriptor) == descriptor_after(*env, *old(transaction_descriptor)),
{
    match env {
        EnvChange::BeginTransaction(data) => {
            if data.len() >= 8 {
                let lo = (data[0] as u32) + 256 * (data[1] as u32) + 65536 * (data[2] as u32)
                    + 16777216 * (data[3] as u32);
                let hi = (data[4] as u32) + 256 * (data[5] as u32) + 65536 * (data[6] as u32)
                    + 16777216 * (data[7] as u32);
                proof {
                    assert(data@.subrange(0, 4)[0] == data@[0]);
                    assert(data@.subrange(0, 4)[1] == data@[1]);
                    assert(data@.subrange(0, 4)[2] == data@[2]);
                    assert(data@.subrange(0, 4)[3] == data@[3]);
                    assert(data@.subrange(4, 8)[0] == data@[4]);
                    assert(data@.subrange(4, 8)[1] == data@[5]);
                    assert(data@.subrange(4, 8)[2] == data@[6]);
                    assert(data@.subrange(4, 8)[3] == data@[7]);
                }
                *transaction_descriptor = (lo as u64) + 4294967296 * (hi as u64);
            }
        },
        EnvChange::CommitTransaction | EnvChange::RollbackTransaction => {
            *transaction_descriptor = 0;
        },
        _ => {},
    }
}

/// A transaction descriptor that the server sends in a BeginTransaction
/// change is the one the client then holds, whatever it held before; a
/// commit or rollback returns it to zero (auto-commit).
pub proof fn law_descriptor_follows_server(env: EnvChange, d: u64, before: u64)
    requires
        env matches EnvChange::BeginTransaction(data) && data@.len() >= 8 && data@.take(8) == le8(d),
    ensures
        descriptor_after(env, before) == d,
        descriptor_after(EnvChange::CommitTransaction, descriptor_after(env, before)) == 0,
        descriptor_after(EnvChange::RollbackTransaction, descriptor_after(env, before)) == 0,
{
    let b = env->BeginTransaction_0@;
    crate::wire::lemma_le8_roundtrip(d);
    assert(b.subrange(0, 4) =~= le8(d).subrange(0, 4));
    assert(b.subrange(4, 8) =~= le8(d).subrange(4, 8));
}

/// The collation in the first five bytes of a value: the 4-byte collation
/// info (little endian) and the sort id.
pub open spec fn collation_of(b: Seq<u8>) -> Collation {
    Collation { lcid: (b[0] + 256 * b[1] + 65536 * b[2] + 16777216 * b[3]) as u32, sort_id: b[4] }
}

/// The session a login or a response leaves: database, routing target and
/// server collation.
pub ghost struct SessionView {
    pub database: Option<Seq<char>>,
    pub routing: Option<(Seq<char>, u16)>,
    pub collation: Option<Collation>,
}

/// What an ENVCHANGE does to the session: a new database, a routing
/// target, or the server collation (from at least five bytes); other
/// changes leave it.
pub open spec fn session_after(env: EnvChange, s: SessionView) -> SessionView {
    match env {
        EnvChange::Database(name) => SessionView { database: Some(name@), ..s },
        EnvChange::Routing { host, port } => SessionView { routing: Some((host@, port)), ..s },
        EnvChange::SqlCollation(data) => if data@.len() >= 5 {
            SessionView { collation: Some(collation_of(data@)), ..s }
        } else {
            s
        },
        _ => s,
    }
}

pub open spec fn routing_view(r: Option<(String, u16)>) -> Option<(Seq<char>, u16)> {
    match r {
        Some((h, p)) => Some((h@, p)),
        None => None,
    }
}

/// Applies an ENVCHANGE of a login response to the session.
pub fn process_env_change(
    env: &EnvChange,
    database: &mut Option<String>,
    routing: &mut Option<(String, u16)>,
    collation: &mut Option<Collation>,
)
    ensures
        session_after(
            *env,
            SessionView {
                database: opt_view(*old(database)),
                routing: routing_view(*old(routing)),
                collation: *old(collation),
            },
        ) == (SessionView {
            database: opt_view(*final(database)),
            routing: routing_view(*final(routing)),
            collation: *final(collation),
        }),
{
    match env {
        EnvChange::Database(name) => {
            *database = Some(string_of(chars_of(name.as_str()).as_slice()));
        },
        EnvChange::Routing { host, port } => {
            *routing = Some((string_of(chars_of(host.as_str()).as_slice()), *port));
        },
        EnvChange::SqlCollation(data) => {
            if data.len() >= 5 {
                let lcid = (data[0] as u32) + 256 * (data[1] as u32) + 65536 * (data[2] as u32)
                    + 16777216 * (data[3] as u32);
                *collation = Some(Collation { lcid, sort_id: data[4] });
            }
        },
        _ => {},
    }
}

/// The statement that creates a savepoint: `SAVE TRANSACTION` and the
/// name, which must be a valid identifier.
pub fn save_point_statement(name: &str) -> (r: Result<String, Error>)
    ensures
        is_identifier(name@) ==> (r matches Ok(s) && s@ == "SAVE TRANSACTION "@ + name@),
        !is_identifier(name@) ==> (r matches Err(Error::InvalidIdentifier(m)) && m@ == name@),
{
    match validate_identifier(name) {
        Err(e) => Err(e),
        Ok(()) => {
            let mut sql = chars_of("SAVE TRANSACTION ");
            push_str_chars(&mut sql, name);
            Ok(string_of(sql.as_slice()))
        },
    }
}

/// The statement that rolls back to a savepoint: `ROLLBACK TRANSACTION`
/// and the savepoint's name.
pub fn rollback_to_statement(name: &str) -> (r: String)
    ensures
        r@ == "ROLLBACK TRANSACTION "@ + name@,
{
    let mut sql = chars_of("ROLLBACK TRANSACTION ");
    push_str_chars(&mut sql, name);
    string_of(sql.as_slice())
}

pub open spec fn unsupported_credentials_text() -> Seq<char> {
    "client certificate (FEDAUTH) authentication is not yet supported (tracked in https://github.com/praxiomlabs/rust-mssql-driver/issues/155). Use SQL Server, integrated, or Azure AD / Entra authentication."@
}

/// Whether the credentials can complete a login in this build: SQL Server
/// credentials can; integrated authentication is not built in, and is
/// refused like the other kinds without a login path.
pub fn validate_credential_support(config: &Config) -> (r: Result<(), Error>)
    ensures
        config.credentials is SqlServer ==> r is Ok,
        !(config.credentials is SqlServer) ==> (r matches Err(Error::Config(m)) && m@
            == unsupported_credentials_text()),
{
    match &config.credentials {
        Credentials::SqlServer { .. } => Ok(()),
        _ => Err(Error::Config(owned(
            "client certificate (FEDAUTH) authentication is not yet supported (tracked in https://github.com/praxiomlabs/rust-mssql-driver/issues/155). Use SQL Server, integrated, or Azure AD / Entra authentication.",
        ))),
    }
}

/// The workstation name sent at login: the configured one, else the
/// machine's name from `COMPUTERNAME`, else from `HOSTNAME`, else empty.
/// The two environment values are looked up by the caller.
pub fn resolve_workstation_id(config: &Config, computername: Option<String>, hostname: Option<
    String,
>) -> (r: String)
    ensures
        r@ == match opt_view(config.workstation_id) {
            Some(id) => id,
            None => match opt_view(computername) {
                Some(c) => c,
                None => match opt_view(hostname) {
                    Some(h) => h,
                    None => Seq::empty(),
                },
            },
        },
{
    match &config.workstation_id {
        Some(id) => string_of(chars_of(id.as_str()).as_slice()),
        None => match computername {
            Some(c) => c,
            None => match hostname {
                Some(h) => h,
                None => {
                    let e = owned("");
                    proof {
                        reveal_strlit("");
                        assert(e@ =~= Seq::<char>::empty());
                    }
                    e
                },
            },
        },
    }
}

} // verus!
