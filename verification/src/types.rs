//! Data model of the client: cluster members, wire-level request and
//! response shapes, error taxonomy, and the retry sessions of the two
//! request paths.

use vstd::prelude::*;

verus! {

/// How many attempts a single read query may make before the client gives up
/// with `QueryError::StaleExhausted`.
pub const MAX_QUERY_ATTEMPTS: u64 = 8;

/// How many attempts a single command may make before the client gives up
/// with `CommandError::RedirectExhausted`.
pub const MAX_COMMAND_ATTEMPTS: u64 = 8;

/// A cluster member: a stable numeric id (a deterministic hash of the
/// address, on which every party agrees) and the address itself. The
/// embedding program keys its connection table by `id`.
pub struct Member {
    pub id: u64,
    pub address: String,
}

/// A read request as sent on the wire: the client's current watermark
/// (`id`, `term`), the target state machine and function, and the opaque
/// payload.
pub struct LogEntry {
    pub id: u64,
    pub term: u64,
    pub sm_id: u64,
    pub fn_id: u64,
    pub data: Vec<u8>,
}

/// A replica's answer to a read query.
pub enum ClientQryResponse {
    /// The responder's applied state is older than the client's watermark.
    LeftBehind,
    Success { data: Vec<u8>, last_log_term: u64, last_log_id: u64 },
}

/// A replica's answer to a write command.
pub enum ClientCmdResponse {
    Success { data: Vec<u8> },
    /// The contacted replica is not the current leader; `leader_id` is its
    /// best knowledge of who is.
    NotLeader { leader_id: u64 },
}

/// Whether a request reads from or writes to the replicated state machine.
#[derive(Clone, Copy, PartialEq, Eq, Structural, Debug)]
pub enum OpType {
    QUERY,
    COMMAND,
}

/// Descriptor of the replicated state machine a request is addressed to.
pub struct RaftStateMachine {
    pub id: u64,
}

/// Why a read query failed.
#[derive(Clone, Copy, PartialEq, Eq, Structural, Debug)]
pub enum QueryError {
    /// The client knows no members to route to.
    NoMembers,
    /// Every attempt within the bound answered `LeftBehind`.
    StaleExhausted,
    /// A transport or decode failure ended the call.
    TransportFailure,
}

/// Why a write command failed.
#[derive(Clone, Copy, PartialEq, Eq, Structural, Debug)]
pub enum CommandError {
    /// The client knows no members to route to.
    NoMembers,
    /// Every attempt within the bound answered `NotLeader`.
    RedirectExhausted,
    /// A transport or decode failure ended the call.
    TransportFailure,
}

/// A membership refresh that could not happen: no seed answered with
/// cluster information.
#[derive(Clone, Copy, PartialEq, Eq, Structural, Debug)]
pub enum RefreshError {
    NoSeedResponded,
}

/// One in-flight read query: its addressing, its payload, and how many
/// attempts remain before the stale-retry bound is exhausted.
#[derive(Debug)]
pub struct QuerySession {
    pub sm_id: u64,
    pub fn_id: u64,
    pub data: Vec<u8>,
    pub attempts_left: u64,
}

/// What the client decided after digesting one query response.
pub enum QueryStep {
    /// Ask again, against the member the next `query_request` selects.
    Retry,
    /// The query succeeded; `data` is the replica's answer.
    Done { data: Vec<u8> },
    Failed { err: QueryError },
}

/// One in-flight write command: its addressing, its payload, and how many
/// attempts remain before the redirect bound is exhausted.
#[derive(Debug)]
pub struct CommandSession {
    pub sm_id: u64,
    pub fn_id: u64,
    pub data: Vec<u8>,
    pub attempts_left: u64,
}

/// What the client decided after digesting one command response.
pub enum CommandStep {
    /// Submit again, to the member the next `command_target` selects.
    Retry,
    /// The command succeeded; `data` is the state machine's result.
    Done { data: Vec<u8> },
    Failed { err: CommandError },
}

/// The key shape `(service id, function id, subscription id, sequence)`
/// that a notification subsystem correlates its pub/sub deliveries by; it is
/// exposed here and implemented elsewhere.
pub type SubKey = (u64, u64, u64, u64);

/// Which path `execute` opened for a request, with the session that drives
/// it.
#[allow(inconsistent_fields)]
pub enum ExecuteStart {
    Query { session: QuerySession },
    Command { session: CommandSession },
}

/// An exact copy of a byte payload, made so that each retry of a session can
/// carry the payload while the session keeps its own.
pub fn copy_bytes(src: &Vec<u8>) -> (r: Vec<u8>)
    ensures
        r@ == src@,
{
    let mut r: Vec<u8> = Vec::new();
    let mut i: usize = 0;
    while i < src.len()
        invariant
            i <= src@.len(),
            r@ == src@.subrange(0, i as int),
        decreases src@.len() - i,
    {
        r.push(src[i]);
        i = i + 1;
    }
    assert(r@ == src@);
    r
}

} // verus!
