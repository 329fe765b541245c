//! The Raft client itself: it owns the member table, the round-robin
//! cursor, the tracked leader and the consistency watermark, and makes every
//! routing and retry decision. The embedding program performs the remote
//! calls and feeds the responses back in.

use vstd::prelude::*;
use crate::membership::{
    RefreshPlan, additions, build_table, distinct_ids, has_id, members_contain_id, refresh_applied,
    removals, sorted_by_id, table_is_remote,
};
use crate::ratchet::Watermark;
use crate::types::{
    ClientCmdResponse, ClientQryResponse, CommandError, CommandSession, CommandStep, ExecuteStart,
    LogEntry, Member, OpType, QueryError, QuerySession, QueryStep, RaftStateMachine, RefreshError,
    MAX_COMMAND_ATTEMPTS, MAX_QUERY_ATTEMPTS, copy_bytes,
};

verus! {

/// Relies on rand::random: a fresh pseudorandom value; nothing is promised
/// of it. It seeds the round-robin cursor so that distinct clients start
/// their rotation at unrelated members.
pub assume_specification<T>[ rand::random::<T> ]() -> (r: T)
    where
        rand::distributions::Standard: rand::distributions::Distribution<T>,
;

/// The round-robin cursor after one selection: it counts upward and wraps
/// at the end of its range.
pub open spec fn wrap_inc(p: u64) -> u64 {
    if p == u64::MAX {
        0
    } else {
        (p + 1) as u64
    }
}

/// The client of a Raft cluster: member table, consistency watermark,
/// round-robin cursor and tracked leader.
pub struct RaftClient {
    /// The connected members, strictly sorted by id; the keys of the
    /// embedding program's connection table.
    pub members: Vec<Member>,
    /// The highest `(log id, log term)` this client has observed.
    pub watermark: Watermark,
    /// The shared round-robin cursor of the read path.
    pub pos: u64,
    /// The leader learned from redirect responses, if any.
    pub leader_id: Option<u64>,
}

impl RaftClient {
    /// The member table is strictly sorted by id.
    pub open spec fn wf(self) -> bool {
        sorted_by_id(self.members@)
    }

    /// Where the write path sends a command: the tracked leader while the
    /// table carries it, else the first member.
    pub open spec fn command_target_spec(self) -> u64 {
        match self.leader_id {
            Some(l) => if has_id(self.members@, l) {
                l
            } else {
                self.members@[0].id
            },
            None => self.members@[0].id,
        }
    }

    /// Construct a client from the cluster information of the first seed
    /// that responded, or no client when none did. The round-robin cursor
    /// starts at a random position.
    pub fn new(info: Option<Vec<(u64, String)>>) -> (r: Option<RaftClient>)
        requires
            info matches Some(remote) ==> distinct_ids(remote@),
        ensures
            r is Some <==> info is Some,
            r matches Some(c) ==> c.wf() && c.watermark.last_log_id == 0
                && c.watermark.last_log_term == 0 && c.leader_id is None && (info matches Some(
                remote,
            ) ==> table_is_remote(c.members@, remote@)),
    {
        let mut client = RaftClient {
            members: Vec::new(),
            watermark: Watermark::new(),
            pos: rand::random::<u64>(),
            leader_id: None,
        };
        match info {
            None => None,
            Some(remote) => {
                let refreshed = client.update_info(Some(remote));
                match refreshed {
                    Ok(_) => Some(client),
                    Err(_) => None,
                }
            },
        }
    }

    /// Replace the member table wholesale with the remote member list the
    /// seeds answered with, and report the connection churn; when no seed
    /// responded (`info` is `None`) fail without mutating anything.
    pub fn update_info(&mut self, info: Option<Vec<(u64, String)>>) -> (r: Result<
        RefreshPlan,
        RefreshError,
    >)
        requires
            old(self).wf(),
            info matches Some(remote) ==> distinct_ids(remote@),
        ensures
            final(self).wf(),
            info is None ==> r is Err && *final(self) == *old(self),
            info matches Some(remote) ==> (r matches Ok(plan) && refresh_applied(
                old(self).members@,
                final(self).members@,
                remote@,
                plan.to_add@,
                plan.to_remove@,
            )),
            final(self).watermark == old(self).watermark,
            final(self).pos == old(self).pos,
            final(self).leader_id == old(self).leader_id,
    {
        match info {
            None => Err(RefreshError::NoSeedResponded),
            Some(remote) => {
                let to_remove = removals(&self.members, &remote);
                let to_add = additions(&self.members, &remote);
                let table = build_table(&remote);
                self.members = table;
                Ok(RefreshPlan { to_add, to_remove })
            },
        }
    }

    /// Open a read query: it may spend up to `MAX_QUERY_ATTEMPTS` attempts
    /// recovering from stale replicas. Fails only when no member is known.
    pub fn query_start(&self, sm_id: u64, fn_id: u64, data: Vec<u8>) -> (r: Result<
        QuerySession,
        QueryError,
    >)
        ensures
            self.members@.len() == 0 <==> r is Err,
            r matches Err(e) ==> e == QueryError::NoMembers,
            r matches Ok(s) ==> s.sm_id == sm_id && s.fn_id == fn_id && s.data@ == data@
                && s.attempts_left == MAX_QUERY_ATTEMPTS,
    {
        if self.members.len() == 0 {
            Err(QueryError::NoMembers)
        } else {
            Ok(QuerySession { sm_id, fn_id, data, attempts_left: MAX_QUERY_ATTEMPTS })
        }
    }

    /// Select the next member round-robin and build the request for it: the
    /// request carries the session's addressing and payload and the
    /// client's current watermark. Returns the selected member's id.
    pub fn query_request(&mut self, session: &QuerySession) -> (r: (u64, LogEntry))
        requires
            old(self).wf(),
            old(self).members@.len() > 0,
        ensures
            final(self).wf(),
            final(self).members@ == old(self).members@,
            final(self).watermark == old(self).watermark,
            final(self).leader_id == old(self).leader_id,
            final(self).pos == wrap_inc(old(self).pos),
            r.0 == old(self).members@[(old(self).pos % (old(self).members@.len() as u64)) as int].id,
            (old(self).pos % (old(self).members@.len() as u64)) as int
                == crate::rotation::selected_slot(
                old(self).pos as int,
                0,
                old(self).members@.len() as int,
            ),
            r.1.id == old(self).watermark.last_log_id,
            r.1.term == old(self).watermark.last_log_term,
            r.1.sm_id == session.sm_id,
            r.1.fn_id == session.fn_id,
            r.1.data@ == session.data@,
    {
        let count = self.members.len() as u64;
        let slot = (self.pos % count) as usize;
        let target = self.members[slot].id;
        let entry = LogEntry {
            id: self.watermark.last_log_id,
            term: self.watermark.last_log_term,
            sm_id: session.sm_id,
            fn_id: session.fn_id,
            data: copy_bytes(&session.data),
        };
        self.pos = if self.pos == u64::MAX {
            0
        } else {
            self.pos + 1
        };
        (target, entry)
    }

    /// Digest one query response. `None` stands for a transport or decode
    /// failure and ends the query; a success ratchets the watermark and
    /// hands the payload out; a stale (left-behind) answer spends one
    /// attempt and asks for a retry until the budget is exhausted.
    pub fn query_resolve(&mut self, session: &mut QuerySession, resp: Option<ClientQryResponse>)
        -> (r: QueryStep)
        requires
            old(self).wf(),
            old(session).attempts_left > 0,
        ensures
            final(self).wf(),
            final(self).members@ == old(self).members@,
            final(self).pos == old(self).pos,
            final(self).leader_id == old(self).leader_id,
            final(self).watermark.dominates(old(self).watermark),
            final(session).sm_id == old(session).sm_id,
            final(session).fn_id == old(session).fn_id,
            final(session).data@ == old(session).data@,
            resp is None ==> r == (QueryStep::Failed { err: QueryError::TransportFailure })
                && final(self).watermark == old(self).watermark && *final(session) == *old(
                session,
            ),
            resp matches Some(ClientQryResponse::Success { data, last_log_term, last_log_id })
                ==> final(self).watermark == old(self).watermark.advanced(
                last_log_term,
                last_log_id,
            ) && r == (QueryStep::Done { data }) && *final(session) == *old(session),
            resp matches Some(ClientQryResponse::LeftBehind) ==> final(self).watermark == old(
                self,
            ).watermark && final(session).attempts_left == old(session).attempts_left - 1,
            resp matches Some(ClientQryResponse::LeftBehind) && old(session).attempts_left > 1
                ==> r == QueryStep::Retry && stale_outcome(final(session).attempts_left)
                == stale_outcome(old(session).attempts_left),
            resp matches Some(ClientQryResponse::LeftBehind) && old(session).attempts_left == 1
                ==> r == stale_outcome(old(session).attempts_left),
    {
        match resp {
            None => QueryStep::Failed { err: QueryError::TransportFailure },
            Some(ClientQryResponse::LeftBehind) => {
                session.attempts_left = session.attempts_left - 1;
                if session.attempts_left == 0 {
                    QueryStep::Failed { err: QueryError::StaleExhausted }
                } else {
                    QueryStep::Retry
                }
            },
            Some(ClientQryResponse::Success { data, last_log_term, last_log_id }) => {
                self.watermark.advance(last_log_term, last_log_id);
                QueryStep::Done { data }
            },
        }
    }

    /// Open a write command: it may spend up to `MAX_COMMAND_ATTEMPTS`
    /// attempts following leader redirects. Fails only when no member is
    /// known.
    pub fn command_start(&self, sm_id: u64, fn_id: u64, data: Vec<u8>) -> (r: Result<
        CommandSession,
        CommandError,
    >)
        ensures
            self.members@.len() == 0 <==> r is Err,
            r matches Err(e) ==> e == CommandError::NoMembers,
            r matches Ok(s) ==> s.sm_id == sm_id && s.fn_id == fn_id && s.data@ == data@
                && s.attempts_left == MAX_COMMAND_ATTEMPTS,
    {
        if self.members.len() == 0 {
            Err(CommandError::NoMembers)
        } else {
            Ok(CommandSession { sm_id, fn_id, data, attempts_left: MAX_COMMAND_ATTEMPTS })
        }
    }

    /// Where to submit a command now: the tracked leader while the table
    /// carries it, else the first member.
    pub fn command_target(&self) -> (r: u64)
        requires
            self.wf(),
            self.members@.len() > 0,
        ensures
            r == self.command_target_spec(),
    {
        match self.leader_id {
            Some(l) => {
                if members_contain_id(&self.members, l) {
                    l
                } else {
                    self.members[0].id
                }
            },
            None => self.members[0].id,
        }
    }

    /// Digest one command response. `None` stands for a transport or decode
    /// failure and ends the command; a success hands the state machine's
    /// result out; a not-leader answer records the redirect target as the
    /// tracked leader and spends one attempt until the budget is exhausted.
    pub fn command_resolve(
        &mut self,
        session: &mut CommandSession,
        resp: Option<ClientCmdResponse>,
    ) -> (r: CommandStep)
        requires
            old(self).wf(),
            old(session).attempts_left > 0,
        ensures
            final(self).wf(),
            final(self).members@ == old(self).members@,
            final(self).pos == old(self).pos,
            final(self).watermark == old(self).watermark,
            final(session).sm_id == old(session).sm_id,
            final(session).fn_id == old(session).fn_id,
            final(session).data@ == old(session).data@,
            resp is None ==> r == (CommandStep::Failed { err: CommandError::TransportFailure })
                && final(self).leader_id == old(self).leader_id && *final(session) == *old(
                session,
            ),
            resp matches Some(ClientCmdResponse::Success { data }) ==> r == (CommandStep::Done {
                data,
            }) && final(self).leader_id == old(self).leader_id && *final(session) == *old(session),
            resp matches Some(ClientCmdResponse::NotLeader { leader_id }) ==> final(self).leader_id
                == Some(leader_id) && final(session).attempts_left == old(session).attempts_left
                - 1 && (old(session).attempts_left > 1 ==> r == CommandStep::Retry
                && redirect_outcome(final(session).attempts_left) == redirect_outcome(
                old(session).attempts_left,
            )) && (old(session).attempts_left == 1 ==> r == redirect_outcome(
                old(session).attempts_left,
            )),
    {
        match resp {
            None => CommandStep::Failed { err: CommandError::TransportFailure },
            Some(ClientCmdResponse::NotLeader { leader_id }) => {
                self.leader_id = Some(leader_id);
                session.attempts_left = session.attempts_left - 1;
                if session.attempts_left == 0 {
                    CommandStep::Failed { err: CommandError::RedirectExhausted }
                } else {
                    CommandStep::Retry
                }
            },
            Some(ClientCmdResponse::Success { data }) => CommandStep::Done { data },
        }
    }

    /// Classify a request by its operation kind and open the matching
    /// session: reads go to the round-robin query path, writes to the
    /// leader-tracking command path. Yields nothing when no member is
    /// known.
    pub fn execute(&self, sm: &RaftStateMachine, op: OpType, fn_id: u64, data: Vec<u8>) -> (r:
        Option<ExecuteStart>)
        ensures
            self.members@.len() == 0 <==> r is None,
            r matches Some(ExecuteStart::Query { session }) ==> op == OpType::QUERY
                && session.sm_id == sm.id && session.fn_id == fn_id && session.data@ == data@
                && session.attempts_left == MAX_QUERY_ATTEMPTS,
            r matches Some(ExecuteStart::Command { session }) ==> op == OpType::COMMAND
                && session.sm_id == sm.id && session.fn_id == fn_id && session.data@ == data@
                && session.attempts_left == MAX_COMMAND_ATTEMPTS,
            op == OpType::QUERY ==> !(r matches Some(ExecuteStart::Command { session })),
            op == OpType::COMMAND ==> !(r matches Some(ExecuteStart::Query { session })),
    {
        match op {
            OpType::QUERY => match self.query_start(sm.id, fn_id, data) {
                Ok(session) => Some(ExecuteStart::Query { session }),
                Err(_) => None,
            },
            OpType::COMMAND => match self.command_start(sm.id, fn_id, data) {
                Ok(session) => Some(ExecuteStart::Command { session }),
                Err(_) => None,
            },
        }
    }
}

/// Where a run of the query path ends when every response is stale
/// (`LeftBehind`), starting from a given attempt budget: each response
/// spends one attempt, exactly as `query_resolve` does.
pub open spec fn stale_outcome(attempts_left: u64) -> QueryStep
    decreases attempts_left,
{
    if attempts_left <= 1 {
        QueryStep::Failed { err: QueryError::StaleExhausted }
    } else {
        stale_outcome((attempts_left - 1) as u64)
    }
}

/// Bounded retry: however large the attempt budget, a query whose every
/// response is stale terminates with the stale-exhausted failure — never
/// with success, and never by retrying beyond its budget.
pub proof fn lemma_stale_run_exhausts(attempts_left: u64)
    requires
        attempts_left >= 1,
    ensures
        stale_outcome(attempts_left) == (QueryStep::Failed { err: QueryError::StaleExhausted }),
    decreases attempts_left,
{
    if attempts_left > 1 {
        lemma_stale_run_exhausts((attempts_left - 1) as u64);
    }
}

/// Where a run of the command path ends when every response is a leader
/// redirect (`NotLeader`), starting from a given attempt budget: each
/// response spends one attempt, exactly as `command_resolve` does.
pub open spec fn redirect_outcome(attempts_left: u64) -> CommandStep
    decreases attempts_left,
{
    if attempts_left <= 1 {
        CommandStep::Failed { err: CommandError::RedirectExhausted }
    } else {
        redirect_outcome((attempts_left - 1) as u64)
    }
}

/// Bounded redirects: however large the attempt budget, a command whose
/// every response is a redirect terminates with the redirect-exhausted
/// failure rather than chasing the leader indefinitely.
pub proof fn lemma_redirect_run_exhausts(attempts_left: u64)
    requires
        attempts_left >= 1,
    ensures
        redirect_outcome(attempts_left) == (CommandStep::Failed {
            err: CommandError::RedirectExhausted,
        }),
    decreases attempts_left,
{
    if attempts_left > 1 {
        lemma_redirect_run_exhausts((attempts_left - 1) as u64);
    }
}

} // verus!
