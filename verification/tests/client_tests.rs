use raft_client::client::RaftClient;
use raft_client::ratchet::{swap_when_larger, Watermark};
use raft_client::types::{
    ClientCmdResponse, ClientQryResponse, CommandError, CommandStep, ExecuteStart, OpType,
    QueryError, QueryStep, RaftStateMachine, MAX_COMMAND_ATTEMPTS, MAX_QUERY_ATTEMPTS,
};

fn remote(pairs: &[(u64, &str)]) -> Vec<(u64, String)> {
    pairs.iter().map(|(id, addr)| (*id, addr.to_string())).collect()
}

fn member_ids(c: &RaftClient) -> Vec<u64> {
    c.members.iter().map(|m| m.id).collect()
}

#[test]
fn construction_from_cluster_info() {
    let c = RaftClient::new(Some(remote(&[(2, "b"), (1, "a")]))).unwrap();
    assert_eq!(member_ids(&c), vec![1, 2]);
    assert_eq!(c.members[0].address, "a");
    assert_eq!(c.members[1].address, "b");
    assert_eq!(c.watermark.last_log_id, 0);
    assert_eq!(c.watermark.last_log_term, 0);
    assert!(c.leader_id.is_none());
}

#[test]
fn construction_failure_when_no_seed_responds() {
    assert!(RaftClient::new(None).is_none());
}

#[test]
fn refresh_reconciles_connections() {
    // remote {A,B,C}, local {A,B,D}: afterwards exactly {A,B,C}
    let mut c = RaftClient::new(Some(remote(&[(1, "a"), (2, "b"), (4, "d")]))).unwrap();
    let plan = c.update_info(Some(remote(&[(1, "a"), (2, "b"), (3, "c")]))).unwrap();
    assert_eq!(member_ids(&c), vec![1, 2, 3]);
    assert_eq!(c.members[2].address, "c");
    assert_eq!(plan.to_remove, vec![4]);
    assert_eq!(plan.to_add.len(), 1);
    assert_eq!(plan.to_add[0].id, 3);
    assert_eq!(plan.to_add[0].address, "c");
}

#[test]
fn refresh_is_idempotent() {
    let mut c = RaftClient::new(Some(remote(&[(1, "a"), (2, "b")]))).unwrap();
    let list = remote(&[(3, "c"), (1, "a")]);
    let first = c.update_info(Some(list.clone())).unwrap();
    assert_eq!(first.to_remove, vec![2]);
    assert_eq!(first.to_add.len(), 1);
    let second = c.update_info(Some(list)).unwrap();
    assert!(second.to_add.is_empty());
    assert!(second.to_remove.is_empty());
    assert_eq!(member_ids(&c), vec![1, 3]);
}

#[test]
fn failed_refresh_mutates_nothing() {
    let mut c = RaftClient::new(Some(remote(&[(1, "a")]))).unwrap();
    let r = c.update_info(None);
    assert!(r.is_err());
    assert_eq!(member_ids(&c), vec![1]);
}

#[test]
fn ratchet_keeps_larger_value() {
    let mut cell: u64 = 0;
    swap_when_larger(&mut cell, 5);
    swap_when_larger(&mut cell, 3);
    assert_eq!(cell, 5);
    swap_when_larger(&mut cell, 9);
    assert_eq!(cell, 9);
}

#[test]
fn ratchet_reaches_maximum_of_proposals() {
    let mut cell: u64 = 4;
    for v in [7, 2, 11, 11, 3, 10] {
        swap_when_larger(&mut cell, v);
    }
    assert_eq!(cell, 11);
}

#[test]
fn watermark_advances_per_field() {
    let mut w = Watermark::new();
    w.advance(3, 10);
    assert_eq!((w.last_log_term, w.last_log_id), (3, 10));
    w.advance(5, 7);
    assert_eq!((w.last_log_term, w.last_log_id), (5, 10));
    w.advance(1, 1);
    assert_eq!((w.last_log_term, w.last_log_id), (5, 10));
}

#[test]
fn round_robin_distributes_evenly() {
    let mut c = RaftClient::new(Some(remote(&[(1, "a"), (2, "b"), (3, "c")]))).unwrap();
    c.pos = 0;
    let session = c.query_start(9, 9, vec![]).unwrap();
    let mut counts = [0u64; 3];
    for _ in 0..7 {
        let (target, _) = c.query_request(&session);
        counts[(target - 1) as usize] += 1;
    }
    // 7 queries over 3 members: each selected floor(7/3) or ceil(7/3) times
    let mut sorted = counts;
    sorted.sort();
    assert_eq!(sorted, [2, 2, 3]);
}

#[test]
fn query_request_carries_watermark_and_payload() {
    let mut c = RaftClient::new(Some(remote(&[(1, "a")]))).unwrap();
    c.watermark.last_log_id = 42;
    c.watermark.last_log_term = 7;
    let session = c.query_start(5, 6, vec![8, 9]).unwrap();
    let (target, entry) = c.query_request(&session);
    assert_eq!(target, 1);
    assert_eq!(entry.id, 42);
    assert_eq!(entry.term, 7);
    assert_eq!(entry.sm_id, 5);
    assert_eq!(entry.fn_id, 6);
    assert_eq!(entry.data, vec![8, 9]);
}

#[test]
fn stale_recovery_reaches_fresh_member() {
    // member 1 always answers Stale, member 2 always Success (term 7, id 42)
    let mut c = RaftClient::new(Some(remote(&[(1, "a"), (2, "b")]))).unwrap();
    c.pos = 0;
    let mut session = c.query_start(1, 1, vec![1]).unwrap();
    let answer;
    loop {
        let (target, _entry) = c.query_request(&session);
        let resp = if target == 1 {
            Some(ClientQryResponse::LeftBehind)
        } else {
            Some(ClientQryResponse::Success {
                data: vec![99],
                last_log_term: 7,
                last_log_id: 42,
            })
        };
        match c.query_resolve(&mut session, resp) {
            QueryStep::Retry => continue,
            QueryStep::Done { data } => {
                answer = Some(data);
                break;
            }
            QueryStep::Failed { err } => panic!("query failed: {:?}", err),
        }
    }
    assert_eq!(answer.unwrap(), vec![99]);
    assert_eq!(c.watermark.last_log_term, 7);
    assert_eq!(c.watermark.last_log_id, 42);
}

#[test]
fn bounded_retry_exhausts_on_all_stale() {
    let mut c = RaftClient::new(Some(remote(&[(1, "a"), (2, "b")]))).unwrap();
    c.pos = 0;
    let mut session = c.query_start(1, 1, vec![]).unwrap();
    let mut attempts: u64 = 0;
    let failure = loop {
        let (_target, _entry) = c.query_request(&session);
        attempts += 1;
        match c.query_resolve(&mut session, Some(ClientQryResponse::LeftBehind)) {
            QueryStep::Retry => continue,
            QueryStep::Done { .. } => panic!("stale responses cannot succeed"),
            QueryStep::Failed { err } => break err,
        }
    };
    assert_eq!(failure, QueryError::StaleExhausted);
    assert_eq!(attempts, MAX_QUERY_ATTEMPTS);
}

#[test]
fn transport_failure_surfaces_as_typed_error() {
    let mut c = RaftClient::new(Some(remote(&[(1, "a")]))).unwrap();
    let mut session = c.query_start(1, 1, vec![]).unwrap();
    let (_target, _entry) = c.query_request(&session);
    match c.query_resolve(&mut session, None) {
        QueryStep::Failed { err } => assert_eq!(err, QueryError::TransportFailure),
        _ => panic!("transport failure must end the query"),
    }
}

#[test]
fn query_on_empty_membership_is_refused() {
    let mut c = RaftClient::new(Some(remote(&[(1, "a")]))).unwrap();
    let _ = c.update_info(Some(remote(&[])));
    assert_eq!(c.query_start(1, 1, vec![]).unwrap_err(), QueryError::NoMembers);
    assert_eq!(c.command_start(1, 1, vec![]).unwrap_err(), CommandError::NoMembers);
    assert!(c.execute(&RaftStateMachine { id: 1 }, OpType::QUERY, 1, vec![]).is_none());
}

#[test]
fn command_follows_leader_redirect() {
    let mut c = RaftClient::new(Some(remote(&[(1, "a"), (2, "b")]))).unwrap();
    let mut session = c.command_start(1, 4, vec![5]).unwrap();
    // no leader known yet: the first member is contacted
    assert_eq!(c.command_target(), 1);
    match c.command_resolve(&mut session, Some(ClientCmdResponse::NotLeader { leader_id: 2 })) {
        CommandStep::Retry => {}
        _ => panic!("a redirect within the budget asks for a retry"),
    }
    assert_eq!(c.leader_id, Some(2));
    assert_eq!(c.command_target(), 2);
    match c.command_resolve(&mut session, Some(ClientCmdResponse::Success { data: vec![6] })) {
        CommandStep::Done { data } => assert_eq!(data, vec![6]),
        _ => panic!("the leader's answer is the result"),
    }
}

#[test]
fn command_target_ignores_departed_leader() {
    let mut c = RaftClient::new(Some(remote(&[(1, "a"), (2, "b")]))).unwrap();
    c.leader_id = Some(9);
    assert_eq!(c.command_target(), 1);
}

#[test]
fn bounded_redirects_exhaust() {
    let mut c = RaftClient::new(Some(remote(&[(1, "a"), (2, "b")]))).unwrap();
    let mut session = c.command_start(1, 1, vec![]).unwrap();
    let mut attempts: u64 = 0;
    let failure = loop {
        let _target = c.command_target();
        attempts += 1;
        match c.command_resolve(&mut session, Some(ClientCmdResponse::NotLeader { leader_id: 2 }))
        {
            CommandStep::Retry => continue,
            CommandStep::Done { .. } => panic!("redirects cannot succeed"),
            CommandStep::Failed { err } => break err,
        }
    };
    assert_eq!(failure, CommandError::RedirectExhausted);
    assert_eq!(attempts, MAX_COMMAND_ATTEMPTS);
}

#[test]
fn command_transport_failure_surfaces() {
    let mut c = RaftClient::new(Some(remote(&[(1, "a")]))).unwrap();
    let mut session = c.command_start(1, 1, vec![]).unwrap();
    match c.command_resolve(&mut session, None) {
        CommandStep::Failed { err } => assert_eq!(err, CommandError::TransportFailure),
        _ => panic!("transport failure must end the command"),
    }
}

#[test]
fn execute_classifies_reads_and_writes() {
    let c = RaftClient::new(Some(remote(&[(1, "a")]))).unwrap();
    let sm = RaftStateMachine { id: 77 };
    match c.execute(&sm, OpType::QUERY, 3, vec![1]) {
        Some(ExecuteStart::Query { session }) => {
            assert_eq!(session.sm_id, 77);
            assert_eq!(session.fn_id, 3);
            assert_eq!(session.data, vec![1]);
            assert_eq!(session.attempts_left, MAX_QUERY_ATTEMPTS);
        }
        _ => panic!("a read opens the query path"),
    }
    match c.execute(&sm, OpType::COMMAND, 4, vec![2]) {
        Some(ExecuteStart::Command { session }) => {
            assert_eq!(session.sm_id, 77);
            assert_eq!(session.fn_id, 4);
            assert_eq!(session.data, vec![2]);
            assert_eq!(session.attempts_left, MAX_COMMAND_ATTEMPTS);
        }
        _ => panic!("a write opens the command path"),
    }
}

#[test]
fn session_consistency_watermark_never_decreases() {
    // a later stale or failed call never lowers what an earlier success established
    let mut c = RaftClient::new(Some(remote(&[(1, "a")]))).unwrap();
    let mut session = c.query_start(1, 1, vec![]).unwrap();
    let (_t, _e) = c.query_request(&session);
    let step = c.query_resolve(
        &mut session,
        Some(ClientQryResponse::Success { data: vec![], last_log_term: 9, last_log_id: 30 }),
    );
    assert!(matches!(step, QueryStep::Done { .. }));
    let mut session2 = c.query_start(1, 1, vec![]).unwrap();
    let (_t, entry) = c.query_request(&session2);
    assert_eq!((entry.term, entry.id), (9, 30));
    let step = c.query_resolve(
        &mut session2,
        Some(ClientQryResponse::Success { data: vec![], last_log_term: 2, last_log_id: 50 }),
    );
    assert!(matches!(step, QueryStep::Done { .. }));
    assert_eq!((c.watermark.last_log_term, c.watermark.last_log_id), (9, 50));
}

#[test]
fn round_robin_exact_when_count_divides() {
    let mut c = RaftClient::new(Some(remote(&[(1, "a"), (2, "b"), (3, "c")]))).unwrap();
    c.pos = 5;
    let session = c.query_start(9, 9, vec![]).unwrap();
    let mut counts = [0u64; 3];
    for _ in 0..6 {
        let (target, _) = c.query_request(&session);
        counts[(target - 1) as usize] += 1;
    }
    // 6 queries over 3 members: each selected exactly twice
    assert_eq!(counts, [2, 2, 2]);
}
