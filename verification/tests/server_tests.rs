use raft::consensus_info::ConsensusInfo;
use raft::initial::initialize_servers;
use raft::message::{Action, LogEntry, Order, ServerMessage};
use raft::model::Role;
use raft::node::Node;
use raft::server::{Candidate, Follower, Initial, Leader, Server};
use raft::settings::ServerSettings;

fn follower(name: usize, n: usize) -> Server<Follower> {
    initialize_servers(n).into_iter().nth(name).unwrap().completed()
}

fn entry(data: &str, term: usize) -> LogEntry {
    LogEntry { data: data.to_string(), term }
}

fn role(node: &Node) -> Role {
    match node {
        Node::Initial(_) => Role::Initial,
        Node::Follower(_) => Role::Follower,
        Node::Candidate(_) => Role::Candidate,
        Node::Leader(_) => Role::Leader,
    }
}

fn info(node: &Node) -> &ConsensusInfo {
    match node {
        Node::Initial(s) => &s.info,
        Node::Follower(s) => &s.info,
        Node::Candidate(s) => &s.info,
        Node::Leader(s) => &s.info,
    }
}

fn activated(node: &Node) -> bool {
    match node {
        Node::Initial(s) => s.settings.activated,
        Node::Follower(s) => s.settings.activated,
        Node::Candidate(s) => s.settings.activated,
        Node::Leader(s) => s.settings.activated,
    }
}

fn leader_of(name: usize, n: usize, term: usize, log: Vec<LogEntry>) -> Server<Leader> {
    let mut c = follower(name, n).to_candidate();
    c.info.current_term = term;
    c.info.log = log;
    let len = c.info.log.len();
    for k in c.neighbours.clone() {
        c.info.sent_length.insert(k, len);
        c.info.acked_length.insert(k, 0);
    }
    c.info.current_leader = Some(name);
    c.to_leader()
}

#[test]
fn settings_new_uses_default_timeouts() {
    let s = ServerSettings::new(7);
    assert!(s.activated);
    assert_eq!(s.election_timeout, 10);
    assert_eq!(s.heartbeat_timeout, 2);
    assert_eq!(s.total_elements, 7);
}

#[test]
fn consensus_info_starts_empty() {
    let c = ConsensusInfo::new();
    assert_eq!(c.current_term, 0);
    assert_eq!(c.voted_for, None);
    assert!(c.log.is_empty());
    assert_eq!(c.commit_length, 0);
    assert_eq!(c.current_leader, None);
    assert!(c.votes_received.is_empty());
    assert!(c.sent_length.is_empty());
    assert!(c.acked_length.is_empty());
}

#[test]
fn initialize_servers_connects_every_pair() {
    let servers = initialize_servers(4);
    assert_eq!(servers.len(), 4);
    assert_eq!(servers[0].neighbours, vec![1, 2, 3]);
    assert_eq!(servers[2].neighbours, vec![0, 1, 3]);
    assert_eq!(servers[3].neighbours, vec![0, 1, 2]);
    assert_eq!(servers[2].get_name(), 2);
    assert_eq!(servers[2].neighbours_len(), 3);
    assert_eq!(servers[2].settings.total_elements, 4);
}

#[test]
fn add_sender_keeps_each_name_once() {
    let mut s = Server::<Initial>::new(0, 3, vec![]);
    s.add_sender(2);
    s.add_sender(1);
    s.add_sender(2);
    assert_eq!(s.neighbours, vec![2, 1]);
}

#[test]
fn initial_server_stops_on_any_order_and_ignores_messages() {
    let s = Server::<Initial>::new(0, 3, vec![1, 2]);
    let (next, actions) = s.handle_server_message(ServerMessage::TimerExpired);
    assert_eq!(role(&next), Role::Initial);
    assert!(actions.is_empty());
    let (stop, next, actions) = next.handle_order(Order::ListLog);
    assert!(stop);
    assert_eq!(role(&next), Role::Initial);
    assert!(actions.is_empty());
}

#[test]
fn update_timer_picks_the_timeout_of_the_message() {
    let s = follower(0, 3);
    match s.update_timer(ServerMessage::TimerExpired, None) {
        Action::ResetTimer { message: ServerMessage::TimerExpired, seconds } => assert_eq!(seconds, 10),
        other => panic!("unexpected {:?}", other),
    }
    match s.update_timer(ServerMessage::SendHeartBeat, None) {
        Action::ResetTimer { message: ServerMessage::SendHeartBeat, seconds } => assert_eq!(seconds, 2),
        other => panic!("unexpected {:?}", other),
    }
    match s.update_timer(ServerMessage::ForwardInfo, None) {
        Action::ResetTimer { seconds, .. } => assert_eq!(seconds, 10),
        other => panic!("unexpected {:?}", other),
    }
    match s.update_timer(ServerMessage::SendHeartBeat, Some(7)) {
        Action::ResetTimer { seconds, .. } => assert_eq!(seconds, 7),
        other => panic!("unexpected {:?}", other),
    }
}

fn vote_response(actions: &[Action]) -> (usize, usize, usize, bool) {
    assert_eq!(actions.len(), 1);
    match &actions[0] {
        Action::Send {
            to,
            message: ServerMessage::VoteResponse { responser_id, responder_term, response },
        } => (*to, *responser_id, *responder_term, *response),
        other => panic!("unexpected {:?}", other),
    }
}

#[test]
fn vote_request_of_newer_term_is_granted() {
    let mut s = follower(1, 3);
    let (newer, actions) = s.handle_vote_request(0, 1, 0, 0);
    assert!(newer);
    assert_eq!(s.info.current_term, 1);
    assert_eq!(s.info.voted_for, Some(0));
    assert_eq!(vote_response(&actions), (0, 1, 1, true));
}

#[test]
fn second_candidate_in_same_term_is_refused() {
    let mut s = follower(1, 3);
    let _ = s.handle_vote_request(0, 1, 0, 0);
    let (newer, actions) = s.handle_vote_request(2, 1, 0, 0);
    assert!(!newer);
    assert_eq!(s.info.voted_for, Some(0));
    assert_eq!(vote_response(&actions), (2, 1, 1, false));
    // the same candidate asking again gets the vote again
    let (_, actions) = s.handle_vote_request(0, 1, 0, 0);
    assert_eq!(vote_response(&actions), (0, 1, 1, true));
}

#[test]
fn candidate_with_older_log_is_refused() {
    let mut s = follower(1, 3);
    s.info.current_term = 2;
    s.info.log = vec![entry("a", 1), entry("b", 2)];
    // last term lower
    let (_, actions) = s.handle_vote_request(0, 3, 5, 1);
    assert_eq!(vote_response(&actions), (0, 1, 3, false));
    assert_eq!(s.info.voted_for, None);
    // same last term, shorter log
    let (_, actions) = s.handle_vote_request(0, 3, 1, 2);
    assert_eq!(vote_response(&actions), (0, 1, 3, false));
    // same last term, equally long log
    let (_, actions) = s.handle_vote_request(0, 3, 2, 2);
    assert_eq!(vote_response(&actions), (0, 1, 3, true));
}

#[test]
fn vote_request_of_older_term_is_refused() {
    let mut s = follower(1, 3);
    s.info.current_term = 4;
    let (newer, actions) = s.handle_vote_request(0, 3, 0, 0);
    assert!(!newer);
    assert_eq!(vote_response(&actions), (0, 1, 4, false));
}

fn log_response(action: &Action) -> (usize, usize, usize, bool) {
    match action {
        Action::Send { to, message: ServerMessage::LogResponse { responder_term, ack, answer, .. } } => {
            (*to, *responder_term, *ack, *answer)
        }
        other => panic!("unexpected {:?}", other),
    }
}

#[test]
fn log_request_is_appended_and_acknowledged() {
    let mut s = follower(1, 3);
    let (equal, actions) =
        s.handle_log_request(0, 1, 0, 0, 1, vec![entry("a", 1), entry("b", 1)]);
    assert!(equal);
    assert_eq!(s.info.current_term, 1);
    assert_eq!(s.info.current_leader, Some(0));
    assert_eq!(s.info.log.len(), 2);
    assert_eq!(s.info.log[1].data, "b");
    assert_eq!(s.info.commit_length, 1);
    assert_eq!(actions.len(), 2);
    assert!(matches!(actions[0], Action::ResetTimer { message: ServerMessage::TimerExpired, seconds: 10 }));
    assert_eq!(log_response(&actions[1]), (0, 1, 2, true));
}

#[test]
fn log_request_with_missing_prefix_is_refused() {
    let mut s = follower(1, 3);
    s.info.current_term = 1;
    s.info.log = vec![entry("a", 1)];
    let (equal, actions) = s.handle_log_request(0, 1, 2, 1, 0, vec![entry("c", 1)]);
    assert!(equal);
    assert_eq!(s.info.log.len(), 1);
    assert_eq!(log_response(&actions[1]), (0, 1, 0, false));
    // prefix term mismatch
    let (_, actions) = s.handle_log_request(0, 1, 1, 5, 0, vec![entry("c", 1)]);
    assert_eq!(log_response(&actions[1]), (0, 1, 0, false));
}

#[test]
fn log_request_of_older_term_is_refused_without_timer() {
    let mut s = follower(1, 3);
    s.info.current_term = 3;
    let (equal, actions) = s.handle_log_request(0, 2, 0, 0, 0, vec![entry("a", 2)]);
    assert!(!equal);
    assert_eq!(s.info.current_leader, None);
    assert_eq!(actions.len(), 1);
    assert_eq!(log_response(&actions[0]), (0, 3, 0, false));
}

#[test]
fn conflicting_entries_are_replaced() {
    let mut s = follower(1, 3);
    s.info.current_term = 2;
    s.info.log = vec![entry("a", 1), entry("x", 1), entry("y", 1)];
    let (_, actions) = s.handle_log_request(0, 2, 1, 1, 0, vec![entry("b", 2)]);
    assert_eq!(s.info.log.len(), 2);
    assert_eq!(s.info.log[0].data, "a");
    assert_eq!(s.info.log[1].data, "b");
    assert_eq!(s.info.log[1].term, 2);
    assert_eq!(log_response(&actions[1]), (0, 2, 2, true));
}

#[test]
fn matching_entries_are_kept() {
    let mut s = follower(1, 3);
    s.info.current_term = 1;
    s.info.log = vec![entry("a", 1), entry("b", 1), entry("c", 1)];
    let _ = s.handle_log_request(0, 1, 1, 1, 0, vec![entry("b", 1)]);
    assert_eq!(s.info.log.len(), 3);
    assert_eq!(s.info.log[2].data, "c");
}

#[test]
fn commit_length_only_grows_from_log_requests() {
    let mut s = follower(1, 3);
    s.info.current_term = 1;
    s.info.commit_length = 4;
    let _ = s.handle_log_request(0, 1, 0, 0, 2, vec![]);
    assert_eq!(s.info.commit_length, 4);
}

#[test]
fn replicate_log_sends_entries_past_sent_length() {
    let mut l = leader_of(0, 3, 2, vec![entry("a", 1), entry("b", 2), entry("c", 2)]);
    l.info.sent_length.insert(1, 1);
    l.info.commit_length = 1;
    match l.replicate_log(1) {
        Action::Send {
            to,
            message:
                ServerMessage::LogRequest {
                    leader_id,
                    current_term,
                    prefix_len,
                    prefix_term,
                    commit_length,
                    suffix,
                },
        } => {
            assert_eq!((to, leader_id, current_term, prefix_len, commit_length), (1, 0, 2, 1, 1));
            // the prefix term is the term of the leader's last entry
            assert_eq!(prefix_term, 2);
            assert_eq!(suffix.len(), 2);
            assert_eq!(suffix[0].data, "b");
            assert_eq!(suffix[1].data, "c");
        }
        other => panic!("unexpected {:?}", other),
    }
}

#[test]
fn follower_timer_starts_an_election() {
    let mut s = follower(1, 3);
    s.info.current_term = 4;
    s.info.log = vec![entry("a", 3)];
    let (next, actions) = s.handle_server_message(ServerMessage::TimerExpired);
    assert_eq!(role(&next), Role::Candidate);
    assert_eq!(info(&next).current_term, 5);
    assert_eq!(info(&next).voted_for, Some(1));
    assert_eq!(info(&next).votes_received, vec![1]);
    assert_eq!(actions.len(), 3);
    assert!(matches!(actions[0], Action::ResetTimer { message: ServerMessage::TimerExpired, seconds: 10 }));
    for (action, to_expected) in actions[1..].iter().zip([0usize, 2]) {
        match action {
            Action::Send {
                to,
                message:
                    ServerMessage::VoteRequest { candidate_id, candidate_term, log_length, last_term },
            } => {
                assert_eq!((*to, *candidate_id, *candidate_term, *log_length, *last_term), (to_expected, 1, 5, 1, 3));
            }
            other => panic!("unexpected {:?}", other),
        }
    }
}

#[test]
fn candidate_announcement_has_empty_log() {
    let c = follower(2, 3).to_candidate();
    let actions = c.candidate();
    assert_eq!(actions.len(), 2);
    assert!(matches!(
        actions[0],
        Action::Send { to: 0, message: ServerMessage::VoteRequest { candidate_id: 2, candidate_term: 0, log_length: 0, last_term: 0 } }
    ));
}

fn elected_candidate() -> (Node, Vec<Action>) {
    let s = follower(0, 5);
    let (node, _) = s.handle_server_message(ServerMessage::TimerExpired);
    let (node, actions) = node.handle_server_message(ServerMessage::VoteResponse {
        responser_id: 1,
        responder_term: 1,
        response: true,
    });
    assert_eq!(role(&node), Role::Candidate);
    assert!(actions.is_empty());
    node.handle_server_message(ServerMessage::VoteResponse {
        responser_id: 2,
        responder_term: 1,
        response: true,
    })
}

#[test]
fn quorum_of_votes_makes_a_leader() {
    let (node, actions) = elected_candidate();
    assert_eq!(role(&node), Role::Leader);
    assert_eq!(info(&node).votes_received, vec![0, 1, 2]);
    assert_eq!(info(&node).current_leader, Some(0));
    for k in 1..5usize {
        assert_eq!(info(&node).sent_length[&k], 0);
        assert_eq!(info(&node).acked_length[&k], 0);
    }
    assert_eq!(actions.len(), 5);
    for (i, action) in actions[..4].iter().enumerate() {
        match action {
            Action::Send { to, message: ServerMessage::LogRequest { prefix_len, suffix, .. } } => {
                assert_eq!(*to, i + 1);
                assert_eq!(*prefix_len, 0);
                assert!(suffix.is_empty());
            }
            other => panic!("unexpected {:?}", other),
        }
    }
    assert!(matches!(actions[4], Action::SendToSelf { message: ServerMessage::SendHeartBeat }));
}

#[test]
fn refused_or_stale_votes_do_not_count() {
    let s = follower(0, 5);
    let (node, _) = s.handle_server_message(ServerMessage::TimerExpired);
    let (node, _) = node.handle_server_message(ServerMessage::VoteResponse {
        responser_id: 1,
        responder_term: 1,
        response: false,
    });
    let (node, _) = node.handle_server_message(ServerMessage::VoteResponse {
        responser_id: 2,
        responder_term: 0,
        response: true,
    });
    assert_eq!(role(&node), Role::Candidate);
    assert_eq!(info(&node).votes_received, vec![0]);
}

#[test]
fn newer_vote_response_turns_candidate_into_follower() {
    let s = follower(0, 5);
    let (node, _) = s.handle_server_message(ServerMessage::TimerExpired);
    let (node, actions) = node.handle_server_message(ServerMessage::VoteResponse {
        responser_id: 1,
        responder_term: 9,
        response: false,
    });
    assert_eq!(role(&node), Role::Follower);
    assert_eq!(info(&node).current_term, 9);
    assert_eq!(info(&node).voted_for, None);
    assert_eq!(actions.len(), 1);
}

#[test]
fn candidate_log_response_turns_it_into_follower() {
    let s = follower(0, 5);
    let (node, _) = s.handle_server_message(ServerMessage::TimerExpired);
    let (node, actions) = node.handle_server_message(ServerMessage::LogResponse {
        responder_id: 1,
        responder_term: 1,
        ack: 0,
        answer: false,
    });
    assert_eq!(role(&node), Role::Follower);
    assert_eq!(info(&node).current_term, 1);
    assert!(actions.is_empty());
}

#[test]
fn candidate_retries_client_data_later() {
    let c = follower(0, 3).to_candidate();
    let (stop, node, actions) = c.handle_order(Order::SendInfo { info: "x".to_string() });
    assert!(!stop);
    assert_eq!(role(&node), Role::Candidate);
    match &actions[..] {
        [Action::SendToSelfLater { message: ServerMessage::SendInfo { msg }, seconds: 1 }] => {
            assert_eq!(msg, "x")
        }
        other => panic!("unexpected {:?}", other),
    }
}

#[test]
fn follower_forwards_client_data_to_leader() {
    let mut s = follower(1, 3);
    s.info.current_leader = Some(2);
    let (stop, _node, actions) = s.handle_order(Order::SendInfo { info: "x".to_string() });
    assert!(!stop);
    match &actions[..] {
        [Action::Send { to: 2, message: ServerMessage::SendInfo { msg } }] => assert_eq!(msg, "x"),
        other => panic!("unexpected {:?}", other),
    }
}

#[test]
fn leader_appends_client_data_and_replicates() {
    let l = leader_of(0, 3, 1, vec![]);
    let (stop, node, actions) = l.handle_order(Order::SendInfo { info: "hello".to_string() });
    assert!(!stop);
    assert_eq!(role(&node), Role::Leader);
    assert_eq!(info(&node).log.len(), 1);
    assert_eq!(info(&node).log[0].data, "hello");
    assert_eq!(info(&node).log[0].term, 1);
    assert_eq!(info(&node).acked_length[&0], 1);
    assert_eq!(actions.len(), 3);
    assert!(matches!(actions[0], Action::ResetTimer { message: ServerMessage::SendHeartBeat, seconds: 2 }));
    match &actions[1] {
        Action::Send { to: 1, message: ServerMessage::LogRequest { suffix, prefix_len: 0, .. } } => {
            assert_eq!(suffix.len(), 1)
        }
        other => panic!("unexpected {:?}", other),
    }
}

#[test]
fn disconnected_leader_sends_nothing() {
    let l = leader_of(0, 3, 1, vec![]);
    let (_, node, _) = l.handle_order(Order::Disconnect);
    assert!(!activated(&node));
    let (node, actions) = node.handle_server_message(ServerMessage::SendHeartBeat);
    assert!(actions.is_empty());
    let (_, node, _) = node.handle_order(Order::Reconnect);
    assert!(activated(&node));
    let (_, actions) = node.handle_server_message(ServerMessage::SendHeartBeat);
    assert_eq!(actions.len(), 3);
}

#[test]
fn leader_commits_what_a_quorum_acknowledged() {
    let log = vec![entry("a", 2), entry("b", 2), entry("c", 2), entry("d", 2)];
    let mut l = leader_of(0, 5, 2, log);
    l.info.acked_length.insert(0, 4);
    l.info.acked_length.insert(1, 3);
    let (node, actions) = l.handle_server_message(ServerMessage::LogResponse {
        responder_id: 2,
        responder_term: 2,
        ack: 3,
        answer: true,
    });
    assert_eq!(role(&node), Role::Leader);
    assert_eq!(info(&node).sent_length[&2], 3);
    assert_eq!(info(&node).acked_length[&2], 3);
    // three servers hold 3 entries: length 3 is committed
    assert_eq!(info(&node).commit_length, 3);
    // the entries from 0 up to (not including) ready - 1 = 2 are delivered
    let delivered: Vec<String> = actions
        .iter()
        .map(|a| match a {
            Action::Deliver { data } => data.clone(),
            other => panic!("unexpected {:?}", other),
        })
        .collect();
    assert_eq!(delivered, vec!["a".to_string(), "b".to_string()]);
}

#[test]
fn leader_does_not_commit_entries_of_older_terms_or_the_whole_log() {
    let log = vec![entry("a", 1), entry("b", 2)];
    let mut l = leader_of(0, 3, 2, log);
    l.info.acked_length.insert(0, 2);
    let (node, actions) = l.handle_server_message(ServerMessage::LogResponse {
        responder_id: 1,
        responder_term: 2,
        ack: 2,
        answer: true,
    });
    // lengths are sought below the log length: only 1 qualifies, whose
    // entry is of term 1, so nothing is committed
    assert_eq!(info(&node).commit_length, 0);
    assert!(actions.is_empty());
}

#[test]
fn failed_log_response_steps_back_and_retries() {
    let mut l = leader_of(0, 3, 1, vec![entry("a", 1), entry("b", 1)]);
    l.info.sent_length.insert(1, 2);
    let (node, actions) = l.handle_server_message(ServerMessage::LogResponse {
        responder_id: 1,
        responder_term: 1,
        ack: 0,
        answer: false,
    });
    assert_eq!(info(&node).sent_length[&1], 1);
    match &actions[..] {
        [Action::Send { to: 1, message: ServerMessage::LogRequest { prefix_len: 1, suffix, .. } }] => {
            assert_eq!(suffix.len(), 1)
        }
        other => panic!("unexpected {:?}", other),
    }
}

#[test]
fn failed_log_response_at_zero_changes_nothing() {
    let l = leader_of(0, 3, 1, vec![]);
    let (node, actions) = l.handle_server_message(ServerMessage::LogResponse {
        responder_id: 1,
        responder_term: 1,
        ack: 0,
        answer: false,
    });
    assert_eq!(info(&node).sent_length[&1], 0);
    assert!(actions.is_empty());
}

#[test]
fn newer_term_makes_leader_step_down() {
    let l = leader_of(0, 3, 1, vec![]);
    let (node, actions) = l.handle_server_message(ServerMessage::LogResponse {
        responder_id: 1,
        responder_term: 3,
        ack: 0,
        answer: false,
    });
    assert_eq!(role(&node), Role::Follower);
    assert_eq!(info(&node).current_term, 3);
    assert_eq!(actions.len(), 1);

    let l = leader_of(0, 3, 1, vec![]);
    let (node, actions) = l.handle_server_message(ServerMessage::VoteRequest {
        candidate_id: 2,
        candidate_term: 2,
        log_length: 0,
        last_term: 0,
    });
    assert_eq!(role(&node), Role::Follower);
    assert_eq!(info(&node).voted_for, Some(2));
    assert_eq!(vote_response(&actions), (2, 0, 2, true));
}

#[test]
fn leader_lists_its_log() {
    let l = leader_of(0, 3, 1, vec![entry("a", 1), entry("b", 1)]);
    let (stop, _node, actions) = l.handle_order(Order::ListLog);
    assert!(!stop);
    match &actions[..] {
        [Action::ShowLog { entries }] => assert_eq!(entries, &vec!["a".to_string(), "b".to_string()]),
        other => panic!("unexpected {:?}", other),
    }
}

#[test]
fn exit_stops_followers_and_candidates_but_not_leaders() {
    let (stop, _, _) = follower(0, 3).handle_order(Order::Exit);
    assert!(stop);
    let (stop, _, _) = follower(0, 3).to_candidate().handle_order(Order::Exit);
    assert!(stop);
    let (stop, node, _) = leader_of(0, 3, 1, vec![]).handle_order(Order::Exit);
    assert!(!stop);
    assert_eq!(role(&node), Role::Leader);
}

#[test]
fn orders_convert_between_follower_and_candidate() {
    let (_, node, _) = follower(0, 3).handle_order(Order::ConvertToCandidate);
    assert_eq!(role(&node), Role::Candidate);
    assert_eq!(info(&node).current_term, 0);
    let (_, node, _) = node.handle_order(Order::ConvertToFollower);
    assert_eq!(role(&node), Role::Follower);
    let (_, node, _) = node.handle_order(Order::ConvertToFollower);
    assert_eq!(role(&node), Role::Follower);
}

#[test]
fn follower_disconnect_and_reconnect_flip_activation() {
    let (_, node, actions) = follower(0, 3).handle_order(Order::Disconnect);
    assert!(!activated(&node));
    assert!(actions.is_empty());
    let (_, node, _) = node.handle_order(Order::Reconnect);
    assert!(activated(&node));
}

#[test]
fn heartbeat_message_restarts_election_timer() {
    let (node, actions) =
        follower(0, 3).handle_server_message(ServerMessage::HeartBeatSent { leader_id: 1, current_term: 0 });
    assert_eq!(role(&node), Role::Follower);
    assert!(matches!(actions[..], [Action::ResetTimer { message: ServerMessage::TimerExpired, seconds: 10 }]));
}

#[test]
fn candidate_follows_leader_of_its_term() {
    let s = follower(0, 3);
    let (node, _) = s.handle_server_message(ServerMessage::TimerExpired);
    let (node, actions) = node.handle_server_message(ServerMessage::LogRequest {
        leader_id: 2,
        current_term: 1,
        prefix_len: 0,
        prefix_term: 0,
        commit_length: 0,
        suffix: vec![entry("z", 1)],
    });
    assert_eq!(role(&node), Role::Follower);
    assert_eq!(info(&node).current_leader, Some(2));
    assert_eq!(info(&node).log.len(), 1);
    assert_eq!(actions.len(), 2);
}

#[test]
fn follower_ignores_pings_and_leader_ignores_log_requests() {
    let (node, actions) = follower(0, 3).handle_server_message(ServerMessage::Ping { from: 1, to: 0 });
    assert_eq!(role(&node), Role::Follower);
    assert!(actions.is_empty());
    let (node, actions) = leader_of(0, 3, 1, vec![]).handle_server_message(ServerMessage::LogRequest {
        leader_id: 2,
        current_term: 5,
        prefix_len: 0,
        prefix_term: 0,
        commit_length: 0,
        suffix: vec![],
    });
    assert_eq!(role(&node), Role::Leader);
    assert_eq!(info(&node).current_term, 1);
    assert!(actions.is_empty());
}

// Concrete instances of the laws.

#[test]
fn law_one_vote_per_term() {
    let mut s = follower(3, 5);
    let mut granted = Vec::new();
    for candidate in [0usize, 1, 2, 0, 4] {
        let (_, actions) = s.handle_vote_request(candidate, 7, 0, 0);
        let (to, _, term, response) = vote_response(&actions);
        if response {
            granted.push((to, term));
        }
    }
    assert_eq!(granted, vec![(0, 7), (0, 7)]);
    assert_eq!(s.info.voted_for, Some(0));
}

#[test]
fn law_term_and_commit_never_go_down() {
    let mut s = follower(1, 3);
    s.info.current_term = 5;
    s.info.commit_length = 3;
    s.info.log = vec![entry("a", 1), entry("b", 1), entry("c", 5)];
    let (node, _) = s.handle_server_message(ServerMessage::LogRequest {
        leader_id: 0,
        current_term: 2,
        prefix_len: 0,
        prefix_term: 0,
        commit_length: 0,
        suffix: vec![],
    });
    assert_eq!(info(&node).current_term, 5);
    assert_eq!(info(&node).commit_length, 3);
    let (node, _) = node.handle_server_message(ServerMessage::VoteResponse {
        responser_id: 0,
        responder_term: 1,
        response: true,
    });
    assert_eq!(info(&node).current_term, 5);
}

#[test]
fn law_leader_log_only_grows() {
    let l = leader_of(0, 3, 1, vec![entry("a", 1)]);
    let (_, node, _) = l.handle_order(Order::SendInfo { info: "b".to_string() });
    let (node, _) = node.handle_server_message(ServerMessage::SendInfo { msg: "c".to_string() });
    let data: Vec<&str> = info(&node).log.iter().map(|e| e.data.as_str()).collect();
    assert_eq!(data, vec!["a", "b", "c"]);
}

#[test]
fn law_appended_log_keeps_prefix_and_ends_with_suffix_term() {
    let mut s = follower(1, 3);
    s.info.current_term = 3;
    s.info.log = vec![entry("a", 1), entry("b", 2), entry("c", 2), entry("d", 2)];
    let _ = s.handle_log_request(0, 3, 2, 2, 0, vec![entry("x", 3), entry("y", 3)]);
    assert_eq!(s.info.log.len(), 4);
    assert_eq!(s.info.log[0].data, "a");
    assert_eq!(s.info.log[1].data, "b");
    assert_eq!(s.info.log[3].term, 3);
}

#[test]
fn law_election_needs_a_quorum() {
    // in a cluster of 5, two votes (the candidate's own and one more) are
    // not enough, three are
    let (node, _) = elected_candidate();
    assert_eq!(role(&node), Role::Leader);
    assert!(info(&node).votes_received.len() >= 3);
}

#[test]
fn candidate_server_value_can_be_built_from_parts() {
    let c: Server<Candidate> = follower(0, 2).to_candidate();
    let f = c.to_follower();
    assert_eq!(f.get_name(), 0);
}
