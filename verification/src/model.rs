//! The mathematical model of a server: its state as plain values, and, for
//! every event, the next state and the actions that the event causes.
use vstd::prelude::*;

use crate::message::{ActionView, LogEntry, MessageView, Order};

verus! {

/// The role a server plays in the protocol.
#[derive(Debug, Clone, Copy, PartialEq, Eq, Structural)]
pub enum Role {
    Initial,
    Follower,
    Candidate,
    Leader,
}

/// Everything a server knows, as values.
pub struct ServerView {
    pub name: usize,
    pub neighbours: Seq<usize>,
    pub current_term: usize,
    pub voted_for: Option<usize>,
    pub log: Seq<LogEntry>,
    pub commit_length: usize,
    pub current_leader: Option<usize>,
    pub votes_received: Seq<usize>,
    pub sent_length: Map<usize, usize>,
    pub acked_length: Map<usize, usize>,
    pub activated: bool,
    pub election_timeout: usize,
    pub heartbeat_timeout: usize,
    pub total_elements: usize,
}

/// A role, a state and the actions that lead to them.
pub type Step = (Role, ServerView, Seq<ActionView>);

/// The term of the last log entry, 0 for an empty log.
pub open spec fn last_log_term(log: Seq<LogEntry>) -> usize {
    if log.len() == 0 {
        0
    } else {
        log.last().term
    }
}

/// Seconds until a timer for `message` fires: `time` when given, else the
/// election timeout for `TimerExpired`, the heartbeat timeout for
/// `SendHeartBeat`, and 10 for any other message.
pub open spec fn timer_seconds(s: ServerView, message: MessageView, time: Option<usize>) -> usize {
    match time {
        Some(t) => t,
        None => match message {
            MessageView::TimerExpired => s.election_timeout,
            MessageView::SendHeartBeat => s.heartbeat_timeout,
            _ => 10,
        },
    }
}

/// Restarting the timer so that it delivers `message`.
pub open spec fn reset_timer(s: ServerView, message: MessageView, time: Option<usize>) -> ActionView {
    ActionView::ResetTimer { message: message, seconds: timer_seconds(s, message, time) }
}

/// Restarting the election timer.
pub open spec fn election_timer(s: ServerView) -> ActionView {
    reset_timer(s, MessageView::TimerExpired, None)
}

/// The same message sent to each of `ids`, in order.
pub open spec fn broadcast(ids: Seq<usize>, m: MessageView) -> Seq<ActionView> {
    ids.map_values(|id: usize| ActionView::Send { to: id, message: m })
}

/// The state after adopting a newer `term`: no vote cast in it yet.
pub open spec fn with_term(s: ServerView, term: usize) -> ServerView {
    ServerView { current_term: term, voted_for: None, ..s }
}

/// The number of votes (or acknowledgements) that make a majority:
/// `total + 1` halved, rounded up.
pub open spec fn quorum(total: usize) -> int {
    (total + 2) / 2
}

/// Answering a vote request; the boolean tells whether the request carried
/// a newer term.
pub open spec fn vote_request_step(
    s: ServerView,
    candidate_id: usize,
    candidate_term: usize,
    candidate_log_length: usize,
    candidate_log_term: usize,
) -> (ServerView, bool, Seq<ActionView>) {
    let newer = candidate_term > s.current_term;
    let s1 = if newer { with_term(s, candidate_term) } else { s };
    let last = last_log_term(s1.log);
    let log_ok = candidate_log_term > last || (candidate_log_term == last
        && candidate_log_length >= s1.log.len());
    let voted_ok = s1.voted_for is None || s1.voted_for == Some(candidate_id);
    let answer = candidate_term == s1.current_term && log_ok && voted_ok;
    let s2 = if answer { ServerView { voted_for: Some(candidate_id), ..s1 } } else { s1 };
    let response = MessageView::VoteResponse {
        responser_id: s.name,
        responder_term: s2.current_term,
        response: answer,
    };
    (s2, newer, seq![ActionView::Send { to: candidate_id, message: response }])
}

/// Whether the log holds the entry that a log request builds on: none at
/// all, or entry `prefix_len - 1` with term `prefix_term`.
pub open spec fn log_request_ok(log: Seq<LogEntry>, prefix_len: usize, prefix_term: usize) -> bool {
    prefix_len == 0 || (prefix_len <= log.len() && log[prefix_len - 1].term == prefix_term)
}

/// Whether a server in state `s` accepts a log request of `leader_term`.
pub open spec fn log_request_accepted(
    s: ServerView,
    leader_term: usize,
    prefix_len: usize,
    prefix_term: usize,
) -> bool {
    leader_term >= s.current_term && log_request_ok(s.log, prefix_len, prefix_term)
}

/// The log after merging `suffix` in at `prefix_len`: when the suffix
/// conflicts with the log at the last position they share, the log is cut
/// back to `prefix_len`; then the part of the suffix beyond the log's end is
/// appended.
pub open spec fn appended_log(log: Seq<LogEntry>, prefix_len: usize, suffix: Seq<LogEntry>) -> Seq<
    LogEntry,
> {
    let cut = if suffix.len() > 0 && log.len() > prefix_len {
        let index: int = if log.len() < prefix_len + suffix.len() {
            log.len() - 1
        } else {
            prefix_len + suffix.len() - 1
        };
        if log[index].term != suffix[index - prefix_len].term {
            log.take(prefix_len as int)
        } else {
            log
        }
    } else {
        log
    };
    if prefix_len + suffix.len() > cut.len() {
        cut + suffix.skip(cut.len() - prefix_len)
    } else {
        cut
    }
}

/// The state after appending entries: the merged log, and the leader's
/// commit length when it is larger.
pub open spec fn append_entries_step(
    s: ServerView,
    prefix_len: usize,
    leader_commit: usize,
    suffix: Seq<LogEntry>,
) -> ServerView {
    ServerView {
        log: appended_log(s.log, prefix_len, suffix),
        commit_length: if leader_commit > s.commit_length {
            leader_commit
        } else {
            s.commit_length
        },
        ..s
    }
}

/// Handling a log request; the boolean tells whether it came from the
/// leader of the server's (possibly just adopted) term.
pub open spec fn log_request_step(
    s: ServerView,
    leader_id: usize,
    leader_term: usize,
    prefix_len: usize,
    prefix_term: usize,
    leader_commit: usize,
    suffix: Seq<LogEntry>,
) -> (ServerView, bool, Seq<ActionView>) {
    let s1 = if leader_term > s.current_term { with_term(s, leader_term) } else { s };
    let equal = leader_term == s1.current_term;
    let s2 = if equal { ServerView { current_leader: Some(leader_id), ..s1 } } else { s1 };
    let timer = if equal { seq![election_timer(s2)] } else { Seq::<ActionView>::empty() };
    let answer = equal && log_request_ok(s2.log, prefix_len, prefix_term);
    if answer {
        let response = MessageView::LogResponse {
            responder_id: s.name,
            responder_term: s2.current_term,
            ack: (prefix_len + suffix.len()) as usize,
            answer: true,
        };
        (
            append_entries_step(s2, prefix_len, leader_commit, suffix),
            equal,
            timer.push(ActionView::Send { to: leader_id, message: response }),
        )
    } else {
        let response = MessageView::LogResponse {
            responder_id: s.name,
            responder_term: s2.current_term,
            ack: 0,
            answer: false,
        };
        (s2, equal, timer.push(ActionView::Send { to: leader_id, message: response }))
    }
}

/// The log request a leader sends to `follower`: everything past what the
/// follower is believed to hold.
pub open spec fn replicate(s: ServerView, follower: usize) -> ActionView {
    let prefix_len = s.sent_length[follower];
    ActionView::Send {
        to: follower,
        message: MessageView::LogRequest {
            leader_id: s.name,
            current_term: s.current_term,
            prefix_len: prefix_len,
            prefix_term: last_log_term(s.log),
            commit_length: s.commit_length,
            suffix: s.log.skip(prefix_len as int),
        },
    }
}

/// Log requests to each of `ids`, in order.
pub open spec fn replicate_all(s: ServerView, ids: Seq<usize>) -> Seq<ActionView> {
    ids.map_values(|id: usize| replicate(s, id))
}

/// A leader's round of log requests: when activated, the heartbeat timer is
/// restarted and every neighbour gets a log request; otherwise nothing.
pub open spec fn broadcast_replicate(s: ServerView) -> Seq<ActionView> {
    if s.activated {
        seq![reset_timer(s, MessageView::SendHeartBeat, Some(2usize))] + replicate_all(
            s,
            s.neighbours,
        )
    } else {
        Seq::empty()
    }
}

/// The number of servers that acknowledged at least `len` entries.
pub open spec fn acks(acked: Map<usize, usize>, len: int) -> nat {
    acked.dom().filter(|k: usize| acked[k] >= len).len()
}

/// `r` is the largest length below `log_len` (and at least 1) that `quorum`
/// servers acknowledged.
pub open spec fn is_max_ready(acked: Map<usize, usize>, log_len: int, quorum: int, r: int) -> bool {
    &&& 1 <= r < log_len
    &&& acks(acked, r) >= quorum
    &&& forall|r2: int| r < r2 < log_len ==> acks(acked, r2) < quorum
}

/// The largest length below `log_len` that a quorum acknowledged, if any.
pub open spec fn max_ready(acked: Map<usize, usize>, log_len: int, quorum: int) -> Option<int> {
    if exists|r: int| is_max_ready(acked, log_len, quorum, r) {
        Some(choose|r: int| is_max_ready(acked, log_len, quorum, r))
    } else {
        None
    }
}

/// Handing the data of `log[from..to]` to the application.
pub open spec fn deliveries(log: Seq<LogEntry>, from: int, to: int) -> Seq<ActionView> {
    log.subrange(from, to).map_values(|e: LogEntry| ActionView::Deliver { data: e.data })
}

/// A leader's commit: the largest acknowledged length `ready` is committed
/// when it is beyond the commit length and its last entry is of the current
/// term; the entries from the old commit length up to `ready - 1` are
/// delivered.
pub open spec fn commit_step(s: ServerView) -> (ServerView, Seq<ActionView>) {
    match max_ready(s.acked_length, s.log.len() as int, quorum(s.total_elements)) {
        Some(ready) => if ready > s.commit_length && s.log[ready - 1].term == s.current_term {
            (
                ServerView { commit_length: ready as usize, ..s },
                deliveries(s.log, s.commit_length as int, ready - 1),
            )
        } else {
            (s, Seq::empty())
        },
        None => (s, Seq::empty()),
    }
}

/// Standing for election: a new term, a vote for oneself, and a vote request
/// to every neighbour.
pub open spec fn candidacy(s: ServerView) -> (ServerView, Seq<ActionView>) {
    let s1 = ServerView {
        current_term: (s.current_term + 1) as usize,
        voted_for: Some(s.name),
        votes_received: seq![s.name],
        ..s
    };
    let request = MessageView::VoteRequest {
        candidate_id: s.name,
        candidate_term: s1.current_term,
        log_length: s.log.len() as usize,
        last_term: last_log_term(s.log),
    };
    (s1, seq![election_timer(s1)] + broadcast(s.neighbours, request))
}

/// Seeing a reply of term `term`: a newer term is adopted (and the election
/// timer restarted), and the server becomes `on_newer`; otherwise nothing
/// changes and it stays `otherwise`.
pub open spec fn reply_term_step(s: ServerView, term: usize, on_newer: Role, otherwise: Role) -> Step {
    if term > s.current_term {
        let s1 = with_term(s, term);
        (on_newer, s1, seq![election_timer(s1)])
    } else {
        (otherwise, s, Seq::empty())
    }
}

/// The state of a server that has just won an election: it knows itself as
/// leader, believes every neighbour holds its whole log, and has no
/// acknowledgement from any of them.
pub open spec fn elected(s: ServerView) -> ServerView {
    ServerView {
        current_leader: Some(s.name),
        sent_length: s.sent_length.union_prefer_right(
            Map::new(|k: usize| s.neighbours.contains(k), |k: usize| s.log.len() as usize),
        ),
        acked_length: s.acked_length.union_prefer_right(
            Map::new(|k: usize| s.neighbours.contains(k), |k: usize| 0usize),
        ),
        ..s
    }
}

/// A candidate receiving a vote response.
pub open spec fn candidate_vote_step(
    s: ServerView,
    responser_id: usize,
    responder_term: usize,
    response: bool,
) -> Step {
    if responder_term == s.current_term && response {
        let s1 = ServerView { votes_received: s.votes_received.push(responser_id), ..s };
        if s1.votes_received.len() >= quorum(s.total_elements) {
            let s2 = elected(s1);
            (
                Role::Leader,
                s2,
                replicate_all(s2, s.neighbours).push(
                    ActionView::SendToSelf { message: MessageView::SendHeartBeat },
                ),
            )
        } else {
            (Role::Candidate, s1, Seq::empty())
        }
    } else {
        reply_term_step(s, responder_term, Role::Follower, Role::Candidate)
    }
}

/// A leader appending the client data `msg` to its log and sending a round
/// of log requests.
pub open spec fn leader_append(s: ServerView, msg: String) -> (ServerView, Seq<ActionView>) {
    let s1 = ServerView {
        log: s.log.push(LogEntry { data: msg, term: s.current_term }),
        acked_length: s.acked_length.insert(s.name, (s.log.len() + 1) as usize),
        ..s
    };
    (s1, broadcast_replicate(s1))
}

/// A leader receiving a log response.
pub open spec fn leader_log_response_step(
    s: ServerView,
    responder_id: usize,
    responder_term: usize,
    ack: usize,
    answer: bool,
) -> Step {
    if s.current_term == responder_term {
        if answer && ack >= s.acked_length[responder_id] {
            let s1 = ServerView {
                sent_length: s.sent_length.insert(responder_id, ack),
                acked_length: s.acked_length.insert(responder_id, ack),
                ..s
            };
            let (s2, a) = commit_step(s1);
            (Role::Leader, s2, a)
        } else if s.sent_length[responder_id] > 0 {
            let s1 = ServerView {
                sent_length: s.sent_length.insert(
                    responder_id,
                    (s.sent_length[responder_id] - 1) as usize,
                ),
                ..s
            };
            (Role::Leader, s1, seq![replicate(s1, responder_id)])
        } else {
            (Role::Leader, s, Seq::empty())
        }
    } else {
        reply_term_step(s, responder_term, Role::Follower, Role::Leader)
    }
}

/// A follower handling a message.
pub open spec fn follower_message_step(s: ServerView, m: MessageView) -> Step {
    match m {
        MessageView::LogRequest {
            leader_id,
            current_term,
            prefix_len,
            prefix_term,
            commit_length,
            suffix,
        } => {
            let (s1, _eq, a) = log_request_step(
                s,
                leader_id,
                current_term,
                prefix_len,
                prefix_term,
                commit_length,
                suffix,
            );
            (Role::Follower, s1, a)
        },
        MessageView::HeartBeatSent { .. } => (Role::Follower, s, seq![election_timer(s)]),
        MessageView::TimerExpired => {
            let (s1, a) = candidacy(s);
            (Role::Candidate, s1, a)
        },
        MessageView::VoteRequest { candidate_id, candidate_term, log_length, last_term } => {
            let (s1, _newer, a) = vote_request_step(
                s,
                candidate_id,
                candidate_term,
                log_length,
                last_term,
            );
            (Role::Follower, s1, a)
        },
        MessageView::LogResponse { responder_term, .. } => reply_term_step(
            s,
            responder_term,
            Role::Follower,
            Role::Follower,
        ),
        MessageView::VoteResponse { responder_term, .. } => reply_term_step(
            s,
            responder_term,
            Role::Follower,
            Role::Follower,
        ),
        _ => (Role::Follower, s, Seq::empty()),
    }
}

/// The message a candidate sends itself, one second later, for client data
/// that arrives while no leader is known.
pub open spec fn retry_later(msg: String) -> ActionView {
    ActionView::SendToSelfLater { message: MessageView::SendInfo { msg: msg }, seconds: 1 }
}

/// A candidate handling a message.
pub open spec fn candidate_message_step(s: ServerView, m: MessageView) -> Step {
    match m {
        MessageView::LogRequest {
            leader_id,
            current_term,
            prefix_len,
            prefix_term,
            commit_length,
            suffix,
        } => {
            let (s1, eq, a) = log_request_step(
                s,
                leader_id,
                current_term,
                prefix_len,
                prefix_term,
                commit_length,
                suffix,
            );
            (if eq { Role::Follower } else { Role::Candidate }, s1, a)
        },
        MessageView::HeartBeatSent { .. } => (Role::Candidate, s, seq![election_timer(s)]),
        MessageView::TimerExpired => {
            let (s1, a) = candidacy(s);
            (Role::Candidate, s1, a)
        },
        MessageView::VoteRequest { candidate_id, candidate_term, log_length, last_term } => {
            let (s1, newer, a) = vote_request_step(
                s,
                candidate_id,
                candidate_term,
                log_length,
                last_term,
            );
            (if newer { Role::Follower } else { Role::Candidate }, s1, a)
        },
        MessageView::VoteResponse { responser_id, responder_term, response } =>
            candidate_vote_step(s, responser_id, responder_term, response),
        MessageView::LogResponse { responder_term, .. } => reply_term_step(
            s,
            responder_term,
            Role::Follower,
            Role::Follower,
        ),
        MessageView::SendInfo { msg } => (Role::Candidate, s, seq![retry_later(msg)]),
        _ => (Role::Candidate, s, Seq::empty()),
    }
}

/// A leader handling a message.
pub open spec fn leader_message_step(s: ServerView, m: MessageView) -> Step {
    match m {
        MessageView::LogResponse { responder_id, responder_term, ack, answer } =>
            leader_log_response_step(s, responder_id, responder_term, ack, answer),
        MessageView::SendInfo { msg } => {
            let (s1, a) = leader_append(s, msg);
            (Role::Leader, s1, a)
        },
        MessageView::VoteResponse { responder_term, .. } => reply_term_step(
            s,
            responder_term,
            Role::Follower,
            Role::Leader,
        ),
        MessageView::VoteRequest { candidate_id, candidate_term, log_length, last_term } => {
            let (s1, newer, a) = vote_request_step(
                s,
                candidate_id,
                candidate_term,
                log_length,
                last_term,
            );
            (if newer { Role::Follower } else { Role::Leader }, s1, a)
        },
        MessageView::SendHeartBeat => (Role::Leader, s, broadcast_replicate(s)),
        _ => (Role::Leader, s, Seq::empty()),
    }
}

/// A server of role `role` handling a message.
pub open spec fn message_step(role: Role, s: ServerView, m: MessageView) -> Step {
    match role {
        Role::Initial => (Role::Initial, s, Seq::empty()),
        Role::Follower => follower_message_step(s, m),
        Role::Candidate => candidate_message_step(s, m),
        Role::Leader => leader_message_step(s, m),
    }
}

/// Whether the server is activated after an order (Disconnect and Reconnect
/// switch it off and on).
pub open spec fn with_activation(s: ServerView, activated: bool) -> ServerView {
    ServerView { activated: activated, ..s }
}

/// The data of each log entry, in order.
pub open spec fn log_data(log: Seq<LogEntry>) -> Seq<String> {
    log.map_values(|e: LogEntry| e.data)
}

/// A server of role `role` handling an order: whether it stops, its role,
/// its state and its actions.
pub open spec fn order_step(role: Role, s: ServerView, o: Order) -> (bool, Role, ServerView, Seq<
    ActionView,
>) {
    match role {
        Role::Initial => (true, Role::Initial, s, Seq::empty()),
        Role::Follower => match o {
            Order::SendInfo { info } => (
                false,
                Role::Follower,
                s,
                seq![
                    ActionView::Send {
                        to: s.current_leader->0,
                        message: MessageView::SendInfo { msg: info },
                    },
                ],
            ),
            Order::Disconnect => (false, Role::Follower, with_activation(s, false), Seq::empty()),
            Order::Reconnect => (false, Role::Follower, with_activation(s, true), Seq::empty()),
            Order::Exit => (true, Role::Follower, s, Seq::empty()),
            Order::ConvertToCandidate => (false, Role::Candidate, s, Seq::empty()),
            _ => (false, Role::Follower, s, Seq::empty()),
        },
        Role::Candidate => match o {
            Order::Disconnect => (false, Role::Candidate, with_activation(s, false), Seq::empty()),
            Order::Reconnect => (false, Role::Candidate, with_activation(s, true), Seq::empty()),
            Order::SendInfo { info } => (false, Role::Candidate, s, seq![retry_later(info)]),
            Order::Exit => (true, Role::Candidate, s, Seq::empty()),
            Order::ConvertToFollower => (false, Role::Follower, s, Seq::empty()),
            _ => (false, Role::Candidate, s, Seq::empty()),
        },
        Role::Leader => match o {
            Order::Disconnect => (false, Role::Leader, with_activation(s, false), Seq::empty()),
            Order::ListLog => (
                false,
                Role::Leader,
                s,
                seq![ActionView::ShowLog { entries: log_data(s.log) }],
            ),
            Order::Reconnect => (false, Role::Leader, with_activation(s, true), Seq::empty()),
            Order::SendInfo { info } => {
                let (s1, a) = leader_append(s, info);
                (false, Role::Leader, s1, a)
            },
            _ => (false, Role::Leader, s, Seq::empty()),
        },
    }
}

/// What a leader's bookkeeping must satisfy: each neighbour has a sent
/// length, and none lies beyond the log.
pub open spec fn leader_wf(s: ServerView) -> bool {
    forall|k: usize|
        #[trigger] s.neighbours.contains(k) ==> s.sent_length.contains_key(k)
            && s.sent_length[k] <= s.log.len()
}

/// The invariant of a server of role `role`.
pub open spec fn role_inv(role: Role, s: ServerView) -> bool {
    role == Role::Leader ==> leader_wf(s)
}

/// The messages a server of role `role` can handle without running into an
/// arithmetic overflow or a missing bookkeeping entry.
pub open spec fn message_ok(role: Role, s: ServerView, m: MessageView) -> bool {
    match m {
        MessageView::TimerExpired => (role == Role::Follower || role == Role::Candidate)
            ==> s.current_term < usize::MAX,
        MessageView::LogRequest { current_term, prefix_len, prefix_term, suffix, .. } => (role
            == Role::Follower || role == Role::Candidate) && log_request_accepted(
            s,
            current_term,
            prefix_len,
            prefix_term,
        ) ==> prefix_len + suffix.len() <= usize::MAX,
        MessageView::LogResponse { responder_id, responder_term, ack, answer } => role
            == Role::Leader && responder_term == s.current_term ==> log_response_ok(
            s,
            responder_id,
            ack,
            answer,
        ),
        _ => true,
    }
}

/// What a leader needs of a log response of its own term: the bookkeeping
/// entries it reads exist, and no length it stores lies beyond its log.
pub open spec fn log_response_ok(s: ServerView, responder_id: usize, ack: usize, answer: bool) -> bool {
    &&& answer ==> s.acked_length.contains_key(responder_id)
    &&& answer && ack >= s.acked_length[responder_id] ==> ack <= s.log.len()
    &&& !(answer && ack >= s.acked_length[responder_id]) ==> {
        &&& s.sent_length.contains_key(responder_id)
        &&& s.sent_length[responder_id] > 0 ==> s.sent_length[responder_id] - 1 <= s.log.len()
    }
}

/// The orders a server of role `role` can carry out: a follower can pass
/// client data on only once it knows a leader.
pub open spec fn order_ok(role: Role, s: ServerView, o: Order) -> bool {
    match o {
        Order::SendInfo { .. } => role == Role::Follower ==> s.current_leader is Some,
        _ => true,
    }
}

} // verus!

verus! {

/// The state of a new server named `name` in a cluster of `total` servers,
/// knowing `neighbours`: term 0, no vote, an empty log, nothing committed,
/// no leader, no bookkeeping, and the settings of `ServerSettings::new`.
pub open spec fn fresh(name: usize, total: usize, neighbours: Seq<usize>) -> ServerView {
    ServerView {
        name: name,
        neighbours: neighbours,
        current_term: 0,
        voted_for: None,
        log: Seq::empty(),
        commit_length: 0,
        current_leader: None,
        votes_received: Seq::empty(),
        sent_length: Map::empty(),
        acked_length: Map::empty(),
        activated: true,
        election_timeout: 10,
        heartbeat_timeout: 2,
        total_elements: total,
    }
}

/// The names `0..n` without `name`, in increasing order.
pub open spec fn others(n: usize, name: usize) -> Seq<usize> {
    Seq::new((n - 1) as nat, |k: int| if k < name { k as usize } else { (k + 1) as usize })
}

} // verus!
