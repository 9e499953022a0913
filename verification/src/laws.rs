//! Properties that hold of every step of a server.
use vstd::prelude::*;

use crate::message::{ActionView, LogEntry, MessageView, Order};
use crate::model::{
    acks, appended_log, broadcast, broadcast_replicate, candidacy, candidate_vote_step,
    commit_step, elected, is_max_ready, max_ready, last_log_term, leader_append, log_request_step, message_ok,
    message_step, order_ok, order_step, others, quorum, replicate_all, role_inv, Role,
    ServerView,
};

verus! {

/// Every message a server can handle keeps the server's invariant.
pub proof fn message_step_keeps_invariant(role: Role, s: ServerView, m: MessageView)
    requires
        role_inv(role, s),
        message_ok(role, s, m),
    ensures
        role_inv(message_step(role, s, m).0, message_step(role, s, m).1),
{
    let (r2, s2, _a) = message_step(role, s, m);
    if r2 == Role::Leader {
        if role == Role::Candidate {
            assert forall|k: usize| #[trigger] s2.neighbours.contains(k) implies s2.sent_length.contains_key(
                k,
            ) && s2.sent_length[k] <= s2.log.len() by {}
        } else {
            assert(role == Role::Leader);
            assert forall|k: usize| #[trigger] s2.neighbours.contains(k) implies s2.sent_length.contains_key(
                k,
            ) && s2.sent_length[k] <= s2.log.len() by {
                assert(s.neighbours.contains(k));
            }
        }
    }
}

/// Every order a server can carry out keeps the server's invariant.
pub proof fn order_step_keeps_invariant(role: Role, s: ServerView, o: Order)
    requires
        role_inv(role, s),
        order_ok(role, s, o),
    ensures
        role_inv(order_step(role, s, o).1, order_step(role, s, o).2),
{
    let (_stop, r2, s2, _a) = order_step(role, s, o);
    if r2 == Role::Leader {
        assert forall|k: usize| #[trigger] s2.neighbours.contains(k) implies s2.sent_length.contains_key(
            k,
        ) && s2.sent_length[k] <= s2.log.len() by {
            assert(s.neighbours.contains(k));
        }
    }
}

/// A server's term never goes down, whatever message it handles.
pub proof fn message_step_never_lowers_term(role: Role, s: ServerView, m: MessageView)
    requires
        message_ok(role, s, m),
    ensures
        message_step(role, s, m).1.current_term >= s.current_term,
{
}

/// Orders leave a server's term, vote and commit length as they are.
pub proof fn order_step_keeps_term_vote_and_commit(role: Role, s: ServerView, o: Order)
    ensures
        order_step(role, s, o).2.current_term == s.current_term,
        order_step(role, s, o).2.voted_for == s.voted_for,
        order_step(role, s, o).2.commit_length == s.commit_length,
{
}

/// Within one term a server's vote, once cast, stays with the same
/// candidate.
pub proof fn message_step_keeps_vote(role: Role, s: ServerView, m: MessageView, candidate: usize)
    requires
        message_ok(role, s, m),
        s.voted_for == Some(candidate),
        message_step(role, s, m).1.current_term == s.current_term,
    ensures
        message_step(role, s, m).1.voted_for == Some(candidate),
{
}

/// `a` grants a vote to `candidate` in `term`.
pub open spec fn grants_vote(a: ActionView, candidate: usize, term: usize) -> bool {
    a matches ActionView::Send {
        to,
        message: MessageView::VoteResponse { responder_term, response, .. },
    } && to == candidate && responder_term == term && response
}

/// `a` grants a vote to anyone.
pub open spec fn grants_any_vote(a: ActionView) -> bool {
    a matches ActionView::Send { message: MessageView::VoteResponse { response, .. }, .. }
        && response
}

/// None of the actions grants a vote.
pub open spec fn grants_no_vote(a: Seq<ActionView>) -> bool {
    forall|i: int| 0 <= i < a.len() ==> !grants_any_vote(#[trigger] a[i])
}

proof fn steps_without_votes(s: ServerView, m: MessageView)
    ensures
        forall|ids: Seq<usize>| grants_no_vote(#[trigger] replicate_all(s, ids)),
        grants_no_vote(broadcast_replicate(s)),
        grants_no_vote(candidacy(s).1),
        grants_no_vote(commit_step(s).1),
        forall|msg: String| grants_no_vote(#[trigger] leader_append(s, msg).1),
{
    assert forall|ids: Seq<usize>| grants_no_vote(#[trigger] replicate_all(s, ids)) by {
        assert forall|i: int| 0 <= i < replicate_all(s, ids).len() implies !grants_any_vote(
            #[trigger] replicate_all(s, ids)[i],
        ) by {}
    }
    let b = broadcast_replicate(s);
    if s.activated {
        assert forall|i: int| 0 <= i < b.len() implies !grants_any_vote(#[trigger] b[i]) by {
            if i > 0 {
                assert(b[i] == replicate_all(s, s.neighbours)[i - 1]);
            }
        }
    }
    let c = candidacy(s).1;
    assert forall|i: int| 0 <= i < c.len() implies !grants_any_vote(#[trigger] c[i]) by {
        if i > 0 {
            assert(c[i] == broadcast(
                s.neighbours,
                MessageView::VoteRequest {
                    candidate_id: s.name,
                    candidate_term: candidacy(s).0.current_term,
                    log_length: s.log.len() as usize,
                    last_term: last_log_term(s.log),
                },
            )[i - 1]);
        }
    }
    let d = commit_step(s).1;
    assert forall|i: int| 0 <= i < d.len() implies !grants_any_vote(#[trigger] d[i]) by {}
    assert forall|msg: String| grants_no_vote(#[trigger] leader_append(s, msg).1) by {
        let s1 = leader_append(s, msg).0;
        let b1 = broadcast_replicate(s1);
        if s1.activated {
            assert forall|i: int| 0 <= i < b1.len() implies !grants_any_vote(#[trigger] b1[i]) by {
                if i > 0 {
                    assert(b1[i] == replicate_all(s1, s1.neighbours)[i - 1]);
                }
            }
        }
    }
}

/// A server grants a vote only to the candidate its state records as its
/// vote, and only in its (new) current term: together with the law above, a
/// server grants at most one candidate its vote in a term.
pub proof fn granted_vote_is_recorded(
    role: Role,
    s: ServerView,
    m: MessageView,
    i: int,
    candidate: usize,
    term: usize,
)
    requires
        0 <= i < message_step(role, s, m).2.len(),
        grants_vote(message_step(role, s, m).2[i], candidate, term),
    ensures
        message_step(role, s, m).1.voted_for == Some(candidate),
        message_step(role, s, m).1.current_term == term,
{
    let a = message_step(role, s, m).2;
    assert(grants_any_vote(a[i]));
    steps_without_votes(s, m);
    match m {
        MessageView::VoteRequest { .. } => {},
        MessageView::LogRequest {
            leader_id,
            current_term,
            prefix_len,
            prefix_term,
            commit_length,
            suffix,
        } => {
            let l = log_request_step(
                s,
                leader_id,
                current_term,
                prefix_len,
                prefix_term,
                commit_length,
                suffix,
            ).2;
            assert(grants_no_vote(l));
        },
        MessageView::VoteResponse { responser_id, responder_term, response } => {
            if role == Role::Candidate && responder_term == s.current_term && response {
                let s1 = ServerView { votes_received: s.votes_received.push(responser_id), ..s };
                steps_without_votes(elected(s1), m);
                let c = candidate_vote_step(s, responser_id, responder_term, response).2;
                assert(grants_no_vote(c)) by {
                    if s1.votes_received.len() >= quorum(s.total_elements) {
                        assert forall|j: int| 0 <= j < c.len() implies !grants_any_vote(
                            #[trigger] c[j],
                        ) by {
                            if j < s.neighbours.len() {
                                assert(c[j] == replicate_all(elected(s1), s.neighbours)[j]);
                            }
                        }
                    }
                }
            }
        },
        MessageView::LogResponse { responder_id, responder_term, ack, answer } => {
            if role == Role::Leader && s.current_term == responder_term && answer && ack
                >= s.acked_length[responder_id] {
                let s1 = ServerView {
                    sent_length: s.sent_length.insert(responder_id, ack),
                    acked_length: s.acked_length.insert(responder_id, ack),
                    ..s
                };
                steps_without_votes(s1, m);
            }
        },
        _ => {},
    }
}

/// A server's commit length never goes down.
pub proof fn message_step_never_lowers_commit(role: Role, s: ServerView, m: MessageView)
    requires
        message_ok(role, s, m),
        s.log.len() <= usize::MAX,
    ensures
        message_step(role, s, m).1.commit_length >= s.commit_length,
{
    if let MessageView::LogResponse { responder_id, responder_term, ack, answer } = m {
        if role == Role::Leader && s.current_term == responder_term && answer && ack
            >= s.acked_length[responder_id] {
            let s1 = ServerView {
                sent_length: s.sent_length.insert(responder_id, ack),
                acked_length: s.acked_length.insert(responder_id, ack),
                ..s
            };
            commit_step_facts(s1);
        }
    }
}

/// What a commit step changes: at most the commit length, and only upwards,
/// to a length that a quorum acknowledged and whose last entry is of the
/// current term.
proof fn commit_step_facts(s: ServerView)
    requires
        s.log.len() <= usize::MAX,
    ensures
        commit_step(s).0 == (ServerView { commit_length: commit_step(s).0.commit_length, ..s }),
        commit_step(s).0.commit_length >= s.commit_length,
        commit_step(s).0.commit_length > s.commit_length ==> {
            &&& acks(s.acked_length, commit_step(s).0.commit_length as int) >= quorum(
                s.total_elements,
            )
            &&& commit_step(s).0.commit_length <= s.log.len()
            &&& s.log[commit_step(s).0.commit_length - 1].term == s.current_term
        },
{
    let q = quorum(s.total_elements);
    let n = s.log.len() as int;
    if exists|r: int| is_max_ready(s.acked_length, n, q, r) {
        let r = choose|r: int| is_max_ready(s.acked_length, n, q, r);
        assert(is_max_ready(s.acked_length, n, q, r));
        assert(max_ready(s.acked_length, n, q) == Some(r));
    }
}

/// A leader never removes or changes an entry of its log, whatever event it
/// handles.
pub proof fn leader_log_only_grows(s: ServerView, m: MessageView, o: Order)
    requires
        message_ok(Role::Leader, s, m),
    ensures
        message_step(Role::Leader, s, m).1.log.len() >= s.log.len(),
        message_step(Role::Leader, s, m).1.log.take(s.log.len() as int) == s.log,
        order_step(Role::Leader, s, o).2.log.len() >= s.log.len(),
        order_step(Role::Leader, s, o).2.log.take(s.log.len() as int) == s.log,
{
    assert(s.log.take(s.log.len() as int) =~= s.log);
    assert(s.log.push(LogEntry { data: arbitrary(), term: s.current_term }).take(
        s.log.len() as int,
    ) =~= s.log) by {
        assert forall|d: String, t: usize| #[trigger] s.log.push(LogEntry { data: d, term: t }).take(
            s.log.len() as int,
        ) =~= s.log by {}
    }
    assert forall|d: String, t: usize| #[trigger] s.log.push(LogEntry { data: d, term: t }).take(
        s.log.len() as int,
    ) =~= s.log by {}
}

/// A leader moves its commit length only to a length that a quorum of
/// servers acknowledged and whose last entry is of its current term.
pub proof fn leader_commits_only_acknowledged_entries(s: ServerView, m: MessageView)
    requires
        message_ok(Role::Leader, s, m),
        message_step(Role::Leader, s, m).1.commit_length > s.commit_length,
        s.log.len() <= usize::MAX,
    ensures
        ({
            let s2 = message_step(Role::Leader, s, m).1;
            &&& acks(s2.acked_length, s2.commit_length as int) >= quorum(s2.total_elements)
            &&& s2.commit_length <= s2.log.len()
            &&& s2.log[s2.commit_length - 1].term == s2.current_term
        }),
{
    if let MessageView::LogResponse { responder_id, responder_term, ack, answer } = m {
        if s.current_term == responder_term && answer && ack >= s.acked_length[responder_id] {
            let s1 = ServerView {
                sent_length: s.sent_length.insert(responder_id, ack),
                acked_length: s.acked_length.insert(responder_id, ack),
                ..s
            };
            commit_step_facts(s1);
        }
    }
}

/// A candidate becomes leader only with a quorum of votes, and then knows
/// itself as leader of its term and starts every neighbour from its whole
/// log with no acknowledgement.
pub proof fn leader_elected_by_quorum(s: ServerView, m: MessageView)
    requires
        message_step(Role::Candidate, s, m).0 == Role::Leader,
        s.log.len() <= usize::MAX,
    ensures
        ({
            let s2 = message_step(Role::Candidate, s, m).1;
            &&& s2.votes_received.len() >= quorum(s.total_elements)
            &&& s2.current_leader == Some(s.name)
            &&& s2.current_term == s.current_term
            &&& s2.log == s.log
            &&& forall|k: usize| #[trigger]
                s.neighbours.contains(k) ==> s2.sent_length[k] == s2.log.len()
                    && s2.acked_length[k] == 0
        }),
{
    if let MessageView::VoteResponse { responser_id, responder_term, response } = m {
        let s1 = ServerView { votes_received: s.votes_received.push(responser_id), ..s };
        let s2 = elected(s1);
        assert forall|k: usize| #[trigger] s.neighbours.contains(k) implies s2.sent_length[k]
            == s2.log.len() && s2.acked_length[k] == 0 by {}
    }
}

/// The term a message carries, for the messages that carry one.
pub open spec fn message_term(m: MessageView) -> Option<usize> {
    match m {
        MessageView::VoteRequest { candidate_term, .. } => Some(candidate_term),
        MessageView::VoteResponse { responder_term, .. } => Some(responder_term),
        MessageView::LogRequest { current_term, .. } => Some(current_term),
        MessageView::LogResponse { responder_term, .. } => Some(responder_term),
        _ => None,
    }
}

/// A candidate, or a leader, that sees a newer term in a message it handles
/// adopts that term and becomes a follower (a leader does not handle log
/// requests).
pub proof fn newer_term_makes_follower(role: Role, s: ServerView, m: MessageView)
    requires
        role == Role::Candidate || (role == Role::Leader && !(m is LogRequest)),
        message_ok(role, s, m),
        message_term(m) matches Some(t) && t > s.current_term,
    ensures
        message_step(role, s, m).0 == Role::Follower,
        message_step(role, s, m).1.current_term == message_term(m)->0,
{
}

/// Merging a suffix keeps the log up to the prefix, covers the whole
/// suffix, and ends the suffix's span with an entry of the suffix's last
/// term.
pub proof fn appended_log_keeps_prefix_and_matches_tail(
    log: Seq<LogEntry>,
    prefix_len: usize,
    suffix: Seq<LogEntry>,
)
    requires
        prefix_len <= log.len(),
    ensures
        appended_log(log, prefix_len, suffix).take(prefix_len as int) == log.take(
            prefix_len as int,
        ),
        appended_log(log, prefix_len, suffix).len() >= prefix_len + suffix.len(),
        suffix.len() > 0 ==> appended_log(log, prefix_len, suffix)[prefix_len + suffix.len()
            - 1].term == suffix.last().term,
{
    let l = appended_log(log, prefix_len, suffix);
    assert(l.take(prefix_len as int) =~= log.take(prefix_len as int));
}

/// A server stops exactly when it is not wired up yet, or when a follower
/// or candidate is told to exit.
pub proof fn order_stops_exactly_on_exit(role: Role, s: ServerView, o: Order)
    ensures
        order_step(role, s, o).0 <==> (role == Role::Initial || ((role == Role::Follower || role
            == Role::Candidate) && o is Exit)),
{
}

/// The term of the last entry of `log`, 0 for an empty log.
pub open spec fn last_entry_term(log: Seq<LogEntry>) -> usize {
    if log.len() == 0 {
        0
    } else {
        log[log.len() - 1].term
    }
}

/// A successful log response of the leader's term that moves the commit
/// length from `c` to `r` causes exactly the deliveries of the data of
/// `log[c]`, ..., `log[r - 2]`, in this order (nothing below the old commit
/// length is delivered again); when the commit length does not move it
/// causes no action at all.
pub proof fn leader_delivers_only_newly_committed_entries(
    s: ServerView,
    responder_id: usize,
    ack: usize,
)
    requires
        s.log.len() <= usize::MAX,
        s.acked_length.contains_key(responder_id),
        ack >= s.acked_length[responder_id],
    ensures
        ({
            let m = MessageView::LogResponse {
                responder_id: responder_id,
                responder_term: s.current_term,
                ack: ack,
                answer: true,
            };
            let (r2, s2, a) = message_step(Role::Leader, s, m);
            &&& r2 == Role::Leader
            &&& s2.log == s.log
            &&& s2.sent_length[responder_id] == ack
            &&& s2.acked_length[responder_id] == ack
            &&& s2.commit_length >= s.commit_length
            &&& s2.commit_length == s.commit_length ==> a.len() == 0
            &&& s2.commit_length > s.commit_length ==> {
                &&& a.len() == s2.commit_length - 1 - s.commit_length
                &&& forall|i: int|
                    0 <= i < a.len() ==> #[trigger] a[i] == (ActionView::Deliver {
                        data: s.log[s.commit_length + i].data,
                    })
            }
        }),
{
    let s1 = ServerView {
        sent_length: s.sent_length.insert(responder_id, ack),
        acked_length: s.acked_length.insert(responder_id, ack),
        ..s
    };
    commit_step_facts(s1);
    let (s2, a) = commit_step(s1);
    if s2.commit_length > s.commit_length {
        let q = quorum(s1.total_elements);
        let n = s1.log.len() as int;
        let r = choose|r: int| is_max_ready(s1.acked_length, n, q, r);
        assert(is_max_ready(s1.acked_length, n, q, r));
        assert(max_ready(s1.acked_length, n, q) == Some(r));
        assert forall|i: int| 0 <= i < a.len() implies #[trigger] a[i] == (ActionView::Deliver {
            data: s.log[s.commit_length + i].data,
        }) by {}
    }
}

/// Whether a log request's suffix conflicts with the log at the last
/// position both hold (the position that decides whether the log is cut).
pub open spec fn conflicts_at_last_shared(log: Seq<LogEntry>, prefix_len: int, suffix: Seq<
    LogEntry,
>) -> bool {
    &&& suffix.len() > 0
    &&& log.len() > prefix_len
    &&& ({
        let last = if log.len() < prefix_len + suffix.len() {
            log.len() - 1
        } else {
            prefix_len + suffix.len() - 1
        };
        log[last].term != suffix[last - prefix_len].term
    })
}

/// A follower or candidate that accepts a log request (of a term at least
/// its own, whose prefix its log holds) keeps its log up to the prefix and
/// acknowledges `prefix_len + suffix.len()` entries to the sender. When the
/// suffix conflicts with the log at the last position both hold, the log
/// becomes exactly the prefix followed by the whole suffix; otherwise no
/// entry of the log is lost and the suffix fills every position past the
/// old log's end.
pub proof fn accepted_log_request_merges_suffix(
    role: Role,
    s: ServerView,
    leader_id: usize,
    leader_term: usize,
    prefix_len: usize,
    prefix_term: usize,
    leader_commit: usize,
    suffix: Seq<LogEntry>,
)
    requires
        role == Role::Follower || role == Role::Candidate,
        leader_term >= s.current_term,
        prefix_len == 0 || (prefix_len <= s.log.len() && s.log[prefix_len - 1].term
            == prefix_term),
        prefix_len + suffix.len() <= usize::MAX,
    ensures
        ({
            let m = MessageView::LogRequest {
                leader_id: leader_id,
                current_term: leader_term,
                prefix_len: prefix_len,
                prefix_term: prefix_term,
                commit_length: leader_commit,
                suffix: suffix,
            };
            let (r2, s2, a) = message_step(role, s, m);
            let log = s.log;
            let new_log = s2.log;
            let p = prefix_len as int;
            &&& r2 == Role::Follower
            &&& s2.current_term == leader_term
            &&& s2.current_leader == Some(leader_id)
            &&& new_log.take(p) == log.take(p)
            &&& new_log.len() >= p + suffix.len()
            &&& conflicts_at_last_shared(log, p, suffix) ==> new_log == log.take(p) + suffix
            &&& !conflicts_at_last_shared(log, p, suffix) ==> {
                &&& new_log.len() == if log.len() > p + suffix.len() {
                    log.len() as int
                } else {
                    p + suffix.len()
                }
                &&& forall|j: int| 0 <= j < log.len() ==> #[trigger] new_log[j] == log[j]
                &&& forall|j: int|
                    0 <= j < suffix.len() && p + j >= log.len() ==> new_log[p + j] == #[trigger] suffix[j]
            }
            &&& s2.commit_length == if leader_commit > s.commit_length {
                leader_commit
            } else {
                s.commit_length
            }
            &&& a.len() == 2
            &&& a[0] == (ActionView::ResetTimer {
                message: MessageView::TimerExpired,
                seconds: s.election_timeout,
            })
            &&& a[1] == (ActionView::Send {
                to: leader_id,
                message: MessageView::LogResponse {
                    responder_id: s.name,
                    responder_term: leader_term,
                    ack: (prefix_len + suffix.len()) as usize,
                    answer: true,
                },
            })
        }),
{
    let p = prefix_len as int;
    let log = s.log;
    let new_log = appended_log(log, prefix_len, suffix);
    assert(new_log.take(p) =~= log.take(p));
    if conflicts_at_last_shared(log, p, suffix) {
        assert(new_log =~= log.take(p) + suffix);
    } else {
        assert forall|j: int| 0 <= j < log.len() implies #[trigger] new_log[j] == log[j] by {}
    }
}

/// A server answering a vote request (of any role but Initial) replies to
/// the candidate in the newer of the two terms, and grants the vote exactly
/// when the candidate's term is at least its own, it has not voted for
/// another candidate in that term, and the candidate's log is at least as up
/// to date: a higher last term, or the same last term and at least the same
/// length.
pub proof fn vote_granted_exactly_to_up_to_date_logs(
    role: Role,
    s: ServerView,
    candidate_id: usize,
    candidate_term: usize,
    log_length: usize,
    last_term: usize,
)
    requires
        role != Role::Initial,
    ensures
        ({
            let m = MessageView::VoteRequest {
                candidate_id: candidate_id,
                candidate_term: candidate_term,
                log_length: log_length,
                last_term: last_term,
            };
            let (_r2, s2, a) = message_step(role, s, m);
            let own_last = last_entry_term(s.log);
            let up_to_date = last_term > own_last || (last_term == own_last && log_length
                >= s.log.len());
            let newer = candidate_term > s.current_term;
            let free = newer || (candidate_term == s.current_term && (s.voted_for is None
                || s.voted_for == Some(candidate_id)));
            let term = if newer {
                candidate_term
            } else {
                s.current_term
            };
            &&& s2.current_term == term
            &&& s2.log == s.log
            &&& s2.voted_for == if free && up_to_date {
                Some(candidate_id)
            } else if newer {
                None
            } else {
                s.voted_for
            }
            &&& a == seq![
                ActionView::Send {
                    to: candidate_id,
                    message: MessageView::VoteResponse {
                        responser_id: s.name,
                        responder_term: term,
                        response: free && up_to_date,
                    },
                },
            ]
        }),
{
}

/// A candidate becomes leader only when its votes outnumber half the
/// cluster: twice the votes exceed the number of servers.
pub proof fn election_needs_strict_majority(s: ServerView, m: MessageView)
    requires
        message_step(Role::Candidate, s, m).0 == Role::Leader,
    ensures
        2 * message_step(Role::Candidate, s, m).1.votes_received.len() > s.total_elements,
{
}

/// A granted vote of the candidate's term makes it leader exactly when,
/// with this vote, twice its votes exceed the number of servers.
pub proof fn granted_vote_elects_exactly_on_majority(s: ServerView, responser_id: usize)
    ensures
        ({
            let m = MessageView::VoteResponse {
                responser_id: responser_id,
                responder_term: s.current_term,
                response: true,
            };
            let (r2, s2, _a) = message_step(Role::Candidate, s, m);
            &&& s2.votes_received == s.votes_received.push(responser_id)
            &&& (r2 == Role::Leader <==> 2 * (s.votes_received.len() + 1) > s.total_elements)
            &&& r2 != Role::Leader ==> r2 == Role::Candidate
        }),
{
}

/// A leader moves its commit length only to a length that more than half of
/// the cluster acknowledged: twice the number of acknowledging servers
/// exceeds the number of servers.
pub proof fn commit_needs_strict_majority(s: ServerView, m: MessageView)
    requires
        message_ok(Role::Leader, s, m),
        message_step(Role::Leader, s, m).1.commit_length > s.commit_length,
        s.log.len() <= usize::MAX,
    ensures
        ({
            let s2 = message_step(Role::Leader, s, m).1;
            let r = s2.commit_length as int;
            2 * s2.acked_length.dom().filter(|k: usize| s2.acked_length[k] >= r).len()
                > s2.total_elements
        }),
{
    leader_commits_only_acknowledged_entries(s, m);
}

/// When the election timer fires, a follower or a candidate stands for
/// election: it moves to the next term, votes for itself (and only itself),
/// restarts its election timer and sends a vote request of the new term,
/// with its log's length and last term, to every neighbour in order.
pub proof fn timer_starts_election(role: Role, s: ServerView)
    requires
        role == Role::Follower || role == Role::Candidate,
        s.current_term < usize::MAX,
    ensures
        ({
            let (r2, s2, a) = message_step(role, s, MessageView::TimerExpired);
            let request = MessageView::VoteRequest {
                candidate_id: s.name,
                candidate_term: (s.current_term + 1) as usize,
                log_length: s.log.len() as usize,
                last_term: last_entry_term(s.log),
            };
            &&& r2 == Role::Candidate
            &&& s2.current_term == s.current_term + 1
            &&& s2.voted_for == Some(s.name)
            &&& s2.votes_received == seq![s.name]
            &&& s2.log == s.log
            &&& a.len() == s.neighbours.len() + 1
            &&& a[0] == (ActionView::ResetTimer {
                message: MessageView::TimerExpired,
                seconds: s.election_timeout,
            })
            &&& forall|i: int|
                0 <= i < s.neighbours.len() ==> #[trigger] a[i + 1] == (ActionView::Send {
                    to: s.neighbours[i],
                    message: request,
                })
        }),
{
    let (r2, s2, a) = message_step(role, s, MessageView::TimerExpired);
    assert(a == candidacy(s).1);
    assert forall|i: int| 0 <= i < s.neighbours.len() implies #[trigger] a[i + 1] == (
    ActionView::Send {
        to: s.neighbours[i],
        message: MessageView::VoteRequest {
            candidate_id: s.name,
            candidate_term: (s.current_term + 1) as usize,
            log_length: s.log.len() as usize,
            last_term: last_entry_term(s.log),
        },
    }) by {}
}

/// The log request a leader sends to `follower`: the leader's name and
/// term, the follower's sent length as prefix, the term of the leader's last
/// entry, its commit length, and every entry from the sent length on.
pub open spec fn log_request_to(s: ServerView, follower: usize) -> ActionView {
    ActionView::Send {
        to: follower,
        message: MessageView::LogRequest {
            leader_id: s.name,
            current_term: s.current_term,
            prefix_len: s.sent_length[follower],
            prefix_term: last_entry_term(s.log),
            commit_length: s.commit_length,
            suffix: s.log.subrange(s.sent_length[follower] as int, s.log.len() as int),
        },
    }
}

/// When its heartbeat timer fires, an activated leader restarts it (two
/// seconds) and sends every neighbour, in order, the entries it is believed
/// to miss; a deactivated leader does nothing. The state does not change.
pub proof fn leader_heartbeat_sends_missing_entries(s: ServerView)
    ensures
        ({
            let (r2, s2, a) = message_step(Role::Leader, s, MessageView::SendHeartBeat);
            &&& r2 == Role::Leader
            &&& s2 == s
            &&& !s.activated ==> a.len() == 0
            &&& s.activated ==> {
                &&& a.len() == s.neighbours.len() + 1
                &&& a[0] == (ActionView::ResetTimer {
                    message: MessageView::SendHeartBeat,
                    seconds: 2,
                })
                &&& forall|i: int|
                    0 <= i < s.neighbours.len() ==> #[trigger] a[i + 1] == log_request_to(
                        s,
                        s.neighbours[i],
                    )
            }
        }),
{
    let a = message_step(Role::Leader, s, MessageView::SendHeartBeat).2;
    if s.activated {
        assert forall|i: int| 0 <= i < s.neighbours.len() implies #[trigger] a[i + 1]
            == log_request_to(s, s.neighbours[i]) by {
            assert(s.log.skip(s.sent_length[s.neighbours[i]] as int) =~= s.log.subrange(
                s.sent_length[s.neighbours[i]] as int,
                s.log.len() as int,
            ));
        }
    }
}

/// Client data given to a leader (as a message or as an order) is appended
/// to its log with the leader's term, the leader counts itself as holding
/// the whole new log, and it sends exactly the round of log requests that a
/// heartbeat of the new state would send.
pub proof fn leader_appends_client_data(s: ServerView, msg: String)
    ensures
        ({
            let (r2, s2, a) = message_step(Role::Leader, s, MessageView::SendInfo { msg: msg });
            &&& r2 == Role::Leader
            &&& s2.log == s.log.push(LogEntry { data: msg, term: s.current_term })
            &&& s2.acked_length == s.acked_length.insert(s.name, (s.log.len() + 1) as usize)
            &&& s2.sent_length == s.sent_length
            &&& s2.current_term == s.current_term
            &&& s2.voted_for == s.voted_for
            &&& s2.commit_length == s.commit_length
            &&& s2.activated == s.activated
            &&& s2.neighbours == s.neighbours
            &&& a == message_step(Role::Leader, s2, MessageView::SendHeartBeat).2
            &&& order_step(Role::Leader, s, Order::SendInfo { info: msg }) == (false, r2, s2, a)
        }),
{
}

/// A log response of the leader's term that it does not take as progress
/// (a failure, or an acknowledgement below the one it has) steps the
/// follower's sent length back by one and resends from there; at sent
/// length 0 nothing happens. Log, acknowledgements and commit length stay.
pub proof fn rejected_log_response_steps_back(
    s: ServerView,
    responder_id: usize,
    ack: usize,
    answer: bool,
)
    requires
        s.sent_length.contains_key(responder_id),
        answer ==> s.acked_length.contains_key(responder_id) && ack < s.acked_length[responder_id],
    ensures
        ({
            let m = MessageView::LogResponse {
                responder_id: responder_id,
                responder_term: s.current_term,
                ack: ack,
                answer: answer,
            };
            let (r2, s2, a) = message_step(Role::Leader, s, m);
            let sent = s.sent_length[responder_id];
            &&& r2 == Role::Leader
            &&& s2.log == s.log
            &&& s2.acked_length == s.acked_length
            &&& s2.commit_length == s.commit_length
            &&& s2.current_term == s.current_term
            &&& sent == 0 ==> s2 == s && a.len() == 0
            &&& sent > 0 ==> {
                &&& s2.sent_length == s.sent_length.insert(responder_id, (sent - 1) as usize)
                &&& s2.sent_length[responder_id] == sent - 1
                &&& a == seq![log_request_to(s2, responder_id)]
            }
        }),
{
    let m = MessageView::LogResponse {
        responder_id: responder_id,
        responder_term: s.current_term,
        ack: ack,
        answer: answer,
    };
    let (r2, s2, a) = message_step(Role::Leader, s, m);
    let sent = s.sent_length[responder_id];
    if sent > 0 {
        assert(s2.log.skip(s2.sent_length[responder_id] as int) =~= s2.log.subrange(
            s2.sent_length[responder_id] as int,
            s2.log.len() as int,
        ));
    }
}

/// A reply (vote or log response) of a newer term, to a server of any role
/// but Initial, makes it a follower of that term with no vote cast, and
/// restarts its election timer; log and commit length stay.
pub proof fn newer_reply_adopts_term(role: Role, s: ServerView, m: MessageView, term: usize)
    requires
        role != Role::Initial,
        m is VoteResponse || m is LogResponse,
        message_term(m) == Some(term),
        term > s.current_term,
    ensures
        ({
            let (r2, s2, a) = message_step(role, s, m);
            &&& r2 == Role::Follower
            &&& s2.current_term == term
            &&& s2.voted_for is None
            &&& s2.log == s.log
            &&& s2.commit_length == s.commit_length
            &&& s2.votes_received == s.votes_received
            &&& s2.sent_length == s.sent_length
            &&& s2.acked_length == s.acked_length
            &&& a == seq![
                ActionView::ResetTimer {
                    message: MessageView::TimerExpired,
                    seconds: s.election_timeout,
                },
            ]
        }),
{
}

/// A reply of an older term changes nothing and causes nothing, except that
/// a candidate given a log response becomes a follower.
pub proof fn older_reply_changes_nothing(role: Role, s: ServerView, m: MessageView, term: usize)
    requires
        m is VoteResponse || m is LogResponse,
        message_term(m) == Some(term),
        term < s.current_term,
    ensures
        ({
            let (r2, s2, a) = message_step(role, s, m);
            &&& s2 == s
            &&& a.len() == 0
            &&& r2 == if role == Role::Candidate && m is LogResponse {
                Role::Follower
            } else {
                role
            }
        }),
{
}

/// A log request that a follower or candidate refuses (of an older term, or
/// whose prefix its log does not hold) leaves its log and commit length as
/// they are and is answered with a failure that acknowledges nothing.
pub proof fn refused_log_request_changes_no_entry(
    role: Role,
    s: ServerView,
    leader_id: usize,
    leader_term: usize,
    prefix_len: usize,
    prefix_term: usize,
    leader_commit: usize,
    suffix: Seq<LogEntry>,
)
    requires
        role == Role::Follower || role == Role::Candidate,
        leader_term < s.current_term || !(prefix_len == 0 || (prefix_len <= s.log.len()
            && s.log[prefix_len - 1].term == prefix_term)),
    ensures
        ({
            let m = MessageView::LogRequest {
                leader_id: leader_id,
                current_term: leader_term,
                prefix_len: prefix_len,
                prefix_term: prefix_term,
                commit_length: leader_commit,
                suffix: suffix,
            };
            let (_r2, s2, a) = message_step(role, s, m);
            &&& s2.log == s.log
            &&& s2.commit_length == s.commit_length
            &&& a.len() >= 1
            &&& a.last() == (ActionView::Send {
                to: leader_id,
                message: MessageView::LogResponse {
                    responder_id: s.name,
                    responder_term: s2.current_term,
                    ack: 0,
                    answer: false,
                },
            })
        }),
{
}

/// On winning the election a new leader sends each neighbour, in order, a
/// log request that builds on its whole log (prefix = log length, nothing to
/// append), then wakes its own heartbeat.
pub proof fn new_leader_announces_itself(s: ServerView, m: MessageView)
    requires
        message_step(Role::Candidate, s, m).0 == Role::Leader,
        s.log.len() <= usize::MAX,
    ensures
        ({
            let (_r2, s2, a) = message_step(Role::Candidate, s, m);
            &&& a.len() == s.neighbours.len() + 1
            &&& a[a.len() - 1] == (ActionView::SendToSelf { message: MessageView::SendHeartBeat })
            &&& forall|i: int|
                0 <= i < s.neighbours.len() ==> #[trigger] a[i] == (ActionView::Send {
                    to: s.neighbours[i],
                    message: MessageView::LogRequest {
                        leader_id: s.name,
                        current_term: s.current_term,
                        prefix_len: s.log.len() as usize,
                        prefix_term: last_entry_term(s.log),
                        commit_length: s.commit_length,
                        suffix: Seq::empty(),
                    },
                })
        }),
{
    if let MessageView::VoteResponse { responser_id, responder_term, response } = m {
        let s1 = ServerView { votes_received: s.votes_received.push(responser_id), ..s };
        let s2 = elected(s1);
        let a = message_step(Role::Candidate, s, m).2;
        assert forall|i: int| 0 <= i < s.neighbours.len() implies #[trigger] a[i] == (
        ActionView::Send {
            to: s.neighbours[i],
            message: MessageView::LogRequest {
                leader_id: s.name,
                current_term: s.current_term,
                prefix_len: s.log.len() as usize,
                prefix_term: last_entry_term(s.log),
                commit_length: s.commit_length,
                suffix: Seq::empty(),
            },
        }) by {
            assert(s.neighbours.contains(s.neighbours[i]));
            assert(s2.log.skip(s.log.len() as int) =~= Seq::<LogEntry>::empty());
        }
    }
}

/// Client data given to a follower goes to its leader; given to a candidate
/// it is offered to the candidate itself again after one second. Neither
/// changes its state or stops.
pub proof fn client_data_reaches_a_leader(s: ServerView, info: String)
    requires
        s.current_leader is Some,
    ensures
        order_step(Role::Follower, s, Order::SendInfo { info: info }) == (
            false,
            Role::Follower,
            s,
            seq![
                ActionView::Send {
                    to: s.current_leader->0,
                    message: MessageView::SendInfo { msg: info },
                },
            ],
        ),
        order_step(Role::Candidate, s, Order::SendInfo { info: info }) == (
            false,
            Role::Candidate,
            s,
            seq![
                ActionView::SendToSelfLater {
                    message: MessageView::SendInfo { msg: info },
                    seconds: 1,
                },
            ],
        ),
        message_step(Role::Candidate, s, MessageView::SendInfo { msg: info }).2 == order_step(
            Role::Candidate,
            s,
            Order::SendInfo { info: info },
        ).3,
{
}

/// Disconnect and Reconnect switch a server's activation off and on and
/// change nothing else; a leader lists its log's data in order; a follower
/// told to become a candidate (and a candidate told to become a follower)
/// changes only its role.
pub proof fn orders_change_what_they_name(role: Role, s: ServerView)
    requires
        role != Role::Initial,
    ensures
        order_step(role, s, Order::Disconnect) == (
            false,
            role,
            ServerView { activated: false, ..s },
            Seq::<ActionView>::empty(),
        ),
        order_step(role, s, Order::Reconnect) == (
            false,
            role,
            ServerView { activated: true, ..s },
            Seq::<ActionView>::empty(),
        ),
        ({
            let (stop, r2, s2, a) = order_step(Role::Leader, s, Order::ListLog);
            &&& !stop && r2 == Role::Leader && s2 == s && a.len() == 1
            &&& a[0] matches ActionView::ShowLog { entries } && entries.len() == s.log.len()
                && forall|i: int| 0 <= i < s.log.len() ==> #[trigger] entries[i] == s.log[i].data
        }),
        order_step(Role::Follower, s, Order::ConvertToCandidate) == (
            false,
            Role::Candidate,
            s,
            Seq::<ActionView>::empty(),
        ),
        order_step(Role::Candidate, s, Order::ConvertToFollower) == (
            false,
            Role::Follower,
            s,
            Seq::<ActionView>::empty(),
        ),
{
}

/// A heartbeat message only restarts a follower's or candidate's election
/// timer.
pub proof fn heartbeat_restarts_election_timer(role: Role, s: ServerView, leader_id: usize, term: usize)
    requires
        role == Role::Follower || role == Role::Candidate,
    ensures
        message_step(role, s, MessageView::HeartBeatSent { leader_id: leader_id, current_term: term })
            == (
            role,
            s,
            seq![
                ActionView::ResetTimer {
                    message: MessageView::TimerExpired,
                    seconds: s.election_timeout,
                },
            ],
        ),
{
}

/// The neighbours each server of a cluster of `n` starts with: every other
/// name below `n`, each once, in increasing order.
pub proof fn others_are_all_other_names(n: usize, name: usize)
    requires
        name < n,
    ensures
        others(n, name).len() == n - 1,
        forall|i: int|
            0 <= i < others(n, name).len() ==> #[trigger] others(n, name)[i] < n && others(
                n,
                name,
            )[i] != name,
        forall|i: int, j: int|
            0 <= i < j < others(n, name).len() ==> others(n, name)[i] < others(n, name)[j],
        forall|k: usize| k < n && k != name ==> #[trigger] others(n, name).contains(k),
{
    assert forall|k: usize| k < n && k != name implies #[trigger] others(n, name).contains(k) by {
        let i: int = if k < name { k as int } else { k - 1 };
        assert(others(n, name)[i] == k);
    }
}

} // verus!
