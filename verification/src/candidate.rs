//! What a candidate does.
use std::marker::PhantomData;
use vstd::prelude::*;

use crate::follower::stand_for_election;
use crate::message::{
    actions_view, push_action, Action, ActionView, LogEntry, MessageView, Order, ServerMessage,
};
use crate::model::{
    broadcast, candidacy, candidate_message_step, candidate_vote_step, elected, election_timer,
    log_request_step, message_ok, order_step, quorum, replicate, replicate_all,
    reply_term_step, retry_later, vote_request_step, with_activation, Role, ServerView,
};
use crate::node::Node;
use crate::server::{Candidate, Follower, Leader, Server};

verus! {

broadcast use vstd::std_specs::hash::group_hash_axioms;

impl Server<Candidate> {
    /// A vote request for every neighbour that announces the candidacy with
    /// an empty log (length 0, last term 0).
    pub fn candidate(&self) -> (actions: Vec<Action>)
        ensures
            actions_view(actions@) == broadcast(
                self@.neighbours,
                MessageView::VoteRequest {
                    candidate_id: self@.name,
                    candidate_term: self@.current_term,
                    log_length: 0,
                    last_term: 0,
                },
            ),
    {
        self.vote_requests(self.info.current_term, 0, 0)
    }

    /// The server stops taking part in replication.
    pub fn on_disconnect(self) -> (res: (bool, Node, Vec<Action>))
        ensures
            (res.0, res.1.role(), res.1@, actions_view(res.2@)) == (
                false,
                Role::Candidate,
                with_activation(self@, false),
                Seq::<ActionView>::empty(),
            ),
    {
        let mut this = self;
        this.settings.activated = false;
        let actions: Vec<Action> = Vec::new();
        assert(actions_view(actions@) =~= Seq::<ActionView>::empty());
        (false, Node::Candidate(this), actions)
    }

    /// The server takes part in replication again.
    pub fn on_connect(self) -> (res: (bool, Node, Vec<Action>))
        ensures
            (res.0, res.1.role(), res.1@, actions_view(res.2@)) == (
                false,
                Role::Candidate,
                with_activation(self@, true),
                Seq::<ActionView>::empty(),
            ),
    {
        let mut this = self;
        this.settings.activated = true;
        let actions: Vec<Action> = Vec::new();
        assert(actions_view(actions@) =~= Seq::<ActionView>::empty());
        (false, Node::Candidate(this), actions)
    }

    /// The same server as a leader.
    pub fn to_leader(self) -> (r: Server<Leader>)
        ensures
            r@ == self@,
    {
        Server {
            _state: PhantomData,
            name: self.name,
            neighbours: self.neighbours,
            info: self.info,
            settings: self.settings,
        }
    }

    /// The same server as a follower.
    pub fn to_follower(self) -> (r: Server<Follower>)
        ensures
            r@ == self@,
    {
        Server {
            _state: PhantomData,
            name: self.name,
            neighbours: self.neighbours,
            info: self.info,
            settings: self.settings,
        }
    }

    /// A heartbeat restarts the election timer.
    fn on_heartbeat_received(self, _leader_id: usize, _current_term: usize) -> (res: (
        Node,
        Vec<Action>,
    ))
        ensures
            (res.0.role(), res.0@, actions_view(res.1@)) == (
                Role::Candidate,
                self@,
                seq![election_timer(self@)],
            ),
    {
        let mut actions: Vec<Action> = Vec::new();
        let timer = self.update_timer(ServerMessage::TimerExpired, None);
        push_action(&mut actions, timer);
        (Node::Candidate(self), actions)
    }

    /// Handles a log request; a request from the leader of the server's term
    /// makes it a follower.
    fn on_log_request_received(
        self,
        leader_id: usize,
        leader_term: usize,
        prefix_len: usize,
        prefix_term: usize,
        leader_commit: usize,
        suffix: Vec<LogEntry>,
    ) -> (res: (Node, Vec<Action>))
        requires
            crate::model::log_request_accepted(self@, leader_term, prefix_len, prefix_term)
                ==> prefix_len + suffix@.len() <= usize::MAX,
        ensures
            ({
                let (s1, eq, a) = log_request_step(
                    self@,
                    leader_id,
                    leader_term,
                    prefix_len,
                    prefix_term,
                    leader_commit,
                    suffix@,
                );
                (res.0.role(), res.0@, actions_view(res.1@)) == (
                    if eq {
                        Role::Follower
                    } else {
                        Role::Candidate
                    },
                    s1,
                    a,
                )
            }),
    {
        let mut this = self;
        let (change_to_follower, actions) = this.handle_log_request(
            leader_id,
            leader_term,
            prefix_len,
            prefix_term,
            leader_commit,
            suffix,
        );
        if change_to_follower {
            (Node::Follower(this.to_follower()), actions)
        } else {
            (Node::Candidate(this), actions)
        }
    }

    /// No leader elected in time: the server stands again, in the next term.
    fn on_timer_expired(self) -> (res: (Node, Vec<Action>))
        requires
            self@.current_term < usize::MAX,
        ensures
            (res.0.role(), (res.0@, actions_view(res.1@))) == (Role::Candidate, candidacy(self@)),
    {
        let (candidate, actions) = stand_for_election(self);
        (Node::Candidate(candidate), actions)
    }

    /// Answers a vote request; a newer term makes the server a follower.
    fn on_vote_request(
        self,
        candidate_id: usize,
        candidate_term: usize,
        candidate_log_length: usize,
        candidate_log_term: usize,
    ) -> (res: (Node, Vec<Action>))
        ensures
            ({
                let (s1, newer, a) = vote_request_step(
                    self@,
                    candidate_id,
                    candidate_term,
                    candidate_log_length,
                    candidate_log_term,
                );
                (res.0.role(), res.0@, actions_view(res.1@)) == (
                    if newer {
                        Role::Follower
                    } else {
                        Role::Candidate
                    },
                    s1,
                    a,
                )
            }),
    {
        let mut this = self;
        let (change_to_follower, actions) = this.handle_vote_request(
            candidate_id,
            candidate_term,
            candidate_log_length,
            candidate_log_term,
        );
        if change_to_follower {
            (Node::Follower(this.to_follower()), actions)
        } else {
            (Node::Candidate(this), actions)
        }
    }

    /// Client data that arrives while no leader is known is offered to the
    /// server itself again one second later.
    fn on_send_info(self, msg: String) -> (res: (bool, Node, Vec<Action>))
        ensures
            (res.0, res.1.role(), res.1@, actions_view(res.2@)) == (
                false,
                Role::Candidate,
                self@,
                seq![retry_later(msg)],
            ),
    {
        let mut actions: Vec<Action> = Vec::new();
        push_action(
            &mut actions,
            Action::SendToSelfLater { message: ServerMessage::SendInfo { msg: msg }, seconds: 1 },
        );
        (false, Node::Candidate(self), actions)
    }

    /// A log response means some server leads: the candidate becomes a
    /// follower (adopting a newer term on the way).
    fn on_log_response(
        self,
        _responser_id: usize,
        responder_term: usize,
        _ack: usize,
        _answer: bool,
    ) -> (res: (Node, Vec<Action>))
        ensures
            (res.0.role(), res.0@, actions_view(res.1@)) == reply_term_step(
                self@,
                responder_term,
                Role::Follower,
                Role::Follower,
            ),
    {
        let mut this = self;
        let (_newer, actions) = this.adopt_reply_term(responder_term);
        (Node::Follower(this.to_follower()), actions)
    }

    /// Counts a vote; with a quorum of votes the server becomes leader,
    /// believes every neighbour holds its whole log, sends each a log
    /// request and wakes its own heartbeat. A reply of a newer term makes it
    /// a follower.
    fn on_vote_receive(self, responser_id: usize, responder_term: usize, response: bool) -> (res: (
        Node,
        Vec<Action>,
    ))
        ensures
            (res.0.role(), res.0@, actions_view(res.1@)) == candidate_vote_step(
                self@,
                responser_id,
                responder_term,
                response,
            ),
    {
        let mut this = self;
        if responder_term == this.info.current_term && response {
            this.info.votes_received.push(responser_id);
            let min_votes = this.settings.total_elements / 2 + 1;
            assert(min_votes == quorum(this.settings.total_elements));
            if this.info.votes_received.len() >= min_votes {
                let ghost base = this@;
                let ghost nb = this@.neighbours;
                let log_len0 = this.info.log.len();
                let ghost len = log_len0;
                this.info.current_leader = Some(this.name);
                let mut actions: Vec<Action> = Vec::new();
                let mut i: usize = 0;
                assert(base.sent_length.union_prefer_right(
                    Map::new(|k: usize| nb.take(0).contains(k), |k: usize| len),
                ) =~= base.sent_length);
                assert(base.acked_length.union_prefer_right(
                    Map::new(|k: usize| nb.take(0).contains(k), |k: usize| 0usize),
                ) =~= base.acked_length);
                while i < this.neighbours.len()
                    invariant
                        i <= nb.len(),
                        nb == this@.neighbours,
                        len == this@.log.len(),
                        this@ == (ServerView {
                            sent_length: base.sent_length.union_prefer_right(
                                Map::new(|k: usize| nb.take(i as int).contains(k), |k: usize| len),
                            ),
                            acked_length: base.acked_length.union_prefer_right(
                                Map::new(
                                    |k: usize| nb.take(i as int).contains(k),
                                    |k: usize| 0usize,
                                ),
                            ),
                            ..elected(base)
                        }),
                        actions_view(actions@) == replicate_all(elected(base), nb.take(i as int)),
                    decreases nb.len() - i,
                {
                    let follower = this.neighbours[i];
                    let log_len = this.info.log.len();
                    this.info.sent_length.insert(follower, log_len);
                    this.info.acked_length.insert(follower, 0);
                    proof {
                        broadcast use vstd::seq_lib::group_seq_properties;
                        assert(nb.take(i + 1) =~= nb.take(i as int).push(follower));
                        assert(this@.sent_length =~= base.sent_length.union_prefer_right(
                            Map::new(|k: usize| nb.take(i + 1).contains(k), |k: usize| len),
                        ));
                        assert(this@.acked_length =~= base.acked_length.union_prefer_right(
                            Map::new(|k: usize| nb.take(i + 1).contains(k), |k: usize| 0usize),
                        ));
                        assert(nb.contains(follower));
                        assert(elected(base).sent_length[follower] == len);
                    }
                    let a = this.replicate_log(follower);
                    push_action(&mut actions, a);
                    assert(replicate_all(elected(base), nb.take(i + 1)) =~= replicate_all(
                        elected(base),
                        nb.take(i as int),
                    ).push(replicate(elected(base), follower)));
                    i = i + 1;
                }
                proof {
                    assert(nb.take(i as int) =~= nb);
                    assert(this@.sent_length =~= elected(base).sent_length);
                    assert(this@.acked_length =~= elected(base).acked_length);
                }
                push_action(&mut actions, Action::SendToSelf { message: ServerMessage::SendHeartBeat });
                (Node::Leader(this.to_leader()), actions)
            } else {
                let actions: Vec<Action> = Vec::new();
                assert(actions_view(actions@) =~= Seq::<ActionView>::empty());
                (Node::Candidate(this), actions)
            }
        } else {
            let (newer, actions) = this.adopt_reply_term(responder_term);
            if newer {
                (Node::Follower(this.to_follower()), actions)
            } else {
                (Node::Candidate(this), actions)
            }
        }
    }

    /// Handles a message from another server or from its own timer.
    pub fn handle_server_message(self, message: ServerMessage) -> (res: (Node, Vec<Action>))
        requires
            message_ok(Role::Candidate, self@, message@),
        ensures
            (res.0.role(), res.0@, actions_view(res.1@)) == candidate_message_step(
                self@,
                message@,
            ),
    {
        match message {
            ServerMessage::LogRequest {
                leader_id,
                current_term,
                prefix_len,
                prefix_term,
                commit_length,
                suffix,
            } => self.on_log_request_received(
                leader_id,
                current_term,
                prefix_len,
                prefix_term,
                commit_length,
                suffix,
            ),
            ServerMessage::HeartBeatSent { leader_id, current_term } => self.on_heartbeat_received(
                leader_id,
                current_term,
            ),
            ServerMessage::TimerExpired => self.on_timer_expired(),
            ServerMessage::VoteRequest { candidate_id, candidate_term, log_length, last_term } =>
                self.on_vote_request(candidate_id, candidate_term, log_length, last_term),
            ServerMessage::VoteResponse { responser_id, responder_term, response } =>
                self.on_vote_receive(responser_id, responder_term, response),
            ServerMessage::LogResponse { responder_id, responder_term, ack, answer } =>
                self.on_log_response(responder_id, responder_term, ack, answer),
            ServerMessage::SendInfo { msg } => {
                let (_stop, next, actions) = self.on_send_info(msg);
                (next, actions)
            },
            _ => {
                let actions: Vec<Action> = Vec::new();
                assert(actions_view(actions@) =~= Seq::<ActionView>::empty());
                (Node::Candidate(self), actions)
            },
        }
    }

    /// Carries out an operator's order.
    pub fn handle_order(self, order: Order) -> (res: (bool, Node, Vec<Action>))
        ensures
            (res.0, res.1.role(), res.1@, actions_view(res.2@)) == order_step(
                Role::Candidate,
                self@,
                order,
            ),
    {
        match order {
            Order::Disconnect => self.on_disconnect(),
            Order::Reconnect => self.on_connect(),
            Order::SendInfo { info } => self.on_send_info(info),
            Order::Exit => {
                let actions: Vec<Action> = Vec::new();
                assert(actions_view(actions@) =~= Seq::<ActionView>::empty());
                (true, Node::Candidate(self), actions)
            },
            Order::ConvertToFollower => {
                let actions: Vec<Action> = Vec::new();
                assert(actions_view(actions@) =~= Seq::<ActionView>::empty());
                (false, Node::Follower(self.to_follower()), actions)
            },
            _ => {
                let actions: Vec<Action> = Vec::new();
                assert(actions_view(actions@) =~= Seq::<ActionView>::empty());
                (false, Node::Candidate(self), actions)
            },
        }
    }
}

} // verus!
