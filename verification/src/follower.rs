//! What a follower does.
use std::marker::PhantomData;
use vstd::prelude::*;

use crate::message::{
    actions_view, append_actions, push_action, Action, ActionView, LogEntry, MessageView, Order,
    ServerMessage,
};
use crate::model::{
    candidacy, election_timer, follower_message_step, log_request_step, message_ok, order_step,
    reply_term_step, vote_request_step, with_activation, Role, };
use crate::node::Node;
use crate::server::{Candidate, Follower, Server};

verus! {

impl Server<Follower> {
    /// The same server as a candidate.
    pub fn to_candidate(self) -> (r: Server<Candidate>)
        ensures
            r@ == self@,
    {
        Server {
            _state: PhantomData,
            name: self.name,
            neighbours: self.neighbours,
            info: self.info,
            settings: self.settings,
        }
    }

    /// A heartbeat restarts the election timer.
    fn on_heartbeat_received(self, _leader_id: usize, _current_term: usize) -> (res: (
        Node,
        Vec<Action>,
    ))
        ensures
            (res.0.role(), res.0@, actions_view(res.1@)) == (
                Role::Follower,
                self@,
                seq![election_timer(self@)],
            ),
    {
        let mut actions: Vec<Action> = Vec::new();
        let timer = self.update_timer(ServerMessage::TimerExpired, None);
        push_action(&mut actions, timer);
        (Node::Follower(self), actions)
    }

    /// The server stops taking part in replication.
    pub fn on_disconnect(self) -> (res: (bool, Node, Vec<Action>))
        ensures
            (res.0, res.1.role(), res.1@, actions_view(res.2@)) == (
                false,
                Role::Follower,
                with_activation(self@, false),
                Seq::<ActionView>::empty(),
            ),
    {
        let mut this = self;
        this.settings.activated = false;
        let actions: Vec<Action> = Vec::new();
        assert(actions_view(actions@) =~= Seq::<ActionView>::empty());
        (false, Node::Follower(this), actions)
    }

    /// The server takes part in replication again.
    pub fn on_connect(self) -> (res: (bool, Node, Vec<Action>))
        ensures
            (res.0, res.1.role(), res.1@, actions_view(res.2@)) == (
                false,
                Role::Follower,
                with_activation(self@, true),
                Seq::<ActionView>::empty(),
            ),
    {
        let mut this = self;
        this.settings.activated = true;
        let actions: Vec<Action> = Vec::new();
        assert(actions_view(actions@) =~= Seq::<ActionView>::empty());
        (false, Node::Follower(this), actions)
    }

    /// No word from a leader in time: the server stands for election.
    fn on_timer_expired(self) -> (res: (Node, Vec<Action>))
        requires
            self@.current_term < usize::MAX,
        ensures
            (res.0.role(), (res.0@, actions_view(res.1@))) == (Role::Candidate, candidacy(self@)),
    {
        let (candidate, actions) = stand_for_election(self);
        (Node::Candidate(candidate.to_candidate()), actions)
    }

    /// Answers a vote request and stays a follower.
    fn on_vote_request(
        self,
        candidate_id: usize,
        candidate_term: usize,
        candidate_log_length: usize,
        candidate_log_term: usize,
    ) -> (res: (Node, Vec<Action>))
        ensures
            ({
                let (s1, _newer, a) = vote_request_step(
                    self@,
                    candidate_id,
                    candidate_term,
                    candidate_log_length,
                    candidate_log_term,
                );
                (res.0.role(), res.0@, actions_view(res.1@)) == (Role::Follower, s1, a)
            }),
    {
        let mut this = self;
        let (_newer, actions) = this.handle_vote_request(
            candidate_id,
            candidate_term,
            candidate_log_length,
            candidate_log_term,
        );
        (Node::Follower(this), actions)
    }

    /// Handles a log request and stays a follower.
    fn on_log_request_received(
        self,
        leader_id: usize,
        leader_term: usize,
        prefix_len: usize,
        prefix_term: usize,
        leader_commit: usize,
        suffix: Vec<LogEntry>,
    ) -> (res: (Node, Vec<Action>))
        requires
            crate::model::log_request_accepted(self@, leader_term, prefix_len, prefix_term)
                ==> prefix_len + suffix@.len() <= usize::MAX,
        ensures
            ({
                let (s1, _eq, a) = log_request_step(
                    self@,
                    leader_id,
                    leader_term,
                    prefix_len,
                    prefix_term,
                    leader_commit,
                    suffix@,
                );
                (res.0.role(), res.0@, actions_view(res.1@)) == (Role::Follower, s1, a)
            }),
    {
        let mut this = self;
        let (_eq, actions) = this.handle_log_request(
            leader_id,
            leader_term,
            prefix_len,
            prefix_term,
            leader_commit,
            suffix,
        );
        (Node::Follower(this), actions)
    }

    /// Passes client data on to the leader.
    fn on_send_info(self, msg: String) -> (res: (bool, Node, Vec<Action>))
        requires
            self@.current_leader is Some,
        ensures
            (res.0, res.1.role(), res.1@, actions_view(res.2@)) == (
                false,
                Role::Follower,
                self@,
                seq![
                    ActionView::Send {
                        to: self@.current_leader->0,
                        message: MessageView::SendInfo { msg: msg },
                    },
                ],
            ),
    {
        let leader = match self.info.current_leader {
            Some(l) => l,
            None => 0,
        };
        let mut actions: Vec<Action> = Vec::new();
        push_action(
            &mut actions,
            Action::Send { to: leader, message: ServerMessage::SendInfo { msg: msg } },
        );
        (false, Node::Follower(self), actions)
    }

    /// A log response only matters for its term.
    fn on_log_response(
        self,
        _responser_id: usize,
        responder_term: usize,
        _ack: usize,
        _answer: bool,
    ) -> (res: (Node, Vec<Action>))
        ensures
            (res.0.role(), res.0@, actions_view(res.1@)) == reply_term_step(
                self@,
                responder_term,
                Role::Follower,
                Role::Follower,
            ),
    {
        let mut this = self;
        let (_newer, actions) = this.adopt_reply_term(responder_term);
        (Node::Follower(this), actions)
    }

    /// A vote response only matters for its term.
    fn on_vote_receive(self, _responser_id: usize, responder_term: usize, _response: bool) -> (res:
        (Node, Vec<Action>))
        ensures
            (res.0.role(), res.0@, actions_view(res.1@)) == reply_term_step(
                self@,
                responder_term,
                Role::Follower,
                Role::Follower,
            ),
    {
        let mut this = self;
        let (_newer, actions) = this.adopt_reply_term(responder_term);
        (Node::Follower(this), actions)
    }

    /// Carries out an operator's order.
    pub fn handle_order(self, order: Order) -> (res: (bool, Node, Vec<Action>))
        requires
            crate::model::order_ok(Role::Follower, self@, order),
        ensures
            (res.0, res.1.role(), res.1@, actions_view(res.2@)) == order_step(
                Role::Follower,
                self@,
                order,
            ),
    {
        match order {
            Order::SendInfo { info } => self.on_send_info(info),
            Order::Disconnect => self.on_disconnect(),
            Order::Reconnect => self.on_connect(),
            Order::Exit => {
                let actions: Vec<Action> = Vec::new();
                assert(actions_view(actions@) =~= Seq::<ActionView>::empty());
                (true, Node::Follower(self), actions)
            },
            Order::ConvertToCandidate => {
                let actions: Vec<Action> = Vec::new();
                assert(actions_view(actions@) =~= Seq::<ActionView>::empty());
                (false, Node::Candidate(self.to_candidate()), actions)
            },
            _ => {
                let actions: Vec<Action> = Vec::new();
                assert(actions_view(actions@) =~= Seq::<ActionView>::empty());
                (false, Node::Follower(self), actions)
            },
        }
    }

    /// Handles a message from another server or from its own timer.
    pub fn handle_server_message(self, message: ServerMessage) -> (res: (Node, Vec<Action>))
        requires
            message_ok(Role::Follower, self@, message@),
        ensures
            (res.0.role(), res.0@, actions_view(res.1@)) == follower_message_step(
                self@,
                message@,
            ),
    {
        match message {
            ServerMessage::LogRequest {
                leader_id,
                current_term,
                prefix_len,
                prefix_term,
                commit_length,
                suffix,
            } => self.on_log_request_received(
                leader_id,
                current_term,
                prefix_len,
                prefix_term,
                commit_length,
                suffix,
            ),
            ServerMessage::HeartBeatSent { leader_id, current_term } => self.on_heartbeat_received(
                leader_id,
                current_term,
            ),
            ServerMessage::TimerExpired => self.on_timer_expired(),
            ServerMessage::VoteRequest { candidate_id, candidate_term, log_length, last_term } =>
                self.on_vote_request(candidate_id, candidate_term, log_length, last_term),
            ServerMessage::LogResponse { responder_id, responder_term, ack, answer } =>
                self.on_log_response(responder_id, responder_term, ack, answer),
            ServerMessage::VoteResponse { responser_id, responder_term, response } =>
                self.on_vote_receive(responser_id, responder_term, response),
            _ => {
                let actions: Vec<Action> = Vec::new();
                assert(actions_view(actions@) =~= Seq::<ActionView>::empty());
                (Node::Follower(self), actions)
            },
        }
    }
}

/// Standing for election: the next term, a vote for oneself, a restarted
/// election timer and a vote request to every neighbour.
pub fn stand_for_election<S: crate::server::StateT>(server: Server<S>) -> (res: (
    Server<S>,
    Vec<Action>,
))
    requires
        server@.current_term < usize::MAX,
    ensures
        (res.0@, actions_view(res.1@)) == candidacy(server@),
{
    let mut server = server;
    server.info.current_term = server.info.current_term + 1;
    server.info.voted_for = Some(server.name);
    let mut votes: Vec<usize> = Vec::new();
    votes.push(server.name);
    server.info.votes_received = votes;
    let last_term = server.last_term();
    let mut actions: Vec<Action> = Vec::new();
    let timer = server.update_timer(ServerMessage::TimerExpired, None);
    push_action(&mut actions, timer);
    let requests = server.vote_requests(
        server.info.current_term,
        server.info.log.len(),
        last_term,
    );
    append_actions(&mut actions, requests);
    assert(server@.votes_received =~= seq![server@.name]);
    (server, actions)
}

} // verus!
