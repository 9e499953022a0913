//! What a leader does.
use std::marker::PhantomData;
use vstd::prelude::*;
use vstd::std_specs::iter::IteratorSpec;

use crate::message::{
    actions_view, push_action, Action, ActionView, LogEntry, MessageView, Order,
    ServerMessage,
};
use crate::model::{
    acks, broadcast_replicate, commit_step, deliveries, is_max_ready, leader_append,
    leader_log_response_step, leader_message_step, leader_wf, log_data, log_response_ok,
    max_ready, message_ok, order_step, quorum, replicate, replicate_all, reply_term_step,
    reset_timer, vote_request_step, with_activation, Role, };
use crate::node::Node;
use crate::server::{Follower, Leader, Server};

verus! {

broadcast use vstd::std_specs::hash::group_hash_axioms;

impl Server<Leader> {
    /// The same server as a follower.
    pub fn to_follower(self) -> (r: Server<Follower>)
        ensures
            r@ == self@,
    {
        Server {
            _state: PhantomData,
            name: self.name,
            neighbours: self.neighbours,
            info: self.info,
            settings: self.settings,
        }
    }

    /// A round of log requests: when the server is activated, the heartbeat
    /// timer is restarted (2 seconds) and every neighbour gets the entries
    /// it is believed to miss; otherwise nothing is sent.
    pub fn broadcast_replicate_log(&self) -> (actions: Vec<Action>)
        requires
            leader_wf(self@),
        ensures
            actions_view(actions@) == broadcast_replicate(self@),
    {
        let mut actions: Vec<Action> = Vec::new();
        if self.settings.activated {
            let timer = self.update_timer(ServerMessage::SendHeartBeat, Some(2));
            push_action(&mut actions, timer);
            let ghost first = actions_view(actions@);
            let mut i: usize = 0;
            while i < self.neighbours.len()
                invariant
                    leader_wf(self@),
                    i <= self@.neighbours.len(),
                    first == seq![reset_timer(self@, MessageView::SendHeartBeat, Some(2usize))],
                    actions_view(actions@) == first + replicate_all(
                        self@,
                        self@.neighbours.take(i as int),
                    ),
                decreases self@.neighbours.len() - i,
            {
                let follower = self.neighbours[i];
                assert(self@.neighbours.contains(follower));
                let a = self.replicate_log(follower);
                push_action(&mut actions, a);
                assert(self@.neighbours.take(i + 1) =~= self@.neighbours.take(i as int).push(
                    follower,
                ));
                assert(replicate_all(self@, self@.neighbours.take(i + 1)) =~= replicate_all(
                    self@,
                    self@.neighbours.take(i as int),
                ).push(replicate(self@, follower)));
                i = i + 1;
            }
            assert(self@.neighbours.take(i as int) =~= self@.neighbours);
        } else {
            assert(actions_view(actions@) =~= Seq::<ActionView>::empty());
        }
        actions
    }

    /// Shows the log.
    fn on_list_log(self) -> (res: (bool, Node, Vec<Action>))
        ensures
            (res.0, res.1.role(), res.1@, actions_view(res.2@)) == (
                false,
                Role::Leader,
                self@,
                seq![ActionView::ShowLog { entries: log_data(self@.log) }],
            ),
    {
        let mut actions: Vec<Action> = Vec::new();
        let a = self.handle_list_log();
        push_action(&mut actions, a);
        (false, Node::Leader(self), actions)
    }

    /// Appends client data to the log (as acknowledged by the leader
    /// itself) and sends a round of log requests.
    fn on_send_info(self, msg: String) -> (res: (bool, Node, Vec<Action>))
        requires
            leader_wf(self@),
        ensures
            ({
                let (s1, a) = leader_append(self@, msg);
                (res.0, res.1.role(), res.1@, actions_view(res.2@)) == (false, Role::Leader, s1, a)
            }),
    {
        let mut this = self;
        let term = this.info.current_term;
        this.info.log.push(LogEntry { data: msg, term: term });
        let log_len = this.info.log.len();
        this.info.acked_length.insert(this.name, log_len);
        let actions = this.broadcast_replicate_log();
        (false, Node::Leader(this), actions)
    }

    /// A vote response only matters for its term: a newer one makes the
    /// server a follower.
    fn on_vote_receive(self, _responser_id: usize, responder_term: usize, _response: bool) -> (res: (
        Node,
        Vec<Action>,
    ))
        ensures
            (res.0.role(), res.0@, actions_view(res.1@)) == reply_term_step(
                self@,
                responder_term,
                Role::Follower,
                Role::Leader,
            ),
    {
        let mut this = self;
        let (newer, actions) = this.adopt_reply_term(responder_term);
        if newer {
            (Node::Follower(this.to_follower()), actions)
        } else {
            (Node::Leader(this), actions)
        }
    }

    /// Answers a vote request; a newer term makes the server a follower.
    fn on_vote_request(
        self,
        candidate_id: usize,
        candidate_term: usize,
        candidate_log_length: usize,
        candidate_log_term: usize,
    ) -> (res: (Node, Vec<Action>))
        ensures
            ({
                let (s1, newer, a) = vote_request_step(
                    self@,
                    candidate_id,
                    candidate_term,
                    candidate_log_length,
                    candidate_log_term,
                );
                (res.0.role(), res.0@, actions_view(res.1@)) == (
                    if newer {
                        Role::Follower
                    } else {
                        Role::Leader
                    },
                    s1,
                    a,
                )
            }),
    {
        let mut this = self;
        let (change_to_follower, actions) = this.handle_vote_request(
            candidate_id,
            candidate_term,
            candidate_log_length,
            candidate_log_term,
        );
        if change_to_follower {
            (Node::Follower(this.to_follower()), actions)
        } else {
            (Node::Leader(this), actions)
        }
    }

    /// The heartbeat timer fired: a round of log requests.
    fn on_send_heartbeat(self) -> (res: (Node, Vec<Action>))
        requires
            leader_wf(self@),
        ensures
            (res.0.role(), res.0@, actions_view(res.1@)) == (
                Role::Leader,
                self@,
                broadcast_replicate(self@),
            ),
    {
        let actions = self.broadcast_replicate_log();
        (Node::Leader(self), actions)
    }

    /// The server stops sending log requests.
    pub fn on_disconnect(self) -> (res: (bool, Node, Vec<Action>))
        ensures
            (res.0, res.1.role(), res.1@, actions_view(res.2@)) == (
                false,
                Role::Leader,
                with_activation(self@, false),
                Seq::<ActionView>::empty(),
            ),
    {
        let mut this = self;
        this.settings.activated = false;
        let actions: Vec<Action> = Vec::new();
        assert(actions_view(actions@) =~= Seq::<ActionView>::empty());
        (false, Node::Leader(this), actions)
    }

    /// The server sends log requests again.
    pub fn on_connect(self) -> (res: (bool, Node, Vec<Action>))
        ensures
            (res.0, res.1.role(), res.1@, actions_view(res.2@)) == (
                false,
                Role::Leader,
                with_activation(self@, true),
                Seq::<ActionView>::empty(),
            ),
    {
        let mut this = self;
        this.settings.activated = true;
        let actions: Vec<Action> = Vec::new();
        assert(actions_view(actions@) =~= Seq::<ActionView>::empty());
        (false, Node::Leader(this), actions)
    }

    /// Handles a follower's answer to a log request of the current term: a
    /// success records how many entries the follower holds and commits what
    /// a quorum holds; a failure steps the follower's sent length back by
    /// one and retries. A newer term makes the server a follower.
    pub fn on_log_response(
        self,
        responder_id: usize,
        responder_term: usize,
        ack: usize,
        answer: bool,
    ) -> (res: (Node, Vec<Action>))
        requires
            responder_term == self@.current_term ==> log_response_ok(
                self@,
                responder_id,
                ack,
                answer,
            ),
        ensures
            (res.0.role(), res.0@, actions_view(res.1@)) == leader_log_response_step(
                self@,
                responder_id,
                responder_term,
                ack,
                answer,
            ),
    {
        let mut this = self;
        if this.info.current_term == responder_term {
            if answer && ack >= *this.info.acked_length.get(&responder_id).unwrap() {
                this.info.sent_length.insert(responder_id, ack);
                this.info.acked_length.insert(responder_id, ack);
                let actions = this.commit_log_entries();
                (Node::Leader(this), actions)
            } else {
                let sent = *this.info.sent_length.get(&responder_id).unwrap();
                if sent > 0 {
                    this.info.sent_length.insert(responder_id, sent - 1);
                    let mut actions: Vec<Action> = Vec::new();
                    let a = this.replicate_log(responder_id);
                    push_action(&mut actions, a);
                    (Node::Leader(this), actions)
                } else {
                    let actions: Vec<Action> = Vec::new();
                    assert(actions_view(actions@) =~= Seq::<ActionView>::empty());
                    (Node::Leader(this), actions)
                }
            }
        } else {
            let (newer, actions) = this.adopt_reply_term(responder_term);
            if newer {
                (Node::Follower(this.to_follower()), actions)
            } else {
                (Node::Leader(this), actions)
            }
        }
    }

    /// How many servers acknowledged at least `len` entries.
    fn acks(&self, len: usize) -> (c: usize)
        ensures
            c == acks(self@.acked_length, len as int),
    {
        let ghost m = self.info.acked_length@;
        let ghost p = |k: usize| m[k] >= len;
        let mut count: usize = 0;
        let ghost mut seen: Set<usize> = Set::empty();
        proof {
            vstd::std_specs::hash::axiom_spec_keys_iter(&self.info.acked_length);
        }
        let ghost ks = vstd::std_specs::hash::spec_keys_iter(
            &self.info.acked_length,
        ).remaining().unref();
        let ghost mut idx: int = 0;
        let n = self.info.acked_length.len();
        proof {
            assert(Set::<usize>::empty().filter(p) =~= Set::<usize>::empty());
            assert(ks.take(0) =~= Seq::<usize>::empty());
        }
        for k in it: self.info.acked_length.keys()
            invariant
                m == self.info.acked_length@,
                p == (|k: usize| m[k] >= len),
                it.seq() == vstd::std_specs::hash::spec_keys_iter(
                    &self.info.acked_length,
                ).remaining(),
                it.seq().unref().to_set() == m.dom(),
                it.seq().unref().no_duplicates(),
                seen == it.seq().unref().take(it.index() as int).to_set(),
                count == seen.filter(p).len(),
                seen.finite(),
                count <= it.index(),
                idx == it.index(),
                ks == it.seq().unref(),
                ks.len() == n,
        {
            let ghost kk = *k;
            proof {
                assert(ks[idx] == kk);
                assert(m.dom().contains(kk));
            }
            let v = *self.info.acked_length.get(k).unwrap();
            let ghost old_seen = seen;
            proof {
                assert(!old_seen.contains(kk)) by {
                    if old_seen.contains(kk) {
                        let j = choose|j: int| 0 <= j < idx && ks.take(idx)[j] == kk;
                        assert(ks[j] == kk);
                    }
                }
                seen = seen.insert(kk);
                assert(ks.take(idx + 1) == ks.take(idx).push(kk));
                ks.take(idx).lemma_push_to_set_commute(kk);
                vstd::set_lib::lemma_set_subset_finite(old_seen, old_seen.filter(p));
                if p(kk) {
                    assert(seen.filter(p) == old_seen.filter(p).insert(kk));
                    assert(!old_seen.filter(p).contains(kk));
                } else {
                    assert(seen.filter(p) == old_seen.filter(p));
                }
            }
            if v >= len {
                count = count + 1;
            }
            proof {
                idx = idx + 1;
            }
        }
        proof {
            assert(ks.take(idx) == ks);
            assert(m.dom().filter(p) == m.dom().filter(|k: usize| m[k] >= len as int));
        }
        count
    }

    /// The largest length below the log's length (and at least 1) that at
    /// least `min_acks` servers acknowledged, if any.
    fn max_ready_length(&self, min_acks: usize) -> (r: Option<usize>)
        ensures
            match r {
                Some(ready) => is_max_ready(
                    self@.acked_length,
                    self@.log.len() as int,
                    min_acks as int,
                    ready as int,
                ),
                None => forall|r2: int|
                    1 <= r2 < self@.log.len() ==> acks(self@.acked_length, r2) < min_acks,
            },
    {
        let n = self.info.log.len();
        let mut r = n;
        while r > 1
            invariant
                r <= n,
                n == self@.log.len(),
                forall|r2: int| r <= r2 < n && r2 >= 1 ==> acks(self@.acked_length, r2) < min_acks,
            decreases r,
        {
            let candidate = r - 1;
            if self.acks(candidate) >= min_acks {
                return Some(candidate);
            }
            r = candidate;
        }
        None
    }

    /// Commits the largest length a quorum acknowledged, when it goes
    /// beyond the commit length and its last entry is of the current term,
    /// and delivers the entries from the old commit length up to one before
    /// the new one.
    pub fn commit_log_entries(&mut self) -> (actions: Vec<Action>)
        ensures
            (final(self)@, actions_view(actions@)) == commit_step(old(self)@),
    {
        let min_acks = self.settings.total_elements / 2 + 1;
        let ghost q = quorum(self.settings.total_elements);
        assert(min_acks == q);
        let ready_or_none = self.max_ready_length(min_acks);
        let ghost s = self@;
        proof {
            let log_len = s.log.len() as int;
            match ready_or_none {
                Some(ready) => {
                    assert(exists|r: int| is_max_ready(s.acked_length, log_len, q, r));
                    let c = choose|r: int| is_max_ready(s.acked_length, log_len, q, r);
                    if c < ready {
                        assert(acks(s.acked_length, ready as int) < q);
                    }
                    if c > ready {
                        assert(acks(s.acked_length, c) < q);
                    }
                    assert(max_ready(s.acked_length, log_len, q) == Some(ready as int));
                },
                None => {
                    assert(max_ready(s.acked_length, log_len, q) is None);
                },
            }
        }
        let mut actions: Vec<Action> = Vec::new();
        match ready_or_none {
            Some(ready) => {
                if ready > self.info.commit_length && self.info.log[ready - 1].term
                    == self.info.current_term {
                    let mut i = self.info.commit_length;
                    while i < ready - 1
                        invariant
                            s == self@,
                            s.commit_length <= i <= ready - 1,
                            ready < s.log.len(),
                            actions_view(actions@) == deliveries(
                                s.log,
                                s.commit_length as int,
                                i as int,
                            ),
                        decreases ready - 1 - i,
                    {
                        push_action(
                            &mut actions,
                            Action::Deliver { data: self.info.log[i].data.clone() },
                        );
                        assert(deliveries(s.log, s.commit_length as int, i + 1) =~= deliveries(
                            s.log,
                            s.commit_length as int,
                            i as int,
                        ).push(ActionView::Deliver { data: s.log[i as int].data }));
                        i = i + 1;
                    }
                    self.info.commit_length = ready;
                } else {
                    assert(actions_view(actions@) =~= Seq::<ActionView>::empty());
                }
            },
            None => {
                assert(actions_view(actions@) =~= Seq::<ActionView>::empty());
            },
        }
        actions
    }

    /// Carries out an operator's order.
    pub fn handle_order(self, order: Order) -> (res: (bool, Node, Vec<Action>))
        requires
            leader_wf(self@),
        ensures
            (res.0, res.1.role(), res.1@, actions_view(res.2@)) == order_step(
                Role::Leader,
                self@,
                order,
            ),
    {
        match order {
            Order::Disconnect => self.on_disconnect(),
            Order::ListLog => self.on_list_log(),
            Order::Reconnect => self.on_connect(),
            Order::SendInfo { info } => self.on_send_info(info),
            _ => {
                let actions: Vec<Action> = Vec::new();
                assert(actions_view(actions@) =~= Seq::<ActionView>::empty());
                (false, Node::Leader(self), actions)
            },
        }
    }

    /// Handles a message from another server or from its own timer.
    pub fn handle_server_message(self, message: ServerMessage) -> (res: (Node, Vec<Action>))
        requires
            leader_wf(self@),
            message_ok(Role::Leader, self@, message@),
        ensures
            (res.0.role(), res.0@, actions_view(res.1@)) == leader_message_step(
                self@,
                message@,
            ),
    {
        match message {
            ServerMessage::LogResponse { responder_id, responder_term, ack, answer } =>
                self.on_log_response(responder_id, responder_term, ack, answer),
            ServerMessage::SendInfo { msg } => {
                let (_stop, next, actions) = self.on_send_info(msg);
                (next, actions)
            },
            ServerMessage::VoteResponse { responser_id, responder_term, response } =>
                self.on_vote_receive(responser_id, responder_term, response),
            ServerMessage::VoteRequest { candidate_id, candidate_term, log_length, last_term } =>
                self.on_vote_request(candidate_id, candidate_term, log_length, last_term),
            ServerMessage::SendHeartBeat => self.on_send_heartbeat(),
            _ => {
                let actions: Vec<Action> = Vec::new();
                assert(actions_view(actions@) =~= Seq::<ActionView>::empty());
                (Node::Leader(self), actions)
            },
        }
    }
}

} // verus!
