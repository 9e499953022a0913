//! The server type and what every role does alike.
use std::marker::PhantomData;
use vstd::prelude::*;

use crate::consensus_info::ConsensusInfo;
use crate::message::{actions_view, push_action, Action, ActionView, LogEntry, ServerMessage};
use crate::message::MessageView;
use crate::model::{
    append_entries_step, appended_log, broadcast, election_timer, last_log_term, log_data,
    log_request_step, replicate, reset_timer, vote_request_step, with_term, ServerView,
};
use crate::settings::ServerSettings;

verus! {

broadcast use vstd::std_specs::hash::group_hash_axioms;

/// Marks a type that names a role of a server.
pub trait StateT {}

/// A server that is still being wired up with its neighbours.
#[derive(Debug)]
pub struct Initial;

/// A server that leads its term.
#[derive(Debug)]
pub struct Leader;

/// A server that stands for election.
#[derive(Debug)]
pub struct Candidate;

/// A server that follows a leader.
#[derive(Debug)]
pub struct Follower;

impl StateT for Initial {}

impl StateT for Leader {}

impl StateT for Follower {}

impl StateT for Candidate {}

/// One server of the cluster, in role `S`.
#[derive(Debug)]
pub struct Server<S: StateT> {
    pub _state: PhantomData<S>,
    pub name: usize,
    /// The names of the servers this one can send to.
    pub neighbours: Vec<usize>,
    pub info: ConsensusInfo,
    pub settings: ServerSettings,
}

impl<S: StateT> View for Server<S> {
    type V = ServerView;

    open spec fn view(&self) -> ServerView {
        ServerView {
            name: self.name,
            neighbours: self.neighbours@,
            current_term: self.info.current_term,
            voted_for: self.info.voted_for,
            log: self.info.log@,
            commit_length: self.info.commit_length,
            current_leader: self.info.current_leader,
            votes_received: self.info.votes_received@,
            sent_length: self.info.sent_length@,
            acked_length: self.info.acked_length@,
            activated: self.settings.activated,
            election_timeout: self.settings.election_timeout,
            heartbeat_timeout: self.settings.heartbeat_timeout,
            total_elements: self.settings.total_elements,
        }
    }
}

/// Copies of the log entries from position `from` on.
pub fn clone_entries(log: &Vec<LogEntry>, from: usize) -> (r: Vec<LogEntry>)
    requires
        from <= log@.len(),
    ensures
        r@ == log@.skip(from as int),
{
    let mut r: Vec<LogEntry> = Vec::new();
    let mut i = from;
    while i < log.len()
        invariant
            from <= i <= log@.len(),
            r@ == log@.subrange(from as int, i as int),
        decreases log@.len() - i,
    {
        r.push(log[i].clone());
        assert(r@ =~= log@.subrange(from as int, i + 1));
        i = i + 1;
    }
    assert(r@ =~= log@.skip(from as int));
    r
}

impl<T: StateT> Server<T> {
    /// The number of neighbours.
    pub fn neighbours_len(&self) -> (n: usize)
        ensures
            n == self.neighbours@.len(),
    {
        self.neighbours.len()
    }

    /// The server's name.
    pub fn get_name(&self) -> (n: usize)
        ensures
            n == self.name,
    {
        self.name
    }

    /// The action that restarts the server's timer so that it delivers
    /// `message` after `time` seconds, or after the timeout that belongs to
    /// the message when `time` is `None`.
    pub fn update_timer(&self, message: ServerMessage, time: Option<usize>) -> (a: Action)
        ensures
            a@ == reset_timer(self@, message@, time),
    {
        let seconds = match time {
            Some(t) => t,
            None => match message {
                ServerMessage::TimerExpired => self.settings.election_timeout,
                ServerMessage::SendHeartBeat => self.settings.heartbeat_timeout,
                _ => 10,
            },
        };
        Action::ResetTimer { message, seconds }
    }

    /// The term of the last log entry, 0 for an empty log.
    pub fn last_term(&self) -> (t: usize)
        ensures
            t == last_log_term(self.info.log@),
    {
        match self.info.log.last() {
            Some(entry) => entry.term,
            None => 0,
        }
    }

    /// Answers a vote request: adopts a newer term, grants the vote when the
    /// candidate's log is at least as recent and no other candidate got this
    /// server's vote in the term, and replies to the candidate. Returns
    /// whether the request carried a newer term (and with it the actions).
    pub fn handle_vote_request(
        &mut self,
        candidate_id: usize,
        candidate_term: usize,
        candidate_log_length: usize,
        candidate_log_term: usize,
    ) -> (res: (bool, Vec<Action>))
        ensures
            (final(self)@, res.0, actions_view(res.1@)) == vote_request_step(
                old(self)@,
                candidate_id,
                candidate_term,
                candidate_log_length,
                candidate_log_term,
            ),
    {
        let received_newer_term: bool = candidate_term > self.info.current_term;
        if received_newer_term {
            self.info.current_term = candidate_term;
            self.info.voted_for = None;
        }
        let last_term = self.last_term();
        let log_ok: bool = (candidate_log_term > last_term) || (candidate_log_term == last_term
            && candidate_log_length >= self.info.log.len());
        let voted_ok: bool = match self.info.voted_for {
            None => true,
            Some(voted) => voted == candidate_id,
        };
        let answer: bool = candidate_term == self.info.current_term && log_ok && voted_ok;
        if answer {
            self.info.voted_for = Some(candidate_id);
        }
        let accepted_request = ServerMessage::VoteResponse {
            responser_id: self.name,
            responder_term: self.info.current_term,
            response: answer,
        };
        let mut actions: Vec<Action> = Vec::new();
        push_action(&mut actions, Action::Send { to: candidate_id, message: accepted_request });
        (received_newer_term, actions)
    }

    /// The action that shows the data of every log entry.
    pub fn handle_list_log(&self) -> (a: Action)
        ensures
            a@ == (ActionView::ShowLog { entries: log_data(self.info.log@) }),
    {
        let mut entries: Vec<String> = Vec::new();
        let mut i: usize = 0;
        while i < self.info.log.len()
            invariant
                i <= self.info.log@.len(),
                entries@ == log_data(self.info.log@.take(i as int)),
            decreases self.info.log@.len() - i,
        {
            entries.push(self.info.log[i].data.clone());
            assert(entries@ =~= log_data(self.info.log@.take(i + 1)));
            i = i + 1;
        }
        assert(self.info.log@.take(i as int) =~= self.info.log@);
        Action::ShowLog { entries }
    }

    /// Handles a log request: adopts a newer term, takes the sender as the
    /// leader of an equal term (restarting the election timer), merges the
    /// entries into the log when the log holds the entry they build on, and
    /// replies with how many entries it now shares with the leader. Returns
    /// whether the request came from the leader of the server's term.
    pub fn handle_log_request(
        &mut self,
        leader_id: usize,
        leader_term: usize,
        prefix_len: usize,
        prefix_term: usize,
        leader_commit: usize,
        suffix: Vec<LogEntry>,
    ) -> (res: (bool, Vec<Action>))
        requires
            crate::model::log_request_accepted(old(self)@, leader_term, prefix_len, prefix_term)
                ==> prefix_len + suffix@.len() <= usize::MAX,
        ensures
            (final(self)@, res.0, actions_view(res.1@)) == log_request_step(
                old(self)@,
                leader_id,
                leader_term,
                prefix_len,
                prefix_term,
                leader_commit,
                suffix@,
            ),
    {
        if leader_term > self.info.current_term {
            self.info.current_term = leader_term;
            self.info.voted_for = None;
        }
        let mut actions: Vec<Action> = Vec::new();
        let equal_term: bool = leader_term == self.info.current_term;
        if equal_term {
            self.info.current_leader = Some(leader_id);
            let timer = self.update_timer(ServerMessage::TimerExpired, None);
            push_action(&mut actions, timer);
        }
        let log_ok: bool = prefix_len == 0 || (prefix_len <= self.info.log.len()
            && self.info.log[prefix_len - 1].term == prefix_term);
        let answer: bool = self.info.current_term == leader_term && log_ok;
        let message = if answer {
            let ack = prefix_len + suffix.len();
            self.append_entries(prefix_len, leader_commit, suffix);
            ServerMessage::LogResponse {
                responder_id: self.name,
                responder_term: self.info.current_term,
                ack: ack,
                answer: true,
            }
        } else {
            ServerMessage::LogResponse {
                responder_id: self.name,
                responder_term: self.info.current_term,
                ack: 0,
                answer: false,
            }
        };
        push_action(&mut actions, Action::Send { to: leader_id, message });
        (equal_term, actions)
    }

    /// Merges `suffix` into the log at `prefix_len` and takes the leader's
    /// commit length when it is larger.
    fn append_entries(&mut self, prefix_len: usize, leader_commit: usize, suffix: Vec<LogEntry>)
        requires
            prefix_len <= old(self).info.log@.len(),
            prefix_len + suffix@.len() <= usize::MAX,
        ensures
            final(self)@ == append_entries_step(old(self)@, prefix_len, leader_commit, suffix@),
    {
        if suffix.len() > 0 && self.info.log.len() > prefix_len {
            let index = if self.info.log.len() < prefix_len + suffix.len() {
                self.info.log.len() - 1
            } else {
                prefix_len + suffix.len() - 1
            };
            if self.info.log[index].term != suffix[index - prefix_len].term {
                self.info.log.truncate(prefix_len);
            }
        }
        let ghost cut = self.info.log@;
        if prefix_len + suffix.len() > self.info.log.len() {
            let skip = self.info.log.len() - prefix_len;
            let mut i = skip;
            while i < suffix.len()
                invariant
                    prefix_len + suffix@.len() <= usize::MAX,
                    cut.len() - prefix_len == skip,
                    skip <= i <= suffix@.len(),
                    self.info.log@ == cut + suffix@.subrange(skip as int, i as int),
                    self@ == (ServerView { log: self@.log, ..old(self)@ }),
                decreases suffix@.len() - i,
            {
                self.info.log.push(suffix[i].clone());
                assert(self.info.log@ =~= cut + suffix@.subrange(skip as int, i + 1));
                i = i + 1;
            }
            assert(suffix@.subrange(skip as int, suffix@.len() as int) =~= suffix@.skip(
                skip as int,
            ));
        }
        if leader_commit > self.info.commit_length {
            self.info.commit_length = leader_commit;
        }
        assert(self.info.log@ == appended_log(old(self).info.log@, prefix_len, suffix@));
    }

    /// The log request for `follower_id`: the entries past what the follower
    /// is believed to hold.
    pub fn replicate_log(&self, follower_id: usize) -> (a: Action)
        requires
            self@.sent_length.contains_key(follower_id),
            self@.sent_length[follower_id] <= self@.log.len(),
        ensures
            a@ == replicate(self@, follower_id),
    {
        let prefix_len = *self.info.sent_length.get(&follower_id).unwrap();
        let suffix = clone_entries(&self.info.log, prefix_len);
        let prefix_term = self.last_term();
        let message = ServerMessage::LogRequest {
            leader_id: self.name,
            current_term: self.info.current_term,
            prefix_len: prefix_len,
            prefix_term: prefix_term,
            commit_length: self.info.commit_length,
            suffix: suffix,
        };
        Action::Send { to: follower_id, message }
    }

    /// A vote request for each neighbour, in order.
    pub fn vote_requests(
        &self,
        candidate_term: usize,
        log_length: usize,
        last_term: usize,
    ) -> (actions: Vec<Action>)
        ensures
            actions_view(actions@) == broadcast(
                self.neighbours@,
                MessageView::VoteRequest {
                    candidate_id: self.name,
                    candidate_term: candidate_term,
                    log_length: log_length,
                    last_term: last_term,
                },
            ),
    {
        let ghost m = MessageView::VoteRequest {
            candidate_id: self.name,
            candidate_term: candidate_term,
            log_length: log_length,
            last_term: last_term,
        };
        let mut actions: Vec<Action> = Vec::new();
        let mut i: usize = 0;
        while i < self.neighbours.len()
            invariant
                i <= self.neighbours@.len(),
                actions_view(actions@) == broadcast(self.neighbours@.take(i as int), m),
                m == (MessageView::VoteRequest {
                    candidate_id: self.name,
                    candidate_term: candidate_term,
                    log_length: log_length,
                    last_term: last_term,
                }),
            decreases self.neighbours@.len() - i,
        {
            let message = ServerMessage::VoteRequest {
                candidate_id: self.name,
                candidate_term: candidate_term,
                log_length: log_length,
                last_term: last_term,
            };
            push_action(&mut actions, Action::Send { to: self.neighbours[i], message });
            assert(broadcast(self.neighbours@.take(i + 1), m) =~= broadcast(
                self.neighbours@.take(i as int),
                m,
            ).push(ActionView::Send { to: self.neighbours@[i as int], message: m }));
            i = i + 1;
        }
        assert(self.neighbours@.take(i as int) =~= self.neighbours@);
        actions
    }

    /// Looks at the term of a reply: a newer term is adopted (no vote cast
    /// in it yet) and the election timer restarted. Returns whether the term
    /// was newer, and the actions.
    pub fn adopt_reply_term(&mut self, term: usize) -> (res: (bool, Vec<Action>))
        ensures
            res.0 == (term > old(self)@.current_term),
            res.0 ==> final(self)@ == with_term(old(self)@, term) && actions_view(res.1@) == seq![
                election_timer(with_term(old(self)@, term)),
            ],
            !res.0 ==> final(self)@ == old(self)@ && actions_view(res.1@) == Seq::<
                ActionView,
            >::empty(),
    {
        let mut actions: Vec<Action> = Vec::new();
        if term > self.info.current_term {
            self.info.current_term = term;
            self.info.voted_for = None;
            let timer = self.update_timer(ServerMessage::TimerExpired, None);
            push_action(&mut actions, timer);
            (true, actions)
        } else {
            assert(actions_view(actions@) =~= Seq::<ActionView>::empty());
            (false, actions)
        }
    }
}

} // verus!
