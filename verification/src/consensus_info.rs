use std::collections::HashMap;
use vstd::prelude::*;

use crate::message::LogEntry;

verus! {

broadcast use vstd::std_specs::hash::group_hash_axioms;

/// The consensus state of one server.
#[derive(Debug)]
pub struct ConsensusInfo {
    /// The latest term this server has seen.
    pub current_term: usize,
    /// The candidate this server voted for in `current_term`, if any.
    pub voted_for: Option<usize>,
    /// The replicated log.
    pub log: Vec<LogEntry>,
    /// How many log entries are known to be committed.
    pub commit_length: usize,
    /// The leader of `current_term`, once known.
    pub current_leader: Option<usize>,
    /// The servers that voted for this server in `current_term`.
    pub votes_received: Vec<usize>,
    /// For each follower, how many entries a leader believes it already holds.
    pub sent_length: HashMap<usize, usize>,
    /// For each server, how many entries it has acknowledged to a leader.
    pub acked_length: HashMap<usize, usize>,
}

impl ConsensusInfo {
    /// The state of a server that has seen nothing yet.
    pub fn new() -> (c: ConsensusInfo)
        ensures
            c.current_term == 0,
            c.voted_for is None,
            c.log@ == Seq::<LogEntry>::empty(),
            c.commit_length == 0,
            c.current_leader is None,
            c.votes_received@ == Seq::<usize>::empty(),
            c.sent_length@ == Map::<usize, usize>::empty(),
            c.acked_length@ == Map::<usize, usize>::empty(),
    {
        ConsensusInfo {
            current_term: 0,
            voted_for: None,
            log: Vec::new(),
            commit_length: 0,
            current_leader: None,
            votes_received: Vec::new(),
            sent_length: HashMap::new(),
            acked_length: HashMap::new(),
        }
    }
}

} // verus!
