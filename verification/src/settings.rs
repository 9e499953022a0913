use vstd::prelude::*;

verus! {

/// Tunable parameters of one server.
#[derive(Debug, Clone)]
pub struct ServerSettings {
    /// Whether the server takes part in replication (a leader that is not
    /// activated sends no log requests).
    pub activated: bool,
    /// Seconds a follower waits for its leader before it stands for election.
    pub election_timeout: usize,
    /// Seconds between two rounds of log requests of a leader.
    pub heartbeat_timeout: usize,
    /// Number of servers in the cluster.
    pub total_elements: usize,
}

impl ServerSettings {
    /// The settings of a server in a cluster of `total_elements` servers.
    pub fn new(total_elements: usize) -> (s: ServerSettings)
        ensures
            s.activated,
            s.election_timeout == 10,
            s.heartbeat_timeout == 2,
            s.total_elements == total_elements,
    {
        ServerSettings {
            activated: true,
            election_timeout: 10,
            heartbeat_timeout: 2,
            total_elements: total_elements,
        }
    }
}

} // verus!
