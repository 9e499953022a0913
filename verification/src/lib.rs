//! A Raft-style consensus server, written as a state machine that turns
//! each event (a message or an operator order) into its next state and a
//! list of actions for its surroundings to carry out.
pub mod message;
pub mod settings;
pub mod consensus_info;
pub mod model;
pub mod server;
pub mod node;
pub mod initial;
pub mod follower;
pub mod candidate;
pub mod leader;
pub mod laws;
