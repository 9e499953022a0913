//! A server in whatever role it currently plays.
use vstd::prelude::*;

use crate::laws::{message_step_keeps_invariant, order_step_keeps_invariant};
use crate::message::{actions_view, Action, Order, ServerMessage};
use crate::model::{message_ok, message_step, order_ok, order_step, role_inv, Role, ServerView};
use crate::server::{Candidate, Follower, Initial, Leader, Server};

verus! {

/// A server in any role.
#[derive(Debug)]
pub enum Node {
    Initial(Server<Initial>),
    Follower(Server<Follower>),
    Candidate(Server<Candidate>),
    Leader(Server<Leader>),
}

impl Node {
    /// The role the server plays.
    pub open spec fn role(&self) -> Role {
        match self {
            Node::Initial(_) => Role::Initial,
            Node::Follower(_) => Role::Follower,
            Node::Candidate(_) => Role::Candidate,
            Node::Leader(_) => Role::Leader,
        }
    }

    /// The invariant of the server in its role.
    pub open spec fn inv(&self) -> bool {
        role_inv(self.role(), self@)
    }

    /// Handles a message; the server may change its role.
    pub fn handle_server_message(self, message: ServerMessage) -> (res: (Node, Vec<Action>))
        requires
            self.inv(),
            message_ok(self.role(), self@, message@),
        ensures
            (res.0.role(), res.0@, actions_view(res.1@)) == message_step(
                self.role(),
                self@,
                message@,
            ),
            res.0.inv(),
    {
        proof {
            message_step_keeps_invariant(self.role(), self@, message@);
        }
        match self {
            Node::Initial(s) => s.handle_server_message(message),
            Node::Follower(s) => s.handle_server_message(message),
            Node::Candidate(s) => s.handle_server_message(message),
            Node::Leader(s) => s.handle_server_message(message),
        }
    }

    /// Carries out an order; returns whether the server stops.
    pub fn handle_order(self, order: Order) -> (res: (bool, Node, Vec<Action>))
        requires
            self.inv(),
            order_ok(self.role(), self@, order),
        ensures
            (res.0, res.1.role(), res.1@, actions_view(res.2@)) == order_step(
                self.role(),
                self@,
                order,
            ),
            res.1.inv(),
    {
        proof {
            order_step_keeps_invariant(self.role(), self@, order);
        }
        match self {
            Node::Initial(s) => s.handle_order(order),
            Node::Follower(s) => s.handle_order(order),
            Node::Candidate(s) => s.handle_order(order),
            Node::Leader(s) => s.handle_order(order),
        }
    }
}

impl View for Node {
    type V = ServerView;

    open spec fn view(&self) -> ServerView {
        match self {
            Node::Initial(s) => s@,
            Node::Follower(s) => s@,
            Node::Candidate(s) => s@,
            Node::Leader(s) => s@,
        }
    }
}

} // verus!
