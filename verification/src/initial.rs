//! A server that is still being wired up.
use std::marker::PhantomData;
use vstd::prelude::*;

use crate::consensus_info::ConsensusInfo;
use crate::message::{actions_view, Action, ActionView, Order, ServerMessage};
use crate::model::{fresh, message_step, order_step, others, Role, ServerView};
use crate::node::Node;
use crate::server::{Follower, Initial, Server};
use crate::settings::ServerSettings;

verus! {

/// Whether `v` holds `x`.
pub fn contains(v: &Vec<usize>, x: usize) -> (b: bool)
    ensures
        b == v@.contains(x),
{
    let mut i: usize = 0;
    while i < v.len()
        invariant
            i <= v@.len(),
            forall|j: int| 0 <= j < i ==> v@[j] != x,
        decreases v@.len() - i,
    {
        if v[i] == x {
            return true;
        }
        i = i + 1;
    }
    false
}

impl Server<Initial> {
    /// A new server named `name` in a cluster of `total_elements` servers
    /// that can send to `neighbours`.
    pub fn new(name: usize, total_elements: usize, neighbours: Vec<usize>) -> (s: Self)
        ensures
            s@ == fresh(name, total_elements, neighbours@),
    {
        Server {
            _state: PhantomData,
            name,
            neighbours,
            info: ConsensusInfo::new(),
            settings: ServerSettings::new(total_elements),
        }
    }

    /// Lets the server send to `name` (known names are kept once).
    pub fn add_sender(&mut self, name: usize)
        ensures
            final(self)@ == (ServerView {
                neighbours: if old(self)@.neighbours.contains(name) {
                    old(self)@.neighbours
                } else {
                    old(self)@.neighbours.push(name)
                },
                ..old(self)@
            }),
    {
        if !contains(&self.neighbours, name) {
            self.neighbours.push(name);
        }
    }

    /// The wired-up server, which starts as a follower.
    pub fn completed(self) -> (r: Server<Follower>)
        ensures
            r@ == self@,
    {
        Server {
            _state: PhantomData,
            name: self.name,
            neighbours: self.neighbours,
            info: self.info,
            settings: self.settings,
        }
    }

    /// Any order stops a server that is not wired up yet.
    pub fn handle_order(self, order: Order) -> (res: (bool, Node, Vec<Action>))
        ensures
            (res.0, res.1.role(), res.1@, actions_view(res.2@)) == order_step(
                Role::Initial,
                self@,
                order,
            ),
    {
        let actions: Vec<Action> = Vec::new();
        assert(actions_view(actions@) =~= Seq::<ActionView>::empty());
        (true, Node::Initial(self), actions)
    }

    /// A server that is not wired up yet ignores every message.
    pub fn handle_server_message(self, message: ServerMessage) -> (res: (Node, Vec<Action>))
        ensures
            (res.0.role(), res.0@, actions_view(res.1@)) == message_step(
                Role::Initial,
                self@,
                message@,
            ),
    {
        let actions: Vec<Action> = Vec::new();
        assert(actions_view(actions@) =~= Seq::<ActionView>::empty());
        (Node::Initial(self), actions)
    }
}

/// The servers of a cluster of `n_servers`, named `0..n_servers`, each able
/// to send to all the others.
pub fn initialize_servers(n_servers: usize) -> (r: Vec<Server<Initial>>)
    ensures
        r@.len() == n_servers,
        forall|j: int|
            0 <= j < n_servers ==> #[trigger] r@[j]@ == fresh(
                j as usize,
                n_servers,
                others(n_servers, j as usize),
            ),
{
    let mut servers: Vec<Server<Initial>> = Vec::new();
    let mut j: usize = 0;
    while j < n_servers
        invariant
            j <= n_servers,
            servers@.len() == j,
            forall|k: int|
                0 <= k < j ==> #[trigger] servers@[k]@ == fresh(
                    k as usize,
                    n_servers,
                    others(n_servers, k as usize),
                ),
        decreases n_servers - j,
    {
        let mut neighbours: Vec<usize> = Vec::new();
        let mut i: usize = 0;
        while i < n_servers
            invariant
                j < n_servers,
                i <= n_servers,
                neighbours@ == others(n_servers, j).take(if i <= j { i as int } else { i - 1 }),
            decreases n_servers - i,
        {
            if i != j {
                neighbours.push(i);
            }
            proof {
                let o = others(n_servers, j);
                let before: int = if i <= j { i as int } else { i - 1 };
                let after: int = if i + 1 <= j { i + 1 } else { i as int };
                if i != j {
                    assert(o[before] == i);
                    assert(o.take(after) =~= o.take(before).push(i));
                } else {
                    assert(after == before);
                }
            }
            i = i + 1;
        }
        assert(others(n_servers, j).take(n_servers - 1) =~= others(n_servers, j));
        servers.push(Server::new(j, n_servers, neighbours));
        j = j + 1;
    }
    servers
}

} // verus!
