# raft

A small Raft-style consensus cluster. Each server is a state machine: for
every event (a message from another server, a timer firing, or an order from
the operator) it computes its next state and a list of actions (send a
message, restart the timer, deliver a committed entry, show the log).

- `src/` holds the state machine, verified with Verus:
  - `model.rs`: the server's state as plain values and, for every event, the
    next state and actions as spec functions;
  - `server.rs`: the `Server<S>` type (`S` is the role) and what every role
    does alike (vote requests, log requests, appending entries, log
    replication);
  - `initial.rs`, `follower.rs`, `candidate.rs`, `leader.rs`: what each role
    does; each handler is proved equal to the model;
  - `node.rs`: a server in any role, with the invariant that every step keeps;
  - `laws.rs`: properties of every step (terms and commit lengths never go
    down, one vote per term, a leader's log only grows, commits need a
    quorum, elections need a quorum, ...).
- `app/` runs five servers on threads connected by channels, carries out the
  actions (network delays, timers, logging) and reads operator commands from
  the terminal.
