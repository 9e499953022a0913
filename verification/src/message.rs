use vstd::prelude::*;

verus! {

/// One entry of the replicated log: the client's data and the term in
/// which a leader first received it.
#[derive(Debug)]
pub struct LogEntry {
    pub data: String,
    pub term: usize,
}

impl Clone for LogEntry {
    fn clone(&self) -> (r: Self)
        ensures
            r == *self,
    {
        LogEntry { data: self.data.clone(), term: self.term }
    }
}

/// A message that travels between servers (or from a server to itself,
/// for timers).
#[derive(Debug, Clone)]
pub enum ServerMessage {
    Ping { from: usize, to: usize },
    SendInfo { msg: String },
    ForwardInfo,
    VoteRequest { candidate_id: usize, candidate_term: usize, log_length: usize, last_term: usize },
    VoteResponse { responser_id: usize, responder_term: usize, response: bool },
    HeartBeatSent { leader_id: usize, current_term: usize },
    SendHeartBeat,
    TimerExpired,
    LogRequest {
        leader_id: usize,
        current_term: usize,
        prefix_len: usize,
        prefix_term: usize,
        commit_length: usize,
        suffix: Vec<LogEntry>,
    },
    LogResponse { responder_id: usize, responder_term: usize, ack: usize, answer: bool },
}

/// The mathematical content of a `ServerMessage`: the same variants, with
/// the log suffix of a `LogRequest` seen as a sequence.
pub enum MessageView {
    Ping { from: usize, to: usize },
    SendInfo { msg: String },
    ForwardInfo,
    VoteRequest { candidate_id: usize, candidate_term: usize, log_length: usize, last_term: usize },
    VoteResponse { responser_id: usize, responder_term: usize, response: bool },
    HeartBeatSent { leader_id: usize, current_term: usize },
    SendHeartBeat,
    TimerExpired,
    LogRequest {
        leader_id: usize,
        current_term: usize,
        prefix_len: usize,
        prefix_term: usize,
        commit_length: usize,
        suffix: Seq<LogEntry>,
    },
    LogResponse { responder_id: usize, responder_term: usize, ack: usize, answer: bool },
}

impl View for ServerMessage {
    type V = MessageView;

    open spec fn view(&self) -> MessageView {
        match self {
            ServerMessage::Ping { from, to } => MessageView::Ping { from: *from, to: *to },
            ServerMessage::SendInfo { msg } => MessageView::SendInfo { msg: *msg },
            ServerMessage::ForwardInfo => MessageView::ForwardInfo,
            ServerMessage::VoteRequest { candidate_id, candidate_term, log_length, last_term } =>
                MessageView::VoteRequest {
                candidate_id: *candidate_id,
                candidate_term: *candidate_term,
                log_length: *log_length,
                last_term: *last_term,
            },
            ServerMessage::VoteResponse { responser_id, responder_term, response } =>
                MessageView::VoteResponse {
                responser_id: *responser_id,
                responder_term: *responder_term,
                response: *response,
            },
            ServerMessage::HeartBeatSent { leader_id, current_term } => MessageView::HeartBeatSent {
                leader_id: *leader_id,
                current_term: *current_term,
            },
            ServerMessage::SendHeartBeat => MessageView::SendHeartBeat,
            ServerMessage::TimerExpired => MessageView::TimerExpired,
            ServerMessage::LogRequest {
                leader_id,
                current_term,
                prefix_len,
                prefix_term,
                commit_length,
                suffix,
            } => MessageView::LogRequest {
                leader_id: *leader_id,
                current_term: *current_term,
                prefix_len: *prefix_len,
                prefix_term: *prefix_term,
                commit_length: *commit_length,
                suffix: suffix@,
            },
            ServerMessage::LogResponse { responder_id, responder_term, ack, answer } =>
                MessageView::LogResponse {
                responder_id: *responder_id,
                responder_term: *responder_term,
                ack: *ack,
                answer: *answer,
            },
        }
    }
}

/// A command given to a server by its operator.
#[derive(Debug, Clone)]
pub enum Order {
    SendInfo { info: String },
    ConvertToFollower,
    ConvertToCandidate,
    ListLog,
    Disconnect,
    Reconnect,
    Exit,
}

/// The message set of the first protocol draft: a ping and the two
/// messages of an election.
#[derive(Debug)]
pub enum Message {
    Ping { from: usize, to: usize },
    VoteRequest { candidate_id: usize, candidate_term: usize, log_length: usize, last_term: usize },
    VoteResponse { responser_id: usize, current_term: usize, response: bool },
}

/// What a server asks its surroundings to do after it handled an event.
#[derive(Debug)]
pub enum Action {
    /// Send `message` to the neighbour named `to`.
    Send { to: usize, message: ServerMessage },
    /// Put `message` into the server's own inbox now.
    SendToSelf { message: ServerMessage },
    /// Put `message` into the server's own inbox after `seconds` seconds.
    SendToSelfLater { message: ServerMessage, seconds: usize },
    /// Cancel the running timer and start one that puts `message` into the
    /// server's own inbox after `seconds` seconds.
    ResetTimer { message: ServerMessage, seconds: usize },
    /// Hand a committed entry's data to the application.
    Deliver { data: String },
    /// Show the data of every log entry, in order.
    ShowLog { entries: Vec<String> },
}

/// The mathematical content of an `Action`.
pub enum ActionView {
    Send { to: usize, message: MessageView },
    SendToSelf { message: MessageView },
    SendToSelfLater { message: MessageView, seconds: usize },
    ResetTimer { message: MessageView, seconds: usize },
    Deliver { data: String },
    ShowLog { entries: Seq<String> },
}

impl View for Action {
    type V = ActionView;

    open spec fn view(&self) -> ActionView {
        match self {
            Action::Send { to, message } => ActionView::Send { to: *to, message: message@ },
            Action::SendToSelf { message } => ActionView::SendToSelf { message: message@ },
            Action::SendToSelfLater { message, seconds } => ActionView::SendToSelfLater {
                message: message@,
                seconds: *seconds,
            },
            Action::ResetTimer { message, seconds } => ActionView::ResetTimer {
                message: message@,
                seconds: *seconds,
            },
            Action::Deliver { data } => ActionView::Deliver { data: *data },
            Action::ShowLog { entries } => ActionView::ShowLog { entries: entries@ },
        }
    }
}

/// The actions of a list, as values.
pub open spec fn actions_view(v: Seq<Action>) -> Seq<ActionView> {
    v.map_values(|a: Action| a@)
}

/// Appends one action.
pub fn push_action(v: &mut Vec<Action>, a: Action)
    ensures
        actions_view(final(v)@) == actions_view(old(v)@).push(a@),
{
    let ghost a_view = a@;
    v.push(a);
    assert(actions_view(v@) =~= actions_view(old(v)@).push(a_view));
}

/// Appends all actions of `w`, in order.
pub fn append_actions(v: &mut Vec<Action>, w: Vec<Action>)
    ensures
        actions_view(final(v)@) == actions_view(old(v)@) + actions_view(w@),
{
    let mut w = w;
    let ghost w0 = w@;
    v.append(&mut w);
    assert(actions_view(v@) =~= actions_view(old(v)@) + actions_view(w0));
}

} // verus!
