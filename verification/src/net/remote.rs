//! The line-based control protocol: one command per line, one reply per
//! line.
//!
//! Commands:
//! - `toggle autoscale <idx>`
//! - `set smoothing <idx> <val>`
//! - `lock <idx>`
//! - `unlock <idx>`
//! - `quit`
//!
//! Keywords are matched without regard to case. `<idx>` is the zero-based
//! position of a channel in the order in which the channels were set up.
//! `<val>` is a number in decimal notation, with or without a decimal
//! point and an exponent (`0.5`, `.5`, `5e-1`); `inf` stands for the
//! largest number and `nan` for zero.

use crate::graph::shared::{ChannelModel, GraphShared};
use crate::text::numbers::{
    decimal, extended_of, lemma_decimal_round_trip, parse_extended, parse_index,
    push_decimal, unsigned_of,
};
use crate::text::{ascii, is_keyword, same_ignoring_case, split_words, trim, trimmed, views, words};
use vstd::prelude::*;

verus! {

/// What a command asks of one channel.
#[derive(Clone, Copy, Debug, PartialEq, Eq, Structural)]
pub enum Operation {
    ToggleAutoscale,
    SetSmoothing(i64),
    Lock,
    Unlock,
}

/// The answer to a command.
#[derive(Clone, Copy, Debug, PartialEq, Eq, Structural)]
pub enum Reply {
    /// `OK`
    Done,
    /// `OK bye`, after which the connection is closed.
    Bye,
    /// `ERR idx`: the index is no number.
    BadIndex,
    /// `ERR val`: the value is no number.
    BadValue,
    /// `ERR no graph <idx>`: there is no channel at that index.
    NoGraph(usize),
    /// `ERR no_bounds`: no frame was rendered yet, so there is nothing to
    /// lock.
    NoBounds,
    /// `ERR unknown <line>`: the line is no command.
    Unknown,
}

/// What a line asks for.
#[derive(Clone, Copy, Debug, PartialEq, Eq, Structural)]
pub enum Request {
    /// A line without a word: no reply is due.
    Ignore,
    /// Reply `OK bye` and close the connection.
    Quit,
    /// Reply with an error; no channel is touched.
    Reject(Reply),
    /// Apply the operation to the channel at the index, which exists.
    Channel(usize, Operation),
}

/// What the handling of a line leaves behind for the connection.
#[derive(Clone, Copy, Debug, PartialEq, Eq, Structural)]
pub struct Outcome {
    /// The reply to send, if one is due.
    pub reply: Option<Reply>,
    /// Whether to close the connection after the reply.
    pub close: bool,
}

/// The word is the keyword, up to case.
pub open spec fn is_word(word: Seq<u8>, keyword: Seq<char>) -> bool {
    same_ignoring_case(word, ascii(keyword))
}

/// The request for `op` on the channel that `word` names, among `count`
/// channels.
pub open spec fn indexed_request(word: Seq<u8>, count: nat, op: Operation) -> Request {
    match unsigned_of(word, usize::MAX as nat) {
        None => Request::Reject(Reply::BadIndex),
        Some(idx) => if idx < count {
            Request::Channel(idx as usize, op)
        } else {
            Request::Reject(Reply::NoGraph(idx as usize))
        },
    }
}

/// The request for a new smoothing factor, written by `value`, on the
/// channel that `word` names: the index is read first, then the value, and
/// then the index is looked up.
pub open spec fn smoothing_request(word: Seq<u8>, value: Seq<u8>, count: nat) -> Request {
    match unsigned_of(word, usize::MAX as nat) {
        None => Request::Reject(Reply::BadIndex),
        Some(idx) => match extended_of(value) {
            Some(v) => if idx < count {
                Request::Channel(idx as usize, Operation::SetSmoothing(v))
            } else {
                Request::Reject(Reply::NoGraph(idx as usize))
            },
            None => Request::Reject(Reply::BadValue),
        },
    }
}

/// What a line asks for, in a system of `count` channels.
pub open spec fn request_of(line: Seq<u8>, count: nat) -> Request {
    let w = words(line);
    if w.len() == 0 {
        Request::Ignore
    } else if is_word(w[0], "toggle"@) && w.len() == 3 && is_word(w[1], "autoscale"@) {
        indexed_request(w[2], count, Operation::ToggleAutoscale)
    } else if is_word(w[0], "set"@) && w.len() == 4 && is_word(w[1], "smoothing"@) {
        smoothing_request(w[2], w[3], count)
    } else if is_word(w[0], "lock"@) && w.len() == 2 {
        indexed_request(w[1], count, Operation::Lock)
    } else if is_word(w[0], "unlock"@) && w.len() == 2 {
        indexed_request(w[1], count, Operation::Unlock)
    } else if is_word(w[0], "quit"@) {
        Request::Quit
    } else {
        Request::Reject(Reply::Unknown)
    }
}

/// The reply as it goes over the wire, to the line that caused it.
pub open spec fn reply_text(reply: Reply, line: Seq<u8>) -> Seq<u8> {
    match reply {
        Reply::Done => ascii("OK\n"@),
        Reply::Bye => ascii("OK bye\n"@),
        Reply::BadIndex => ascii("ERR idx\n"@),
        Reply::BadValue => ascii("ERR val\n"@),
        Reply::NoGraph(idx) => ascii("ERR no graph "@) + decimal(idx as nat) + ascii("\n"@),
        Reply::NoBounds => ascii("ERR no_bounds\n"@),
        Reply::Unknown => ascii("ERR unknown "@) + trimmed(line) + ascii("\n"@),
    }
}

/// The line feed that ends a reply.
pub const LINE_FEED: u8 = 10;

/// Every reply is one line: it ends in a line feed and holds no other one,
/// as long as the line that is echoed holds none between its words.
pub proof fn lemma_reply_is_one_line(reply: Reply, line: Seq<u8>)
    requires
        forall|i: int| 0 <= i < trimmed(line).len() ==> trimmed(line)[i] != LINE_FEED,
    ensures
        reply_text(reply, line).len() > 0,
        reply_text(reply, line).last() == LINE_FEED,
        forall|i: int|
            0 <= i < reply_text(reply, line).len() - 1 ==> reply_text(reply, line)[i]
                != LINE_FEED,
{
    reveal_strlit("OK\n");
    reveal_strlit("OK bye\n");
    reveal_strlit("ERR idx\n");
    reveal_strlit("ERR val\n");
    reveal_strlit("ERR no graph ");
    reveal_strlit("ERR no_bounds\n");
    reveal_strlit("ERR unknown ");
    reveal_strlit("\n");
    if let Reply::NoGraph(idx) = reply {
        lemma_decimal_round_trip(idx as nat);
    }
}

/// What is left for the connection after a request was handled, with
/// `answer` as the reply of the channel if one was asked.
pub open spec fn outcome_of(request: Request, answer: Reply) -> Outcome {
    match request {
        Request::Ignore => Outcome { reply: None, close: false },
        Request::Quit => Outcome { reply: Some(Reply::Bye), close: true },
        Request::Reject(r) => Outcome { reply: Some(r), close: false },
        Request::Channel(_, _) => Outcome { reply: Some(answer), close: false },
    }
}

impl ChannelModel {
    /// The channel after a control operation.
    pub open spec fn execute(self, op: Operation) -> ChannelModel {
        match op {
            Operation::ToggleAutoscale => self.toggle_autoscale(),
            Operation::SetSmoothing(v) => self.set_smoothing(v),
            Operation::Lock => self.lock(),
            Operation::Unlock => self.unlock(),
        }
    }

    /// The reply to a control operation: only a lock can fail, and it does
    /// where the view has no bounds yet.
    pub open spec fn reply_to(self, op: Operation) -> Reply {
        if op is Lock && self.view.current_bounds is None {
            Reply::NoBounds
        } else {
            Reply::Done
        }
    }
}

impl GraphShared {
    /// Apply a control operation to this channel and say how it went.
    pub fn execute(&mut self, op: Operation) -> (reply: Reply)
        ensures
            final(self)@ == old(self)@.execute(op),
            reply == old(self)@.reply_to(op),
            final(self).data == old(self).data,
            old(self).wf() ==> final(self).wf(),
    {
        match op {
            Operation::ToggleAutoscale => {
                self.toggle_autoscale();
                Reply::Done
            },
            Operation::SetSmoothing(v) => {
                self.set_smoothing(v);
                Reply::Done
            },
            Operation::Lock => {
                match self.lock() {
                    Ok(_) => Reply::Done,
                    Err(_) => Reply::NoBounds,
                }
            },
            Operation::Unlock => {
                self.unlock();
                Reply::Done
            },
        }
    }
}

/// Append the bytes of an ASCII text.
fn push_text(out: &mut Vec<u8>, text: &str)
    requires
        vstd::string::is_ascii(text),
    ensures
        final(out)@ == old(out)@ + ascii(text@),
{
    proof {
        vstd::string::is_ascii_spec_bytes(text);
    }
    let bytes = text.as_bytes();
    let mut i: usize = 0;
    while i < bytes.len()
        invariant
            i <= bytes@.len(),
            bytes@ == ascii(text@),
            out@ == old(out)@ + bytes@.take(i as int),
        decreases bytes.len() - i,
    {
        out.push(bytes[i]);
        i = i + 1;
    }
}

impl Reply {
    /// The reply as it goes over the wire, to the line that caused it: one
    /// line, ended by a line feed.
    pub fn to_bytes(&self, line: &[u8]) -> (out: Vec<u8>)
        ensures
            out@ == reply_text(*self, line@),
    {
        let mut out: Vec<u8> = Vec::new();
        proof {
            reveal_strlit("OK\n");
            reveal_strlit("OK bye\n");
            reveal_strlit("ERR idx\n");
            reveal_strlit("ERR val\n");
            reveal_strlit("ERR no graph ");
            reveal_strlit("ERR no_bounds\n");
            reveal_strlit("ERR unknown ");
            reveal_strlit("\n");
        }
        match self {
            Reply::Done => {
                push_text(&mut out, "OK\n");
            },
            Reply::Bye => {
                push_text(&mut out, "OK bye\n");
            },
            Reply::BadIndex => {
                push_text(&mut out, "ERR idx\n");
            },
            Reply::BadValue => {
                push_text(&mut out, "ERR val\n");
            },
            Reply::NoGraph(idx) => {
                push_text(&mut out, "ERR no graph ");
                push_decimal(&mut out, *idx);
                push_text(&mut out, "\n");
            },
            Reply::NoBounds => {
                push_text(&mut out, "ERR no_bounds\n");
            },
            Reply::Unknown => {
                push_text(&mut out, "ERR unknown ");
                let mut echo: Vec<u8> = trim(line);
                out.append(&mut echo);
                push_text(&mut out, "\n");
            },
        }
        out
    }
}

/// The request for `op` on the channel that `word` names.
fn index_request(word: &[u8], channels: usize, op: Operation) -> (r: Request)
    ensures
        r == indexed_request(word@, channels as nat, op),
{
    match parse_index(word) {
        None => Request::Reject(Reply::BadIndex),
        Some(idx) => if idx < channels {
            Request::Channel(idx, op)
        } else {
            Request::Reject(Reply::NoGraph(idx))
        },
    }
}

/// Read one line of the control protocol, in a system of `channels`
/// channels.
///
/// A line without a word asks for nothing. A command names its channel by
/// index: an index that is no number is answered `ERR idx`, one beyond the
/// last channel `ERR no graph <idx>`, and a smoothing factor that is no
/// number `ERR val`. `quit` is taken with whatever follows it. Any
/// other line is answered `ERR unknown <line>`.
pub fn interpret(line: &[u8], channels: usize) -> (r: Request)
    ensures
        r == request_of(line@, channels as nat),
{
    let ws: Vec<Vec<u8>> = split_words(line);
    let n: usize = ws.len();
    if n == 0 {
        return Request::Ignore;
    }
    proof {
        reveal_strlit("toggle");
        reveal_strlit("autoscale");
        reveal_strlit("set");
        reveal_strlit("smoothing");
        reveal_strlit("lock");
        reveal_strlit("unlock");
        reveal_strlit("quit");
    }
    let head: &[u8] = ws[0].as_slice();
    if is_keyword(head, "toggle") && n == 3 && is_keyword(ws[1].as_slice(), "autoscale") {
        index_request(ws[2].as_slice(), channels, Operation::ToggleAutoscale)
    } else if is_keyword(head, "set") && n == 4 && is_keyword(ws[1].as_slice(), "smoothing") {
        match parse_index(ws[2].as_slice()) {
            None => Request::Reject(Reply::BadIndex),
            Some(idx) => match parse_extended(ws[3].as_slice()) {
                Some(v) => if idx < channels {
                    Request::Channel(idx, Operation::SetSmoothing(v))
                } else {
                    Request::Reject(Reply::NoGraph(idx))
                },
                None => Request::Reject(Reply::BadValue),
            },
        }
    } else if is_keyword(head, "lock") && n == 2 {
        index_request(ws[1].as_slice(), channels, Operation::Lock)
    } else if is_keyword(head, "unlock") && n == 2 {
        index_request(ws[1].as_slice(), channels, Operation::Unlock)
    } else if is_keyword(head, "quit") {
        Request::Quit
    } else {
        Request::Reject(Reply::Unknown)
    }
}

/// Handle one line of a control connection on the channels themselves:
/// read it, apply what it asks to the channel it names, and say what to
/// reply and whether to close.
pub fn handle_line(graphs: &mut Vec<GraphShared>, line: &[u8]) -> (out: Outcome)
    ensures
        final(graphs)@.len() == old(graphs)@.len(),
        match request_of(line@, old(graphs)@.len()) {
            Request::Channel(idx, op) => {
                &&& final(graphs)@[idx as int]@ == old(graphs)@[idx as int]@.execute(op)
                &&& final(graphs)@[idx as int].data == old(graphs)@[idx as int].data
                &&& out == outcome_of(
                    Request::Channel(idx, op),
                    old(graphs)@[idx as int]@.reply_to(op),
                )
                &&& forall|j: int|
                    0 <= j < old(graphs)@.len() && j != idx ==> final(graphs)@[j] == old(
                        graphs,
                    )@[j]
            },
            other => {
                &&& final(graphs)@ == old(graphs)@
                &&& out == outcome_of(other, Reply::Done)
            },
        },
        forall|j: int|
            0 <= j < old(graphs)@.len() && old(graphs)@[j].wf() ==> final(graphs)@[j].wf(),
{
    match interpret(line, graphs.len()) {
        Request::Ignore => Outcome { reply: None, close: false },
        Request::Quit => Outcome { reply: Some(Reply::Bye), close: true },
        Request::Reject(r) => Outcome { reply: Some(r), close: false },
        Request::Channel(idx, op) => {
            let reply: Reply = graphs[idx].execute(op);
            Outcome { reply: Some(reply), close: false }
        },
    }
}

} // verus!
