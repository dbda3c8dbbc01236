//! The echo responder: the one fixed message a connection sends once it is
//! established, and the bookkeeping that keeps it from being sent again.

use crate::engine::Engine;
use vstd::prelude::*;

verus! {

/// The stream that carries the message.
pub const GREETING_STREAM: u64 = 0;

/// The message, `Hello, World!`.
pub const HELLO_MESSAGE: [u8; 13] = [72, 101, 108, 108, 111, 44, 32, 87, 111, 114, 108, 100, 33];

/// One write on a stream of a connection.
#[derive(Debug, PartialEq, Eq)]
pub struct StreamWrite {
    pub stream_id: u64,
    pub data: Vec<u8>,
    /// Whether this write ends the stream.
    pub fin: bool,
}

/// The write that greets a peer: the whole message on the greeting stream,
/// which it ends.
pub fn greeting() -> (write: StreamWrite)
    ensures
        write.stream_id == GREETING_STREAM,
        write.data@ == HELLO_MESSAGE@,
        write.fin,
{
    let mut data: Vec<u8> = Vec::new();
    let mut i: usize = 0;
    while i < 13
        invariant
            i <= 13,
            data@ == HELLO_MESSAGE@.take(i as int),
        decreases 13 - i,
    {
        data.push(HELLO_MESSAGE[i]);
        assert(data@ =~= HELLO_MESSAGE@.take(i + 1));
        i = i + 1;
    }
    assert(data@ =~= HELLO_MESSAGE@);
    StreamWrite { stream_id: GREETING_STREAM, data, fin: true }
}

/// What became of the greeting in a cycle.
#[derive(Debug, PartialEq, Eq)]
pub enum Greeting {
    /// The greeting went out in an earlier cycle: nothing is written, and
    /// the engine is not even asked.
    AlreadySent,
    /// The handshake is not complete yet: the greeting has to wait.
    Waiting,
    /// The greeting stream is finished: there is nothing to write to.
    StreamFinished,
    /// The engine took the greeting.
    Sent,
    /// The engine refused the greeting; it stays due.
    Refused(quiche::Error),
}

/// Why the greeting is held back, if it is: because it went out before,
/// else because the handshake is not complete, else because the stream is
/// finished. `None` where the greeting is due.
pub open spec fn held_back(greeted: bool, established: bool, stream_finished: bool) -> Option<Greeting> {
    if greeted {
        Some(Greeting::AlreadySent)
    } else if !established {
        Some(Greeting::Waiting)
    } else if stream_finished {
        Some(Greeting::StreamFinished)
    } else {
        None
    }
}

/// Whether the message is due: the handshake is complete, the stream is not
/// finished, and the message has not gone out yet.
pub open spec fn due(greeted: bool, established: bool, stream_finished: bool) -> bool {
    established && !stream_finished && !greeted
}

/// What a connection remembers for the responder.
#[derive(Clone, Copy, Debug, PartialEq, Eq)]
pub struct Responder {
    greeted: bool,
}

impl Responder {
    /// Whether the message has gone out on this connection.
    pub closed spec fn greeted(&self) -> bool {
        self.greeted
    }

    /// The bookkeeping of a fresh connection: nothing sent yet.
    pub fn new() -> (responder: Self)
        ensures
            !responder.greeted(),
    {
        Responder { greeted: false }
    }

    /// Whether the message has gone out on this connection.
    pub fn has_greeted(&self) -> (greeted: bool)
        ensures
            greeted == self.greeted(),
    {
        self.greeted
    }

    /// Whether to send the message now, given what the engine reports of the
    /// handshake and of the greeting stream.
    pub fn is_due(&self, established: bool, stream_finished: bool) -> (now: bool)
        ensures
            now == due(self.greeted(), established, stream_finished),
    {
        established && !stream_finished && !self.greeted
    }

    /// Why the message is not sent now, given what the engine reports of the
    /// handshake and of the greeting stream; `None` where it is due.
    pub fn hold_back(&self, established: bool, stream_finished: bool) -> (reason: Option<Greeting>)
        ensures
            reason == held_back(self.greeted(), established, stream_finished),
            reason.is_none() == due(self.greeted(), established, stream_finished),
    {
        if self.greeted {
            Some(Greeting::AlreadySent)
        } else if !established {
            Some(Greeting::Waiting)
        } else if stream_finished {
            Some(Greeting::StreamFinished)
        } else {
            None
        }
    }

    /// Takes note of an attempt to send the message. Once the engine has
    /// taken it the connection counts as greeted for good.
    pub fn record(&mut self, delivered: bool)
        ensures
            final(self).greeted() == (old(self).greeted() || delivered),
    {
        if delivered {
            self.greeted = true;
        }
    }

    /// Greets the peer of a connection where that is due. A connection that
    /// was greeted before is answered `AlreadySent` without a word to the
    /// engine. Any other is asked for the state of its handshake and of the
    /// greeting stream; the greeting is written if it is due, and the
    /// outcome is taken note of.
    pub(crate) fn respond(&mut self, engine: &mut Engine) -> (greeting: Greeting)
        ensures
            old(self).greeted() <==> greeting is AlreadySent,
            old(self).greeted() ==> *final(engine) == *old(engine),
            final(self).greeted() == (old(self).greeted() || greeting is Sent),
    {
        if self.greeted {
            return Greeting::AlreadySent;
        }
        let established = engine.is_established();
        let finished = if established {
            engine.stream_finished(GREETING_STREAM)
        } else {
            false
        };
        match self.hold_back(established, finished) {
            Some(reason) => reason,
            None => {
                let write = greeting();
                let written = engine.stream_send(write.stream_id, write.data.as_slice(), write.fin);
                self.settle(written)
            },
        }
    }

    /// Takes note of what the engine answered when the message was written
    /// to the stream: the message went out if the engine took the write, and
    /// stays due if the engine refused it.
    pub fn settle(&mut self, written: Result<usize, quiche::Error>) -> (greeting: Greeting)
        ensures
            match written {
                Ok(_) => greeting == Greeting::Sent && final(self).greeted(),
                Err(cause) => greeting == Greeting::Refused(cause) && final(self).greeted() == old(self).greeted(),
            },
    {
        match written {
            Ok(_) => {
                self.record(true);
                Greeting::Sent
            },
            Err(cause) => {
                self.record(false);
                Greeting::Refused(cause)
            },
        }
    }
}

/// What the engine shows of a connection in one cycle.
pub struct Observation {
    /// The handshake is complete.
    pub established: bool,
    /// The greeting stream is finished.
    pub stream_finished: bool,
    /// The engine takes the message if it is offered.
    pub accepts: bool,
}

impl Observation {
    /// The message goes out in a cycle that shows `self`, on a connection
    /// that has or has not been greeted before.
    pub open spec fn sends(self, greeted: bool) -> bool {
        due(greeted, self.established, self.stream_finished) && self.accepts
    }
}

/// How often the message goes out over a run of cycles, on a connection that
/// starts out greeted or not.
pub open spec fn greetings(greeted: bool, run: Seq<Observation>) -> nat
    decreases run.len(),
{
    if run.len() == 0 {
        0
    } else if run[0].sends(greeted) {
        1 + greetings(true, run.drop_first())
    } else {
        greetings(greeted, run.drop_first())
    }
}

/// A connection that has been greeted is never greeted again, however many
/// datagrams arrive for it.
pub proof fn never_greeted_again(run: Seq<Observation>)
    ensures
        greetings(true, run) == 0,
    decreases run.len(),
{
    if run.len() > 0 {
        never_greeted_again(run.drop_first());
    }
}

/// Over any run of cycles the message goes out at most once.
pub proof fn greeted_at_most_once(run: Seq<Observation>)
    ensures
        greetings(false, run) <= 1,
    decreases run.len(),
{
    if run.len() > 0 {
        if run[0].sends(false) {
            never_greeted_again(run.drop_first());
        } else {
            greeted_at_most_once(run.drop_first());
        }
    }
}

/// The message goes out exactly once on a connection that, in some cycle, is
/// established with its greeting stream unfinished and an engine that takes
/// the message; and it never goes out on a connection without such a cycle.
pub proof fn greeted_exactly_once(run: Seq<Observation>)
    ensures
        greetings(false, run) == if exists|i: int| 0 <= i < run.len() && (#[trigger] run[i]).sends(false) {
            1nat
        } else {
            0nat
        },
    decreases run.len(),
{
    if run.len() > 0 {
        let rest = run.drop_first();
        if run[0].sends(false) {
            never_greeted_again(rest);
        } else {
            greeted_exactly_once(rest);
            if exists|i: int| 0 <= i < run.len() && (#[trigger] run[i]).sends(false) {
                let i = choose|i: int| 0 <= i < run.len() && (#[trigger] run[i]).sends(false);
                assert(rest[i - 1].sends(false));
            }
            if exists|i: int| 0 <= i < rest.len() && (#[trigger] rest[i]).sends(false) {
                let i = choose|i: int| 0 <= i < rest.len() && (#[trigger] rest[i]).sends(false);
                assert(run[i + 1].sends(false));
            }
        }
    }
}

} // verus!
