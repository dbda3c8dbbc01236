//! Runs of cycles and sweeps, and what holds of a connection over a whole
//! run while it lives.

use crate::dispatcher::{cycle_fits, names, sweep_fits, Client, Cycle, Disposition, Progress, Sweep};
use crate::table::looked_up;
use crate::wire::{sniffed, QUIC_V1};
use vstd::prelude::*;

verus! {

/// One thing the dispatcher did, as its caller saw it.
pub enum Event {
    /// A cycle on `datagram`, which arrived on `path`.
    Datagram { datagram: Seq<u8>, path: quiche::RecvInfo, cycle: Cycle },
    /// A sweep.
    Sweep { sweep: Sweep },
}

impl Event {
    /// The event is one the dispatcher can have made of the state `before`,
    /// leaving `after`.
    pub open spec fn fits(self, before: Map<Seq<u8>, Client>, after: Map<Seq<u8>, Client>) -> bool {
        match self {
            Event::Datagram { datagram, path, cycle } => cycle_fits(before, datagram, path, after, cycle),
            Event::Sweep { sweep } => sweep_fits(before, after, sweep),
        }
    }

    /// What the engine of the connection under `id` made of the datagram of
    /// this event, where the event is a cycle on a datagram that was routed
    /// to that connection and processed by its engine.
    pub open spec fn progress_on(self, id: Seq<u8>) -> Option<Progress> {
        match self {
            Event::Datagram { datagram, cycle, .. } => match (sniffed(datagram), cycle.disposition) {
                (Some(header), Disposition::Processed(progress)) => if header.version == QUIC_V1 && header.dcid
                    == id {
                    Some(progress)
                } else {
                    None
                },
                _ => None,
            },
            Event::Sweep { .. } => None,
        }
    }

    /// The greeting went out on the connection under `id` in this event.
    pub open spec fn greets(self, id: Seq<u8>) -> bool {
        self.progress_on(id) matches Some(progress) && progress.greeting is Sent
    }

    /// The connection under `id` was removed in this event.
    pub open spec fn retires(self, id: Seq<u8>) -> bool {
        match self {
            Event::Datagram { .. } => self.progress_on(id) matches Some(progress) && progress.retired,
            Event::Sweep { sweep } => names(sweep.retired@, id),
        }
    }
}

/// A run of events takes the dispatcher through `states`, one state before
/// each event and one after the last.
pub open spec fn run_fits(states: Seq<Map<Seq<u8>, Client>>, events: Seq<Event>) -> bool {
    &&& states.len() == events.len() + 1
    &&& forall|i: int| 0 <= i < events.len() ==> (#[trigger] events[i]).fits(states[i], states[i + 1])
}

/// How often the greeting went out on the connection under `id` in a run.
pub open spec fn greetings_sent(id: Seq<u8>, events: Seq<Event>) -> nat
    decreases events.len(),
{
    if events.len() == 0 {
        0
    } else if events[0].greets(id) {
        1 + greetings_sent(id, events.drop_first())
    } else {
        greetings_sent(id, events.drop_first())
    }
}

/// A connection enters the table only with a datagram of the supported
/// version that is addressed to it.
pub proof fn connection_begins_with_a_datagram(
    id: Seq<u8>,
    before: Map<Seq<u8>, Client>,
    event: Event,
    after: Map<Seq<u8>, Client>,
)
    requires
        event.fits(before, after),
        !before.contains_key(id),
        after.contains_key(id),
    ensures
        event matches Event::Datagram { datagram, .. } && sniffed(datagram) matches Some(header) && header.version
            == QUIC_V1 && header.dcid == id,
{
    match event {
        Event::Datagram { datagram, path, cycle } => {
            match sniffed(datagram) {
                Some(header) => {
                    if header.version == QUIC_V1 && header.dcid != id {
                        assert(looked_up(after, id) == looked_up(before, id));
                    }
                },
                None => {},
            }
        },
        Event::Sweep { sweep } => {},
    }
}

/// A connection leaves the table only by being retired: through every
/// other event it stays under its identifier.
pub proof fn connection_lives_until_retired(
    id: Seq<u8>,
    before: Map<Seq<u8>, Client>,
    event: Event,
    after: Map<Seq<u8>, Client>,
)
    requires
        event.fits(before, after),
        before.contains_key(id),
        !event.retires(id),
    ensures
        after.contains_key(id),
{
    match event {
        Event::Datagram { datagram, path, cycle } => {
            match sniffed(datagram) {
                Some(header) => {
                    if header.version == QUIC_V1 {
                        if header.dcid != id {
                            assert(looked_up(after, id) == looked_up(before, id));
                        }
                    }
                },
                None => {},
            }
        },
        Event::Sweep { sweep } => {},
    }
}

/// A datagram that is addressed to one connection leaves every other
/// connection exactly as it was.
pub proof fn other_connections_are_untouched(
    id: Seq<u8>,
    before: Map<Seq<u8>, Client>,
    event: Event,
    after: Map<Seq<u8>, Client>,
)
    requires
        event.fits(before, after),
        event matches Event::Datagram { datagram, .. } && !(sniffed(datagram) matches Some(header)
            && header.version == QUIC_V1 && header.dcid == id),
    ensures
        looked_up(after, id) == looked_up(before, id),
{
}

/// What one event that does not retire the connection under `id` leaves of
/// it: a connection that was greeted stays, is still greeted, and is not
/// greeted in the event; one that is greeted in the event stays and counts
/// as greeted.
proof fn lemma_greeting_step(id: Seq<u8>, before: Map<Seq<u8>, Client>, event: Event, after: Map<Seq<u8>, Client>)
    requires
        event.fits(before, after),
        !event.retires(id),
    ensures
        before.contains_key(id) && before[id].greeted() ==> !event.greets(id) && after.contains_key(id)
            && after[id].greeted(),
        event.greets(id) ==> after.contains_key(id) && after[id].greeted(),
{
    match event {
        Event::Datagram { datagram, path, cycle } => {
            match sniffed(datagram) {
                Some(header) => {
                    if header.version == QUIC_V1 {
                        if header.dcid != id {
                            assert(looked_up(after, id) == looked_up(before, id));
                        }
                    }
                },
                None => {},
            }
        },
        Event::Sweep { sweep } => {
            assert(after.contains_key(id) <==> before.contains_key(id) && !names(sweep.retired@, id));
        },
    }
}

/// What is left of a run after its first event is a run again, and one
/// that does not retire the connection under `id` if the whole run did not.
proof fn lemma_rest_of_run(id: Seq<u8>, states: Seq<Map<Seq<u8>, Client>>, events: Seq<Event>)
    requires
        run_fits(states, events),
        forall|i: int| 0 <= i < events.len() ==> !(#[trigger] events[i]).retires(id),
        events.len() > 0,
    ensures
        run_fits(states.drop_first(), events.drop_first()),
        forall|i: int| 0 <= i < events.drop_first().len() ==> !(#[trigger] events.drop_first()[i]).retires(id),
{
    let rest = events.drop_first();
    let later = states.drop_first();
    assert forall|i: int| 0 <= i < rest.len() implies (#[trigger] rest[i]).fits(later[i], later[i + 1]) by {
        assert(events[i + 1].fits(states[i + 1], states[i + 2]));
    }
    assert forall|i: int| 0 <= i < rest.len() implies !(#[trigger] rest[i]).retires(id) by {
        assert(!events[i + 1].retires(id));
    }
}

/// On a connection that has been greeted, the greeting does not go out
/// again for as long as the connection lives.
pub proof fn greeted_connection_is_left_alone(
    id: Seq<u8>,
    states: Seq<Map<Seq<u8>, Client>>,
    events: Seq<Event>,
)
    requires
        run_fits(states, events),
        forall|i: int| 0 <= i < events.len() ==> !(#[trigger] events[i]).retires(id),
        states[0].contains_key(id),
        states[0][id].greeted(),
    ensures
        greetings_sent(id, events) == 0,
    decreases events.len(),
{
    if events.len() > 0 {
        assert(events[0].fits(states[0], states[1]));
        lemma_greeting_step(id, states[0], events[0], states[1]);
        let rest = events.drop_first();
        let later = states.drop_first();
        lemma_rest_of_run(id, states, events);
        greeted_connection_is_left_alone(id, later, rest);
    }
}

/// Over any run of cycles and sweeps, the greeting goes out at most once on
/// a connection, however many datagrams arrive for it: as long as the
/// connection under `id` is not removed, no more than one cycle greets it.
pub proof fn connection_is_greeted_at_most_once(
    id: Seq<u8>,
    states: Seq<Map<Seq<u8>, Client>>,
    events: Seq<Event>,
)
    requires
        run_fits(states, events),
        forall|i: int| 0 <= i < events.len() ==> !(#[trigger] events[i]).retires(id),
    ensures
        greetings_sent(id, events) <= 1,
    decreases events.len(),
{
    if events.len() > 0 {
        assert(events[0].fits(states[0], states[1]));
        lemma_greeting_step(id, states[0], events[0], states[1]);
        let rest = events.drop_first();
        let later = states.drop_first();
        lemma_rest_of_run(id, states, events);
        if events[0].greets(id) {
            greeted_connection_is_left_alone(id, later, rest);
        } else {
            connection_is_greeted_at_most_once(id, later, rest);
        }
    }
}

} // verus!
