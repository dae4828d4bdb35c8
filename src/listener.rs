//! The listening side: which ports to bind, and the accept loop of each
//! listener, which stops for good once the shutdown signal closes.
use vstd::prelude::*;
use vstd::utf8::encode_utf8;
use crate::config::views;
use crate::portspec::{ports_of, resolve, MalformedSpecError};

verus! {

/// The ports that the listening specifications name, in order, the malformed
/// ones contributing none.
pub open spec fn listen_ports_of(specs: Seq<Seq<char>>) -> Seq<u16>
    decreases specs.len(),
{
    if specs.len() == 0 {
        Seq::empty()
    } else {
        listen_ports_of(specs.drop_last()) + match ports_of(encode_utf8(specs.last())) {
            Some(ps) => ps,
            None => Seq::empty(),
        }
    }
}

/// The malformed specifications among `specs`, in order.
pub open spec fn malformed_of(specs: Seq<Seq<char>>) -> Seq<Seq<char>>
    decreases specs.len(),
{
    if specs.len() == 0 {
        Seq::empty()
    } else {
        malformed_of(specs.drop_last()) + if ports_of(encode_utf8(specs.last())) is Some {
            Seq::empty()
        } else {
            seq![specs.last()]
        }
    }
}

/// The offending text of each error, in order.
pub open spec fn error_texts(v: Seq<MalformedSpecError>) -> Seq<Seq<char>> {
    v.map_values(|e: MalformedSpecError| e.spec@)
}

/// The ports to bind, and the specifications that named none because they
/// are malformed.
#[derive(Debug, Clone, PartialEq, Eq)]
pub struct ListenPlan {
    pub ports: Vec<u16>,
    pub malformed: Vec<MalformedSpecError>,
}

/// Resolves every listening specification on its own: a malformed one is
/// reported and the others are bound all the same.
pub fn listen_plan(specs: &Vec<String>) -> (r: ListenPlan)
    ensures
        r.ports@ == listen_ports_of(views(specs@)),
        error_texts(r.malformed@) == malformed_of(views(specs@)),
{
    let mut ports: Vec<u16> = Vec::new();
    let mut malformed: Vec<MalformedSpecError> = Vec::new();
    let mut i: usize = 0;
    while i < specs.len()
        invariant
            i <= specs@.len(),
            ports@ == listen_ports_of(views(specs@).take(i as int)),
            error_texts(malformed@) == malformed_of(views(specs@).take(i as int)),
        decreases specs@.len() - i,
    {
        assert(views(specs@).take(i as int + 1).drop_last() =~= views(specs@).take(i as int));
        let ghost m0 = malformed@;
        let ghost p0 = ports@;
        match resolve(specs[i].as_str()) {
            Ok(mut ps) => {
                ports.append(&mut ps);
                assert(error_texts(malformed@) =~= error_texts(m0) + Seq::empty());
            },
            Err(e) => {
                malformed.push(e);
                assert(error_texts(malformed@) =~= error_texts(m0) + seq![views(specs@)[i as int]]);
                assert(ports@ =~= p0 + Seq::empty());
            },
        }
        i = i + 1;
    }
    assert(views(specs@).take(i as int) =~= views(specs@));
    ListenPlan { ports, malformed }
}

/// What an accept loop wakes up to.
#[derive(Debug, Clone, Copy, PartialEq, Eq, Structural)]
pub enum ListenerEvent {
    /// A new connection is ready to be accepted.
    Connection,
    /// The shutdown signal has closed.
    ShutdownClosed,
}

/// What an accept loop does about it.
#[derive(Debug, Clone, Copy, PartialEq, Eq, Structural)]
pub enum ListenerAction {
    /// Accept the connection and hand it to a handler of its own.
    Dispatch,
    /// Accept nothing more; the listener is dropped.
    Stop,
}

/// One step of an accept loop: whether it has stopped afterwards, and what it does.
pub open spec fn accept_step(stopped: bool, ev: ListenerEvent) -> (bool, ListenerAction) {
    if stopped || ev is ShutdownClosed {
        (true, ListenerAction::Stop)
    } else {
        (false, ListenerAction::Dispatch)
    }
}

/// Whether an accept loop has stopped after the events `evs`.
pub open spec fn stopped_after(stopped: bool, evs: Seq<ListenerEvent>) -> bool
    decreases evs.len(),
{
    if evs.len() == 0 {
        stopped
    } else {
        stopped_after(accept_step(stopped, evs[0]).0, evs.drop_first())
    }
}

/// How many connections an accept loop dispatches over the events `evs`.
pub open spec fn dispatches(stopped: bool, evs: Seq<ListenerEvent>) -> nat
    decreases evs.len(),
{
    if evs.len() == 0 {
        0
    } else {
        let (s, a) = accept_step(stopped, evs[0]);
        (if a is Dispatch { 1nat } else { 0nat }) + dispatches(s, evs.drop_first())
    }
}

/// The accept loop of one listener.
#[derive(Debug)]
pub struct AcceptLoop {
    /// Whether the loop has seen the shutdown signal close.
    pub stopped: bool,
}

impl AcceptLoop {
    /// A loop that has not seen the shutdown signal.
    pub fn new() -> (r: AcceptLoop)
        ensures
            !r.stopped,
    {
        AcceptLoop { stopped: false }
    }

    /// Decides what to do about an event; once stopped, the loop stays stopped.
    pub fn on_event(&mut self, ev: ListenerEvent) -> (r: ListenerAction)
        ensures
            (final(self).stopped, r) == accept_step(old(self).stopped, ev),
    {
        if self.stopped {
            return ListenerAction::Stop;
        }
        match ev {
            ListenerEvent::ShutdownClosed => {
                self.stopped = true;
                ListenerAction::Stop
            },
            ListenerEvent::Connection => ListenerAction::Dispatch,
        }
    }
}

/// Dispatches and the stopped state split over consecutive runs of events.
proof fn lemma_dispatches_append(stopped: bool, a: Seq<ListenerEvent>, b: Seq<ListenerEvent>)
    ensures
        dispatches(stopped, a + b) == dispatches(stopped, a) + dispatches(stopped_after(stopped, a), b),
        stopped_after(stopped, a + b) == stopped_after(stopped_after(stopped, a), b),
    decreases a.len(),
{
    if a.len() > 0 {
        assert((a + b).drop_first() =~= a.drop_first() + b);
        lemma_dispatches_append(accept_step(stopped, a[0]).0, a.drop_first(), b);
    } else {
        assert(a + b =~= b);
    }
}

/// A stopped loop dispatches nothing.
proof fn lemma_stopped_dispatches_nothing(evs: Seq<ListenerEvent>)
    ensures
        dispatches(true, evs) == 0,
    decreases evs.len(),
{
    if evs.len() > 0 {
        lemma_stopped_dispatches_nothing(evs.drop_first());
    }
}

/// Once the shutdown signal has closed, an accept loop dispatches no further
/// connection, whatever came before and whatever comes after.
pub proof fn no_accept_after_shutdown(before: Seq<ListenerEvent>, after: Seq<ListenerEvent>)
    ensures
        dispatches(false, before + seq![ListenerEvent::ShutdownClosed] + after)
            == dispatches(false, before),
{
    let sd = seq![ListenerEvent::ShutdownClosed];
    lemma_dispatches_append(false, before + sd, after);
    lemma_dispatches_append(false, before, sd);
    let s = stopped_after(false, before);
    assert(sd.drop_first() =~= Seq::<ListenerEvent>::empty());
    assert(stopped_after(s, sd) == stopped_after(true, Seq::<ListenerEvent>::empty()));
    assert(sd[0] == ListenerEvent::ShutdownClosed);
    assert(dispatches(true, Seq::<ListenerEvent>::empty()) == 0);
    assert(dispatches(s, sd) == 0);
    lemma_stopped_dispatches_nothing(after);
}

} // verus!
