//! One accepted connection: where its log goes, and the echo loop that hands
//! every byte read back to the peer until it closes, idles out or fails.
use vstd::prelude::*;

verus! {

/// The path of the log that connections from `ip` append to.
pub open spec fn peer_log_path_of(ip: Seq<char>) -> Seq<char> {
    "logs/"@ + ip + ".log"@
}

/// The path of the log that connections from `ip` append to: `logs/<ip>.log`.
pub fn peer_log_path(ip: &str) -> (r: String)
    ensures
        r@ == peer_log_path_of(ip@),
{
    let mut r = String::from_str("logs/");
    r.append(ip);
    r.append(".log");
    r
}

/// What one bounded read of the connection came to.
#[derive(Debug, Clone, PartialEq, Eq)]
pub enum ReadEvent {
    /// The read returned these bytes; none means the peer closed the connection.
    Data(Vec<u8>),
    /// No byte arrived within the inactivity timeout.
    TimedOut,
    /// The read failed.
    Failed,
}

/// Why a session ended.
#[derive(Debug, Clone, Copy, PartialEq, Eq, Structural)]
pub enum SessionEnd {
    /// The peer closed the connection.
    PeerClosed,
    /// The connection stayed idle for longer than the timeout.
    TimedOut,
    /// Reading from or writing to the connection failed.
    IoError,
}

impl SessionEnd {
    /// Whether the session ended in a failure that its caller reports.
    pub fn is_error(&self) -> (r: bool)
        ensures
            r == (*self is IoError),
    {
        match self {
            SessionEnd::IoError => true,
            _ => false,
        }
    }
}

/// What the connection's driver does next.
#[derive(Debug, Clone, PartialEq, Eq)]
pub enum EchoAction {
    /// Log these received bytes, then write all of them back to the peer.
    Echo(Vec<u8>),
    /// Log the end of the session and close the connection.
    End(SessionEnd),
}

/// Where a session stands.
#[derive(Debug, Clone, Copy, PartialEq, Eq, Structural)]
pub enum EchoPhase {
    /// Waiting for bytes from the peer.
    Reading,
    /// Writing the last bytes read back to the peer.
    Writing,
    /// Over, for the reason given.
    Ended(SessionEnd),
}

/// The echo loop of one connection, with the bytes it has read and the bytes
/// it has written back.
pub struct EchoSession {
    pub phase: EchoPhase,
    /// Every byte read from the peer, in order.
    pub received: Ghost<Seq<u8>>,
    /// Every byte written back to the peer, in order.
    pub echoed: Ghost<Seq<u8>>,
    /// The bytes being written back.
    pub pending: Ghost<Seq<u8>>,
}

impl EchoSession {
    /// What is written back never runs ahead of what was read: once the
    /// pending write is done, the two are the same bytes.
    pub open spec fn wf(&self) -> bool {
        &&& self.phase is Reading ==> self.echoed@ == self.received@
        &&& self.phase is Writing ==> self.echoed@ + self.pending@ == self.received@
    }

    /// A session that has read nothing yet.
    pub fn new() -> (r: EchoSession)
        ensures
            r.wf(),
            r.phase is Reading,
            r.received@ == Seq::<u8>::empty(),
    {
        EchoSession {
            phase: EchoPhase::Reading,
            received: Ghost(Seq::empty()),
            echoed: Ghost(Seq::empty()),
            pending: Ghost(Seq::empty()),
        }
    }

    /// Takes in the result of a read. Bytes are echoed whole; no bytes means
    /// the peer closed; a timeout ends the session without error; a failed
    /// read ends it with an I/O error.
    pub fn on_read(&mut self, ev: ReadEvent) -> (r: EchoAction)
        requires
            old(self).wf(),
            old(self).phase is Reading,
        ensures
            final(self).wf(),
            final(self).echoed == old(self).echoed,
            match ev {
                ReadEvent::Data(b) => if b@.len() > 0 {
                    &&& r == EchoAction::Echo(b)
                    &&& final(self).phase is Writing
                    &&& final(self).pending@ == b@
                    &&& final(self).received@ == old(self).received@ + b@
                } else {
                    &&& r == EchoAction::End(SessionEnd::PeerClosed)
                    &&& final(self).phase == EchoPhase::Ended(SessionEnd::PeerClosed)
                    &&& final(self).received == old(self).received
                },
                ReadEvent::TimedOut => {
                    &&& r == EchoAction::End(SessionEnd::TimedOut)
                    &&& final(self).phase == EchoPhase::Ended(SessionEnd::TimedOut)
                    &&& final(self).received == old(self).received
                },
                ReadEvent::Failed => {
                    &&& r == EchoAction::End(SessionEnd::IoError)
                    &&& final(self).phase == EchoPhase::Ended(SessionEnd::IoError)
                    &&& final(self).received == old(self).received
                },
            },
    {
        match ev {
            ReadEvent::Data(b) => {
                if b.len() > 0 {
                    self.phase = EchoPhase::Writing;
                    self.pending = Ghost(b@);
                    self.received = Ghost(self.received@ + b@);
                    EchoAction::Echo(b)
                } else {
                    self.phase = EchoPhase::Ended(SessionEnd::PeerClosed);
                    EchoAction::End(SessionEnd::PeerClosed)
                }
            },
            ReadEvent::TimedOut => {
                self.phase = EchoPhase::Ended(SessionEnd::TimedOut);
                EchoAction::End(SessionEnd::TimedOut)
            },
            ReadEvent::Failed => {
                self.phase = EchoPhase::Ended(SessionEnd::IoError);
                EchoAction::End(SessionEnd::IoError)
            },
        }
    }

    /// Takes in whether the whole pending write went through. After a
    /// complete write the session reads again; a failed or short write ends it
    /// with an I/O error.
    pub fn on_written(&mut self, complete: bool)
        requires
            old(self).wf(),
            old(self).phase is Writing,
        ensures
            final(self).wf(),
            final(self).received == old(self).received,
            complete ==> final(self).phase is Reading
                && final(self).echoed@ == old(self).echoed@ + old(self).pending@,
            !complete ==> final(self).phase == EchoPhase::Ended(SessionEnd::IoError)
                && final(self).echoed == old(self).echoed,
    {
        if complete {
            self.echoed = Ghost(self.echoed@ + self.pending@);
            self.pending = Ghost(Seq::empty());
            self.phase = EchoPhase::Reading;
        } else {
            self.phase = EchoPhase::Ended(SessionEnd::IoError);
        }
    }
}

/// Whenever a session is ready to read again, every byte it has read has been
/// written back to the peer, in the order read and with none missing.
pub proof fn echo_returns_all_received(s: EchoSession)
    requires
        s.wf(),
        s.phase is Reading,
    ensures
        s.echoed@ == s.received@,
{
}

} // verus!
