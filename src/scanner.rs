//! The outbound scan of a connecting peer: which ports are probed, whether the
//! process may probe them, and what each probe leaves in the scan log.
use vstd::prelude::*;
use vstd::utf8::encode_utf8;
use crate::config::{AppConfig, views};
use crate::portspec::{parse_unsigned, port_of, ports_of, resolve};

verus! {

/// The highest port whose probing asks for elevated privilege.
pub const PRIVILEGED_MAX: u16 = 1024;

/// A scan specification that is the single port 0, which names nothing to probe.
pub open spec fn is_zero_entry(t: Seq<u8>) -> bool {
    port_of(t) == Some(0u16)
}

/// The ports that one scan specification makes the scan probe: every port it
/// resolves to; none when it is malformed or is the single port 0.
pub open spec fn probe_ports(t: Seq<u8>) -> Seq<u16> {
    if is_zero_entry(t) {
        Seq::empty()
    } else {
        match ports_of(t) {
            Some(ps) => ps,
            None => Seq::empty(),
        }
    }
}

/// The ports that a list of scan specifications makes the scan probe, in order.
pub open spec fn scan_plan_of(specs: Seq<Seq<char>>) -> Seq<u16>
    decreases specs.len(),
{
    if specs.len() == 0 {
        Seq::empty()
    } else {
        scan_plan_of(specs.drop_last()) + probe_ports(encode_utf8(specs.last()))
    }
}

/// Some port of the list asks for elevated privilege.
pub open spec fn needs_privilege(ports: Seq<u16>) -> bool {
    exists|i: int| 0 <= i < ports.len() && ports[i] <= PRIVILEGED_MAX
}

/// Some well-formed scan specification resolves to, or overlaps, a port that
/// asks for elevated privilege; port 0 counts as one.
pub open spec fn specs_need_privilege(specs: Seq<Seq<char>>) -> bool {
    exists|i: int|
        0 <= i < specs.len() && match ports_of(encode_utf8(#[trigger] specs[i])) {
            Some(ps) => needs_privilege(ps),
            None => false,
        }
}

/// Whether the scan specification `s` is the single port 0.
fn zero_entry(s: &String) -> (r: bool)
    ensures
        r == is_zero_entry(encode_utf8(s@)),
{
    let t = s.as_str().as_bytes();
    assert(t@.subrange(0, t@.len() as int) =~= t@);
    match parse_unsigned(t, 0, t.len(), 65535) {
        Some(v) => v == 0,
        None => false,
    }
}

/// The ports that the scan specifications make the scan probe, in order.
pub fn scan_plan(specs: &Vec<String>) -> (r: Vec<u16>)
    ensures
        r@ == scan_plan_of(views(specs@)),
{
    let mut v: Vec<u16> = Vec::new();
    let mut i: usize = 0;
    while i < specs.len()
        invariant
            i <= specs@.len(),
            v@ == scan_plan_of(views(specs@).take(i as int)),
        decreases specs@.len() - i,
    {
        let ghost before = v@;
        assert(views(specs@).take(i as int + 1).drop_last() =~= views(specs@).take(i as int));
        if zero_entry(&specs[i]) {
            assert(v@ =~= before + Seq::<u16>::empty());
        } else if let Ok(mut ps) = resolve(specs[i].as_str()) {
            v.append(&mut ps);
        } else {
            assert(v@ =~= before + Seq::<u16>::empty());
        }
        i = i + 1;
    }
    assert(views(specs@).take(i as int) =~= views(specs@));
    v
}

/// Whether some port of the list asks for elevated privilege.
pub fn plan_needs_privilege(plan: &Vec<u16>) -> (r: bool)
    ensures
        r == needs_privilege(plan@),
{
    let mut i: usize = 0;
    while i < plan.len()
        invariant
            i <= plan@.len(),
            forall|k: int| 0 <= k < i ==> plan@[k] > PRIVILEGED_MAX,
        decreases plan@.len() - i,
    {
        if plan[i] <= PRIVILEGED_MAX {
            return true;
        }
        i = i + 1;
    }
    false
}

/// Whether some well-formed scan specification resolves to, or overlaps, a
/// port that asks for elevated privilege.
pub fn scan_needs_privilege(specs: &Vec<String>) -> (r: bool)
    ensures
        r == specs_need_privilege(views(specs@)),
{
    let mut i: usize = 0;
    while i < specs.len()
        invariant
            i <= specs@.len(),
            forall|k: int| 0 <= k < i ==> match ports_of(encode_utf8(#[trigger] views(specs@)[k])) {
                Some(ps) => !needs_privilege(ps),
                None => true,
            },
        decreases specs@.len() - i,
    {
        assert(views(specs@)[i as int] == specs@[i as int]@);
        if let Ok(ps) = resolve(specs[i].as_str()) {
            if plan_needs_privilege(&ps) {
                return true;
            }
        }
        i = i + 1;
    }
    false
}

/// The path of the log that a scan of `ip` writes.
pub open spec fn scan_log_path_of(ip: Seq<char>) -> Seq<char> {
    "logs/"@ + ip + "-scan.log"@
}

/// The path of the log that a scan of `ip` writes: `logs/<ip>-scan.log`.
pub fn scan_log_path(ip: &str) -> (r: String)
    ensures
        r@ == scan_log_path_of(ip@),
{
    let mut r = String::from_str("logs/");
    r.append(ip);
    r.append("-scan.log");
    r
}

/// What one connect attempt to a port of the target came to.
#[derive(Debug, Clone, PartialEq, Eq)]
pub enum ProbeOutcome {
    /// The connection could not be made, for the reason given.
    Refused(String),
    /// The port accepted the connection; the bytes are those that one bounded
    /// read then returned, empty when it timed out, failed or met the end.
    Open(Vec<u8>),
}

/// One line of a scan log.
#[derive(Debug, Clone, PartialEq, Eq)]
pub enum ScanEntry {
    /// The port accepted a connection.
    PortOpen(u16),
    /// The open port sent these bytes unasked.
    DataReceived(u16, Vec<u8>),
    /// The open port sent nothing within the read's bound.
    NoImmediateData(u16),
    /// The connection to the port failed, for the reason given.
    ConnectFailed(u16, String),
}

/// The log lines of one probe: a refused connection leaves one failure line;
/// an open port leaves a "port open" line followed by exactly one of a
/// "data received" line and a "no immediate data" line.
pub open spec fn entries_for(port: u16, outcome: ProbeOutcome) -> Seq<ScanEntry> {
    match outcome {
        ProbeOutcome::Refused(reason) => seq![ScanEntry::ConnectFailed(port, reason)],
        ProbeOutcome::Open(banner) => if banner@.len() > 0 {
            seq![ScanEntry::PortOpen(port), ScanEntry::DataReceived(port, banner)]
        } else {
            seq![ScanEntry::PortOpen(port), ScanEntry::NoImmediateData(port)]
        },
    }
}

/// The log lines that one probe of `port` leaves.
pub fn probe_entries(port: u16, outcome: ProbeOutcome) -> (r: Vec<ScanEntry>)
    ensures
        r@ == entries_for(port, outcome),
{
    let mut v: Vec<ScanEntry> = Vec::new();
    match outcome {
        ProbeOutcome::Refused(reason) => {
            v.push(ScanEntry::ConnectFailed(port, reason));
        },
        ProbeOutcome::Open(banner) => {
            v.push(ScanEntry::PortOpen(port));
            if banner.len() > 0 {
                v.push(ScanEntry::DataReceived(port, banner));
            } else {
                v.push(ScanEntry::NoImmediateData(port));
            }
        },
    }
    assert(v@ =~= entries_for(port, outcome));
    v
}

/// A scan in progress: the ports to probe one after another, and how many
/// have been probed.
#[derive(Debug)]
pub struct ScanSession {
    /// Where the scan log goes; it is created, or emptied, when the scan starts.
    pub log_path: String,
    /// The ports to probe, in order.
    pub ports: Vec<u16>,
    /// How many of them have been probed.
    pub next: usize,
}

impl ScanSession {
    pub open spec fn wf(&self) -> bool {
        self.next <= self.ports@.len()
    }

    /// The port to probe next, or `None` once every port has been probed.
    pub fn next_port(&self) -> (r: Option<u16>)
        requires
            self.wf(),
        ensures
            r == (if self.next < self.ports@.len() {
                Some(self.ports@[self.next as int])
            } else {
                None
            }),
    {
        if self.next < self.ports.len() {
            Some(self.ports[self.next])
        } else {
            None
        }
    }

    /// Records the outcome of probing the next port, moves on to the port after
    /// it, and returns the log lines of that probe.
    pub fn record(&mut self, outcome: ProbeOutcome) -> (r: Vec<ScanEntry>)
        requires
            old(self).wf(),
            old(self).next < old(self).ports@.len(),
        ensures
            final(self).wf(),
            final(self).next == old(self).next + 1,
            final(self).ports == old(self).ports,
            final(self).log_path == old(self).log_path,
            r@ == entries_for(old(self).ports@[old(self).next as int], outcome),
    {
        let port = self.ports[self.next];
        proof {
            assert(self.ports.len() == self.ports@.len());
        }
        self.next = self.next + 1;
        probe_entries(port, outcome)
    }
}

/// How a scan that a connection asked for begins.
#[derive(Debug)]
pub enum ScanStart {
    /// Scanning is switched off: nothing is probed and no scan log is made.
    Disabled,
    /// A port to probe asks for privilege that the process lacks: nothing is
    /// probed, no scan log is made, and one privilege error is logged.
    PrivilegeDenied,
    /// The scan goes ahead.
    Probe(ScanSession),
}

/// Decides how a scan of `target_ip` begins, given whether the process runs
/// with elevated privilege.
pub fn start_scan(target_ip: &str, config: &AppConfig, privileged: bool) -> (r: ScanStart)
    ensures
        !config.active ==> r is Disabled,
        config.active && specs_need_privilege(views(config.scan_ports@)) && !privileged
            ==> r is PrivilegeDenied,
        config.active && !(specs_need_privilege(views(config.scan_ports@)) && !privileged)
            ==> r is Probe,
        r is Probe ==> {
            let s = r->Probe_0;
            &&& s.wf()
            &&& s.next == 0
            &&& s.ports@ == scan_plan_of(views(config.scan_ports@))
            &&& s.log_path@ == scan_log_path_of(target_ip@)
        },
{
    if !config.active {
        return ScanStart::Disabled;
    }
    if scan_needs_privilege(&config.scan_ports) && !privileged {
        return ScanStart::PrivilegeDenied;
    }
    let ports = scan_plan(&config.scan_ports);
    ScanStart::Probe(ScanSession { log_path: scan_log_path(target_ip), ports, next: 0 })
}

} // verus!
