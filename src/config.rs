//! The configuration values that every task reads, built from their textual settings.
use vstd::prelude::*;
use vstd::utf8::encode_utf8;
use crate::portspec::{parse_unsigned, unsigned_of};

verus! {

/// The settings that every task shares and none changes.
#[derive(Debug, Clone)]
pub struct AppConfig {
    /// Specifications of the ports to listen on.
    pub ports: Vec<String>,
    /// Whether a connecting peer is scanned back.
    pub active: bool,
    /// Specifications of the ports to probe on a connecting peer.
    pub scan_ports: Vec<String>,
}

/// A setting that keeps the process from starting.
#[derive(Debug, Clone, Copy, PartialEq, Eq, Structural)]
pub enum ConfigError {
    /// No listening ports were configured.
    MissingPorts,
    /// The connection timeout is not a positive whole number of seconds.
    InvalidTimeout,
}

/// The seconds of inactivity after which a connection is closed, when none is configured.
pub const DEFAULT_TIMEOUT_SECS: u64 = 30;

/// The parts joined back together, with a `','` between each two.
pub open spec fn join_commas(parts: Seq<Seq<char>>) -> Seq<char>
    decreases parts.len(),
{
    if parts.len() <= 1 {
        if parts.len() == 0 { Seq::empty() } else { parts[0] }
    } else {
        join_commas(parts.drop_last()) + seq![','] + parts.last()
    }
}

/// `parts` are the pieces of `s` between its commas, in order, empty ones included.
pub open spec fn is_comma_split(parts: Seq<Seq<char>>, s: Seq<char>) -> bool {
    &&& parts.len() >= 1
    &&& forall|i: int| 0 <= i < parts.len() ==> !(#[trigger] parts[i]).contains(',')
    &&& join_commas(parts) == s
}

/// The text of each string, in order.
pub open spec fn views(v: Seq<String>) -> Seq<Seq<char>> {
    v.map_values(|x: String| x@)
}

/// Joining one more part adds a comma and the part, unless it is the first.
proof fn lemma_join_push(parts: Seq<Seq<char>>, a: Seq<char>)
    ensures
        join_commas(parts.push(a)) == if parts.len() == 0 {
            a
        } else {
            join_commas(parts) + seq![','] + a
        },
{
    assert(parts.push(a).drop_last() =~= parts);
}

/// The pieces of `s` between its commas, in order, empty ones included: one
/// piece more than there are commas.
pub fn split_commas(s: &str) -> (r: Vec<String>)
    ensures
        is_comma_split(views(r@), s@),
{
    let n = s.unicode_len();
    let mut parts: Vec<String> = Vec::new();
    let mut start: usize = 0;
    let mut i: usize = 0;
    while i < n
        invariant
            start <= i <= n,
            n == s@.len(),
            forall|k: int| 0 <= k < parts@.len() ==> !(#[trigger] parts@[k])@.contains(','),
            !s@.subrange(start as int, i as int).contains(','),
            join_commas(views(parts@).push(s@.subrange(start as int, i as int)))
                == s@.subrange(0, i as int),
        decreases n - i,
    {
        let c = s.get_char(i);
        let ghost old_parts = views(parts@);
        let ghost piece = s@.subrange(start as int, i as int);
        proof {
            lemma_join_push(old_parts, piece);
        }
        if c == ',' {
            let p = String::from_str(s.substring_char(start, i));
            parts.push(p);
            proof {
                assert(views(parts@) =~= old_parts.push(piece));
                lemma_join_push(views(parts@), Seq::empty());
                assert(s@.subrange(0, i as int + 1) =~= s@.subrange(0, i as int).push(','));
                assert(join_commas(views(parts@)) == s@.subrange(0, i as int));
                assert(s@.subrange(i as int + 1, i as int + 1) =~= Seq::<char>::empty());
                assert(join_commas(views(parts@).push(Seq::empty())) =~= s@.subrange(0, i as int + 1));
            }
            start = i + 1;
        } else {
            proof {
                let longer = s@.subrange(start as int, i as int + 1);
                assert(longer =~= piece.push(c));
                lemma_join_push(old_parts, longer);
                assert(s@.subrange(0, i as int + 1) =~= s@.subrange(0, i as int).push(c));
                if old_parts.len() == 0 {
                    assert(join_commas(old_parts.push(longer)) =~= s@.subrange(0, i as int + 1));
                } else {
                    assert(join_commas(old_parts.push(longer)) =~= join_commas(old_parts) + seq![','] + piece + seq![c]);
                    assert(join_commas(old_parts.push(longer)) =~= s@.subrange(0, i as int + 1));
                }
                if longer.contains(',') {
                    let k = choose|k: int| 0 <= k < longer.len() && longer[k] == ',';
                    if k < piece.len() {
                        assert(piece[k] == ',');
                    }
                }
            }
        }
        i = i + 1;
    }
    let ghost old_parts = views(parts@);
    let last = String::from_str(s.substring_char(start, n));
    parts.push(last);
    proof {
        assert(views(parts@) =~= old_parts.push(s@.subrange(start as int, n as int)));
        assert(s@.subrange(0, n as int) =~= s@);
        assert forall|k: int| 0 <= k < views(parts@).len() implies !(#[trigger] views(parts@)[k]).contains(',') by {
            if k < parts@.len() - 1 {
                assert(parts@[k]@ == views(parts@)[k]);
            }
        }
    }
    parts
}

impl AppConfig {
    /// Builds the configuration from its settings, each `None` when it is not set.
    ///
    /// The listening ports are required. Scanning is active only when its setting
    /// is exactly `"true"`. Both port lists are split at commas; an unset scan
    /// list counts as the empty text, that is one empty specification.
    pub fn from_settings(ports: Option<&str>, active: Option<&str>, scan_ports: Option<&str>) -> (r: Result<AppConfig, ConfigError>)
        ensures
            ports is None <==> r is Err,
            ports is None ==> r == Err::<AppConfig, ConfigError>(ConfigError::MissingPorts),
            r is Ok ==> is_comma_split(views(r->Ok_0.ports@), ports->Some_0@),
            r is Ok ==> r->Ok_0.active == (active is Some && active->Some_0@ == "true"@),
            r is Ok ==> is_comma_split(
                views(r->Ok_0.scan_ports@),
                if scan_ports is Some { scan_ports->Some_0@ } else { Seq::empty() },
            ),
    {
        let ports = match ports {
            Some(p) => split_commas(p),
            None => return Err(ConfigError::MissingPorts),
        };
        let active = match active {
            Some(a) => {
                let given = String::from_str(a);
                let expected = String::from_str("true");
                given.eq(&expected)
            },
            None => false,
        };
        let scan_ports = match scan_ports {
            Some(s) => split_commas(s),
            None => {
                proof {
                    reveal_strlit("");
                    assert(""@ =~= Seq::<char>::empty());
                }
                split_commas("")
            },
        };
        Ok(AppConfig { ports, active, scan_ports })
    }
}

/// The timeout, in seconds, that a setting gives, or `None` if it is invalid.
pub open spec fn timeout_of(setting: Option<Seq<char>>) -> Option<u64> {
    match setting {
        None => Some(DEFAULT_TIMEOUT_SECS),
        Some(s) => match unsigned_of(encode_utf8(s), u64::MAX as nat) {
            Some(v) => if v > 0 { Some(v as u64) } else { None },
            None => None,
        },
    }
}

/// The connection timeout in seconds: 30 when unset, else the positive whole
/// number that the setting spells.
pub fn timeout_secs_from(setting: Option<&str>) -> (r: Result<u64, ConfigError>)
    ensures
        match timeout_of(match setting { Some(s) => Some(s@), None => None }) {
            Some(v) => r == Ok::<u64, ConfigError>(v),
            None => r == Err::<u64, ConfigError>(ConfigError::InvalidTimeout),
        },
{
    match setting {
        None => Ok(DEFAULT_TIMEOUT_SECS),
        Some(s) => {
            let t = s.as_bytes();
            assert(t@.subrange(0, t@.len() as int) =~= t@);
            match parse_unsigned(t, 0, t.len(), u64::MAX) {
                Some(v) => if v > 0 { Ok(v) } else { Err(ConfigError::InvalidTimeout) },
                None => Err(ConfigError::InvalidTimeout),
            }
        },
    }
}

/// How much the process log records, from most to least.
#[derive(Debug, Clone, Copy, PartialEq, Eq, Structural)]
pub enum LogLevel {
    Trace,
    Debug,
    Info,
    Warn,
    Error,
}

/// What `str::to_uppercase` makes of a text.
pub uninterp spec fn upper_of(s: Seq<char>) -> Seq<char>;

/// Relies on `str::to_uppercase`: the upper-case form of the text, which
/// depends on its characters alone.
#[verifier::external_body]
fn to_upper(s: &str) -> (r: String)
    ensures
        r@ == upper_of(s@),
{
    s.to_uppercase()
}

/// The level that an upper-case level name selects: one of the five names,
/// anything else selecting `Info`.
pub open spec fn level_named(u: Seq<char>) -> LogLevel {
    if u == "TRACE"@ {
        LogLevel::Trace
    } else if u == "DEBUG"@ {
        LogLevel::Debug
    } else if u == "WARN"@ {
        LogLevel::Warn
    } else if u == "ERROR"@ {
        LogLevel::Error
    } else {
        LogLevel::Info
    }
}

/// The level that an upper-case level name selects.
pub fn level_for_upper(u: &str) -> (r: LogLevel)
    ensures
        r == level_named(u@),
{
    let u = String::from_str(u);
    if u.eq(&String::from_str("TRACE")) {
        LogLevel::Trace
    } else if u.eq(&String::from_str("DEBUG")) {
        LogLevel::Debug
    } else if u.eq(&String::from_str("WARN")) {
        LogLevel::Warn
    } else if u.eq(&String::from_str("ERROR")) {
        LogLevel::Error
    } else {
        LogLevel::Info
    }
}

/// The level that a level setting selects, read without regard to case;
/// `Info` when the setting is unset or names no level.
pub fn log_level_from(setting: Option<&str>) -> (r: LogLevel)
    ensures
        r == (match setting {
            Some(s) => level_named(upper_of(s@)),
            None => LogLevel::Info,
        }),
{
    match setting {
        Some(s) => {
            let u = to_upper(s);
            level_for_upper(u.as_str())
        },
        None => LogLevel::Info,
    }
}

} // verus!
