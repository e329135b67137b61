//! Startup configuration: serving endpoint, backing store settings, log
//! settings and the peers to register at startup. Reading and writing the
//! configuration file is the process's business; the default values and
//! the log-level names are the node's own rules and live here.

use vstd::prelude::*;
use vstd::string::{StrSliceExecFns, StringExecFns};

verus! {

/// Serving endpoint of the node's own API.
pub struct API {
    pub address: String,
    pub port: u16,
}

/// Backing store settings.
pub struct DB {
    pub path: String,
    pub pool_min: Option<u8>,
    pub pool_max: Option<u8>,
    pub pragma: Option<String>,
    pub timeout: Option<u8>,
}

/// Logging verbosity, least to most verbose.
#[derive(Clone, Copy, Debug, PartialEq, Eq, Structural)]
pub enum LogLevel {
    Off,
    Error,
    Warn,
    Info,
    Debug,
    Trace,
}

/// Log settings.
pub struct Log {
    pub level: LogLevel,
    pub file_output: String,
    pub stdout: bool,
}

/// A peer named in the configuration, to be registered at startup.
pub struct Node {
    pub address: String,
    pub port: u16,
}

/// The whole startup configuration.
pub struct Config {
    pub api: API,
    pub db: DB,
    pub log: Log,
    pub nodes: Option<Vec<Node>>,
}

/// The lower-case form of an ASCII letter; anything else is unchanged.
pub open spec fn spec_lower_char(c: char) -> char {
    if 'A' <= c && c <= 'Z' {
        ((c as u8) + 32) as char
    } else {
        c
    }
}

/// Character-wise ASCII lower-casing.
pub open spec fn spec_lower(s: Seq<char>) -> Seq<char> {
    s.map_values(|c: char| spec_lower_char(c))
}

/// The configuration-file name of each log level.
pub open spec fn spec_level_name(l: LogLevel) -> Seq<char> {
    match l {
        LogLevel::Off => "off"@,
        LogLevel::Error => "error"@,
        LogLevel::Warn => "warn"@,
        LogLevel::Info => "info"@,
        LogLevel::Debug => "debug"@,
        LogLevel::Trace => "trace"@,
    }
}

/// The log level a configuration-file name denotes, compared without
/// regard to ASCII case; an unknown name falls back to `Info`.
pub open spec fn spec_level_of_name(s: Seq<char>) -> LogLevel {
    if spec_lower(s) == "off"@ {
        LogLevel::Off
    } else if spec_lower(s) == "error"@ {
        LogLevel::Error
    } else if spec_lower(s) == "warn"@ {
        LogLevel::Warn
    } else if spec_lower(s) == "info"@ {
        LogLevel::Info
    } else if spec_lower(s) == "debug"@ {
        LogLevel::Debug
    } else if spec_lower(s) == "trace"@ {
        LogLevel::Trace
    } else {
        LogLevel::Info
    }
}

/// Whether `s`, lower-cased ASCII-wise, is exactly `lit`.
fn lower_is(s: &str, lit: &str) -> (r: bool)
    ensures
        r == (spec_lower(s@) == lit@),
{
    let slen = s.unicode_len();
    let llen = lit.unicode_len();
    if slen != llen {
        assert(spec_lower(s@).len() == s@.len());
        return false;
    }
    let mut i: usize = 0;
    while i < slen
        invariant
            slen == s@.len(),
            llen == lit@.len(),
            slen == llen,
            i <= slen,
            forall|l: int| 0 <= l < i ==> spec_lower_char(s@[l]) == lit@[l],
        decreases slen - i,
    {
        let c = s.get_char(i);
        let low = if 'A' <= c && c <= 'Z' {
            ((c as u8) + 32) as char
        } else {
            c
        };
        assert(low == spec_lower_char(s@[i as int]));
        if low != lit.get_char(i) {
            assert(spec_lower(s@)[i as int] != lit@[i as int]);
            return false;
        }
        i += 1;
    }
    proof {
        assert forall|l: int| 0 <= l < s@.len() implies spec_lower(s@)[l] == lit@[l] by {
            assert(spec_lower(s@)[l] == spec_lower_char(s@[l]));
        }
        assert(spec_lower(s@) =~= lit@);
    }
    true
}

impl LogLevel {
    /// The name this level is written with in the configuration file.
    pub fn name(&self) -> (r: String)
        ensures
            r@ == spec_level_name(*self),
    {
        match self {
            LogLevel::Off => String::from_str("off"),
            LogLevel::Error => String::from_str("error"),
            LogLevel::Warn => String::from_str("warn"),
            LogLevel::Info => String::from_str("info"),
            LogLevel::Debug => String::from_str("debug"),
            LogLevel::Trace => String::from_str("trace"),
        }
    }

    /// The level a configuration-file name denotes, without regard to
    /// ASCII case; an unknown name falls back to `Info`.
    pub fn from_name(s: &str) -> (r: LogLevel)
        ensures
            r == spec_level_of_name(s@),
    {
        if lower_is(s, "off") {
            LogLevel::Off
        } else if lower_is(s, "error") {
            LogLevel::Error
        } else if lower_is(s, "warn") {
            LogLevel::Warn
        } else if lower_is(s, "info") {
            LogLevel::Info
        } else if lower_is(s, "debug") {
            LogLevel::Debug
        } else if lower_is(s, "trace") {
            LogLevel::Trace
        } else {
            LogLevel::Info
        }
    }
}

impl Config {
    /// The configuration generated when none is found on disk.
    pub fn default_config() -> (r: Config)
        ensures
            r.api.address@ == "0.0.0.0"@,
            r.api.port == 8080,
            r.db.path@ == "database.db"@,
            r.db.pool_min == Some(1u8),
            r.db.pool_max == Some(10u8),
            r.db.pragma matches Some(p) && p@ == "journal_mode=WAL"@,
            r.db.timeout == Some(30u8),
            r.log.level == LogLevel::Info,
            r.log.file_output@ == "contradiction.log"@,
            r.log.stdout,
            r.nodes is None,
    {
        Config {
            api: API { address: String::from_str("0.0.0.0"), port: 8080 },
            db: DB {
                path: String::from_str("database.db"),
                pool_min: Some(1),
                pool_max: Some(10),
                pragma: Some(String::from_str("journal_mode=WAL")),
                timeout: Some(30),
            },
            log: Log {
                level: LogLevel::Info,
                file_output: String::from_str("contradiction.log"),
                stdout: true,
            },
            nodes: None,
        }
    }
}

} // verus!
