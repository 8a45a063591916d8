//! What a process is started with, and the settings that follow from it.

use vstd::prelude::*;
use crate::role::{BYTES_PER_MEGABYTE, Role};
use crate::usage::Usage;

verus! {

/// The limit on requests per client where none is given.
pub const DEFAULT_DOS_COUNT: u64 = 1000;

/// The limit on bytes read per client where none is given.
pub const DEFAULT_DOS_READ: u64 = 1_000_000_000_000;

/// The limit on processor time per client where none is given.
pub const DEFAULT_DOS_CPU: u64 = 100_000;

/// The limit on bytes written per client where none is given.
pub const DEFAULT_DOS_WRITE: u64 = 1_000_000_000_000;

/// The page-cache budget in megabytes where none is given.
pub const DEFAULT_CACHE_MEGABYTES: usize = 100;

/// The options that a process recognises, as they were given.
#[derive(Debug)]
pub struct Options {
    /// The port to listen on; not zero.
    pub port: u16,
    /// The address to listen on.
    pub ip: String,
    pub dos_count: u64,
    pub dos_read: u64,
    pub dos_cpu: u64,
    pub dos_write: u64,
    /// The page-cache budget in megabytes.
    pub mem: usize,
    /// The server to replicate; empty for a master.
    pub rep: String,
    /// The credentials for the server to replicate.
    pub login: String,
    pub tracetime: bool,
    pub tracemem: bool,
    pub tracedos: bool,
}

/// Why a set of options cannot be used.
#[derive(Clone, Copy, Debug, PartialEq, Eq, Structural)]
pub enum SettingsError {
    /// The port is zero.
    NoPort,
    /// The page-cache budget in bytes does not fit in a `usize`.
    CacheTooLarge,
}

/// The settings that every part of the process shares. They are made once,
/// at startup, and never change.
#[derive(Debug)]
pub struct Settings {
    pub role: Role,
    pub replicate_source: String,
    pub replicate_credentials: String,
    /// The four limits that apply to every client.
    pub dos_limit: Usage,
    /// The page-cache budget in bytes.
    pub cache_bytes: usize,
    pub trace_time: bool,
    pub trace_memory: bool,
    pub trace_dos: bool,
}

impl Options {
    /// The limits that the options give.
    pub open spec fn limits(self) -> Usage {
        Usage {
            request_count: self.dos_count,
            bytes_read: self.dos_read,
            cpu_used: self.dos_cpu,
            bytes_written: self.dos_write,
        }
    }

    /// What is wrong with the options, if anything: the port is checked first.
    pub open spec fn fault(self) -> Option<SettingsError> {
        if self.port == 0 {
            Some(SettingsError::NoPort)
        } else if self.mem * BYTES_PER_MEGABYTE > usize::MAX {
            Some(SettingsError::CacheTooLarge)
        } else {
            None
        }
    }

    /// The options of a master that listens on every address at `port`, with
    /// every other option at its default.
    pub fn with_port(port: u16) -> (r: Options)
        ensures
            r.port == port,
            r.ip@ == "0.0.0.0"@,
            r.limits() == (Usage {
                request_count: DEFAULT_DOS_COUNT,
                bytes_read: DEFAULT_DOS_READ,
                cpu_used: DEFAULT_DOS_CPU,
                bytes_written: DEFAULT_DOS_WRITE,
            }),
            r.mem == DEFAULT_CACHE_MEGABYTES,
            r.rep@.len() == 0,
            r.login@.len() == 0,
            !r.tracetime && !r.tracemem && !r.tracedos,
    {
        Options {
            port,
            ip: "0.0.0.0".to_string(),
            dos_count: DEFAULT_DOS_COUNT,
            dos_read: DEFAULT_DOS_READ,
            dos_cpu: DEFAULT_DOS_CPU,
            dos_write: DEFAULT_DOS_WRITE,
            mem: DEFAULT_CACHE_MEGABYTES,
            rep: String::new(),
            login: String::new(),
            tracetime: false,
            tracemem: false,
            tracedos: false,
        }
    }
}

impl Settings {
    /// The settings for a set of options: the role follows from the
    /// replication source, the limits are the four given, and the cache
    /// budget is turned into bytes. Options with a fault give that fault.
    pub fn from_options(options: Options) -> (r: Result<Settings, SettingsError>)
        ensures
            match r {
                Ok(settings) => {
                    &&& options.fault() is None
                    &&& settings.role == Role::of_source(options.rep@)
                    &&& settings.replicate_source@ == options.rep@
                    &&& settings.replicate_credentials@ == options.login@
                    &&& settings.dos_limit == options.limits()
                    &&& settings.cache_bytes == options.mem * BYTES_PER_MEGABYTE
                    &&& settings.trace_time == options.tracetime
                    &&& settings.trace_memory == options.tracemem
                    &&& settings.trace_dos == options.tracedos
                },
                Err(error) => options.fault() == Some(error),
            },
    {
        if options.port == 0 {
            return Err(SettingsError::NoPort);
        }
        let cache_bytes: usize = match options.mem.checked_mul(BYTES_PER_MEGABYTE) {
            Some(bytes) => bytes,
            None => {
                return Err(SettingsError::CacheTooLarge);
            },
        };
        let role = Role::from_source(options.rep.as_str());
        Ok(
            Settings {
                role,
                replicate_source: options.rep,
                replicate_credentials: options.login,
                dos_limit: Usage::new(
                    options.dos_count,
                    options.dos_read,
                    options.dos_cpu,
                    options.dos_write,
                ),
                cache_bytes,
                trace_time: options.tracetime,
                trace_memory: options.tracemem,
                trace_dos: options.tracedos,
            },
        )
    }
}

} // verus!
