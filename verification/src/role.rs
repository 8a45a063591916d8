//! The role of a process, fixed at startup, and what follows from it.

use vstd::prelude::*;

verus! {

/// Whether this process originates mutations or follows a master.
#[derive(Clone, Copy, Debug, PartialEq, Eq, Structural)]
pub enum Role {
    Master,
    Replica,
}

/// The background jobs that a process may run beside request handling.
#[derive(Clone, Copy, Debug, PartialEq, Eq, Structural)]
pub enum Job {
    /// Delivers outbound notifications.
    Notifications,
    /// Delivers a wake signal at a requested time.
    Wakeups,
    /// Pulls the master's log and applies it.
    Sync,
    /// Sweeps the client records once per decay interval.
    Decay,
}

/// The number of bytes in one unit of the page-cache budget.
pub const BYTES_PER_MEGABYTE: usize = 1_000_000;

impl Role {
    /// The role that a replication source stands for: none means master.
    pub open spec fn of_source(source: Seq<char>) -> Role {
        if source.len() == 0 {
            Role::Master
        } else {
            Role::Replica
        }
    }

    /// Whether a process in this role runs `job`: jobs with outward effects
    /// belong to the master, following belongs to the replica, and decay
    /// runs everywhere.
    pub open spec fn has(self, job: Job) -> bool {
        match job {
            Job::Notifications => self is Master,
            Job::Wakeups => self is Master,
            Job::Sync => self is Replica,
            Job::Decay => true,
        }
    }

    /// The role of a process that was given `source` as the server to
    /// replicate: master where it is empty, replica otherwise.
    pub fn from_source(source: &str) -> (r: Role)
        ensures
            r == Role::of_source(source@),
    {
        if source.is_empty() {
            Role::Master
        } else {
            Role::Replica
        }
    }

    /// Whether mutations originate here. A replica takes none from its own
    /// clients: it only applies what the master has committed.
    pub fn is_master(self) -> (r: bool)
        ensures
            r == (self is Master),
    {
        match self {
            Role::Master => true,
            Role::Replica => false,
        }
    }

    /// Whether a process in this role runs `job`.
    pub fn runs(self, job: Job) -> (r: bool)
        ensures
            r == self.has(job),
    {
        match job {
            Job::Notifications => self.is_master(),
            Job::Wakeups => self.is_master(),
            Job::Sync => !self.is_master(),
            Job::Decay => true,
        }
    }

    /// The script that initialises a new database: the master runs `script`,
    /// a replica runs nothing, because its contents come from the master.
    pub fn init_script<'a>(self, script: &'a str) -> (r: &'a str)
        ensures
            r@ == if self is Master {
                script@
            } else {
                Seq::<char>::empty()
            },
    {
        match self {
            Role::Master => script,
            Role::Replica => {
                proof {
                    reveal_strlit("");
                }
                ""
            },
        }
    }
}

/// The page-cache budget in bytes for a budget given in megabytes, or `None`
/// where that number of bytes does not fit in a `usize`.
pub fn page_cache_bytes(megabytes: usize) -> (r: Option<usize>)
    ensures
        r == if megabytes * BYTES_PER_MEGABYTE <= usize::MAX {
            Some((megabytes * BYTES_PER_MEGABYTE) as usize)
        } else {
            None
        },
{
    megabytes.checked_mul(BYTES_PER_MEGABYTE)
}

} // verus!
