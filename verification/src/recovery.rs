//! Recovery after an unclean shutdown.
//!
//! The recovery path is one statement, which puts the function that sets a
//! user's limits back into the database. It is not run at startup, and that
//! is a decision: every commit is all or nothing, so a database that was not
//! shut down cleanly holds the state of its last commit, and the statement
//! would replace a function that the database may since have defined
//! otherwise. What is checked at startup instead is the transaction log (see
//! `TransactionLog::restore`). The statement is kept for an operator to run.

use vstd::prelude::*;
use crate::usage::Usage;

verus! {

/// Whether the recovery statement is run when the process starts.
pub const RECOVER_AT_STARTUP: bool = false;

/// The statement that the recovery path runs.
pub const RECOVERY_STATEMENT: &'static str = "ALTER FN web.SetDos( uid int ) RETURNS int AS
BEGIN
  DECLARE ok int
  SET ok = SETDOS
  ( 'u' | uid, 
     1000, 
     1000000000000, 
     1000000000,
     1000000000000 
  )
  IF ok = 0
  BEGIN
  END
  RETURN ok
END";

/// The statement that the recovery path runs.
pub fn recovery_statement() -> (r: &'static str)
    ensures
        r@ == RECOVERY_STATEMENT@,
{
    RECOVERY_STATEMENT
}

/// The limits that the statement gives a user: requests, bytes read,
/// processor time, bytes written.
pub fn recovery_limits() -> (r: Usage)
    ensures
        r == (Usage {
            request_count: 1000,
            bytes_read: 1_000_000_000_000,
            cpu_used: 1_000_000_000,
            bytes_written: 1_000_000_000_000,
        }),
{
    Usage::new(1000, 1_000_000_000_000, 1_000_000_000, 1_000_000_000_000)
}

} // verus!
