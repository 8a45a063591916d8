//! The transaction log: the committed, logged operations in commit order.
//!
//! The log only grows at its end. An entry that a reader has seen at some
//! position stays at that position, unchanged, for ever.

use vstd::prelude::*;
use rustdb::GenQuery;
use crate::codec::{CodecError, decode_operation, encode_operation, packed, unpacked};

verus! {

/// The byte strings that a list of entries holds.
pub open spec fn contents(entries: Seq<Vec<u8>>) -> Seq<Seq<u8>> {
    entries.map_values(|entry: Vec<u8>| entry@)
}

/// The part of `log` from `position` on, at most `limit` entries long: what a
/// reader at `position` is served.
pub open spec fn served(log: Seq<Seq<u8>>, position: int, limit: int) -> Seq<Seq<u8>> {
    if 0 <= position <= log.len() && 0 <= limit {
        if position + limit <= log.len() {
            log.subrange(position, position + limit)
        } else {
            log.subrange(position, log.len() as int)
        }
    } else {
        Seq::empty()
    }
}

/// The key under which the log table holds the entry at `position`. The
/// table gives its rows the keys 1, 2, 3 and so on.
pub open spec fn key_at(position: int) -> int {
    position + 1
}

/// Why what was read from a log table cannot be the log.
#[derive(Clone, Copy, Debug, PartialEq, Eq, Structural)]
pub enum LogFault {
    /// The number of entries is not the number of keys that the table has
    /// given out.
    Count,
    /// The entry at this position is not a serialised operation.
    Unreadable(u64),
}

/// The key of the entry at `position`, or `None` where the table has no
/// such key.
pub fn key_of(position: u64) -> (r: Option<i64>)
    ensures
        r == if key_at(position as int) <= i64::MAX {
            Some(key_at(position as int) as i64)
        } else {
            None
        },
{
    if position < i64::MAX as u64 {
        Some((position + 1) as i64)
    } else {
        None
    }
}

/// The number of entries in a table that will give `next_key` to its next
/// row: the position at which the log goes on.
pub fn entries_before(next_key: i64) -> (r: u64)
    ensures
        r == if next_key > 1 {
            next_key - 1
        } else {
            0
        },
        next_key >= 1 ==> key_at(r as int) == next_key,
{
    if next_key > 1 {
        (next_key - 1) as u64
    } else {
        0
    }
}

/// An append-only sequence of serialised operations.
pub struct TransactionLog {
    entries: Vec<Vec<u8>>,
}

impl View for TransactionLog {
    type V = Seq<Seq<u8>>;

    closed spec fn view(&self) -> Seq<Seq<u8>> {
        contents(self.entries@)
    }
}

impl TransactionLog {
    /// A log without entries.
    pub fn new() -> (r: TransactionLog)
        ensures
            r@.len() == 0,
    {
        TransactionLog { entries: Vec::new() }
    }

    /// The number of entries, which is the position of the next one.
    pub fn len(&self) -> (r: u64)
        ensures
            r == self@.len(),
    {
        self.entries.len() as u64
    }

    /// Appends one entry and returns its position. Every earlier entry stays
    /// where and what it was.
    pub fn append(&mut self, entry: Vec<u8>) -> (position: u64)
        ensures
            final(self)@ == old(self)@.push(entry@),
            old(self)@.is_prefix_of(final(self)@),
            position == old(self)@.len(),
    {
        let position: u64 = self.entries.len() as u64;
        self.entries.push(entry);
        assert(contents(self.entries@) =~= contents(old(self).entries@).push(entry@));
        position
    }

    /// The log that a table holds, checked as it is taken over: `entries`
    /// are the rows in key order, `next_key` is the key that the table gives
    /// out next. The count is checked first; then every entry must be a
    /// serialised operation, and the first that is not is reported.
    pub fn restore(entries: Vec<Vec<u8>>, next_key: i64) -> (r: Result<TransactionLog, LogFault>)
        ensures
            match r {
                Ok(log) => {
                    &&& log@ == contents(entries@)
                    &&& next_key >= 1
                    &&& key_at(entries@.len() as int) == next_key
                    &&& forall|i: int| 0 <= i < log@.len() ==> unpacked(#[trigger] log@[i]) is Some
                },
                Err(LogFault::Count) => next_key < 1 || key_at(entries@.len() as int) != next_key,
                Err(LogFault::Unreadable(position)) => {
                    &&& next_key >= 1
                    &&& key_at(entries@.len() as int) == next_key
                    &&& position < entries@.len()
                    &&& unpacked(contents(entries@)[position as int]) is None
                    &&& forall|i: int|
                        0 <= i < position ==> unpacked(#[trigger] contents(entries@)[i]) is Some
                },
            },
    {
        if next_key < 1 || entries.len() as u64 != entries_before(next_key) {
            return Err(LogFault::Count);
        }
        let mut i: usize = 0;
        while i < entries.len()
            invariant
                i <= entries.len(),
                next_key >= 1,
                key_at(entries@.len() as int) == next_key,
                forall|k: int| 0 <= k < i ==> unpacked(#[trigger] contents(entries@)[k]) is Some,
            decreases entries.len() - i,
        {
            assert(contents(entries@)[i as int] == entries@[i as int]@);
            match decode_operation(&entries[i]) {
                Ok(_) => {},
                Err(_) => {
                    return Err(LogFault::Unreadable(i as u64));
                },
            }
            i += 1;
        }
        Ok(TransactionLog { entries })
    }

    /// Serialises an operation and appends it; the result is the entry's
    /// position. Where the operation has no serialised form, the log is left
    /// as it was.
    pub fn record(&mut self, query: &GenQuery) -> (r: Result<u64, CodecError>)
        ensures
            match r {
                Ok(position) => {
                    &&& position == old(self)@.len()
                    &&& packed(*query) is Some
                    &&& final(self)@ == old(self)@.push(packed(*query).unwrap())
                },
                Err(error) => {
                    &&& error == CodecError::Encode
                    &&& packed(*query) is None
                    &&& final(self)@ == old(self)@
                },
            },
    {
        match encode_operation(query) {
            Ok(entry) => Ok(self.append(entry)),
            Err(error) => Err(error),
        }
    }

    /// The entry at `position`, if the log has got that far.
    pub fn entry(&self, position: u64) -> (r: Option<Vec<u8>>)
        ensures
            match r {
                Some(entry) => position < self@.len() && entry@ == self@[position as int],
                None => position >= self@.len(),
            },
    {
        if position < self.entries.len() as u64 {
            let found = copy_of(&self.entries[position as usize]);
            Some(found)
        } else {
            None
        }
    }

    /// The entries from `position` on, in log order, at most `limit` of them:
    /// what a replica that has applied `position` entries is sent. A position
    /// past the end of the log is served nothing.
    pub fn entries_from(&self, position: u64, limit: usize) -> (r: Vec<Vec<u8>>)
        ensures
            contents(r@) == served(self@, position as int, limit as int),
    {
        let mut batch: Vec<Vec<u8>> = Vec::new();
        let total: usize = self.entries.len();
        if position > total as u64 {
            assert(contents(batch@) =~= served(self@, position as int, limit as int));
            return batch;
        }
        let first: usize = position as usize;
        let end: usize = if limit <= total - first {
            first + limit
        } else {
            total
        };
        let mut i: usize = first;
        while i < end
            invariant
                first <= i <= end <= total,
                total == self.entries.len(),
                self@ == contents(self.entries@),
                self@.len() == total,
                batch@.len() == i - first,
                contents(batch@) == self@.subrange(first as int, i as int),
            decreases end - i,
        {
            let next = copy_of(&self.entries[i]);
            let ghost earlier = batch@;
            batch.push(next);
            assert forall|k: int| 0 <= k < batch@.len() implies contents(batch@)[k]
                == self@.subrange(first as int, i + 1)[k] by {
                if k < earlier.len() {
                    assert(contents(earlier)[k] == self@.subrange(first as int, i as int)[k]);
                }
            }
            i += 1;
        }
        batch
    }
}

/// A copy of a byte string.
pub fn copy_of(bytes: &Vec<u8>) -> (r: Vec<u8>)
    ensures
        r@ == bytes@,
{
    let mut copy: Vec<u8> = Vec::new();
    let mut i: usize = 0;
    while i < bytes.len()
        invariant
            i <= bytes.len(),
            copy@ == bytes@.take(i as int),
        decreases bytes.len() - i,
    {
        copy.push(bytes[i]);
        assert(copy@ =~= bytes@.take(i + 1));
        i += 1;
    }
    assert(bytes@.take(bytes.len() as int) =~= bytes@);
    copy
}

/// Appending changes no position that a reader has been served: what was
/// served from `position` before is the start of what is served from there
/// afterwards.
pub proof fn lemma_served_is_stable(
    log: Seq<Seq<u8>>,
    entry: Seq<u8>,
    position: int,
    limit: int,
)
    ensures
        served(log, position, limit).is_prefix_of(served(log.push(entry), position, limit)),
{
    let before = served(log, position, limit);
    let after = served(log.push(entry), position, limit);
    if 0 <= position <= log.len() && 0 <= limit {
        assert(before.len() <= after.len());
        assert(before =~= after.subrange(0, before.len() as int));
    } else {
        assert(before.len() == 0);
        assert(before =~= after.subrange(0, 0));
    }
}

} // verus!
