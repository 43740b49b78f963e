//! Snapshots of a file's size and modification time, and what to read after a change.

use vstd::prelude::*;

verus! {

/// A point in time as whole seconds and nanoseconds.
#[derive(Clone, Copy, Debug, PartialEq, Eq, Structural)]
pub struct TimeSpec {
    pub sec: i64,
    pub nsec: i64,
}

/// Length and modification time of a file at one observation.
#[derive(Clone, Debug)]
pub struct MetaSnap {
    pub len: u64,
    pub mtime: TimeSpec,
}

/// Whether `cur` differs from `prev` in length or modification time.
pub open spec fn changed(prev: Option<MetaSnap>, cur: MetaSnap) -> bool {
    match prev {
        None => true,
        Some(p) => p.len != cur.len || p.mtime != cur.mtime,
    }
}

/// Reports a change when there is no earlier snapshot, or when length or
/// modification time differ from it.
pub fn has_changed(prev: &Option<MetaSnap>, cur: &MetaSnap) -> (b: bool)
    ensures
        b == changed(*prev, *cur),
{
    match prev {
        None => true,
        Some(p) => p.len != cur.len || p.mtime != cur.mtime,
    }
}

/// What is known of the log file between two looks at it.
pub struct FileTracker {
    /// How many bytes of the file have been read.
    pub last_len: u64,
    /// The snapshot of the last look that saw a change.
    pub prev_meta: Option<MetaSnap>,
}

/// The bytes to read after a look at the file: none if nothing changed or
/// the file did not grow. A file shorter than what was read has been
/// truncated or rotated, and is read again from its beginning.
pub open spec fn bytes_to_read(prev: Option<MetaSnap>, last_len: u64, cur: MetaSnap) -> Option<
    (u64, u64),
> {
    let from = if cur.len < last_len {
        0
    } else {
        last_len
    };
    if changed(prev, cur) && cur.len > from {
        Some((from, cur.len))
    } else {
        None
    }
}

/// How many bytes count as read after a look at the file.
pub open spec fn length_after(prev: Option<MetaSnap>, last_len: u64, cur: MetaSnap) -> u64 {
    if changed(prev, cur) {
        cur.len
    } else {
        last_len
    }
}

/// A byte range cut to what a snapshot of `snapshot_len` bytes holds.
pub open spec fn clamped_range(from: u64, to: u64, snapshot_len: usize) -> (int, int) {
    let start = if from <= snapshot_len {
        from as int
    } else {
        snapshot_len as int
    };
    let end = if to <= snapshot_len {
        to as int
    } else {
        snapshot_len as int
    };
    (
        start,
        if end >= start {
            end
        } else {
            start
        },
    )
}

/// Cuts a byte range to what a snapshot of the file holds, so that a file
/// that shrank in the meantime is never read beyond its end.
pub fn clamp_range(from: u64, to: u64, snapshot_len: usize) -> (range: (usize, usize))
    ensures
        (range.0 as int, range.1 as int) == clamped_range(from, to, snapshot_len),
        range.0 <= range.1 <= snapshot_len,
{
    let start: usize = if from <= snapshot_len as u64 {
        from as usize
    } else {
        snapshot_len
    };
    let end: usize = if to <= snapshot_len as u64 {
        to as usize
    } else {
        snapshot_len
    };
    if end >= start {
        (start, end)
    } else {
        (start, start)
    }
}

impl FileTracker {
    /// Nothing read, nothing seen.
    pub fn new() -> (tracker: Self)
        ensures
            tracker.last_len == 0,
            tracker.prev_meta is None,
    {
        FileTracker { last_len: 0, prev_meta: None }
    }

    /// Takes note of a snapshot and says which bytes are new, if any. After a
    /// change the snapshot is remembered and the bytes up to its length count
    /// as read.
    pub fn observe(&mut self, cur: MetaSnap) -> (range: Option<(u64, u64)>)
        ensures
            range == bytes_to_read(old(self).prev_meta, old(self).last_len, cur),
            final(self).last_len == length_after(old(self).prev_meta, old(self).last_len, cur),
            final(self).prev_meta == if changed(old(self).prev_meta, cur) {
                Some(cur)
            } else {
                old(self).prev_meta
            },
    {
        if !has_changed(&self.prev_meta, &cur) {
            return None;
        }
        if cur.len < self.last_len {
            self.last_len = 0;
        }
        let range = if cur.len > self.last_len {
            let from = self.last_len;
            self.last_len = cur.len;
            Some((from, cur.len))
        } else {
            None
        };
        self.prev_meta = Some(cur);
        range
    }
}

} // verus!
