//! In-memory ring buffer of recent log entries for the in-app log viewer.

use vstd::prelude::*;

use std::collections::VecDeque;

verus! {

/// How many entries a default buffer keeps.
pub const DEFAULT_CAPACITY: usize = 5000;

/// A single log entry for display in the UI.
#[derive(Debug, Clone)]
pub struct LogEntry {
    pub timestamp: String,
    pub level: String,
    pub target: String,
    pub message: String,
}

impl LogEntry {
    /// A field-by-field copy.
    pub fn duplicate(&self) -> (r: LogEntry)
        ensures
            r == *self,
    {
        LogEntry {
            timestamp: self.timestamp.clone(),
            level: self.level.clone(),
            target: self.target.clone(),
            message: self.message.clone(),
        }
    }
}

/// The buffer's contents after pushing `e` onto `s` with room for `cap`
/// entries: when full, the oldest entry leaves first.
pub open spec fn pushed(s: Seq<LogEntry>, cap: nat, e: LogEntry) -> Seq<LogEntry> {
    if s.len() >= cap && s.len() > 0 {
        s.subrange(1, s.len() as int).push(e)
    } else {
        s.push(e)
    }
}

/// The contents after pushing every entry of `es`, in order, onto `s`.
pub open spec fn pushed_all(s: Seq<LogEntry>, cap: nat, es: Seq<LogEntry>) -> Seq<LogEntry>
    decreases es.len(),
{
    if es.len() == 0 {
        s
    } else {
        pushed(pushed_all(s, cap, es.subrange(0, es.len() - 1)), cap, es[es.len() - 1])
    }
}

/// How many entries a buffer of capacity `cap` can hold at most (a buffer of
/// capacity 0 still keeps the latest entry).
pub open spec fn room(cap: nat) -> nat {
    if cap == 0 {
        1
    } else {
        cap
    }
}

/// Ring buffer that holds the most recent log entries.
pub struct LogRingBuffer {
    entries: VecDeque<LogEntry>,
    capacity: usize,
}

impl LogRingBuffer {
    /// The entries, oldest first.
    pub closed spec fn entries(&self) -> Seq<LogEntry> {
        self.entries@
    }

    /// The capacity the buffer was made with.
    pub closed spec fn cap(&self) -> nat {
        self.capacity as nat
    }

    /// The buffer never holds more than its room.
    pub closed spec fn wf(&self) -> bool {
        self.entries@.len() <= room(self.capacity as nat)
    }

    /// An empty buffer with the given capacity.
    pub fn new(capacity: usize) -> (b: LogRingBuffer)
        ensures
            b.wf(),
            b.entries().len() == 0,
            b.cap() == capacity,
    {
        LogRingBuffer { entries: VecDeque::new(), capacity }
    }

    /// Push a new entry, evicting the oldest one when the buffer is full.
    pub fn push(&mut self, entry: LogEntry)
        requires
            old(self).wf(),
        ensures
            final(self).wf(),
            final(self).cap() == old(self).cap(),
            final(self).entries() == pushed(old(self).entries(), old(self).cap(), entry),
    {
        let ghost s = self.entries@;
        if self.entries.len() >= self.capacity {
            let _ = self.entries.pop_front();
        }
        self.entries.push_back(entry);
        assert(self.entries@ =~= pushed(s, self.capacity as nat, entry));
    }

    /// All entries, oldest first.
    pub fn get_all(&self) -> (r: Vec<LogEntry>)
        ensures
            r@ == self.entries(),
    {
        self.get_since(0)
    }

    /// The entries from position `index` on (for incremental updates); empty
    /// when `index` is past the end.
    pub fn get_since(&self, index: usize) -> (r: Vec<LogEntry>)
        ensures
            index >= self.entries().len() ==> r@.len() == 0,
            index < self.entries().len() ==> r@ == self.entries().subrange(
                index as int,
                self.entries().len() as int,
            ),
    {
        let n = self.entries.len();
        let mut out: Vec<LogEntry> = Vec::new();
        if index >= n {
            return out;
        }
        let mut i = index;
        while i < n
            invariant
                index <= i <= n,
                n == self.entries@.len(),
                out@ == self.entries@.subrange(index as int, i as int),
            decreases n - i,
        {
            let e = self.entries[i].duplicate();
            out.push(e);
            assert(out@ =~= self.entries@.subrange(index as int, i + 1));
            i = i + 1;
        }
        out
    }

    /// How many entries the buffer holds.
    pub fn len(&self) -> (r: usize)
        ensures
            r == self.entries().len(),
    {
        self.entries.len()
    }

    /// Whether the buffer holds no entry.
    pub fn is_empty(&self) -> (r: bool)
        ensures
            r == (self.entries().len() == 0),
    {
        self.entries.len() == 0
    }

    /// Remove every entry.
    pub fn clear(&mut self)
        ensures
            final(self).wf(),
            final(self).entries().len() == 0,
            final(self).cap() == old(self).cap(),
    {
        self.entries.clear();
    }
}

impl Default for LogRingBuffer {
    fn default() -> (b: LogRingBuffer)
        ensures
            b.wf(),
            b.entries().len() == 0,
            b.cap() == DEFAULT_CAPACITY,
    {
        LogRingBuffer::new(DEFAULT_CAPACITY)
    }
}

/// A buffer filled from empty keeps exactly the most recent entries pushed:
/// the last `min(n, room)` of them, in order.
pub proof fn lemma_keeps_most_recent(cap: nat, es: Seq<LogEntry>)
    ensures
        pushed_all(seq![], cap, es) == es.subrange(
            if es.len() > room(cap) { es.len() - room(cap) } else { 0 },
            es.len() as int,
        ),
    decreases es.len(),
{
    if es.len() > 0 {
        let init = es.subrange(0, es.len() - 1);
        lemma_keeps_most_recent(cap, init);
        let p = pushed_all(seq![], cap, init);
        let lo = if init.len() > room(cap) { init.len() - room(cap) } else { 0 };
        let lo2 = if es.len() > room(cap) { es.len() - room(cap) } else { 0 };
        assert(p == es.subrange(lo, es.len() - 1));
        if p.len() >= cap && p.len() > 0 {
            assert(p.subrange(1, p.len() as int).push(es[es.len() - 1]) =~= es.subrange(
                lo2,
                es.len() as int,
            ));
        } else {
            assert(p.push(es[es.len() - 1]) =~= es.subrange(lo2, es.len() as int));
        }
    }
}

/// Pushing never grows a well-formed buffer past its room.
pub proof fn lemma_push_stays_within_room(s: Seq<LogEntry>, cap: nat, e: LogEntry)
    requires
        s.len() <= room(cap),
    ensures
        pushed(s, cap, e).len() <= room(cap),
        pushed(s, cap, e).last() == e,
{
}

} // verus!
