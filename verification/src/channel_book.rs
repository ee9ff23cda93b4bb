//! Bookkeeping for the key-addressed broadcast map.
//!
//! A key owns a bounded channel only while at least one receiver for
//! it is alive: subscribing creates or joins the key's entry, and
//! dropping the last receiver removes the entry. Sending to a key
//! nobody subscribed to drops the message; a full receiver loses its
//! oldest message and counts the lag.

use vstd::prelude::*;

verus! {

/// The invalidation token: it carries nothing, the receiver reloads
/// from storage.
#[derive(Debug, Clone, Copy, PartialEq, Eq, Structural, Default)]
pub struct Invalidate {}

/// One live receiver: its handle id, the messages waiting for it,
/// and how many it lost to the bound.
#[derive(Debug)]
pub struct BookReceiver {
    pub id: u64,
    pub queue: Vec<u64>,
    pub lagged: u64,
}

/// One key's entry: the receivers subscribed to it.
#[derive(Debug)]
pub struct BookEntry {
    pub key_hi: u128,
    pub key_lo: u128,
    pub receivers: Vec<BookReceiver>,
}

/// The bookkeeping of a key-addressed broadcast map.
#[derive(Debug)]
pub struct ChannelBook {
    pub capacity: usize,
    pub next_id: u64,
    pub entries: Vec<BookEntry>,
}

/// The book never holds an entry without receivers — the last
/// receiver's drop removes it — and never two entries for one key.
pub open spec fn book_wf(b: ChannelBook) -> bool {
    &&& forall|i: int| 0 <= i < b.entries@.len() ==> #[trigger] b.entries@[i].receivers@.len() > 0
    &&& forall|i: int, j: int|
        0 <= i < j < b.entries@.len() ==> !(#[trigger] b.entries@[i].key_hi
            == #[trigger] b.entries@[j].key_hi && b.entries@[i].key_lo == b.entries@[j].key_lo)
}

/// Whether `i` is the position of the entry for this key.
pub open spec fn is_entry_at(entries: Seq<BookEntry>, hi: u128, lo: u128, i: int) -> bool {
    &&& 0 <= i < entries.len()
    &&& entries[i].key_hi == hi && entries[i].key_lo == lo
    &&& forall|k: int|
        0 <= k < i ==> !(#[trigger] entries[k].key_hi == hi && entries[k].key_lo == lo)
}

/// Whether no entry holds this key.
pub open spec fn no_entry(entries: Seq<BookEntry>, hi: u128, lo: u128) -> bool {
    forall|k: int|
        0 <= k < entries.len() ==> !(#[trigger] entries[k].key_hi == hi && entries[k].key_lo
            == lo)
}

/// Whether `j` is the position of the receiver with this id in a
/// list.
pub open spec fn is_recv_at(rs: Seq<BookReceiver>, id: u64, j: int) -> bool {
    &&& 0 <= j < rs.len()
    &&& rs[j].id == id
    &&& forall|k: int| 0 <= k < j ==> #[trigger] rs[k].id != id
}

/// Whether no receiver in the list has this id.
pub open spec fn no_recv(rs: Seq<BookReceiver>, id: u64) -> bool {
    forall|k: int| 0 <= k < rs.len() ==> #[trigger] rs[k].id != id
}

/// Whether `(i, j)` is where the receiver with this id stands: the
/// first entry holding it, and its position there.
pub open spec fn is_located_at(entries: Seq<BookEntry>, id: u64, i: int, j: int) -> bool {
    &&& 0 <= i < entries.len()
    &&& is_recv_at(entries[i].receivers@, id, j)
    &&& forall|k: int| 0 <= k < i ==> no_recv(#[trigger] entries[k].receivers@, id)
}

/// What delivering `msg` does to one receiver: the message is
/// appended; a receiver already at `cap` loses its oldest message
/// and counts the lag.
pub open spec fn delivered_to(r0: BookReceiver, r1: BookReceiver, msg: u64, cap: int) -> bool {
    &&& r1.id == r0.id
    &&& r1.queue@ == (if r0.queue@.len() >= cap && r0.queue@.len() > 0 {
        r0.queue@.drop_first()
    } else {
        r0.queue@
    }).push(msg)
    &&& r1.lagged == (if r0.queue@.len() >= cap && r0.queue@.len() > 0 {
        (r0.lagged as nat + 1) % 0x1_0000_0000_0000_0000
    } else {
        r0.lagged as nat
    })
}

/// Whether the book holds an entry for this key.
pub open spec fn spec_contains(b: ChannelBook, hi: u128, lo: u128) -> bool {
    exists|i: int|
        0 <= i < b.entries@.len() && #[trigger] b.entries@[i].key_hi == hi && b.entries@[i].key_lo
            == lo
}

/// How many receivers the book holds for this key.
pub open spec fn receiver_count(entries: Seq<BookEntry>, hi: u128, lo: u128) -> int
    decreases entries.len(),
{
    if entries.len() == 0 {
        0
    } else {
        (if entries.last().key_hi == hi && entries.last().key_lo == lo {
            entries.last().receivers@.len() as int
        } else {
            0
        }) + receiver_count(entries.drop_last(), hi, lo)
    }
}

/// A well-formed book holds a key exactly while receivers for it
/// remain: once the last receiver for a key is dropped, the key is
/// gone.
pub proof fn lemma_contains_iff_receivers(b: ChannelBook, hi: u128, lo: u128)
    requires
        book_wf(b),
    ensures
        spec_contains(b, hi, lo) <==> receiver_count(b.entries@, hi, lo) > 0,
{
    lemma_count_nonneg(b.entries@, hi, lo);
    lemma_contains_count(b.entries@, hi, lo);
    if spec_contains(b, hi, lo) {
        let i = choose|i: int|
            0 <= i < b.entries@.len() && #[trigger] b.entries@[i].key_hi == hi
                && b.entries@[i].key_lo == lo;
        lemma_count_at_least_entry(b.entries@, hi, lo, i);
    }
}

/// Receiver counts are never negative.
proof fn lemma_count_nonneg(entries: Seq<BookEntry>, hi: u128, lo: u128)
    ensures
        receiver_count(entries, hi, lo) >= 0,
    decreases entries.len(),
{
    if entries.len() > 0 {
        lemma_count_nonneg(entries.drop_last(), hi, lo);
    }
}

/// A positive count means some entry holds the key.
proof fn lemma_contains_count(entries: Seq<BookEntry>, hi: u128, lo: u128)
    ensures
        receiver_count(entries, hi, lo) > 0 ==> exists|i: int|
            0 <= i < entries.len() && #[trigger] entries[i].key_hi == hi && entries[i].key_lo
                == lo,
    decreases entries.len(),
{
    if entries.len() > 0 {
        lemma_contains_count(entries.drop_last(), hi, lo);
        if receiver_count(entries, hi, lo) > 0 {
            if entries.last().key_hi == hi && entries.last().key_lo == lo {
                assert(entries[entries.len() - 1].key_hi == hi);
            } else {
                let i = choose|i: int|
                    0 <= i < entries.drop_last().len() && #[trigger] entries.drop_last()[i].key_hi
                        == hi && entries.drop_last()[i].key_lo == lo;
                assert(entries[i].key_hi == hi);
            }
        }
    }
}

/// An entry with the key and receivers pushes the count above zero.
proof fn lemma_count_at_least_entry(entries: Seq<BookEntry>, hi: u128, lo: u128, i: int)
    requires
        0 <= i < entries.len(),
        entries[i].key_hi == hi,
        entries[i].key_lo == lo,
        entries[i].receivers@.len() > 0,
    ensures
        receiver_count(entries, hi, lo) > 0,
    decreases entries.len(),
{
    lemma_count_nonneg(entries.drop_last(), hi, lo);
    if i == entries.len() - 1 {
    } else {
        lemma_count_at_least_entry(entries.drop_last(), hi, lo, i);
    }
}

/// Replacing one entry in place, keeping its key and at least one
/// receiver, keeps the book well-formed.
proof fn lemma_wf_update(b0: ChannelBook, b1: ChannelBook, i: int)
    requires
        book_wf(b0),
        0 <= i < b0.entries@.len(),
        b1.entries@.len() == b0.entries@.len(),
        forall|k: int|
            0 <= k < b0.entries@.len() && k != i ==> b1.entries@[k] == b0.entries@[k],
        b1.entries@[i].key_hi == b0.entries@[i].key_hi,
        b1.entries@[i].key_lo == b0.entries@[i].key_lo,
        b1.entries@[i].receivers@.len() > 0,
    ensures
        book_wf(b1),
{
    assert forall|k: int|
        0 <= k < b1.entries@.len() implies #[trigger] b1.entries@[k].receivers@.len() > 0 by {
        if k != i {
            assert(b1.entries@[k] == b0.entries@[k]);
        }
    }
    assert forall|a: int, b: int|
        0 <= a < b < b1.entries@.len() implies !(#[trigger] b1.entries@[a].key_hi
        == #[trigger] b1.entries@[b].key_hi && b1.entries@[a].key_lo == b1.entries@[b].key_lo) by {
        assert(b1.entries@[a].key_hi == b0.entries@[a].key_hi && b1.entries@[a].key_lo
            == b0.entries@[a].key_lo);
        assert(b1.entries@[b].key_hi == b0.entries@[b].key_hi && b1.entries@[b].key_lo
            == b0.entries@[b].key_lo);
    }
}

/// Removing one entry keeps the book well-formed.
proof fn lemma_wf_remove(b0: ChannelBook, b1: ChannelBook, i: int)
    requires
        book_wf(b0),
        0 <= i < b0.entries@.len(),
        b1.entries@ == b0.entries@.remove(i),
    ensures
        book_wf(b1),
{
    assert forall|k: int|
        0 <= k < b1.entries@.len() implies #[trigger] b1.entries@[k].receivers@.len() > 0 by {
        if k < i {
            assert(b1.entries@[k] == b0.entries@[k]);
        } else {
            assert(b1.entries@[k] == b0.entries@[k + 1]);
        }
    }
    assert forall|a: int, b: int|
        0 <= a < b < b1.entries@.len() implies !(#[trigger] b1.entries@[a].key_hi
        == #[trigger] b1.entries@[b].key_hi && b1.entries@[a].key_lo == b1.entries@[b].key_lo) by {
        let a0 = if a < i { a } else { a + 1 };
        let b0i = if b < i { b } else { b + 1 };
        assert(b1.entries@[a] == b0.entries@[a0]);
        assert(b1.entries@[b] == b0.entries@[b0i]);
    }
}

/// Appending an entry for a fresh key with at least one receiver
/// keeps the book well-formed.
proof fn lemma_wf_push(b0: ChannelBook, b1: ChannelBook)
    requires
        book_wf(b0),
        b1.entries@.len() == b0.entries@.len() + 1,
        forall|k: int|
            0 <= k < b0.entries@.len() ==> b1.entries@[k] == b0.entries@[k],
        no_entry(b0.entries@, b1.entries@.last().key_hi, b1.entries@.last().key_lo),
        b1.entries@.last().receivers@.len() > 0,
    ensures
        book_wf(b1),
{
    assert forall|k: int|
        0 <= k < b1.entries@.len() implies #[trigger] b1.entries@[k].receivers@.len() > 0 by {
        if k < b1.entries@.len() - 1 {
            assert(b1.entries@[k] == b0.entries@[k]);
        } else {
            assert(b1.entries@[k] == b1.entries@.last());
        }
    }
    assert forall|a: int, b: int|
        0 <= a < b < b1.entries@.len() implies !(#[trigger] b1.entries@[a].key_hi
        == #[trigger] b1.entries@[b].key_hi && b1.entries@[a].key_lo == b1.entries@[b].key_lo) by {
        if b < b1.entries@.len() - 1 {
            assert(b1.entries@[a] == b0.entries@[a]);
            assert(b1.entries@[b] == b0.entries@[b]);
        } else {
            assert(b1.entries@[a] == b0.entries@[a]);
        }
    }
}

impl ChannelBook {
    /// An empty book for channels with this capacity.
    pub fn new(capacity: usize) -> (r: ChannelBook)
        ensures
            r.capacity == capacity,
            r.entries@.len() == 0,
            book_wf(r),
    {
        ChannelBook { capacity, next_id: 0, entries: Vec::new() }
    }

    /// Whether any receiver for this key is alive.
    pub fn contains(&self, hi: u128, lo: u128) -> (r: bool)
        ensures
            r == spec_contains(*self, hi, lo),
    {
        let mut i: usize = 0;
        while i < self.entries.len()
            invariant
                i <= self.entries@.len(),
                forall|k: int|
                    0 <= k < i ==> !(#[trigger] self.entries@[k].key_hi == hi
                        && self.entries@[k].key_lo == lo),
            decreases self.entries@.len() - i,
        {
            if self.entries[i].key_hi == hi && self.entries[i].key_lo == lo {
                return true;
            }
            i = i + 1;
        }
        false
    }

    /// The position of the key's entry, if any.
    fn find_entry(&self, hi: u128, lo: u128) -> (r: Option<usize>)
        ensures
            match r {
                Some(i) => is_entry_at(self.entries@, hi, lo, i as int),
                None => no_entry(self.entries@, hi, lo),
            },
    {
        let mut i: usize = 0;
        while i < self.entries.len()
            invariant
                i <= self.entries@.len(),
                forall|k: int|
                    0 <= k < i ==> !(#[trigger] self.entries@[k].key_hi == hi
                        && self.entries@[k].key_lo == lo),
            decreases self.entries@.len() - i,
        {
            if self.entries[i].key_hi == hi && self.entries[i].key_lo == lo {
                return Some(i);
            }
            i = i + 1;
        }
        None
    }

    /// The position of the receiver with this id in a list, if any.
    fn find_receiver(receivers: &Vec<BookReceiver>, id: u64) -> (r: Option<usize>)
        ensures
            match r {
                Some(j) => is_recv_at(receivers@, id, j as int),
                None => no_recv(receivers@, id),
            },
    {
        let mut j: usize = 0;
        while j < receivers.len()
            invariant
                j <= receivers@.len(),
                forall|k: int| 0 <= k < j ==> #[trigger] receivers@[k].id != id,
            decreases receivers@.len() - j,
        {
            if receivers[j].id == id {
                return Some(j);
            }
            j = j + 1;
        }
        None
    }

    /// Subscribe to a key: join its entry, or create one. The
    /// returned id identifies the new receiver, which starts with an
    /// empty queue.
    pub fn subscribe(&mut self, hi: u128, lo: u128) -> (r: u64)
        requires
            book_wf(*old(self)),
        ensures
            book_wf(*final(self)),
            spec_contains(*final(self), hi, lo),
            final(self).capacity == old(self).capacity,
            r == old(self).next_id,
            match old(self).entries@.len() {
                _ => {
                    if no_entry(old(self).entries@, hi, lo) {
                        &&& final(self).entries@.len() == old(self).entries@.len() + 1
                        &&& forall|k: int|
                            0 <= k < old(self).entries@.len() ==> final(self).entries@[k] == old(self).entries@[k]
                        &&& final(self).entries@.last().key_hi == hi
                        &&& final(self).entries@.last().key_lo == lo
                        &&& final(self).entries@.last().receivers@.len() == 1
                        &&& final(self).entries@.last().receivers@[0].id == r
                        &&& final(self).entries@.last().receivers@[0].queue@.len() == 0
                    } else {
                        forall|i: int|
                            is_entry_at(old(self).entries@, hi, lo, i) ==> {
                                &&& final(self).entries@.len() == old(self).entries@.len()
                                &&& (forall|k: int|
                                    0 <= k < old(self).entries@.len() && k != i ==> final(self).entries@[k] == old(self).entries@[k])
                                &&& final(self).entries@[i].key_hi == hi
                                &&& final(self).entries@[i].key_lo == lo
                                &&& final(self).entries@[i].receivers@ == old(self).entries@[i].receivers@.push(
                                    final(self).entries@[i].receivers@.last(),
                                )
                                &&& final(self).entries@[i].receivers@.last().id == r
                                &&& final(self).entries@[i].receivers@.last().queue@.len() == 0
                            }
                    }
                },
            },
    {
        let id = self.next_id;
        self.next_id = self.next_id.wrapping_add(1);
        match self.find_entry(hi, lo) {
            Some(i) => {
                let ghost before = self.entries@;
                let mut entry = self.entries.remove(i);
                entry.receivers.push(BookReceiver { id, queue: Vec::new(), lagged: 0 });
                self.entries.insert(i, entry);
                proof {
                    assert(self.entries@ =~= before.update(
                        i as int,
                        self.entries@[i as int],
                    ));
                    assert(self.entries@[i as int].key_hi == hi);
                    lemma_wf_update(*old(self), *self, i as int);
                }
            },
            None => {
                let mut receivers: Vec<BookReceiver> = Vec::new();
                receivers.push(BookReceiver { id, queue: Vec::new(), lagged: 0 });
                self.entries.push(BookEntry { key_hi: hi, key_lo: lo, receivers });
                proof {
                    assert(self.entries@[self.entries@.len() - 1].key_hi == hi);
                    lemma_wf_push(*old(self), *self);
                }
            },
        }
        id
    }

    /// Deliver a message to every receiver of a key; with no entry
    /// for the key the book is untouched and the message dropped. A
    /// receiver already at capacity loses its oldest message and
    /// counts the lag.
    pub fn send(&mut self, hi: u128, lo: u128, msg: u64)
        requires
            book_wf(*old(self)),
        ensures
            book_wf(*final(self)),
            final(self).capacity == old(self).capacity,
            no_entry(old(self).entries@, hi, lo) ==> final(self).entries@ == old(self).entries@,
            forall|i: int|
                is_entry_at(old(self).entries@, hi, lo, i) ==> {
                    &&& final(self).entries@.len() == old(self).entries@.len()
                    &&& (forall|k: int|
                        0 <= k < old(self).entries@.len() && k != i ==> final(self).entries@[k]
                            == old(self).entries@[k])
                    &&& final(self).entries@[i].key_hi == hi
                    &&& final(self).entries@[i].key_lo == lo
                    &&& final(self).entries@[i].receivers@.len() == old(self).entries@[i].receivers@.len()
                    &&& (forall|j: int|
                        0 <= j < old(self).entries@[i].receivers@.len() ==> delivered_to(
                            old(self).entries@[i].receivers@[j],
                            #[trigger] final(self).entries@[i].receivers@[j],
                            msg,
                            old(self).capacity as int,
                        ))
                },
    {
        match self.find_entry(hi, lo) {
            None => {},
            Some(i) => {
                let ghost before = self.entries@;
                let entry = self.entries.remove(i);
                let mut receivers = entry.receivers;
                let ghost orig = receivers@;
                let mut delivered: Vec<BookReceiver> = Vec::new();
                proof {
                    assert(receivers@ =~= orig.skip(0));
                }
                while receivers.len() > 0
                    invariant
                        delivered@.len() + receivers@.len() == orig.len(),
                        receivers@ =~= orig.skip(delivered@.len() as int),
                        self.capacity == old(self).capacity,
                        forall|j: int|
                            0 <= j < delivered@.len() ==> delivered_to(
                                orig[j],
                                #[trigger] delivered@[j],
                                msg,
                                self.capacity as int,
                            ),
                    decreases receivers@.len(),
                {
                    let ghost done = delivered@.len() as int;
                    proof {
                        assert(orig.skip(done).first() == orig[done]);
                        assert(orig.skip(done).drop_first() =~= orig.skip(done + 1));
                    }
                    let mut rec = receivers.remove(0);
                    if rec.queue.len() >= self.capacity && rec.queue.len() > 0 {
                        let _ = rec.queue.remove(0);
                        rec.lagged = rec.lagged.wrapping_add(1);
                    }
                    rec.queue.push(msg);
                    delivered.push(rec);
                }
                proof {
                    assert(orig.skip(orig.len() as int).len() == 0);
                }
                self.entries.insert(
                    0,
                    BookEntry { key_hi: entry.key_hi, key_lo: entry.key_lo, receivers: delivered },
                );
                let moved = self.entries.remove(0);
                self.entries.insert(i, moved);
                proof {
                    assert(self.entries@ =~= before.update(i as int, self.entries@[i as int]));
                    lemma_wf_update(*old(self), *self, i as int);
                }
            },
        }
    }

    /// Take the oldest waiting message of the receiver with this id,
    /// if it exists and has one; nothing else changes.
    pub fn try_recv(&mut self, id: u64) -> (r: Option<u64>)
        requires
            book_wf(*old(self)),
        ensures
            book_wf(*final(self)),
            final(self).capacity == old(self).capacity,
            (forall|k: int|
                0 <= k < old(self).entries@.len() ==> no_recv(
                    #[trigger] old(self).entries@[k].receivers@,
                    id,
                )) ==> final(self).entries@ == old(self).entries@ && r is None,
            forall|i: int, j: int|
                is_located_at(old(self).entries@, id, i, j) ==> {
                    let q = old(self).entries@[i].receivers@[j].queue@;
                    &&& (r == if q.len() > 0 {
                        Some(q.first())
                    } else {
                        None::<u64>
                    })
                    &&& final(self).entries@.len() == old(self).entries@.len()
                    &&& (forall|k: int|
                        0 <= k < old(self).entries@.len() && k != i ==> final(self).entries@[k]
                            == old(self).entries@[k])
                    &&& final(self).entries@[i].key_hi == old(self).entries@[i].key_hi
                    &&& final(self).entries@[i].key_lo == old(self).entries@[i].key_lo
                    &&& final(self).entries@[i].receivers@.len() == old(self).entries@[i].receivers@.len()
                    &&& (forall|k: int|
                        0 <= k < old(self).entries@[i].receivers@.len() && k != j ==> final(self).entries@[i].receivers@[k] == old(self).entries@[i].receivers@[k])
                    &&& final(self).entries@[i].receivers@[j].id == id
                    &&& final(self).entries@[i].receivers@[j].queue@ == (if q.len() > 0 {
                        q.drop_first()
                    } else {
                        q
                    })
                },
    {
        let mut i: usize = 0;
        while i < self.entries.len()
            invariant
                i <= self.entries@.len(),
                *self == *old(self),
                book_wf(*self),
                forall|k: int|
                    0 <= k < i ==> no_recv(#[trigger] self.entries@[k].receivers@, id),
            decreases self.entries@.len() - i,
        {
            match Self::find_receiver(&self.entries[i].receivers, id) {
                Some(j) => {
                    let ghost before = self.entries@;
                    let mut entry = self.entries.remove(i);
                    let ghost recs_before = entry.receivers@;
                    let mut rec = entry.receivers.remove(j);
                    let out = if rec.queue.len() > 0 {
                        Some(rec.queue.remove(0))
                    } else {
                        None
                    };
                    entry.receivers.insert(j, rec);
                    proof {
                        assert(entry.receivers@ =~= recs_before.update(
                            j as int,
                            entry.receivers@[j as int],
                        ));
                    }
                    self.entries.insert(i, entry);
                    proof {
                        assert(self.entries@ =~= before.update(
                            i as int,
                            self.entries@[i as int],
                        ));
                        lemma_wf_update(*old(self), *self, i as int);
                    }
                    return out;
                },
                None => {},
            }
            i = i + 1;
        }
        None
    }

    /// Drop the receiver with this id; the last receiver of a key
    /// takes the key's entry with it, so the key stays contained
    /// exactly while other receivers for it remain.
    pub fn drop_receiver(&mut self, id: u64)
        requires
            book_wf(*old(self)),
        ensures
            book_wf(*final(self)),
            final(self).capacity == old(self).capacity,
            (forall|k: int|
                0 <= k < old(self).entries@.len() ==> no_recv(
                    #[trigger] old(self).entries@[k].receivers@,
                    id,
                )) ==> final(self).entries@ == old(self).entries@,
            forall|i: int, j: int|
                is_located_at(old(self).entries@, id, i, j) ==> {
                    let e = old(self).entries@[i];
                    if e.receivers@.len() == 1 {
                        &&& final(self).entries@ == old(self).entries@.remove(i)
                        &&& !spec_contains(*final(self), e.key_hi, e.key_lo)
                    } else {
                        &&& final(self).entries@.len() == old(self).entries@.len()
                        &&& (forall|k: int|
                            0 <= k < old(self).entries@.len() && k != i ==> final(self).entries@[k] == old(self).entries@[k])
                        &&& final(self).entries@[i].key_hi == e.key_hi
                        &&& final(self).entries@[i].key_lo == e.key_lo
                        &&& final(self).entries@[i].receivers@ == e.receivers@.remove(j)
                        &&& spec_contains(*final(self), e.key_hi, e.key_lo)
                    }
                },
    {
        let mut i: usize = 0;
        while i < self.entries.len()
            invariant
                i <= self.entries@.len(),
                *self == *old(self),
                book_wf(*self),
                forall|k: int|
                    0 <= k < i ==> no_recv(#[trigger] self.entries@[k].receivers@, id),
            decreases self.entries@.len() - i,
        {
            match Self::find_receiver(&self.entries[i].receivers, id) {
                Some(j) => {
                    let ghost before = self.entries@;
                    let mut entry = self.entries.remove(i);
                    let _ = entry.receivers.remove(j);
                    if entry.receivers.len() > 0 {
                        self.entries.insert(i, entry);
                        proof {
                            assert(self.entries@ =~= before.update(
                                i as int,
                                self.entries@[i as int],
                            ));
                            assert(self.entries@[i as int].key_hi == before[i as int].key_hi);
                            lemma_wf_update(*old(self), *self, i as int);
                        }
                    } else {
                        proof {
                            assert(self.entries@ =~= before.remove(i as int));
                            lemma_wf_remove(*old(self), *self, i as int);
                            assert forall|k: int|
                                0 <= k < self.entries@.len() implies !(
                            #[trigger] self.entries@[k].key_hi == before[i as int].key_hi
                                && self.entries@[k].key_lo == before[i as int].key_lo) by {
                                if k < i {
                                    assert(self.entries@[k] == before[k]);
                                } else {
                                    assert(self.entries@[k] == before[k + 1]);
                                }
                            }
                        }
                    }
                    return ;
                },
                None => {},
            }
            i = i + 1;
        }
    }
}

} // verus!
