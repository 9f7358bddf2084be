//! The per-execution cache log: first-read / last-write semantics.
//!
//! For every key touched during one execution the log records (a) the first
//! value observed by a read through to the backing store, and (b) the most
//! recent value written, where a recorded absence stands for deletion. Once a
//! key has been read or written, the backing store is never queried again for
//! it in the same execution, and a written value is what later reads see
//! (read-your-writes). Entries are kept in first-touch order, so the log's
//! contents — including the order of its reads and writes — are a
//! deterministic function of the operations performed.

use vstd::prelude::*;

verus! {

/// A key as the cache stores it: the full storage key bytes.
#[derive(Debug, PartialEq, Eq)]
pub struct CacheKey {
    pub key: Vec<u8>,
}

impl CacheKey {
    pub open spec fn view(&self) -> Seq<u8> {
        self.key@
    }

    pub fn new(key: Vec<u8>) -> (r: CacheKey)
        ensures
            r@ == key@,
    {
        CacheKey { key }
    }

    pub fn duplicate(&self) -> (r: CacheKey)
        ensures
            r@ == self@,
    {
        CacheKey { key: self.key.clone() }
    }
}

/// A value as the cache stores it: the full storage value bytes.
#[derive(Debug, PartialEq, Eq)]
pub struct CacheValue {
    pub value: Vec<u8>,
}

impl CacheValue {
    pub open spec fn view(&self) -> Seq<u8> {
        self.value@
    }

    pub fn new(value: Vec<u8>) -> (r: CacheValue)
        ensures
            r@ == value@,
    {
        CacheValue { value }
    }

    pub fn duplicate(&self) -> (r: CacheValue)
        ensures
            r@ == self@,
    {
        CacheValue { value: self.value.clone() }
    }
}

/// The bytes of an optional value, where `None` stands for absence/deletion.
pub open spec fn opt_value_model(v: Option<CacheValue>) -> Option<Seq<u8>> {
    match v {
        Some(cv) => Some(cv@),
        None => None,
    }
}

pub fn duplicate_opt_value(v: &Option<CacheValue>) -> (r: Option<CacheValue>)
    ensures
        opt_value_model(r) == opt_value_model(*v),
{
    match v {
        Some(cv) => Some(cv.duplicate()),
        None => None,
    }
}

/// One key's record: the first read observed and the last write performed.
#[derive(Debug, PartialEq, Eq)]
pub struct CacheEntry {
    /// `None` if the key was never read through to the backing store;
    /// otherwise the value (or absence) the backing store returned first.
    pub first_read: Option<Option<CacheValue>>,
    /// `None` if the key was never written in this execution; otherwise the
    /// latest written value, with `Some(None)` standing for deletion.
    pub last_write: Option<Option<CacheValue>>,
}

/// The mathematical model of one entry.
pub struct CacheEntryModel {
    pub first_read: Option<Option<Seq<u8>>>,
    pub last_write: Option<Option<Seq<u8>>>,
}

pub open spec fn entry_model(e: CacheEntry) -> CacheEntryModel {
    CacheEntryModel {
        first_read: match e.first_read {
            Some(v) => Some(opt_value_model(v)),
            None => None,
        },
        last_write: match e.last_write {
            Some(v) => Some(opt_value_model(v)),
            None => None,
        },
    }
}

/// The model of a whole log: entries in first-touch order.
pub type CacheLogModel = Seq<(Seq<u8>, CacheEntryModel)>;

pub open spec fn has_key(log: CacheLogModel, k: Seq<u8>) -> bool {
    exists|i: int| 0 <= i < log.len() && log[i].0 == k
}

pub open spec fn index_of(log: CacheLogModel, k: Seq<u8>) -> int {
    choose|i: int| 0 <= i < log.len() && log[i].0 == k
}

/// The value visible to a read of `k`: the last write if any, else the first
/// read if any, else nothing is cached.
pub open spec fn visible(log: CacheLogModel, k: Seq<u8>) -> Option<Option<Seq<u8>>> {
    if has_key(log, k) {
        let e = log[index_of(log, k)].1;
        match e.last_write {
            Some(w) => Some(w),
            None => e.first_read,
        }
    } else {
        None
    }
}

/// Well-formedness: keys are unique and every entry records something.
pub open spec fn log_wf(log: CacheLogModel) -> bool {
    &&& forall|i: int, j: int|
        0 <= i < log.len() && 0 <= j < log.len() && i != j ==> log[i].0 != log[j].0
    &&& forall|i: int|
        0 <= i < log.len() ==> (#[trigger] log[i].1).first_read is Some || log[i].1.last_write
            is Some
}

/// The (key, first-read) pairs of a log, in first-touch order.
pub open spec fn reads_model(log: CacheLogModel) -> Seq<(Seq<u8>, Option<Seq<u8>>)>
    decreases log.len(),
{
    if log.len() == 0 {
        Seq::empty()
    } else {
        let rest = reads_model(log.drop_last());
        match log.last().1.first_read {
            Some(fr) => rest.push((log.last().0, fr)),
            None => rest,
        }
    }
}

/// The (key, last-write) pairs of a log, in first-touch order.
pub open spec fn writes_model(log: CacheLogModel) -> Seq<(Seq<u8>, Option<Seq<u8>>)>
    decreases log.len(),
{
    if log.len() == 0 {
        Seq::empty()
    } else {
        let rest = writes_model(log.drop_last());
        match log.last().1.last_write {
            Some(w) => rest.push((log.last().0, w)),
            None => rest,
        }
    }
}

/// Whether a key is already cached, and with which visible value.
#[derive(Debug, PartialEq, Eq)]
pub enum ValueExists {
    Yes(Option<CacheValue>),
    No,
}

pub open spec fn value_exists_model(r: ValueExists) -> Option<Option<Seq<u8>>> {
    match r {
        ValueExists::Yes(v) => Some(opt_value_model(v)),
        ValueExists::No => None,
    }
}

/// The buffered record of one execution's reads and writes.
#[derive(Debug, PartialEq, Eq)]
pub struct CacheLog {
    entries: Vec<(CacheKey, CacheEntry)>,
}

impl CacheLog {
    pub closed spec fn view(&self) -> CacheLogModel {
        Seq::new(
            self.entries@.len(),
            |i: int| (self.entries@[i].0@, entry_model(self.entries@[i].1)),
        )
    }

    pub open spec fn wf(&self) -> bool {
        log_wf(self@)
    }

    pub fn new() -> (r: CacheLog)
        ensures
            r@ =~= Seq::<(Seq<u8>, CacheEntryModel)>::empty(),
            r.wf(),
    {
        CacheLog { entries: Vec::new() }
    }

    /// Looks a key up in the cache; `No` means the backing store must be
    /// consulted, `Yes(v)` that `v` (possibly an absence) is the visible value.
    pub fn get_value(&self, key: &CacheKey) -> (r: ValueExists)
        requires
            self.wf(),
        ensures
            value_exists_model(r) == visible(self@, key@),
    {
        let n = self.entries.len();
        let mut i: usize = 0;
        while i < n
            invariant
                n == self.entries@.len(),
                i <= n,
                self.wf(),
                forall|j: int| 0 <= j < i ==> self@[j].0 != key@,
            decreases n - i,
        {
            if vec_eq(&self.entries[i].0.key, &key.key) {
                proof {
                    assert(self@[i as int].0 == key@);
                    assert(has_key(self@, key@));
                    let w = index_of(self@, key@);
                    assert(self@[w].0 == key@);
                    assert(w == i as int);
                }
                let entry = &self.entries[i].1;
                match &entry.last_write {
                    Some(w) => {
                        return ValueExists::Yes(duplicate_opt_value(w));
                    },
                    None => {
                        match &entry.first_read {
                            Some(fr) => {
                                return ValueExists::Yes(duplicate_opt_value(fr));
                            },
                            None => {
                                proof {
                                    let e = self@[i as int].1;
                                    assert(e.first_read is Some || e.last_write is Some);
                                    assert(false);
                                }
                                return ValueExists::No;
                            },
                        }
                    },
                }
            }
            i = i + 1;
        }
        proof {
            assert(!has_key(self@, key@));
        }
        ValueExists::No
    }

    /// Records the first value a read observed for an uncached key.
    pub fn add_read(&mut self, key: CacheKey, value: Option<CacheValue>)
        requires
            old(self).wf(),
            !has_key(old(self)@, key@),
        ensures
            final(self).wf(),
            final(self)@ =~= old(self)@.push(
                (
                    key@,
                    CacheEntryModel {
                        first_read: Some(opt_value_model(value)),
                        last_write: None,
                    },
                ),
            ),
    {
        let entry = CacheEntry { first_read: Some(value), last_write: None };
        self.entries.push((key, entry));
    }

    /// Records a write: the key's latest write becomes `value` (with `None`
    /// standing for deletion), and any recorded first read is undisturbed.
    pub fn add_write(&mut self, key: CacheKey, value: Option<CacheValue>)
        requires
            old(self).wf(),
        ensures
            final(self).wf(),
            !has_key(old(self)@, key@) ==> final(self)@ =~= old(self)@.push(
                (
                    key@,
                    CacheEntryModel {
                        first_read: None,
                        last_write: Some(opt_value_model(value)),
                    },
                ),
            ),
            has_key(old(self)@, key@) ==> ({
                let i = index_of(old(self)@, key@);
                final(self)@ =~= old(self)@.update(
                    i,
                    (
                        key@,
                        CacheEntryModel {
                            first_read: old(self)@[i].1.first_read,
                            last_write: Some(opt_value_model(value)),
                        },
                    ),
                )
            }),
    {
        let n = self.entries.len();
        let mut i: usize = 0;
        while i < n
            invariant
                n == self.entries@.len(),
                i <= n,
                self.wf(),
                self == old(self),
                forall|j: int| 0 <= j < i ==> self@[j].0 != key@,
            decreases n - i,
        {
            if vec_eq(&self.entries[i].0.key, &key.key) {
                proof {
                    assert(self@[i as int].0 == key@);
                    assert(has_key(self@, key@));
                    let w = index_of(self@, key@);
                    assert(self@[w].0 == key@);
                    assert(w == i as int);
                }
                let slot = &mut self.entries[i];
                slot.1.last_write = Some(value);
                proof {
                    let m = old(self)@;
                    let iw = index_of(m, key@);
                    assert(self@ =~= m.update(
                        iw,
                        (
                            key@,
                            CacheEntryModel {
                                first_read: m[iw].1.first_read,
                                last_write: Some(opt_value_model(value)),
                            },
                        ),
                    ));
                    assert forall|a: int, b: int|
                        0 <= a < self@.len() && 0 <= b < self@.len() && a != b implies self@[a].0
                        != self@[b].0 by {
                        assert(self@[a].0 == m[a].0 && self@[b].0 == m[b].0);
                    }
                    assert forall|a: int| 0 <= a < self@.len() implies (#[trigger] self@[a].1).first_read
                        is Some || self@[a].1.last_write is Some by {
                        if a != iw {
                            assert(self@[a].1 == m[a].1);
                        }
                    }
                }
                return ;
            }
            i = i + 1;
        }
        proof {
            assert(!has_key(self@, key@));
        }
        let entry = CacheEntry { first_read: None, last_write: Some(value) };
        self.entries.push((key, entry));
        proof {
            let m = old(self)@;
            let pushed = (
                key@,
                CacheEntryModel { first_read: None, last_write: Some(opt_value_model(value)) },
            );
            assert(self@ =~= m.push(pushed));
            assert forall|a: int, b: int|
                0 <= a < self@.len() && 0 <= b < self@.len() && a != b implies self@[a].0
                != self@[b].0 by {
                if a < m.len() && b < m.len() {
                } else if a < m.len() {
                    if m[a].0 == key@ {
                        assert(has_key(m, key@));
                    }
                } else if b < m.len() {
                    if m[b].0 == key@ {
                        assert(has_key(m, key@));
                    }
                }
            }
            assert forall|a: int| 0 <= a < self@.len() implies (#[trigger] self@[a].1).first_read
                is Some || self@[a].1.last_write is Some by {
                if a < m.len() {
                    assert(self@[a].1 == m[a].1);
                }
            }
        }
    }

    /// Splits a finished log into its (key, first-read) pairs and its
    /// (key, last-write) pairs, both in first-touch order.
    pub fn split(self) -> (r: (Vec<(CacheKey, Option<CacheValue>)>, Vec<(CacheKey, Option<CacheValue>)>))
        requires
            self.wf(),
        ensures
            pairs_model(r.0@) =~= reads_model(self@),
            pairs_model(r.1@) =~= writes_model(self@),
    {
        let mut reads: Vec<(CacheKey, Option<CacheValue>)> = Vec::new();
        let mut writes: Vec<(CacheKey, Option<CacheValue>)> = Vec::new();
        let n = self.entries.len();
        let mut i: usize = 0;
        while i < n
            invariant
                n == self.entries@.len(),
                i <= n,
                pairs_model(reads@) =~= reads_model(self@.take(i as int)),
                pairs_model(writes@) =~= writes_model(self@.take(i as int)),
            decreases n - i,
        {
            proof {
                assert(self@.take(i + 1).drop_last() =~= self@.take(i as int));
                assert(self@.take(i + 1).last() == self@[i as int]);
            }
            let pair = &self.entries[i];
            match &pair.1.first_read {
                Some(fr) => {
                    reads.push((pair.0.duplicate(), duplicate_opt_value(fr)));
                },
                None => {},
            }
            match &pair.1.last_write {
                Some(w) => {
                    writes.push((pair.0.duplicate(), duplicate_opt_value(w)));
                },
                None => {},
            }
            i = i + 1;
        }
        proof {
            assert(self@.take(n as int) =~= self@);
        }
        (reads, writes)
    }
}

/// The model of a split-out list of (key, optional value) pairs.
pub open spec fn pairs_model(pairs: Seq<(CacheKey, Option<CacheValue>)>) -> Seq<
    (Seq<u8>, Option<Seq<u8>>),
> {
    Seq::new(pairs.len(), |i: int| (pairs[i].0@, opt_value_model(pairs[i].1)))
}

/// Byte-wise equality of two vectors.
pub fn vec_eq(a: &Vec<u8>, b: &Vec<u8>) -> (r: bool)
    ensures
        r == (a@ == b@),
{
    if a.len() != b.len() {
        return false;
    }
    let n = a.len();
    let mut i: usize = 0;
    while i < n
        invariant
            n == a@.len() == b@.len(),
            i <= n,
            forall|j: int| 0 <= j < i ==> a@[j] == b@[j],
        decreases n - i,
    {
        if a[i] != b[i] {
            return false;
        }
        i = i + 1;
    }
    proof {
        assert(a@ =~= b@);
    }
    true
}

} // verus!
