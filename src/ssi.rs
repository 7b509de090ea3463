//! Serializable snapshot isolation as a state machine: transactions read
//! from snapshots, take write locks, keep read (SIREAD) locks past commit,
//! and abort when a dangerous structure of conflicts could form.

use std::collections::{BTreeMap, BTreeSet};
use vstd::prelude::*;

verus! {

broadcast use vstd::std_specs::btree::group_btree_axioms;

/// Transaction identifier.
pub type TxnId = u8;

/// Key identifier.
pub type KeyId = u8;

/// Logical time: a position in the history.
pub type Timestamp = u64;

/// Transaction status.
#[derive(Debug, Clone, Copy, PartialEq, Eq, Hash, PartialOrd, Ord, Structural)]
pub enum TxnStatus {
    NotStarted,
    Active,
    Committed,
    Aborted,
}

/// Why a transaction aborted.
#[derive(Debug, Clone, Copy, PartialEq, Eq, Hash, PartialOrd, Ord, Structural)]
pub enum AbortReason {
    Voluntary,
    ReadConflict,
    WriteConflict,
    DangerousStructure,
}

/// An entry of the history.
#[derive(Debug, Clone, Copy, PartialEq, Eq, Hash, PartialOrd, Ord, Structural)]
pub enum Operation {
    Begin { txn: TxnId },
    Read { txn: TxnId, key: KeyId, version: Option<TxnId> },
    Write { txn: TxnId, key: KeyId },
    Commit { txn: TxnId },
    Abort { txn: TxnId, reason: AbortReason },
}

/// A step of the machine.
#[derive(Debug, Clone, Copy, PartialEq, Eq, Hash, PartialOrd, Ord, Structural)]
pub enum SsiAction {
    Begin(TxnId),
    Read(TxnId, KeyId),
    Write(TxnId, KeyId),
    Commit(TxnId),
    Abort(TxnId),
}

/// State of the machine.
#[derive(Debug, Clone, PartialEq, Eq, Hash)]
pub struct SsiState {
    /// Every operation, in order.
    pub history: Vec<Operation>,
    /// Status of each transaction.
    pub txn_status: BTreeMap<TxnId, TxnStatus>,
    /// Snapshot time (begin time) of each transaction.
    pub txn_snapshot: BTreeMap<TxnId, Timestamp>,
    /// Exclusive write lock of each key.
    pub write_locks: BTreeMap<KeyId, Option<TxnId>>,
    /// Readers of each key; kept after commit.
    pub siread_locks: BTreeMap<KeyId, BTreeSet<TxnId>>,
    /// Incoming read-write conflict flag of each transaction.
    pub in_conflict: BTreeMap<TxnId, bool>,
    /// Outgoing read-write conflict flag of each transaction.
    pub out_conflict: BTreeMap<TxnId, bool>,
}

/// The readers of each key, as sets.
pub open spec fn siread_view(m: BTreeMap<KeyId, BTreeSet<TxnId>>) -> Map<KeyId, Set<TxnId>> {
    Map::new(|k: KeyId| m@.contains_key(k), |k: KeyId| m@[k]@)
}

/// Transaction `t` has status `st`.
pub open spec fn has_status(s: SsiState, t: TxnId, st: TxnStatus) -> bool {
    s.txn_status@.contains_key(t) && s.txn_status@[t] == st
}

/// A flag of `m`, false when absent.
pub open spec fn flag(m: Map<TxnId, bool>, t: TxnId) -> bool {
    m.contains_key(t) && m[t]
}

/// The snapshot time of `t`, zero when absent.
pub open spec fn snapshot_of(s: SsiState, t: TxnId) -> Timestamp {
    if s.txn_snapshot@.contains_key(t) { s.txn_snapshot@[t] } else { 0 }
}

/// Both conflict flags of `t` are set.
pub open spec fn dangerous(s: SsiState, t: TxnId) -> bool {
    flag(s.in_conflict@, t) && flag(s.out_conflict@, t)
}

/// The keys of `m`, each once.
fn keys_of<V>(m: &BTreeMap<u8, V>) -> (r: Vec<u8>)
    ensures
        forall|k: u8| m@.contains_key(k) <==> r@.contains(k),
{
    let mut v: Vec<u8> = Vec::new();
    for kv in iter: m.iter()
        invariant
            v@.len() == iter.index(),
            forall|j: int| 0 <= j < v@.len() ==> v@[j] == *iter.seq()[j].0,
            forall|j: int| 0 <= j < iter.seq().len() ==> m@.contains_key(*(#[trigger] iter.seq()[j]).0),
            forall|k: u8| #[trigger] m@.contains_key(k) ==> iter.seq().contains((&k, &m@[k])),
            forall|j: int| 0 <= j < v@.len() ==> m@.contains_key(#[trigger] v@[j]),
            iter.index() == iter.seq().len() ==> forall|k: u8| #[trigger]
                m@.contains_key(k) ==> v@.contains(k),
    {
        let (k, _) = kv;
        v.push(*k);
        proof {
            assert forall|q: u8| #[trigger] m@.contains_key(q) && iter.index() + 1 == iter.seq().len() implies v@.contains(q) by {
                let i = choose|i: int| 0 <= i < iter.seq().len() && iter.seq()[i] == (&q, &m@[q]);
                assert(v@[i] == q);
            }
        }
    }
    proof {
        assert forall|k: u8| v@.contains(k) implies m@.contains_key(k) by {
            let j = choose|j: int| 0 <= j < v@.len() && #[trigger] v@[j] == k;
        }
    }
    v
}

/// The elements of `s`.
fn set_elements_u8(s: &BTreeSet<u8>) -> (r: Vec<u8>)
    ensures
        r@.to_set() == s@,
{
    let mut v: Vec<u8> = Vec::new();
    for x in iter: s.iter()
        invariant
            v@ == iter.seq().unref().take(iter.index() as int),
            iter.seq().unref().to_set() == s@,
            iter.seq().unref().take(iter.seq().len() as int) =~= iter.seq().unref(),
            iter.index() == iter.seq().len() ==> v@ == iter.seq().unref(),
    {
        v.push(*x);
    }
    v
}

fn status_of(m: &BTreeMap<TxnId, TxnStatus>, t: TxnId) -> (r: Option<TxnStatus>)
    ensures
        r == if m@.contains_key(t) { Some(m@[t]) } else { None },
{
    match m.get(&t) {
        Some(s) => Some(*s),
        None => None,
    }
}

fn flag_of(m: &BTreeMap<TxnId, bool>, t: TxnId) -> (r: bool)
    ensures
        r == flag(m@, t),
{
    match m.get(&t) {
        Some(b) => *b,
        None => false,
    }
}

fn lock_of(m: &BTreeMap<KeyId, Option<TxnId>>, k: KeyId) -> (r: Option<TxnId>)
    ensures
        r == if m@.contains_key(k) { m@[k] } else { None },
{
    match m.get(&k) {
        Some(l) => *l,
        None => None,
    }
}

/// The transaction of the last write of `key`, by a committed transaction,
/// among the first `n` history entries.
pub open spec fn latest_write(s: SsiState, key: KeyId, n: int) -> Option<TxnId>
    decreases n,
{
    if n <= 0 || n > s.history@.len() {
        None
    } else {
        match s.history@[n - 1] {
            Operation::Write { txn, key: k } => if k == key && has_status(s, txn, TxnStatus::Committed) {
                Some(txn)
            } else {
                latest_write(s, key, n - 1)
            },
            _ => latest_write(s, key, n - 1),
        }
    }
}

/// Transactions, other than `exclude`, active or committed, that wrote
/// `key` after time `after_ts`.
pub open spec fn newer_writers_of(s: SsiState, key: KeyId, after_ts: Timestamp, exclude: TxnId) -> Set<TxnId> {
    Set::new(
        |t: TxnId|
            t != exclude && (has_status(s, t, TxnStatus::Active) || has_status(s, t, TxnStatus::Committed))
                && exists|i: int|
                after_ts < i < s.history@.len() && #[trigger] s.history@[i] == (Operation::Write { txn: t, key }),
    )
}

/// `holder` committed after time `start`.
pub open spec fn committed_after(s: SsiState, holder: TxnId, start: Timestamp) -> bool {
    exists|i: int| start < i < s.history@.len() && #[trigger] s.history@[i] == (Operation::Commit { txn: holder })
}

/// Readers of `key`, other than `txn`, that are active or committed after
/// `txn` began.
pub open spec fn concurrent_readers(s: SsiState, txn: TxnId, key: KeyId) -> Set<TxnId> {
    let holders = if s.siread_locks@.contains_key(key) { s.siread_locks@[key]@ } else { Set::empty() };
    Set::new(
        |h: TxnId|
            holders.contains(h) && h != txn && (has_status(s, h, TxnStatus::Active) || (has_status(
                s,
                h,
                TxnStatus::Committed,
            ) && committed_after(s, h, snapshot_of(s, txn)))),
    )
}

impl SsiState {
    /// The initial state over transactions `txns` and keys `keys`: nothing
    /// started, no locks, no conflicts.
    pub fn new(txns: &[TxnId], keys: &[KeyId]) -> (r: Self)
        ensures
            r.history@.len() == 0,
            r.txn_status@ == Map::new(|t: TxnId| txns@.contains(t), |t: TxnId| TxnStatus::NotStarted),
            r.txn_snapshot@ == Map::new(|t: TxnId| txns@.contains(t), |t: TxnId| 0u64),
            r.write_locks@ == Map::new(|k: KeyId| keys@.contains(k), |k: KeyId| None::<TxnId>),
            siread_view(r.siread_locks) == Map::new(|k: KeyId| keys@.contains(k), |k: KeyId| Set::<TxnId>::empty()),
            r.in_conflict@ == Map::new(|t: TxnId| txns@.contains(t), |t: TxnId| false),
            r.out_conflict@ == Map::new(|t: TxnId| txns@.contains(t), |t: TxnId| false),
    {
        let mut txn_status: BTreeMap<TxnId, TxnStatus> = BTreeMap::new();
        let mut txn_snapshot: BTreeMap<TxnId, Timestamp> = BTreeMap::new();
        let mut in_conflict: BTreeMap<TxnId, bool> = BTreeMap::new();
        let mut out_conflict: BTreeMap<TxnId, bool> = BTreeMap::new();
        let mut i: usize = 0;
        while i < txns.len()
            invariant
                i <= txns@.len(),
                txn_status@ == Map::new(|t: TxnId| txns@.take(i as int).contains(t), |t: TxnId| TxnStatus::NotStarted),
                txn_snapshot@ == Map::new(|t: TxnId| txns@.take(i as int).contains(t), |t: TxnId| 0u64),
                in_conflict@ == Map::new(|t: TxnId| txns@.take(i as int).contains(t), |t: TxnId| false),
                out_conflict@ == Map::new(|t: TxnId| txns@.take(i as int).contains(t), |t: TxnId| false),
            decreases txns@.len() - i,
        {
            let t = txns[i];
            txn_status.insert(t, TxnStatus::NotStarted);
            txn_snapshot.insert(t, 0);
            in_conflict.insert(t, false);
            out_conflict.insert(t, false);
            proof {
                assert forall|u: TxnId| txns@.take(i + 1).contains(u) <==> txns@.take(i as int).contains(u) || u == t by {
                    if txns@.take(i + 1).contains(u) {
                        let j = choose|j: int| 0 <= j < i + 1 && #[trigger] txns@.take(i + 1)[j] == u;
                        if j < i {
                            assert(txns@.take(i as int)[j] == u);
                        }
                    }
                    if txns@.take(i as int).contains(u) {
                        let j = choose|j: int| 0 <= j < i && #[trigger] txns@.take(i as int)[j] == u;
                        assert(txns@.take(i + 1)[j] == u);
                    }
                    if u == t {
                        assert(txns@.take(i + 1)[i as int] == u);
                    }
                }
            }
            i = i + 1;
            assert(txn_status@ =~= Map::new(|u: TxnId| txns@.take(i as int).contains(u), |u: TxnId| TxnStatus::NotStarted));
            assert(txn_snapshot@ =~= Map::new(|u: TxnId| txns@.take(i as int).contains(u), |u: TxnId| 0u64));
            assert(in_conflict@ =~= Map::new(|u: TxnId| txns@.take(i as int).contains(u), |u: TxnId| false));
            assert(out_conflict@ =~= Map::new(|u: TxnId| txns@.take(i as int).contains(u), |u: TxnId| false));
        }
        assert(txns@.take(txns@.len() as int) =~= txns@);
        let mut write_locks: BTreeMap<KeyId, Option<TxnId>> = BTreeMap::new();
        let mut siread_locks: BTreeMap<KeyId, BTreeSet<TxnId>> = BTreeMap::new();
        let mut j: usize = 0;
        while j < keys.len()
            invariant
                j <= keys@.len(),
                write_locks@ == Map::new(|k: KeyId| keys@.take(j as int).contains(k), |k: KeyId| None::<TxnId>),
                siread_view(siread_locks) == Map::new(
                    |k: KeyId| keys@.take(j as int).contains(k),
                    |k: KeyId| Set::<TxnId>::empty(),
                ),
            decreases keys@.len() - j,
        {
            let k = keys[j];
            write_locks.insert(k, None);
            let ghost before = siread_view(siread_locks);
            let fresh: BTreeSet<TxnId> = BTreeSet::new();
            assert(fresh@ == Set::<TxnId>::empty());
            siread_locks.insert(k, fresh);
            assert(siread_view(siread_locks) =~= before.insert(k, Set::<TxnId>::empty()));
            proof {
                assert forall|u: KeyId| keys@.take(j + 1).contains(u) <==> keys@.take(j as int).contains(u) || u == k by {
                    if keys@.take(j + 1).contains(u) {
                        let q = choose|q: int| 0 <= q < j + 1 && #[trigger] keys@.take(j + 1)[q] == u;
                        if q < j {
                            assert(keys@.take(j as int)[q] == u);
                        }
                    }
                    if keys@.take(j as int).contains(u) {
                        let q = choose|q: int| 0 <= q < j && #[trigger] keys@.take(j as int)[q] == u;
                        assert(keys@.take(j + 1)[q] == u);
                    }
                    if u == k {
                        assert(keys@.take(j + 1)[j as int] == u);
                    }
                }
            }
            j = j + 1;
            assert(write_locks@ =~= Map::new(|u: KeyId| keys@.take(j as int).contains(u), |u: KeyId| None::<TxnId>));
            assert(siread_view(siread_locks) =~= Map::new(
                |u: KeyId| keys@.take(j as int).contains(u),
                |u: KeyId| Set::<TxnId>::empty(),
            ));
        }
        assert(keys@.take(keys@.len() as int) =~= keys@);
        SsiState {
            history: Vec::new(),
            txn_status,
            txn_snapshot,
            write_locks,
            siread_locks,
            in_conflict,
            out_conflict,
        }
    }

    /// Current logical time: the length of the history.
    pub fn now(&self) -> (r: Timestamp)
        ensures
            r == self.history@.len(),
    {
        self.history.len() as Timestamp
    }

    fn txns_with(&self, st: TxnStatus) -> (r: BTreeSet<TxnId>)
        ensures
            r@ == Set::new(|t: TxnId| has_status(*self, t, st)),
    {
        let ids = keys_of(&self.txn_status);
        let mut out: BTreeSet<TxnId> = BTreeSet::new();
        let mut i: usize = 0;
        while i < ids.len()
            invariant
                i <= ids@.len(),
                forall|k: u8| self.txn_status@.contains_key(k) <==> ids@.contains(k),
                out@ == Set::new(|t: TxnId| has_status(*self, t, st) && ids@.take(i as int).contains(t)),
            decreases ids@.len() - i,
        {
            let t = ids[i];
            if status_of(&self.txn_status, t) == Some(st) {
                out.insert(t);
            }
            proof {
                assert forall|u: TxnId| ids@.take(i + 1).contains(u) <==> ids@.take(i as int).contains(u) || u == t by {
                    if ids@.take(i + 1).contains(u) {
                        let q = choose|q: int| 0 <= q < i + 1 && #[trigger] ids@.take(i + 1)[q] == u;
                        if q < i {
                            assert(ids@.take(i as int)[q] == u);
                        }
                    }
                    if ids@.take(i as int).contains(u) {
                        let q = choose|q: int| 0 <= q < i && #[trigger] ids@.take(i as int)[q] == u;
                        assert(ids@.take(i + 1)[q] == u);
                    }
                    if u == t {
                        assert(ids@.take(i + 1)[i as int] == u);
                    }
                }
                assert(ids@.contains(t));
            }
            i = i + 1;
            assert(out@ =~= Set::new(|u: TxnId| has_status(*self, u, st) && ids@.take(i as int).contains(u)));
        }
        assert(ids@.take(ids@.len() as int) =~= ids@);
        assert(out@ =~= Set::new(|t: TxnId| has_status(*self, t, st)));
        out
    }

    /// The active transactions.
    pub fn active_txns(&self) -> (r: BTreeSet<TxnId>)
        ensures
            r@ == Set::new(|t: TxnId| has_status(*self, t, TxnStatus::Active)),
    {
        self.txns_with(TxnStatus::Active)
    }

    /// The committed transactions.
    pub fn committed_txns(&self) -> (r: BTreeSet<TxnId>)
        ensures
            r@ == Set::new(|t: TxnId| has_status(*self, t, TxnStatus::Committed)),
    {
        self.txns_with(TxnStatus::Committed)
    }

    /// The latest committed version of `key` visible at `snapshot_time`: the
    /// transaction of the last committed write at or before that time.
    pub fn latest_version(&self, key: KeyId, snapshot_time: Timestamp) -> (r: Option<TxnId>)
        ensures
            r == latest_write(
                *self,
                key,
                if snapshot_time < self.history@.len() { snapshot_time + 1 } else { self.history@.len() as int },
            ),
    {
        let n = self.history.len();
        let mut latest: Option<TxnId> = None;
        let mut i: usize = 0;
        while i < n && (i as u64) <= snapshot_time
            invariant
                n == self.history@.len(),
                i <= n,
                i <= snapshot_time + 1,
                latest == latest_write(*self, key, i as int),
            decreases n - i,
        {
            if let Operation::Write { txn, key: k } = self.history[i] {
                if k == key && status_of(&self.txn_status, txn) == Some(TxnStatus::Committed) {
                    latest = Some(txn);
                }
            }
            i = i + 1;
        }
        latest
    }

    /// Whether both conflict flags of `txn` are set.
    pub fn has_dangerous_structure(&self, txn: TxnId) -> (r: bool)
        ensures
            r == dangerous(*self, txn),
    {
        flag_of(&self.in_conflict, txn) && flag_of(&self.out_conflict, txn)
    }

    /// Active or committed transactions other than `exclude_txn` that wrote
    /// `key` after `after_ts`.
    pub fn newer_writers(&self, key: KeyId, after_ts: Timestamp, exclude_txn: TxnId) -> (r: BTreeSet<TxnId>)
        ensures
            r@ == newer_writers_of(*self, key, after_ts, exclude_txn),
    {
        let mut out: BTreeSet<TxnId> = BTreeSet::new();
        let n = self.history.len();
        let mut i: usize = 0;
        while i < n
            invariant
                n == self.history@.len(),
                i <= n,
                out@ == Set::new(
                    |t: TxnId|
                        t != exclude_txn && (has_status(*self, t, TxnStatus::Active) || has_status(
                            *self,
                            t,
                            TxnStatus::Committed,
                        )) && exists|j: int|
                            after_ts < j < i && #[trigger] self.history@[j] == (Operation::Write { txn: t, key }),
                ),
            decreases n - i,
        {
            if let Operation::Write { txn, key: k } = self.history[i] {
                let st = status_of(&self.txn_status, txn);
                if k == key && txn != exclude_txn && (i as u64) > after_ts && (st == Some(TxnStatus::Active) || st
                    == Some(TxnStatus::Committed)) {
                    out.insert(txn);
                }
            }
            proof {
                let op = self.history@[i as int];
                assert(out@ =~= Set::new(
                    |t: TxnId|
                        t != exclude_txn && (has_status(*self, t, TxnStatus::Active) || has_status(
                            *self,
                            t,
                            TxnStatus::Committed,
                        )) && exists|j: int|
                            after_ts < j < i + 1 && #[trigger] self.history@[j] == (Operation::Write { txn: t, key }),
                )) by {
                    assert forall|t: TxnId|
                        (exists|j: int| after_ts < j < i + 1 && #[trigger] self.history@[j] == (Operation::Write { txn: t, key }))
                            <==> ((exists|j: int| after_ts < j < i && #[trigger] self.history@[j] == (Operation::Write { txn: t, key }))
                            || (after_ts < i && op == (Operation::Write { txn: t, key }))) by {
                        if exists|j: int| after_ts < j < i + 1 && #[trigger] self.history@[j] == (Operation::Write { txn: t, key }) {
                            let j = choose|j: int| after_ts < j < i + 1 && #[trigger] self.history@[j] == (Operation::Write { txn: t, key });
                            if j < i {
                            }
                        }
                    }
                }
            }
            i = i + 1;
        }
        out
    }

    /// Readers of `key`, other than `txn`, that are active or that
    /// committed after `txn` began.
    pub fn concurrent_siread_holders(&self, txn: TxnId, key: KeyId) -> (r: BTreeSet<TxnId>)
        ensures
            r@ == concurrent_readers(*self, txn, key),
    {
        let txn_start: Timestamp = match self.txn_snapshot.get(&txn) {
            Some(t) => *t,
            None => 0,
        };
        let mut out: BTreeSet<TxnId> = BTreeSet::new();
        let holders = match self.siread_locks.get(&key) {
            Some(h) => set_elements_u8(h),
            None => Vec::new(),
        };
        let ghost hs = if self.siread_locks@.contains_key(key) { self.siread_locks@[key]@ } else { Set::<TxnId>::empty() };
        assert(holders@.to_set() == hs);
        let mut i: usize = 0;
        while i < holders.len()
            invariant
                i <= holders@.len(),
                holders@.to_set() == hs,
                txn_start == snapshot_of(*self, txn),
                hs == if self.siread_locks@.contains_key(key) { self.siread_locks@[key]@ } else { Set::<TxnId>::empty() },
                out@ == Set::new(
                    |h: TxnId|
                        holders@.take(i as int).contains(h) && h != txn && (has_status(*self, h, TxnStatus::Active) || (
                        has_status(*self, h, TxnStatus::Committed) && committed_after(*self, h, txn_start))),
                ),
            decreases holders@.len() - i,
        {
            let h = holders[i];
            let st = status_of(&self.txn_status, h);
            let mut keep = false;
            if h != txn {
                if st == Some(TxnStatus::Active) {
                    keep = true;
                } else if st == Some(TxnStatus::Committed) {
                    keep = self.commits_after(h, txn_start);
                }
            }
            if keep {
                out.insert(h);
            }
            proof {
                assert forall|u: TxnId| holders@.take(i + 1).contains(u) <==> holders@.take(i as int).contains(u) || u == h by {
                    if holders@.take(i + 1).contains(u) {
                        let q = choose|q: int| 0 <= q < i + 1 && #[trigger] holders@.take(i + 1)[q] == u;
                        if q < i {
                            assert(holders@.take(i as int)[q] == u);
                        }
                    }
                    if holders@.take(i as int).contains(u) {
                        let q = choose|q: int| 0 <= q < i && #[trigger] holders@.take(i as int)[q] == u;
                        assert(holders@.take(i + 1)[q] == u);
                    }
                    if u == h {
                        assert(holders@.take(i + 1)[i as int] == u);
                    }
                }
            }
            i = i + 1;
            assert(out@ =~= Set::new(
                |u: TxnId|
                    holders@.take(i as int).contains(u) && u != txn && (has_status(*self, u, TxnStatus::Active) || (
                    has_status(*self, u, TxnStatus::Committed) && committed_after(*self, u, txn_start))),
            ));
        }
        assert(holders@.take(holders@.len() as int) =~= holders@);
        assert forall|u: TxnId| holders@.contains(u) <==> hs.contains(u) by {
            assert(holders@.to_set().contains(u) <==> holders@.contains(u));
        }
        assert(out@ =~= concurrent_readers(*self, txn, key));
        out
    }

    /// Whether `holder` committed after time `start`.
    fn commits_after(&self, holder: TxnId, start: Timestamp) -> (r: bool)
        ensures
            r == committed_after(*self, holder, start),
    {
        let n = self.history.len();
        let mut i: usize = 0;
        while i < n
            invariant
                n == self.history@.len(),
                i <= n,
                forall|j: int| start < j < i ==> self.history@[j] != (Operation::Commit { txn: holder }),
            decreases n - i,
        {
            if self.history[i] == (Operation::Commit { txn: holder }) && (i as u64) > start {
                return true;
            }
            i = i + 1;
        }
        false
    }
}

proof fn lemma_push_contains<A>(s: Seq<A>, x: A)
    ensures
        forall|y: A| #[trigger] s.push(x).contains(y) <==> s.contains(y) || y == x,
{
    assert forall|y: A| #[trigger] s.push(x).contains(y) <==> s.contains(y) || y == x by {
        if s.push(x).contains(y) {
            let j = choose|j: int| 0 <= j < s.push(x).len() && #[trigger] s.push(x)[j] == y;
            if j < s.len() {
                assert(s[j] == y);
            }
        }
        if s.contains(y) {
            let j = choose|j: int| 0 <= j < s.len() && #[trigger] s[j] == y;
            assert(s.push(x)[j] == y);
        }
        if y == x {
            assert(s.push(x)[s.len() as int] == y);
        }
    }
}

proof fn lemma_take_next<A>(s: Seq<A>, i: int)
    requires
        0 <= i < s.len(),
    ensures
        s.take(i + 1) == s.take(i).push(s[i]),
{
    assert(s.take(i + 1) =~= s.take(i).push(s[i]));
}

/// Whether `a` is a step the machine offers in `s`: a transaction that has
/// not started may begin; an active one may read any key, write a key whose
/// lock is free or its own, commit unless it has a dangerous structure, and
/// abort.
pub open spec fn ssi_enabled(s: SsiState, a: SsiAction) -> bool {
    match a {
        SsiAction::Begin(t) => has_status(s, t, TxnStatus::NotStarted),
        SsiAction::Read(t, k) => has_status(s, t, TxnStatus::Active) && s.write_locks@.contains_key(k),
        SsiAction::Write(t, k) => has_status(s, t, TxnStatus::Active) && s.write_locks@.contains_key(k) && (
        s.write_locks@[k] is None || s.write_locks@[k] == Some(t)),
        SsiAction::Commit(t) => has_status(s, t, TxnStatus::Active) && !dangerous(s, t),
        SsiAction::Abort(t) => has_status(s, t, TxnStatus::Active),
    }
}

/// The acting transaction of `a`.
pub open spec fn acting(a: SsiAction) -> TxnId {
    match a {
        SsiAction::Begin(t) => t,
        SsiAction::Read(t, _) => t,
        SsiAction::Write(t, _) => t,
        SsiAction::Commit(t) => t,
        SsiAction::Abort(t) => t,
    }
}

/// The key touched by `a`, if any.
pub open spec fn touched(a: SsiAction) -> Option<KeyId> {
    match a {
        SsiAction::Read(_, k) => Some(k),
        SsiAction::Write(_, k) => Some(k),
        _ => None,
    }
}

/// Write locks with those of `t` released.
pub open spec fn released(wl: Map<KeyId, Option<TxnId>>, t: TxnId) -> Map<KeyId, Option<TxnId>> {
    Map::new(|k: KeyId| wl.contains_key(k), |k: KeyId| if wl[k] == Some(t) { None } else { wl[k] })
}

/// Read locks without reader `t`.
pub open spec fn without_reader(sr: Map<KeyId, Set<TxnId>>, t: TxnId) -> Map<KeyId, Set<TxnId>> {
    Map::new(|k: KeyId| sr.contains_key(k), |k: KeyId| sr[k].remove(t))
}

/// Flags with those of `set` raised.
pub open spec fn raised(m: Map<TxnId, bool>, set: Set<TxnId>) -> Map<TxnId, bool> {
    Map::new(|x: TxnId| m.contains_key(x) || set.contains(x), |x: TxnId| if set.contains(x) { true } else { m[x] })
}

/// What `apply` reads and writes of a state.
pub struct SsiView {
    pub history: Seq<Operation>,
    pub status: Map<TxnId, TxnStatus>,
    pub snapshot: Map<TxnId, Timestamp>,
    pub write_locks: Map<KeyId, Option<TxnId>>,
    pub siread: Map<KeyId, Set<TxnId>>,
    pub in_conflict: Map<TxnId, bool>,
    pub out_conflict: Map<TxnId, bool>,
}

/// The view of `s`.
pub open spec fn view_of(s: SsiState) -> SsiView {
    SsiView {
        history: s.history@,
        status: s.txn_status@,
        snapshot: s.txn_snapshot@,
        write_locks: s.write_locks@,
        siread: siread_view(s.siread_locks),
        in_conflict: s.in_conflict@,
        out_conflict: s.out_conflict@,
    }
}

/// `t` aborts for `reason`: its status, locks, read locks and flags go.
pub open spec fn aborted(s: SsiState, t: TxnId, reason: AbortReason) -> SsiView {
    SsiView {
        history: s.history@.push(Operation::Abort { txn: t, reason }),
        status: s.txn_status@.insert(t, TxnStatus::Aborted),
        snapshot: s.txn_snapshot@,
        write_locks: released(s.write_locks@, t),
        siread: without_reader(siread_view(s.siread_locks), t),
        in_conflict: s.in_conflict@.insert(t, false),
        out_conflict: s.out_conflict@.insert(t, false),
    }
}

/// The version a read of `k` by `t` sees: its own write, else the latest
/// committed write visible at its snapshot.
pub open spec fn read_version(s: SsiState, t: TxnId, k: KeyId) -> Option<TxnId> {
    let lock = if s.write_locks@.contains_key(k) { s.write_locks@[k] } else { None };
    let snap = snapshot_of(s, t);
    if lock == Some(t) {
        Some(t)
    } else {
        latest_write(s, k, if snap < s.history@.len() { snap + 1 } else { s.history@.len() as int })
    }
}

/// The state after `a` from `s`, or `None` when `a` is not possible there.
pub open spec fn apply_view(s: SsiState, a: SsiAction) -> Option<SsiView> {
    let v = view_of(s);
    match a {
        SsiAction::Begin(t) => if !has_status(s, t, TxnStatus::NotStarted) {
            None
        } else {
            Some(
                SsiView {
                    history: v.history.push(Operation::Begin { txn: t }),
                    status: v.status.insert(t, TxnStatus::Active),
                    snapshot: v.snapshot.insert(t, v.history.len() as u64),
                    ..v
                },
            )
        },
        SsiAction::Read(t, k) => if !has_status(s, t, TxnStatus::Active) {
            None
        } else {
            let writers = newer_writers_of(s, k, snapshot_of(s, t), t);
            if exists|w: TxnId|
                writers.contains(w) && has_status(s, w, TxnStatus::Committed) && #[trigger] flag(v.out_conflict, w) {
                Some(SsiView { write_locks: v.write_locks, ..aborted(s, t, AbortReason::ReadConflict) })
            } else {
                let readers = if v.siread.contains_key(k) { v.siread[k] } else { Set::empty() };
                Some(
                    SsiView {
                        history: v.history.push(Operation::Read { txn: t, key: k, version: read_version(s, t, k) }),
                        siread: v.siread.insert(k, readers.insert(t)),
                        in_conflict: raised(v.in_conflict, writers),
                        out_conflict: if writers.len() > 0 { v.out_conflict.insert(t, true) } else { v.out_conflict },
                        ..v
                    },
                )
            }
        },
        SsiAction::Write(t, k) => {
            let holder = if v.write_locks.contains_key(k) { v.write_locks[k] } else { None };
            if !has_status(s, t, TxnStatus::Active) || (holder.is_some() && holder != Some(t)) {
                None
            } else {
                let readers = concurrent_readers(s, t, k);
                if exists|r: TxnId|
                    readers.contains(r) && has_status(s, r, TxnStatus::Committed) && #[trigger] flag(v.in_conflict, r) {
                    Some(
                        SsiView {
                            write_locks: if holder == Some(t) { v.write_locks.insert(k, None) } else { v.write_locks },
                            ..aborted(s, t, AbortReason::WriteConflict)
                        },
                    )
                } else {
                    Some(
                        SsiView {
                            history: v.history.push(Operation::Write { txn: t, key: k }),
                            write_locks: v.write_locks.insert(k, Some(t)),
                            out_conflict: raised(v.out_conflict, readers),
                            in_conflict: if readers.len() > 0 { v.in_conflict.insert(t, true) } else { v.in_conflict },
                            ..v
                        },
                    )
                }
            }
        },
        SsiAction::Commit(t) => if !has_status(s, t, TxnStatus::Active) {
            None
        } else if dangerous(s, t) {
            Some(aborted(s, t, AbortReason::DangerousStructure))
        } else {
            Some(
                SsiView {
                    history: v.history.push(Operation::Commit { txn: t }),
                    status: v.status.insert(t, TxnStatus::Committed),
                    write_locks: released(v.write_locks, t),
                    ..v
                },
            )
        },
        SsiAction::Abort(t) => if !has_status(s, t, TxnStatus::Active) {
            None
        } else {
            Some(aborted(s, t, AbortReason::Voluntary))
        },
    }
}

/// `wl` with the locks of `t` released.
fn release_locks(wl: &BTreeMap<KeyId, Option<TxnId>>, t: TxnId) -> (r: BTreeMap<KeyId, Option<TxnId>>)
    ensures
        r@ == released(wl@, t),
{
    let keys = keys_of(wl);
    let mut out = wl.clone();
    let mut i: usize = 0;
    while i < keys.len()
        invariant
            i <= keys@.len(),
            forall|k: u8| wl@.contains_key(k) <==> keys@.contains(k),
            out@ == Map::new(
                |k: KeyId| wl@.contains_key(k),
                |k: KeyId| if keys@.take(i as int).contains(k) && wl@[k] == Some(t) { None } else { wl@[k] },
            ),
        decreases keys@.len() - i,
    {
        let k = keys[i];
        proof {
            lemma_take_next(keys@, i as int);
            lemma_push_contains(keys@.take(i as int), k);
            assert(keys@.contains(k));
        }
        if lock_of(wl, k) == Some(t) {
            out.insert(k, None);
        }
        i = i + 1;
        assert(out@ =~= Map::new(
            |q: KeyId| wl@.contains_key(q),
            |q: KeyId| if keys@.take(i as int).contains(q) && wl@[q] == Some(t) { None } else { wl@[q] },
        ));
    }
    assert(keys@.take(keys@.len() as int) =~= keys@);
    assert(out@ =~= released(wl@, t));
    out
}

/// `sr` without reader `t`.
fn drop_reader(sr: &BTreeMap<KeyId, BTreeSet<TxnId>>, t: TxnId) -> (r: BTreeMap<KeyId, BTreeSet<TxnId>>)
    ensures
        siread_view(r) == without_reader(siread_view(*sr), t),
{
    let keys = keys_of(sr);
    let mut out: BTreeMap<KeyId, BTreeSet<TxnId>> = BTreeMap::new();
    let mut i: usize = 0;
    while i < keys.len()
        invariant
            i <= keys@.len(),
            forall|k: u8| sr@.contains_key(k) <==> keys@.contains(k),
            siread_view(out) == Map::new(
                |k: KeyId| keys@.take(i as int).contains(k),
                |k: KeyId| sr@[k]@.remove(t),
            ),
        decreases keys@.len() - i,
    {
        let k = keys[i];
        proof {
            lemma_take_next(keys@, i as int);
            lemma_push_contains(keys@.take(i as int), k);
            assert(keys@.contains(k));
        }
        let ghost before = siread_view(out);
        let mut readers = match sr.get(&k) {
            Some(set) => set.clone(),
            None => BTreeSet::new(),
        };
        readers.remove(&t);
        out.insert(k, readers);
        assert(siread_view(out) =~= before.insert(k, sr@[k]@.remove(t)));
        i = i + 1;
        assert(siread_view(out) =~= Map::new(
            |q: KeyId| keys@.take(i as int).contains(q),
            |q: KeyId| sr@[q]@.remove(t),
        ));
    }
    assert(keys@.take(keys@.len() as int) =~= keys@);
    assert(siread_view(out) =~= without_reader(siread_view(*sr), t));
    out
}

/// `m` with the flags of `set` raised.
fn raise_flags(m: &BTreeMap<TxnId, bool>, set: &BTreeSet<TxnId>) -> (r: BTreeMap<TxnId, bool>)
    ensures
        r@ == raised(m@, set@),
{
    let items = set_elements_u8(set);
    let mut out = m.clone();
    let mut i: usize = 0;
    while i < items.len()
        invariant
            i <= items@.len(),
            items@.to_set() == set@,
            out@ == raised(m@, items@.take(i as int).to_set()),
        decreases items@.len() - i,
    {
        let x = items[i];
        proof {
            lemma_take_next(items@, i as int);
            lemma_push_contains(items@.take(i as int), x);
        }
        out.insert(x, true);
        i = i + 1;
        assert(out@ =~= raised(m@, items@.take(i as int).to_set()));
    }
    assert(items@.take(items@.len() as int) =~= items@);
    out
}

/// `h` with `op` appended.
fn appended(h: &Vec<Operation>, op: Operation) -> (r: Vec<Operation>)
    ensures
        r@ == h@.push(op),
{
    let mut out: Vec<Operation> = Vec::new();
    let mut i: usize = 0;
    while i < h.len()
        invariant
            i <= h@.len(),
            out@ == h@.take(i as int),
        decreases h@.len() - i,
    {
        proof {
            lemma_take_next(h@, i as int);
        }
        out.push(h[i]);
        i = i + 1;
    }
    assert(h@.take(h@.len() as int) =~= h@);
    out.push(op);
    out
}

impl SsiState {
    /// `t` aborts for `reason`, releasing all its locks.
    fn abort_txn(&self, t: TxnId, reason: AbortReason) -> (r: SsiState)
        ensures
            view_of(r) == aborted(*self, t, reason),
    {
        let history = appended(&self.history, Operation::Abort { txn: t, reason });
        let mut txn_status = self.txn_status.clone();
        txn_status.insert(t, TxnStatus::Aborted);
        let mut in_conflict = self.in_conflict.clone();
        in_conflict.insert(t, false);
        let mut out_conflict = self.out_conflict.clone();
        out_conflict.insert(t, false);
        SsiState {
            history,
            txn_status,
            txn_snapshot: self.txn_snapshot.clone(),
            write_locks: release_locks(&self.write_locks, t),
            siread_locks: drop_reader(&self.siread_locks, t),
            in_conflict,
            out_conflict,
        }
    }

    /// Whether some member of `set` is committed with flag `flags` raised.
    fn any_committed_flagged(&self, set: &BTreeSet<TxnId>, flags: &BTreeMap<TxnId, bool>) -> (r: bool)
        ensures
            r == exists|x: TxnId| set@.contains(x) && has_status(*self, x, TxnStatus::Committed) && #[trigger] flag(flags@, x),
    {
        let items = set_elements_u8(set);
        let mut i: usize = 0;
        while i < items.len()
            invariant
                i <= items@.len(),
                items@.to_set() == set@,
                forall|j: int|
                    0 <= j < i ==> !(has_status(*self, #[trigger] items@[j], TxnStatus::Committed) && flag(flags@, items@[j])),
            decreases items@.len() - i,
        {
            let x = items[i];
            if status_of(&self.txn_status, x) == Some(TxnStatus::Committed) && flag_of(flags, x) {
                assert(items@.to_set().contains(x));
                return true;
            }
            i = i + 1;
        }
        assert forall|x: TxnId| set@.contains(x) implies !(has_status(*self, x, TxnStatus::Committed) && #[trigger] flag(flags@, x)) by {
            assert(items@.to_set().contains(x));
            let j = choose|j: int| 0 <= j < items@.len() && #[trigger] items@[j] == x;
        }
        false
    }

    /// The state after `action`, or `None` when the action is not possible:
    /// a read or write may instead abort the transaction to keep the history
    /// serializable, and a commit aborts a transaction with a dangerous structure.
    pub fn apply(&self, action: &SsiAction) -> (r: Option<Self>)
        ensures
            match apply_view(*self, *action) {
                None => r is None,
                Some(v) => r matches Some(n) && view_of(n) == v,
            },
    {
        match *action {
            SsiAction::Begin(t) => {
                if status_of(&self.txn_status, t) != Some(TxnStatus::NotStarted) {
                    return None;
                }
                let history = appended(&self.history, Operation::Begin { txn: t });
                let mut txn_status = self.txn_status.clone();
                txn_status.insert(t, TxnStatus::Active);
                let mut txn_snapshot = self.txn_snapshot.clone();
                txn_snapshot.insert(t, self.history.len() as u64);
                let next = SsiState {
                    history,
                    txn_status,
                    txn_snapshot,
                    write_locks: self.write_locks.clone(),
                    siread_locks: self.siread_locks.clone(),
                    in_conflict: self.in_conflict.clone(),
                    out_conflict: self.out_conflict.clone(),
                };
                assert(view_of(next) =~= apply_view(*self, *action)->Some_0);
                Some(next)
            },
            SsiAction::Read(t, k) => {
                if status_of(&self.txn_status, t) != Some(TxnStatus::Active) {
                    return None;
                }
                let snapshot: Timestamp = match self.txn_snapshot.get(&t) {
                    Some(x) => *x,
                    None => 0,
                };
                let writers = self.newer_writers(k, snapshot, t);
                if self.any_committed_flagged(&writers, &self.out_conflict) {
                    let mut next = self.abort_txn(t, AbortReason::ReadConflict);
                    next.write_locks = self.write_locks.clone();
                    assert(view_of(next) =~= apply_view(*self, *action)->Some_0);
                    return Some(next);
                }
                let version = if lock_of(&self.write_locks, k) == Some(t) {
                    Some(t)
                } else {
                    self.latest_version(k, snapshot)
                };
                let history = appended(&self.history, Operation::Read { txn: t, key: k, version });
                let mut siread_locks = self.siread_locks.clone();
                let mut readers = match self.siread_locks.get(&k) {
                    Some(set) => set.clone(),
                    None => BTreeSet::new(),
                };
                readers.insert(t);
                let ghost before = siread_view(siread_locks);
                siread_locks.insert(k, readers);
                assert(siread_view(siread_locks) =~= before.insert(k, readers@));
                let in_conflict = raise_flags(&self.in_conflict, &writers);
                let mut out_conflict = self.out_conflict.clone();
                if writers.len() > 0 {
                    out_conflict.insert(t, true);
                }
                let next = SsiState {
                    history,
                    txn_status: self.txn_status.clone(),
                    txn_snapshot: self.txn_snapshot.clone(),
                    write_locks: self.write_locks.clone(),
                    siread_locks,
                    in_conflict,
                    out_conflict,
                };
                assert(view_of(next) =~= apply_view(*self, *action)->Some_0);
                Some(next)
            },
            SsiAction::Write(t, k) => {
                if status_of(&self.txn_status, t) != Some(TxnStatus::Active) {
                    return None;
                }
                let holder = lock_of(&self.write_locks, k);
                if holder.is_some() && holder != Some(t) {
                    return None;
                }
                let readers = self.concurrent_siread_holders(t, k);
                if self.any_committed_flagged(&readers, &self.in_conflict) {
                    let mut next = self.abort_txn(t, AbortReason::WriteConflict);
                    let mut write_locks = self.write_locks.clone();
                    if holder == Some(t) {
                        write_locks.insert(k, None);
                    }
                    next.write_locks = write_locks;
                    assert(view_of(next) =~= apply_view(*self, *action)->Some_0);
                    return Some(next);
                }
                let history = appended(&self.history, Operation::Write { txn: t, key: k });
                let mut write_locks = self.write_locks.clone();
                write_locks.insert(k, Some(t));
                let out_conflict = raise_flags(&self.out_conflict, &readers);
                let mut in_conflict = self.in_conflict.clone();
                if readers.len() > 0 {
                    in_conflict.insert(t, true);
                }
                let next = SsiState {
                    history,
                    txn_status: self.txn_status.clone(),
                    txn_snapshot: self.txn_snapshot.clone(),
                    write_locks,
                    siread_locks: self.siread_locks.clone(),
                    in_conflict,
                    out_conflict,
                };
                assert(view_of(next) =~= apply_view(*self, *action)->Some_0);
                Some(next)
            },
            SsiAction::Commit(t) => {
                if status_of(&self.txn_status, t) != Some(TxnStatus::Active) {
                    return None;
                }
                if self.has_dangerous_structure(t) {
                    let next = self.abort_txn(t, AbortReason::DangerousStructure);
                    return Some(next);
                }
                let history = appended(&self.history, Operation::Commit { txn: t });
                let mut txn_status = self.txn_status.clone();
                txn_status.insert(t, TxnStatus::Committed);
                let next = SsiState {
                    history,
                    txn_status,
                    txn_snapshot: self.txn_snapshot.clone(),
                    write_locks: release_locks(&self.write_locks, t),
                    siread_locks: self.siread_locks.clone(),
                    in_conflict: self.in_conflict.clone(),
                    out_conflict: self.out_conflict.clone(),
                };
                assert(view_of(next) =~= apply_view(*self, *action)->Some_0);
                Some(next)
            },
            SsiAction::Abort(t) => {
                if status_of(&self.txn_status, t) != Some(TxnStatus::Active) {
                    return None;
                }
                Some(self.abort_txn(t, AbortReason::Voluntary))
            },
        }
    }
}

/// Two committed writes of `key`, at `p < q`, by transactions whose
/// lifetimes overlap: each began before the other's write.
pub open spec fn concurrent_committed_writes(s: SsiState, key: KeyId, p: int, q: int) -> bool {
    &&& 0 <= p < q < s.history@.len()
    &&& s.history@[p] matches Operation::Write { txn: t1, key: k1 }
    &&& s.history@[q] matches Operation::Write { txn: t2, key: k2 }
    &&& k1 == key && k2 == key
    &&& has_status(s, t1, TxnStatus::Committed) && has_status(s, t2, TxnStatus::Committed)
    &&& snapshot_of(s, t1) < q && snapshot_of(s, t2) < p
}

/// First committer wins: no key has two committed writes by overlapping transactions.
pub open spec fn first_committer_wins_holds(s: SsiState) -> bool {
    forall|k: KeyId, p: int, q: int|
        s.write_locks@.contains_key(k) ==> !#[trigger] concurrent_committed_writes(s, k, p, q)
}

/// No committed transaction has both conflict flags set.
pub open spec fn no_committed_dangerous(s: SsiState) -> bool {
    forall|t: TxnId| has_status(s, t, TxnStatus::Committed) ==> !#[trigger] dangerous(s, t)
}

/// The names of the invariants that do not hold, in a fixed order.
pub open spec fn violated_invariants(s: SsiState) -> Seq<Seq<char>> {
    let fcw = first_committer_wins_holds(s);
    let ncd = no_committed_dangerous(s);
    let a: Seq<Seq<char>> = if fcw { seq![] } else { seq!["FirstCommitterWins"@] };
    let b: Seq<Seq<char>> = if ncd { a } else { a.push("NoCommittedDangerousStructures"@) };
    if fcw && ncd { b } else { b.push("Serializable"@) }
}

impl SsiState {
    /// Every action the machine offers in this state.
    pub fn possible_actions(&self) -> (r: Vec<SsiAction>)
        ensures
            forall|a: SsiAction| r@.contains(a) <==> ssi_enabled(*self, a),
    {
        let ids = keys_of(&self.txn_status);
        let keys = keys_of(&self.write_locks);
        let mut out: Vec<SsiAction> = Vec::new();
        let mut i: usize = 0;
        while i < ids.len()
            invariant
                i <= ids@.len(),
                forall|k: u8| self.txn_status@.contains_key(k) <==> ids@.contains(k),
                forall|k: u8| self.write_locks@.contains_key(k) <==> keys@.contains(k),
                forall|a: SsiAction|
                    #[trigger] out@.contains(a) <==> ssi_enabled(*self, a) && ids@.take(i as int).contains(acting(a)),
            decreases ids@.len() - i,
        {
            let t = ids[i];
            proof {
                lemma_take_next(ids@, i as int);
                lemma_push_contains(ids@.take(i as int), t);
            }
            let st = status_of(&self.txn_status, t);
            let ghost start = out@;
            if st == Some(TxnStatus::NotStarted) {
                out.push(SsiAction::Begin(t));
                proof {
                    lemma_push_contains(start, SsiAction::Begin(t));
                }
            } else if st == Some(TxnStatus::Active) {
                let mut j: usize = 0;
                while j < keys.len()
                    invariant
                        j <= keys@.len(),
                        st == Some(TxnStatus::Active),
                        st == (if self.txn_status@.contains_key(t) { Some(self.txn_status@[t]) } else { None::<TxnStatus> }),
                        forall|k: u8| self.write_locks@.contains_key(k) <==> keys@.contains(k),
                        forall|a: SsiAction|
                            #[trigger] out@.contains(a) <==> start.contains(a) || (acting(a) == t && ssi_enabled(*self, a)
                                && (touched(a) matches Some(k) && keys@.take(j as int).contains(k))),
                    decreases keys@.len() - j,
                {
                    let k = keys[j];
                    proof {
                        lemma_take_next(keys@, j as int);
                        lemma_push_contains(keys@.take(j as int), k);
                        assert(keys@.contains(k));
                    }
                    let before = Ghost(out@);
                    out.push(SsiAction::Read(t, k));
                    proof {
                        lemma_push_contains(before@, SsiAction::Read(t, k));
                    }
                    let lock = lock_of(&self.write_locks, k);
                    let mid = Ghost(out@);
                    if lock.is_none() || lock == Some(t) {
                        out.push(SsiAction::Write(t, k));
                        proof {
                            lemma_push_contains(mid@, SsiAction::Write(t, k));
                        }
                    }
                    j = j + 1;
                }
                assert(keys@.take(keys@.len() as int) =~= keys@);
                let before = Ghost(out@);
                if !self.has_dangerous_structure(t) {
                    out.push(SsiAction::Commit(t));
                    proof {
                        lemma_push_contains(before@, SsiAction::Commit(t));
                    }
                }
                let mid = Ghost(out@);
                out.push(SsiAction::Abort(t));
                proof {
                    lemma_push_contains(mid@, SsiAction::Abort(t));
                    assert forall|a: SsiAction|
                        out@.contains(a) <==> start.contains(a) || (acting(a) == t && ssi_enabled(*self, a)) by {
                        match a {
                            SsiAction::Read(_, k) => {
                                if acting(a) == t && ssi_enabled(*self, a) {
                                    assert(keys@.take(keys@.len() as int).contains(k));
                                }
                            },
                            SsiAction::Write(_, k) => {
                                if acting(a) == t && ssi_enabled(*self, a) {
                                    assert(keys@.take(keys@.len() as int).contains(k));
                                }
                            },
                            _ => {},
                        }
                    }
                }
            }
            i = i + 1;
        }
        assert(ids@.take(ids@.len() as int) =~= ids@);
        out
    }

    /// Whether `k` has two committed writes by overlapping transactions.
    fn key_has_concurrent_writes(&self, k: KeyId) -> (r: bool)
        ensures
            r == exists|p: int, q: int| #[trigger] concurrent_committed_writes(*self, k, p, q),
    {
        let n = self.history.len();
        let mut q: usize = 0;
        while q < n
            invariant
                n == self.history@.len(),
                q <= n,
                forall|p: int, q2: int| q2 < q ==> !#[trigger] concurrent_committed_writes(*self, k, p, q2),
            decreases n - q,
        {
            if let Operation::Write { txn: t2, key: k2 } = self.history[q] {
                if k2 == k && status_of(&self.txn_status, t2) == Some(TxnStatus::Committed) {
                    let snap2: Timestamp = match self.txn_snapshot.get(&t2) {
                        Some(x) => *x,
                        None => 0,
                    };
                    let mut p: usize = 0;
                    while p < q
                        invariant
                            n == self.history@.len(),
                            p <= q < n,
                            self.history@[q as int] == (Operation::Write { txn: t2, key: k }),
                            has_status(*self, t2, TxnStatus::Committed),
                            snap2 == snapshot_of(*self, t2),
                            forall|p2: int| p2 < p ==> !#[trigger] concurrent_committed_writes(*self, k, p2, q as int),
                        decreases q - p,
                    {
                        if let Operation::Write { txn: t1, key: k1 } = self.history[p] {
                            if k1 == k && status_of(&self.txn_status, t1) == Some(TxnStatus::Committed) {
                                let snap1: Timestamp = match self.txn_snapshot.get(&t1) {
                                    Some(x) => *x,
                                    None => 0,
                                };
                                if snap1 < q as u64 && snap2 < p as u64 {
                                    assert(concurrent_committed_writes(*self, k, p as int, q as int));
                                    return true;
                                }
                            }
                        }
                        p = p + 1;
                    }
                }
            }
            q = q + 1;
        }
        false
    }

    /// FirstCommitterWins: no two overlapping transactions both committed
    /// writes to the same key.
    pub fn first_committer_wins(&self) -> (r: bool)
        ensures
            r == first_committer_wins_holds(*self),
    {
        let keys = keys_of(&self.write_locks);
        let mut i: usize = 0;
        while i < keys.len()
            invariant
                i <= keys@.len(),
                forall|k: u8| self.write_locks@.contains_key(k) <==> keys@.contains(k),
                forall|j: int, p: int, q: int|
                    0 <= j < i ==> !#[trigger] concurrent_committed_writes(*self, keys@[j], p, q),
            decreases keys@.len() - i,
        {
            if self.key_has_concurrent_writes(keys[i]) {
                assert(keys@.contains(keys@[i as int]));
                return false;
            }
            i = i + 1;
        }
        assert forall|k: KeyId, p: int, q: int|
            self.write_locks@.contains_key(k) implies !#[trigger] concurrent_committed_writes(*self, k, p, q) by {
            assert(keys@.contains(k));
            let j = choose|j: int| 0 <= j < keys@.len() && #[trigger] keys@[j] == k;
            assert(j < i);
            assert(!concurrent_committed_writes(*self, keys@[j], p, q));
        }
        true
    }

    /// No committed transaction has a dangerous structure.
    pub fn no_committed_dangerous_structures(&self) -> (r: bool)
        ensures
            r == no_committed_dangerous(*self),
    {
        let ids = keys_of(&self.txn_status);
        let mut i: usize = 0;
        while i < ids.len()
            invariant
                i <= ids@.len(),
                forall|k: u8| self.txn_status@.contains_key(k) <==> ids@.contains(k),
                forall|j: int|
                    0 <= j < i ==> !(has_status(*self, #[trigger] ids@[j], TxnStatus::Committed) && dangerous(*self, ids@[j])),
            decreases ids@.len() - i,
        {
            let t = ids[i];
            if status_of(&self.txn_status, t) == Some(TxnStatus::Committed) && self.has_dangerous_structure(t) {
                return false;
            }
            i = i + 1;
        }
        assert forall|t: TxnId| has_status(*self, t, TxnStatus::Committed) implies !#[trigger] dangerous(*self, t) by {
            assert(ids@.contains(t));
            let j = choose|j: int| 0 <= j < ids@.len() && #[trigger] ids@[j] == t;
            assert(!(has_status(*self, ids@[j], TxnStatus::Committed) && dangerous(*self, ids@[j])));
        }
        true
    }

    /// Serializable (simplified): both invariants above hold.
    pub fn is_serializable(&self) -> (r: bool)
        ensures
            r == (no_committed_dangerous(*self) && first_committer_wins_holds(*self)),
    {
        self.no_committed_dangerous_structures() && self.first_committer_wins()
    }

    /// The names of the invariants that do not hold; empty when all do.
    pub fn check_invariants(&self) -> (r: Vec<&'static str>)
        ensures
            r@.len() == violated_invariants(*self).len(),
            forall|i: int| 0 <= i < r@.len() ==> (#[trigger] r@[i])@ == violated_invariants(*self)[i],
    {
        proof {
            reveal_strlit("FirstCommitterWins");
            reveal_strlit("NoCommittedDangerousStructures");
            reveal_strlit("Serializable");
        }
        let fcw = self.first_committer_wins();
        let ncd = self.no_committed_dangerous_structures();
        let mut violations: Vec<&'static str> = Vec::new();
        if !fcw {
            violations.push("FirstCommitterWins");
        }
        if !ncd {
            violations.push("NoCommittedDangerousStructures");
        }
        if !(ncd && fcw) {
            violations.push("Serializable");
        }
        violations
    }
}

} // verus!
