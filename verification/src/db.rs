//! Risk-record store: owns the create/read/update lifecycle of risk-check
//! records.
//!
//! Records are held ordered by creation timestamp, ascending, with records of
//! equal timestamp in insertion order; so the most recent record for an
//! address is the rightmost one that carries it, and the recent-checks
//! listing is the reversed tail. No operation spans another: there is no
//! transaction across `insert_wallet_check` and `update_wallet_check`, and a
//! reconcile that matches nothing is a no-op, not a fault.

use vstd::prelude::*;
use vstd::string::StrSliceExecFns;

use crate::models::{WalletCheck, WalletCheckView};

verus! {

/// Store fault surface. The in-memory store is total — no operation here
/// ever produces this — but the pipeline's rollback policy is written
/// against it, so a driver-backed store can fail in its place.
#[derive(Debug)]
pub enum DbError {
    Unavailable,
}

/// Records ordered by creation timestamp, ascending.
pub open spec fn sorted_by_timestamp(s: Seq<WalletCheckView>) -> bool {
    forall|i: int, j: int| 0 <= i < j < s.len() ==> s[i].timestamp <= s[j].timestamp
}

/// Where a record with creation time `ts` is inserted: after every record
/// whose timestamp is at most `ts`, so records of equal timestamp keep
/// insertion order.
pub open spec fn insert_index(s: Seq<WalletCheckView>, ts: int) -> int
    decreases s.len(),
{
    if s.len() == 0 {
        0
    } else if s.last().timestamp <= ts {
        s.len() as int
    } else {
        insert_index(s.drop_last(), ts)
    }
}

/// Index of the most recent record carrying `addr`: the rightmost match,
/// which under the store order has the greatest timestamp among matches
/// (the latest-inserted one when timestamps tie); `-1` when there is none.
pub open spec fn last_match(s: Seq<WalletCheckView>, addr: Seq<char>) -> int
    decreases s.len(),
{
    if s.len() == 0 {
        -1
    } else if s.last().address == addr {
        s.len() - 1
    } else {
        last_match(s.drop_last(), addr)
    }
}

/// An empty flag list is normalized to absent, never stored as an empty
/// sentinel.
pub open spec fn normalize_flags(f: Option<Seq<Seq<char>>>) -> Option<Seq<Seq<char>>> {
    match f {
        Some(fs) => if fs.len() == 0 {
            None
        } else {
            Some(fs)
        },
        None => None,
    }
}

/// The record as persisted: the caller's record with a store-assigned
/// identity.
pub open spec fn stamped(v: WalletCheckView, ident: u64) -> WalletCheckView {
    WalletCheckView { id: Some(ident), ..v }
}

/// A record with the verdict attached: risk level and reason set,
/// everything else unchanged. A given flag list is stored with an empty
/// list normalized to absent; when no list is given the flags the record
/// already carries are not modified.
pub open spec fn reconciled(
    v: WalletCheckView,
    risk: Seq<char>,
    reason: Seq<char>,
    flags: Option<Seq<Seq<char>>>,
) -> WalletCheckView {
    WalletCheckView {
        risk_level: Some(risk),
        reason: Some(reason),
        ipc_specific_flags: if flags is Some {
            normalize_flags(flags)
        } else {
            v.ipc_specific_flags
        },
        ..v
    }
}

/// How many records a listing with the given limit returns.
pub open spec fn effective_limit(limit: i64, n: int) -> int {
    if limit <= 0 {
        0
    } else if limit > n {
        n
    } else {
        limit as int
    }
}

/// Listing limit used when the caller does not give one.
pub const DEFAULT_RECENT_LIMIT: i64 = 10;

/// The risk-record store.
pub struct DbClient {
    records: Vec<WalletCheck>,
    next_id: u64,
}

impl View for DbClient {
    type V = Seq<WalletCheckView>;

    closed spec fn view(&self) -> Seq<WalletCheckView> {
        Seq::new(self.records@.len() as nat, |i: int| self.records@[i]@)
    }
}

impl DbClient {
    /// The store's order invariant.
    pub open spec fn inv(&self) -> bool {
        sorted_by_timestamp(self@)
    }

    /// An empty store.
    pub fn new() -> (r: Self)
        ensures
            r.inv(),
            r@ == Seq::<WalletCheckView>::empty(),
    {
        let r = DbClient { records: Vec::new(), next_id: 0 };
        proof {
            assert(r@ =~= Seq::<WalletCheckView>::empty());
        }
        r
    }

    /// How many records the store holds.
    pub fn record_count(&self) -> (n: usize)
        ensures
            n == self@.len(),
    {
        self.records.len()
    }

    /// Persists a record, assigning it a fresh identity and placing it by its
    /// creation timestamp. Always succeeds here; the `Result` is the
    /// interface a fallible store fails through.
    pub fn insert_wallet_check(&mut self, wallet_check: WalletCheck) -> (r: Result<
        (),
        DbError,
    >)
        requires
            old(self).inv(),
        ensures
            final(self).inv(),
            r is Ok,
            exists|ident: u64|
                final(self)@ == old(self)@.insert(
                    insert_index(old(self)@, wallet_check@.timestamp),
                    #[trigger] stamped(wallet_check@, ident),
                ),
    {
        let ghost s0 = self@;
        let ts = wallet_check.timestamp;
        proof {
            lemma_insert_index_bounds(s0, ts as int);
            lemma_insert_index_splits(s0, ts as int);
        }
        let mut idx: usize = self.records.len();
        while idx > 0 && self.records[idx - 1].timestamp > ts
            invariant
                0 <= idx <= self@.len(),
                self@ == s0,
                self@.len() == self.records@.len(),
                forall|k: int| idx <= k < self@.len() ==> self@[k].timestamp > ts,
                forall|k: int| 0 <= k < self.records@.len() ==> self@[k] == self.records@[k]@,
            decreases idx,
    {
            idx -= 1;
        }
        proof {
            lemma_insert_index_at(s0, ts as int, idx as int);
        }
        let ident = self.next_id;
        let persisted = WalletCheck {
            id: Some(ident),
            address: wallet_check.address,
            subnet_id: wallet_check.subnet_id,
            timestamp: wallet_check.timestamp,
            risk_level: wallet_check.risk_level,
            reason: wallet_check.reason,
            ipc_specific_flags: wallet_check.ipc_specific_flags,
        };
        self.records.insert(idx, persisted);
        if self.next_id < u64::MAX {
            self.next_id = self.next_id + 1;
        }
        proof {
            let v = stamped(wallet_check@, ident);
            assert(self@ =~= s0.insert(idx as int, v)) by {
                s0.insert_ensures(idx as int, v);
                assert(forall|k: int|
                    0 <= k < self.records@.len() ==> self@[k] == self.records@[k]@);
            }
            assert(sorted_by_timestamp(self@)) by {
                s0.insert_ensures(idx as int, v);
            }
        }
        Ok(())
    }

    /// Reconciles the most recent record for `address` — the one with the
    /// greatest creation timestamp, found by address and recency, not by
    /// identity — with the verdict. A given flag list is stored, an empty
    /// one normalized to absent; giving none leaves whatever flags the
    /// record carries untouched. When no record matches, the store is left
    /// unchanged and no fault is raised.
    pub fn update_wallet_check(
        &mut self,
        address: &str,
        risk_level: &str,
        reason: &str,
        ipc_specific_flags: Option<Vec<String>>,
    ) -> (r: Result<(), DbError>)
        requires
            old(self).inv(),
        ensures
            final(self).inv(),
            r is Ok,
            last_match(old(self)@, address@) < 0 ==> final(self)@ == old(self)@,
            last_match(old(self)@, address@) >= 0 ==> final(self)@ == old(self)@.update(
                last_match(old(self)@, address@),
                reconciled(
                    old(self)@[last_match(old(self)@, address@)],
                    risk_level@,
                    reason@,
                    ipc_specific_flags.deep_view(),
                ),
            ),
    {
        let ghost s0 = self@;
        let n = self.records.len();
        let mut idx: usize = n;
        while idx > 0
            invariant
                0 <= idx <= n,
                n == self@.len(),
                s0 == old(self)@,
                self@ == s0,
                self.inv(),
                self@.len() == self.records@.len(),
                forall|k: int| idx <= k < self@.len() ==> self@[k].address != address@,
                forall|k: int| 0 <= k < self.records@.len() ==> self@[k] == self.records@[k]@,
            decreases idx,
        {
            if str_eq(self.records[idx - 1].address.as_str(), address) {
                let j = idx - 1;
                proof {
                    lemma_last_match_at(s0, address@, j as int);
                }
                let found = self.records.remove(j);
                let flags: Option<Vec<String>> = match ipc_specific_flags {
                    Some(f) => if f.len() == 0 {
                        None
                    } else {
                        Some(f)
                    },
                    None => found.ipc_specific_flags,
                };
                let updated = WalletCheck {
                    id: found.id,
                    address: found.address,
                    subnet_id: found.subnet_id,
                    timestamp: found.timestamp,
                    risk_level: Some(risk_level.to_owned()),
                    reason: Some(reason.to_owned()),
                    ipc_specific_flags: flags,
                };
                self.records.insert(j, updated);
                proof {
                    let v = reconciled(
                        s0[j as int],
                        risk_level@,
                        reason@,
                        ipc_specific_flags.deep_view(),
                    );
                    assert(self@ =~= s0.update(j as int, v)) by {
                        s0.remove_ensures(j as int);
                        s0.remove(j as int).insert_ensures(j as int, v);
                        assert(forall|k: int|
                            0 <= k < self.records@.len() ==> self@[k] == self.records@[k]@);
                    }
                    assert(sorted_by_timestamp(self@));
                }
                return Ok(());
            }
            idx -= 1;
        }
        proof {
            lemma_last_match_none(s0, address@);
        }
        Ok(())
    }

    /// Lists the most recent records: ordered by creation timestamp,
    /// descending, truncated to `limit`. Optional fields come back exactly
    /// as stored — absent, never a sentinel.
    pub fn get_recent_checks(&self, limit: i64) -> (r: Vec<WalletCheck>)
        requires
            self.inv(),
        ensures
            r@.len() == effective_limit(limit, self@.len() as int),
            forall|j: int| 0 <= j < r@.len() ==> r@[j]@ == self@[self@.len() - 1 - j],
    {
        let n = self.records.len();
        let count: usize = if limit <= 0 {
            0
        } else if limit as u64 >= n as u64 {
            n
        } else {
            limit as usize
        };
        let mut out: Vec<WalletCheck> = Vec::new();
        let mut j: usize = 0;
        while j < count
            invariant
                0 <= j <= count <= n,
                n == self@.len(),
                n == self.records@.len(),
                out@.len() == j,
                forall|k: int| 0 <= k < self.records@.len() ==> self@[k] == self.records@[k]@,
                forall|k: int| 0 <= k < j ==> out@[k]@ == self@[n - 1 - k],
            decreases count - j,
        {
            out.push(self.records[n - 1 - j].duplicate());
            j += 1;
        }
        out
    }
}

/// Character-for-character string comparison.
fn str_eq(a: &str, b: &str) -> (r: bool)
    ensures
        r == (a@ == b@),
{
    let na = a.unicode_len();
    let nb = b.unicode_len();
    if na != nb {
        return false;
    }
    let mut i: usize = 0;
    while i < na
        invariant
            0 <= i <= na,
            na == a@.len(),
            na == b@.len(),
            forall|k: int| 0 <= k < i ==> a@[k] == b@[k],
        decreases na - i,
    {
        if a.get_char(i) != b.get_char(i) {
            return false;
        }
        i += 1;
    }
    proof {
        assert(a@ =~= b@);
    }
    true
}

pub proof fn lemma_insert_index_bounds(s: Seq<WalletCheckView>, ts: int)
    ensures
        0 <= insert_index(s, ts) <= s.len(),
    decreases s.len(),
{
    if s.len() > 0 && s.last().timestamp > ts {
        lemma_insert_index_bounds(s.drop_last(), ts);
    }
}

proof fn lemma_insert_index_splits(s: Seq<WalletCheckView>, ts: int)
    requires
        sorted_by_timestamp(s),
    ensures
        forall|j: int| 0 <= j < insert_index(s, ts) ==> s[j].timestamp <= ts,
        forall|j: int| insert_index(s, ts) <= j < s.len() ==> s[j].timestamp > ts,
    decreases s.len(),
{
    lemma_insert_index_bounds(s, ts);
    if s.len() > 0 && s.last().timestamp > ts {
        let d = s.drop_last();
        assert(sorted_by_timestamp(d)) by {
            assert(forall|i: int, j: int|
                0 <= i < j < d.len() ==> d[i] == s[i] && d[j] == s[j]);
        }
        lemma_insert_index_splits(d, ts);
        assert forall|j: int| insert_index(s, ts) <= j < s.len() implies s[j].timestamp > ts by {
            if j < s.len() - 1 {
                assert(d[j] == s[j]);
            }
        }
        assert forall|j: int| 0 <= j < insert_index(s, ts) implies s[j].timestamp <= ts by {
            assert(d[j] == s[j]);
        }
    }
}

/// The split facts pin the insertion index: a position with everything at or
/// below `ts` on its left and everything above on its right is the index.
proof fn lemma_insert_index_at(s: Seq<WalletCheckView>, ts: int, idx: int)
    requires
        sorted_by_timestamp(s),
        0 <= idx <= s.len(),
        forall|k: int| idx <= k < s.len() ==> s[k].timestamp > ts,
        idx > 0 ==> s[idx - 1].timestamp <= ts,
    ensures
        insert_index(s, ts) == idx,
{
    lemma_insert_index_splits(s, ts);
    lemma_insert_index_bounds(s, ts);
    let ii = insert_index(s, ts);
    if ii < idx {
        assert(s[idx - 1].timestamp > ts);
        assert(false);
    }
    if ii > idx {
        assert(s[idx].timestamp <= ts);
        assert(false);
    }
}

proof fn lemma_last_match_none(s: Seq<WalletCheckView>, addr: Seq<char>)
    requires
        forall|k: int| 0 <= k < s.len() ==> s[k].address != addr,
    ensures
        last_match(s, addr) == -1,
    decreases s.len(),
{
    if s.len() > 0 {
        let d = s.drop_last();
        assert(forall|k: int| 0 <= k < d.len() ==> d[k] == s[k]);
        lemma_last_match_none(d, addr);
    }
}

proof fn lemma_last_match_at(s: Seq<WalletCheckView>, addr: Seq<char>, j: int)
    requires
        0 <= j < s.len(),
        s[j].address == addr,
        forall|k: int| j < k < s.len() ==> s[k].address != addr,
    ensures
        last_match(s, addr) == j,
    decreases s.len(),
{
    if j < s.len() - 1 {
        let d = s.drop_last();
        assert(forall|k: int| 0 <= k < d.len() ==> d[k] == s[k]);
        lemma_last_match_at(d, addr, j);
    }
}

/// Law: create then reconcile. Creating a pending record no older than
/// anything stored appends it; reconciling the same address then finds
/// exactly that record — the most recent one — and the store's latest record
/// for the address carries the verdict precisely, an empty flag list
/// rendered absent.
pub proof fn lemma_create_then_reconcile(
    s: Seq<WalletCheckView>,
    rec: WalletCheckView,
    risk: Seq<char>,
    reason: Seq<char>,
    flags: Option<Seq<Seq<char>>>,
)
    requires
        sorted_by_timestamp(s),
        rec.pending(),
        forall|j: int| 0 <= j < s.len() ==> s[j].timestamp <= rec.timestamp,
    ensures
        insert_index(s, rec.timestamp) == s.len(),
        s.insert(s.len() as int, rec) == s.push(rec),
        last_match(s.push(rec), rec.address) == s.len(),
        ({
            let after = s.push(rec).update(s.len() as int, reconciled(rec, risk, reason, flags));
            &&& after.len() == s.len() + 1
            &&& after.last().address == rec.address
            &&& after.last().timestamp == rec.timestamp
            &&& after.last().risk_level == Some(risk)
            &&& after.last().reason == Some(reason)
            &&& after.last().ipc_specific_flags == normalize_flags(flags)
            &&& (flags matches Some(fs) && fs.len() == 0) ==> after.last().ipc_specific_flags is None
        }),
{
    if s.len() > 0 {
        assert(s.last().timestamp <= rec.timestamp);
    }
    assert(s.insert(s.len() as int, rec) =~= s.push(rec));
    let p = s.push(rec);
    assert(p.last() == rec);
    lemma_last_match_at(p, rec.address, s.len() as int);
}

} // verus!
