//! Storage credit: an append-only ledger of non-transferable entries in
//! milli-GiB-hours, with expiry and exact integer arithmetic.
use vstd::prelude::*;
use crate::order::{texts};
use crate::text::str_equal;

verus! {

/// Credit units in one GiB-hour.
pub const MILLI_PER_GIB_HOUR: i64 = 1000;

/// Why a credit entry exists.
#[derive(Clone, Copy, Debug, PartialEq, Eq)]
pub enum CreditReason {
    MonthlyBaseGrant,
    AuditedStorageEarned,
    ReplicatedStorageConsumed,
    Expired,
}

impl CreditReason {
    /// The variant's name, as `{:?}` prints it.
    pub open spec fn name_spec(self) -> Seq<char> {
        match self {
            CreditReason::MonthlyBaseGrant => "MonthlyBaseGrant"@,
            CreditReason::AuditedStorageEarned => "AuditedStorageEarned"@,
            CreditReason::ReplicatedStorageConsumed => "ReplicatedStorageConsumed"@,
            CreditReason::Expired => "Expired"@,
        }
    }

    /// The variant's name, as `{:?}` prints it.
    pub fn name(&self) -> (res: &'static str)
        ensures
            res@ == self.name_spec(),
    {
        match self {
            CreditReason::MonthlyBaseGrant => "MonthlyBaseGrant",
            CreditReason::AuditedStorageEarned => "AuditedStorageEarned",
            CreditReason::ReplicatedStorageConsumed => "ReplicatedStorageConsumed",
            CreditReason::Expired => "Expired",
        }
    }
}

/// One ledger entry.
#[derive(Debug)]
pub struct CreditEntry {
    pub idempotency_key: String,
    pub milli_gib_hour: i64,
    pub reason: CreditReason,
    pub occurred_at: i64,
    pub expires_at: Option<i64>,
}

/// Why a ledger operation failed.
#[derive(Debug)]
pub enum CreditError {
    Overflow,
    Duplicate,
    Invalid,
}

/// The credit entries of one member.
pub struct CreditLedger {
    entries: Vec<CreditEntry>,
}

/// An entry counts at `now` when it has no expiry or expires after `now`.
pub open spec fn counts_at(e: CreditEntry, now: int) -> bool {
    match e.expires_at {
        None => true,
        Some(expiry) => expiry > now,
    }
}

/// The running sum of the entries that count at `now`, in order; `None` when
/// a partial sum leaves the range of `i64`.
pub open spec fn balance_fold(s: Seq<CreditEntry>, now: int) -> Option<int>
    decreases s.len(),
{
    if s.len() == 0 {
        Some(0)
    } else {
        match balance_fold(s.drop_last(), now) {
            None => None,
            Some(sum) => if counts_at(s.last(), now) {
                let next = sum + s.last().milli_gib_hour;
                if i64::MIN <= next <= i64::MAX {
                    Some(next)
                } else {
                    None
                }
            } else {
                Some(sum)
            },
        }
    }
}

/// The mathematical sum of the entries that count at `now`.
pub open spec fn active_sum(s: Seq<CreditEntry>, now: int) -> int
    decreases s.len(),
{
    if s.len() == 0 {
        0
    } else {
        active_sum(s.drop_last(), now) + if counts_at(s.last(), now) {
            s.last().milli_gib_hour as int
        } else {
            0
        }
    }
}

/// The idempotency keys of entries.
pub open spec fn entry_keys(s: Seq<CreditEntry>) -> Seq<Seq<char>> {
    s.map_values(|e: CreditEntry| e.idempotency_key@)
}

/// The outcome of recording `e` into a ledger holding `s`.
pub open spec fn record_outcome(s: Seq<CreditEntry>, e: CreditEntry) -> Result<(), CreditError> {
    if e.idempotency_key@.len() == 0 {
        Err(CreditError::Invalid)
    } else if entry_keys(s).contains(e.idempotency_key@) {
        Err(CreditError::Duplicate)
    } else {
        match balance_fold(s, e.occurred_at as int) {
            None => Err(CreditError::Overflow),
            Some(b) => if i64::MIN <= b + e.milli_gib_hour <= i64::MAX {
                Ok(())
            } else {
                Err(CreditError::Overflow)
            },
        }
    }
}

/// The storage cost in credit units: bytes times replicas times seconds, in
/// milli-GiB-hours, rounded up; the error for no replicas or overflow.
pub open spec fn storage_cost_spec(bytes: int, replicas: int, seconds: int) -> Result<int, CreditError> {
    let numerator = bytes * replicas * seconds * 1000;
    let denominator = 1073741824int * 3600;
    if replicas == 0 {
        Err(CreditError::Invalid)
    } else if numerator > u128::MAX {
        Err(CreditError::Overflow)
    } else {
        let cost = (numerator + denominator - 1) / denominator;
        if cost > i64::MAX {
            Err(CreditError::Overflow)
        } else {
            Ok(cost)
        }
    }
}

impl Default for CreditLedger {
    /// An empty ledger.
    fn default() -> (res: Self)
        ensures
            res.entries_view() == Seq::<CreditEntry>::empty(),
            res.well_formed(),
    {
        CreditLedger::new()
    }
}

impl CreditLedger {
    /// The entries in the order they were recorded.
    pub closed spec fn entries_view(&self) -> Seq<CreditEntry> {
        self.entries@
    }

    /// Keys are non-empty and unique.
    pub open spec fn well_formed(&self) -> bool {
        forall|i: int, j: int|
            0 <= i < j < self.entries_view().len() ==> entry_keys(self.entries_view())[i]
                != entry_keys(self.entries_view())[j]
    }

    /// An empty ledger.
    pub fn new() -> (res: Self)
        ensures
            res.entries_view() == Seq::<CreditEntry>::empty(),
            res.well_formed(),
    {
        CreditLedger { entries: Vec::new() }
    }

    /// Appends an entry unless its key is empty or already used, or the
    /// balance at its time would overflow.
    pub fn record(&mut self, entry: CreditEntry) -> (res: Result<(), CreditError>)
        requires
            old(self).well_formed(),
        ensures
            res == record_outcome(old(self).entries_view(), entry),
            res is Ok ==> final(self).entries_view() == old(self).entries_view().push(entry),
            res is Err ==> final(self).entries_view() == old(self).entries_view(),
            final(self).well_formed(),
    {
        if entry.idempotency_key.as_str().is_empty() {
            return Err(CreditError::Invalid);
        }
        let mut i: usize = 0;
        while i < self.entries.len()
            invariant
                self.entries@ == old(self).entries_view(),
                old(self).well_formed(),
                entry.idempotency_key@.len() != 0,
                0 <= i <= self.entries@.len(),
                forall|k: int| 0 <= k < i ==> entry_keys(self.entries@)[k] != entry.idempotency_key@,
            decreases self.entries@.len() - i,
        {
            if str_equal(self.entries[i].idempotency_key.as_str(), entry.idempotency_key.as_str()) {
                assert(entry_keys(self.entries@)[i as int] == entry.idempotency_key@);
                assert(entry_keys(self.entries@).contains(entry.idempotency_key@));
                return Err(CreditError::Duplicate);
            }
            i = i + 1;
        }
        assert(!entry_keys(self.entries@).contains(entry.idempotency_key@));
        let balance = match self.balance_at(entry.occurred_at) {
            Ok(b) => b,
            Err(e) => {
                return Err(CreditError::Overflow);
            },
        };
        match balance.checked_add(entry.milli_gib_hour) {
            None => {
                return Err(CreditError::Overflow);
            },
            Some(_) => {},
        }
        let ghost before = self.entries@;
        self.entries.push(entry);
        proof {
            assert(before.push(entry).drop_last() =~= before);
            let keys = entry_keys(self.entries@);
            assert forall|a: int, b: int| 0 <= a < b < self.entries@.len() implies keys[a]
                != keys[b] by {
                assert(keys[a] == entry_keys(before)[a]);
                if b == self.entries@.len() - 1 {
                    assert(keys[b] == entry.idempotency_key@);
                    if keys[a] == keys[b] {
                        assert(entry_keys(before).contains(entry.idempotency_key@));
                    }
                } else {
                    assert(keys[b] == entry_keys(before)[b]);
                }
            }
        }
        Ok(())
    }

    /// The sum of the entries that count at `now`; an error on overflow.
    pub fn balance_at(&self, now: i64) -> (res: Result<i64, CreditError>)
        ensures
            match balance_fold(self.entries_view(), now as int) {
                Some(b) => res matches Ok(v) && v as int == b,
                None => res == Err::<i64, CreditError>(CreditError::Overflow),
            },
            res matches Ok(v) ==> v as int == active_sum(self.entries_view(), now as int),
    {
        let mut sum: i64 = 0;
        let mut i: usize = 0;
        while i < self.entries.len()
            invariant
                0 <= i <= self.entries@.len(),
                balance_fold(self.entries@.take(i as int), now as int) == Some(sum as int),
            decreases self.entries@.len() - i,
        {
            let e = &self.entries[i];
            assert(self.entries@.take(i + 1).drop_last() =~= self.entries@.take(i as int));
            let counts = match e.expires_at {
                None => true,
                Some(expiry) => expiry > now,
            };
            if counts {
                match sum.checked_add(e.milli_gib_hour) {
                    Some(next) => {
                        sum = next;
                    },
                    None => {
                        proof {
                            lemma_fold_none_extends(self.entries@, now as int, i as int + 1);
                        }
                        return Err(CreditError::Overflow);
                    },
                }
            }
            i = i + 1;
        }
        assert(self.entries@.take(self.entries@.len() as int) =~= self.entries@);
        proof {
            law_balance_is_active_sum(self.entries@, now as int);
        }
        Ok(sum)
    }

    /// The monthly base grant: 5 GiB, 3 replicas, 30 days.
    pub fn monthly_base_grant() -> (res: i64)
        ensures
            res == 5 * 3 * 30 * 24 * MILLI_PER_GIB_HOUR,
    {
        5 * 3 * 30 * 24 * MILLI_PER_GIB_HOUR
    }

    /// The cost of storing `bytes` on `replicas` nodes for `seconds`.
    pub fn physical_storage_cost(bytes: u64, replicas: u32, seconds: u64) -> (res: Result<
        i64,
        CreditError,
    >)
        ensures
            match storage_cost_spec(bytes as int, replicas as int, seconds as int) {
                Ok(c) => res == Ok::<i64, CreditError>(c as i64),
                Err(e) => res == Err::<i64, CreditError>(e),
            },
    {
        if replicas == 0 {
            return Err(CreditError::Invalid);
        }
        let b = bytes as u128;
        let r = replicas as u128;
        let s = seconds as u128;
        assert(b * r <= 0xffff_ffff_ffff_ffffu128 * 0xffff_ffffu128) by (nonlinear_arith)
            requires
                b <= 0xffff_ffff_ffff_ffffu128,
                r <= 0xffff_ffffu128,
        ;
        let p1 = b * r;
        let p2 = match p1.checked_mul(s) {
            Some(v) => v,
            None => {
                assert(p1 * s * 1000 >= p1 * s) by (nonlinear_arith)
                    requires
                        p1 >= 0,
                        s >= 0,
                ;
                return Err(CreditError::Overflow);
            },
        };
        let n = match p2.checked_mul(1000) {
            Some(v) => v,
            None => {
                return Err(CreditError::Overflow);
            },
        };
        let d: u128 = 1073741824u128 * 3600;
        let q = n / d;
        let cost = if n % d != 0 {
            q + 1
        } else {
            q
        };
        assert(cost as int == (n as int + d as int - 1) / (d as int)) by (nonlinear_arith)
            requires
                d > 0,
                q as int == n as int / d as int,
                n % d != 0 ==> cost as int == q as int + 1,
                n % d == 0 ==> cost as int == q as int,
        ;
        if cost > i64::MAX as u128 {
            return Err(CreditError::Overflow);
        }
        Ok(cost as i64)
    }
}

/// Once a prefix overflows, every longer prefix does.
pub proof fn lemma_fold_none_extends(s: Seq<CreditEntry>, now: int, i: int)
    requires
        0 < i <= s.len(),
        balance_fold(s.take(i), now) is None || (balance_fold(s.take(i - 1), now) is Some
            && balance_fold(s.take(i), now) is None),
    ensures
        balance_fold(s, now) is None,
    decreases s.len() - i,
{
    if i < s.len() {
        assert(s.take(i + 1).drop_last() =~= s.take(i));
        lemma_fold_none_extends(s, now, i + 1);
    } else {
        assert(s.take(i) =~= s);
    }
}

/// When no partial sum overflows, the balance is the sum of the entries that
/// count at `now`.
pub proof fn law_balance_is_active_sum(s: Seq<CreditEntry>, now: int)
    requires
        balance_fold(s, now) is Some,
    ensures
        balance_fold(s, now) == Some(active_sum(s, now)),
    decreases s.len(),
{
    if s.len() > 0 {
        law_balance_is_active_sum(s.drop_last(), now);
    }
}

/// Recording an entry changes every later balance by exactly that entry,
/// whatever its sign: by its amount when it has no expiry or expires after
/// `now`, and not at all when it has expired by `now`.
pub proof fn law_record_changes_balance_by_entry(s: Seq<CreditEntry>, e: CreditEntry, now: int)
    requires
        balance_fold(s.push(e), now) is Some,
    ensures
        active_sum(s.push(e), now) == active_sum(s, now) + match e.expires_at {
            None => e.milli_gib_hour as int,
            Some(expiry) => if expiry > now {
                e.milli_gib_hour as int
            } else {
                0
            },
        },
        balance_fold(s.push(e), now) == Some(active_sum(s.push(e), now)),
{
    assert(s.push(e).drop_last() =~= s);
    law_balance_is_active_sum(s.push(e), now);
}

/// An entry without expiry, such as recorded consumption, always counts:
/// appending one of amount `a` moves the balance by exactly `a`, a negative
/// amount lowering it.
pub proof fn law_unexpiring_entry_moves_balance(s: Seq<CreditEntry>, e: CreditEntry, now: int)
    requires
        e.expires_at is None,
        balance_fold(s, now) is Some,
        balance_fold(s.push(e), now) is Some,
    ensures
        balance_fold(s.push(e), now) == Some(active_sum(s, now) + e.milli_gib_hour),
        e.milli_gib_hour < 0 ==> active_sum(s.push(e), now) < active_sum(s, now),
{
    assert(s.push(e).drop_last() =~= s);
    law_balance_is_active_sum(s, now);
}

} // verus!
