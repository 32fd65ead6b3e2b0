use vstd::prelude::*;
use crate::addr::Addr;
use crate::account::{Account, AccountV};

verus! {

/// One slot of the ledger: an address and the account stored there.
#[derive(Debug)]
pub struct LedgerEntry {
    pub addr: Addr,
    pub account: Account,
}

/// The ledger, at the spec level: a finite map from addresses to accounts,
/// together with the rent schedule's rate.
pub struct LedgerV {
    pub accounts: Map<Addr, AccountV>,
    pub lamports_per_byte_year: u64,
}

/// The ledger: every existing account, and the rent schedule in force.
#[derive(Debug)]
pub struct Ledger {
    pub entries: Vec<LedgerEntry>,
    pub lamports_per_byte_year: u64,
}

/// The map an entry sequence denotes; a later entry would shadow an earlier
/// one, but well-formed ledgers never hold an address twice.
pub open spec fn entries_map(s: Seq<LedgerEntry>) -> Map<Addr, AccountV>
    decreases s.len(),
{
    if s.len() == 0 {
        Map::empty()
    } else {
        entries_map(s.drop_last()).insert(s.last().addr, s.last().account@)
    }
}

impl View for Ledger {
    type V = LedgerV;

    open spec fn view(&self) -> LedgerV {
        LedgerV {
            accounts: entries_map(self.entries@),
            lamports_per_byte_year: self.lamports_per_byte_year,
        }
    }
}

pub proof fn lemma_entries_map_contains(s: Seq<LedgerEntry>, a: Addr)
    ensures
        entries_map(s).contains_key(a) <==> exists|i: int|
            0 <= i < s.len() && s[i].addr == a,
    decreases s.len(),
{
    if s.len() == 0 {
    } else {
        lemma_entries_map_contains(s.drop_last(), a);
        if s.last().addr == a {
            assert(s[s.len() - 1].addr == a);
        } else {
            if entries_map(s).contains_key(a) {
                let i = choose|i: int| 0 <= i < s.drop_last().len() && s.drop_last()[i].addr == a;
                assert(s[i].addr == a);
            }
            if exists|i: int| 0 <= i < s.len() && s[i].addr == a {
                let i = choose|i: int| 0 <= i < s.len() && s[i].addr == a;
                assert(i < s.len() - 1);
                assert(s.drop_last()[i].addr == a);
            }
        }
    }
}

pub proof fn lemma_entries_map_index(s: Seq<LedgerEntry>, i: int)
    requires
        forall|p: int, q: int| 0 <= p < q < s.len() ==> s[p].addr != s[q].addr,
        0 <= i < s.len(),
    ensures
        entries_map(s).contains_key(s[i].addr),
        entries_map(s)[s[i].addr] == s[i].account@,
    decreases s.len(),
{
    if i == s.len() - 1 {
    } else {
        assert(s.drop_last()[i] == s[i]);
        lemma_entries_map_index(s.drop_last(), i);
        assert(s.last().addr != s[i].addr);
    }
}

pub proof fn lemma_entries_map_update(s: Seq<LedgerEntry>, i: int, e: LedgerEntry)
    requires
        forall|p: int, q: int| 0 <= p < q < s.len() ==> s[p].addr != s[q].addr,
        0 <= i < s.len(),
        e.addr == s[i].addr,
    ensures
        entries_map(s.update(i, e)) =~= entries_map(s).insert(e.addr, e.account@),
    decreases s.len(),
{
    let t = s.update(i, e);
    if i == s.len() - 1 {
        assert(t.drop_last() =~= s.drop_last());
        assert(t.last() == e);
    } else {
        assert(t.drop_last() =~= s.drop_last().update(i, e));
        assert(s.drop_last()[i] == s[i]);
        lemma_entries_map_update(s.drop_last(), i, e);
        assert(t.last() == s.last());
        assert(s.last().addr != e.addr);
    }
}

pub proof fn lemma_entries_map_push(s: Seq<LedgerEntry>, e: LedgerEntry)
    ensures
        entries_map(s.push(e)) =~= entries_map(s).insert(e.addr, e.account@),
{
    assert(s.push(e).drop_last() =~= s);
    assert(s.push(e).last() == e);
}

pub proof fn lemma_entries_map_pointwise(s1: Seq<LedgerEntry>, s2: Seq<LedgerEntry>)
    requires
        s1.len() == s2.len(),
        forall|i: int| 0 <= i < s1.len() ==> s1[i].addr == s2[i].addr && s1[i].account@
            == s2[i].account@,
    ensures
        entries_map(s1) =~= entries_map(s2),
    decreases s1.len(),
{
    if s1.len() == 0 {
    } else {
        assert(forall|i: int| 0 <= i < s1.drop_last().len() ==> s1.drop_last()[i] == s1[i]
            && s2.drop_last()[i] == s2[i]);
        lemma_entries_map_pointwise(s1.drop_last(), s2.drop_last());
        assert(s1.last() == s1[s1.len() - 1]);
        assert(s2.last() == s2[s1.len() - 1]);
    }
}

impl Ledger {
    /// No address is stored twice.
    pub open spec fn wf(&self) -> bool {
        forall|p: int, q: int| 0 <= p < q < self.entries@.len() ==> self.entries@[p].addr
            != self.entries@[q].addr
    }

    fn find_index(&self, a: Addr) -> (r: Option<usize>)
        ensures
            match r {
                Some(i) => i < self.entries@.len() && self.entries@[i as int].addr == a,
                None => forall|i: int| 0 <= i < self.entries@.len() ==> self.entries@[i].addr != a,
            },
    {
        let mut i: usize = 0;
        while i < self.entries.len()
            invariant
                i <= self.entries@.len(),
                forall|k: int| 0 <= k < i ==> self.entries@[k].addr != a,
            decreases self.entries@.len() - i,
        {
            if self.entries[i].addr == a {
                return Some(i);
            }
            i = i + 1;
        }
        None
    }

    /// Whether an account exists at the address.
    pub fn contains_account(&self, a: Addr) -> (r: bool)
        ensures
            r == self@.accounts.contains_key(a),
    {
        proof {
            lemma_entries_map_contains(self.entries@, a);
        }
        match self.find_index(a) {
            Some(_) => true,
            None => false,
        }
    }

    /// The account at the address, if any.
    pub fn get_account(&self, a: Addr) -> (r: Option<&Account>)
        requires
            self.wf(),
        ensures
            match r {
                Some(acc) => self@.accounts.contains_key(a) && acc@ == self@.accounts[a],
                None => !self@.accounts.contains_key(a),
            },
    {
        proof {
            lemma_entries_map_contains(self.entries@, a);
        }
        match self.find_index(a) {
            Some(i) => {
                proof {
                    lemma_entries_map_index(self.entries@, i as int);
                }
                Some(&self.entries[i].account)
            },
            None => None,
        }
    }

    /// Store an account at an address, creating or replacing it.
    pub fn set_account(&mut self, a: Addr, account: Account)
        requires
            old(self).wf(),
        ensures
            final(self).wf(),
            final(self)@.accounts =~= old(self)@.accounts.insert(a, account@),
            final(self)@.lamports_per_byte_year == old(self)@.lamports_per_byte_year,
    {
        let ghost s0 = self.entries@;
        match self.find_index(a) {
            Some(i) => {
                self.entries.set(i, LedgerEntry { addr: a, account });
                proof {
                    lemma_entries_map_update(s0, i as int, self.entries@[i as int]);
                    assert(forall|p: int, q: int| 0 <= p < q < self.entries@.len()
                        ==> self.entries@[p].addr != self.entries@[q].addr);
                }
            },
            None => {
                self.entries.push(LedgerEntry { addr: a, account });
                proof {
                    lemma_entries_map_push(s0, self.entries@.last());
                    assert(forall|p: int, q: int| 0 <= p < q < self.entries@.len()
                        ==> self.entries@[p].addr != self.entries@[q].addr);
                }
            },
        }
    }

    /// A deep copy of the ledger with the same contents.
    pub fn duplicate(&self) -> (r: Ledger)
        ensures
            r@ == self@,
            self.wf() ==> r.wf(),
    {
        let mut entries: Vec<LedgerEntry> = Vec::new();
        let mut i: usize = 0;
        while i < self.entries.len()
            invariant
                i <= self.entries@.len(),
                entries@.len() == i as int,
                forall|k: int| 0 <= k < i ==> entries@[k].addr == self.entries@[k].addr
                    && entries@[k].account@ == self.entries@[k].account@,
            decreases self.entries@.len() - i,
        {
            entries.push(LedgerEntry {
                addr: self.entries[i].addr,
                account: self.entries[i].account.duplicate(),
            });
            i = i + 1;
        }
        let r = Ledger { entries, lamports_per_byte_year: self.lamports_per_byte_year };
        proof {
            lemma_entries_map_pointwise(r.entries@, self.entries@);
            assert(r@ == self@);
        }
        r
    }
}

/// The lamports that make an account of `data_len` bytes rent-exempt under a
/// rent schedule charging `rate` lamports per byte-year, over the fixed
/// two-year exemption horizon and with the fixed 128-byte storage overhead.
pub open spec fn min_balance_spec(rate: u64, data_len: u64) -> int {
    (128 + data_len) * rate * 2
}

/// Compute the rent-exemption minimum; `None` when it exceeds `u64::MAX`
/// (no balance could then be sufficient).
pub fn min_balance(rate: u64, data_len: u64) -> (r: Option<u64>)
    ensures
        match r {
            Some(v) => v == min_balance_spec(rate, data_len),
            None => min_balance_spec(rate, data_len) > u64::MAX,
        },
{
    if rate == 0 {
        return Some(0);
    }
    match data_len.checked_add(128) {
        Some(base) => match base.checked_mul(rate) {
            Some(per_year) => {
                let r = per_year.checked_mul(2);
                proof {
                    assert(per_year * 2 == (128 + data_len) * rate * 2) by (nonlinear_arith)
                        requires
                            per_year == (data_len + 128) * rate,
                    ;
                }
                r
            },
            None => {
                proof {
                    assert((128 + data_len) * rate * 2 > u64::MAX) by (nonlinear_arith)
                        requires
                            rate >= 1,
                            (data_len + 128) * rate > u64::MAX,
                    ;
                }
                None
            },
        },
        None => {
            proof {
                assert((128 + data_len) * rate * 2 > u64::MAX) by (nonlinear_arith)
                    requires
                        rate >= 1,
                        data_len + 128 > u64::MAX,
                    ;
            }
            None
        },
    }
}

/// Whether a balance meets the rent-exemption minimum.
pub fn balance_sufficient(rate: u64, data_len: u64, lamports: u64) -> (r: bool)
    ensures
        r == (lamports >= min_balance_spec(rate, data_len)),
{
    match min_balance(rate, data_len) {
        Some(v) => lamports >= v,
        None => false,
    }
}

} // verus!
