//! The record store: an opaque keyed byte-store mapping 32-byte addresses
//! to funded accounts, with atomic allocate and fetch operations. Allocation
//! is occupancy-checked and funded by a payer according to a cost schedule.

use vstd::prelude::*;
use vstd::map::*;
use crate::error::ChatError;
use crate::state::{bytes_eq, clone_bytes};

verus! {

/// The mathematical value of one stored account: its funding balance and
/// its record bytes.
pub ghost struct AccountV {
    pub lamports: u64,
    pub data: Seq<u8>,
}

/// One entry of the store.
pub struct LedgerEntry {
    /// The 32-byte address of the account.
    pub addr: Vec<u8>,
    /// The funding balance of the account.
    pub lamports: u64,
    /// The record bytes stored at the address.
    pub data: Vec<u8>,
}

impl LedgerEntry {
    /// The mathematical value of this entry's account.
    pub open spec fn acct(self) -> AccountV {
        AccountV { lamports: self.lamports, data: self.data@ }
    }
}

/// The map that a sequence of entries denotes, later entries shadowing
/// earlier ones of the same address.
pub open spec fn entries_map(s: Seq<LedgerEntry>) -> Map<Seq<u8>, AccountV>
    decreases s.len(),
{
    if s.len() == 0 {
        Map::empty()
    } else {
        entries_map(s.drop_last()).insert(s.last().addr@, s.last().acct())
    }
}

/// Whether the entries carry pairwise distinct addresses.
pub open spec fn entries_unique(s: Seq<LedgerEntry>) -> bool {
    forall|i: int, j: int| 0 <= i < j < s.len() ==> s[i].addr@ != s[j].addr@
}

/// Every entry of a unique sequence is in the map, with its own account.
proof fn lemma_map_index(s: Seq<LedgerEntry>, i: int)
    requires
        entries_unique(s),
        0 <= i < s.len(),
    ensures
        entries_map(s).contains_key(s[i].addr@),
        entries_map(s)[s[i].addr@] == s[i].acct(),
    decreases s.len(),
{
    if i == s.len() - 1 {
    } else {
        assert(entries_unique(s.drop_last()));
        assert(s.drop_last()[i] == s[i]);
        lemma_map_index(s.drop_last(), i);
        assert(s[i].addr@ != s.last().addr@);
    }
}

/// Every key of the map comes from some entry.
proof fn lemma_map_dom(s: Seq<LedgerEntry>, k: Seq<u8>)
    requires
        entries_map(s).contains_key(k),
    ensures
        exists|i: int| 0 <= i < s.len() && #[trigger] s[i].addr@ == k,
    decreases s.len(),
{
    if s.len() > 0 {
        if s.last().addr@ == k {
            assert(s[s.len() - 1].addr@ == k);
        } else {
            lemma_map_dom(s.drop_last(), k);
            let i = choose|i: int| 0 <= i < s.drop_last().len() && #[trigger] s.drop_last()[i].addr@
                == k;
            assert(s[i].addr@ == k);
        }
    }
}

/// Updating one entry in place updates its key in the map.
proof fn lemma_map_update(s: Seq<LedgerEntry>, i: int, e: LedgerEntry)
    requires
        entries_unique(s),
        0 <= i < s.len(),
        e.addr@ == s[i].addr@,
    ensures
        entries_map(s.update(i, e)) == entries_map(s).insert(e.addr@, e.acct()),
    decreases s.len(),
{
    let s2 = s.update(i, e);
    if i == s.len() - 1 {
        assert(s2.drop_last() =~= s.drop_last());
        assert(s2.last() == e);
        assert(entries_map(s2) =~= entries_map(s).insert(e.addr@, e.acct()));
    } else {
        assert(s2.drop_last() =~= s.drop_last().update(i, e));
        assert(entries_unique(s.drop_last()));
        assert(s.drop_last()[i] == s[i]);
        lemma_map_update(s.drop_last(), i, e);
        assert(s2.last() == s.last());
        assert(s[i].addr@ != s.last().addr@);
        assert(entries_map(s2) =~= entries_map(s).insert(e.addr@, e.acct()));
    }
}

/// Appending a fresh entry inserts its key in the map.
proof fn lemma_map_push(s: Seq<LedgerEntry>, e: LedgerEntry)
    ensures
        entries_map(s.push(e)) == entries_map(s).insert(e.addr@, e.acct()),
{
    assert(s.push(e).drop_last() =~= s);
    assert(s.push(e).last() == e);
}

/// The record store. Its mathematical value is a map from addresses to
/// accounts.
pub struct Ledger {
    entries: Vec<LedgerEntry>,
}

impl View for Ledger {
    type V = Map<Seq<u8>, AccountV>;

    closed spec fn view(&self) -> Map<Seq<u8>, AccountV> {
        entries_map(self.entries@)
    }
}

impl Ledger {
    /// Internal invariant: entries carry pairwise distinct addresses.
    pub closed spec fn wf(self) -> bool {
        entries_unique(self.entries@)
    }

    /// An empty store.
    pub fn new() -> (r: Ledger)
        ensures
            r.wf(),
            r@ == Map::<Seq<u8>, AccountV>::empty(),
    {
        Ledger { entries: Vec::new() }
    }

    /// The index of the entry at `addr`, if the address is occupied.
    fn lookup(&self, addr: &Vec<u8>) -> (r: Option<usize>)
        requires
            self.wf(),
        ensures
            match r {
                Some(i) => i < self.entries@.len() && self.entries@[i as int].addr@ == addr@
                    && self@.contains_key(addr@) && self@[addr@] == self.entries@[
                    i as int
                ].acct(),
                None => !self@.contains_key(addr@),
            },
    {
        let n = self.entries.len();
        let mut i: usize = 0;
        while i < n
            invariant
                self.wf(),
                n == self.entries@.len(),
                i <= n,
                forall|k: int| 0 <= k < i ==> self.entries@[k].addr@ != addr@,
            decreases n - i,
        {
            if bytes_eq(&self.entries[i].addr, addr) {
                proof { lemma_map_index(self.entries@, i as int); }
                return Some(i);
            }
            i = i + 1;
        }
        proof {
            if self@.contains_key(addr@) {
                lemma_map_dom(self.entries@, addr@);
            }
        }
        None
    }

    /// Whether the address is occupied.
    pub fn contains(&self, addr: &Vec<u8>) -> (r: bool)
        requires
            self.wf(),
        ensures
            r == self@.contains_key(addr@),
    {
        self.lookup(addr).is_some()
    }

    /// The funding balance of the account at `addr`, if occupied.
    pub fn lamports_of(&self, addr: &Vec<u8>) -> (r: Option<u64>)
        requires
            self.wf(),
        ensures
            match r {
                Some(v) => self@.contains_key(addr@) && v == self@[addr@].lamports,
                None => !self@.contains_key(addr@),
            },
    {
        match self.lookup(addr) {
            Some(i) => Some(self.entries[i].lamports),
            None => None,
        }
    }

    /// Fetches a copy of the record bytes stored at `addr`, if occupied.
    pub fn fetch(&self, addr: &Vec<u8>) -> (r: Option<Vec<u8>>)
        requires
            self.wf(),
        ensures
            match r {
                Some(d) => self@.contains_key(addr@) && d@ == self@[addr@].data,
                None => !self@.contains_key(addr@),
            },
    {
        match self.lookup(addr) {
            Some(i) => Some(clone_bytes(&self.entries[i].data)),
            None => None,
        }
    }

    /// Creates a funded account with the given record bytes at a free
    /// address.
    pub fn insert_account(&mut self, addr: Vec<u8>, lamports: u64, data: Vec<u8>)
        requires
            old(self).wf(),
            !old(self)@.contains_key(addr@),
        ensures
            final(self).wf(),
            final(self)@ == old(self)@.insert(addr@, AccountV { lamports, data: data@ }),
    {
        proof {
            assert forall|k: int| 0 <= k < self.entries@.len() implies self.entries@[k].addr@
                != addr@ by {
                lemma_map_index(self.entries@, k);
            }
            lemma_map_push(self.entries@, LedgerEntry { addr, lamports, data });
        }
        self.entries.push(LedgerEntry { addr, lamports, data });
    }

    /// Removes `amount` from the balance of the account at `addr`.
    pub fn debit(&mut self, addr: &Vec<u8>, amount: u64)
        requires
            old(self).wf(),
            old(self)@.contains_key(addr@),
            amount <= old(self)@[addr@].lamports,
        ensures
            final(self).wf(),
            final(self)@ == old(self)@.insert(
                addr@,
                AccountV {
                    lamports: (old(self)@[addr@].lamports - amount) as u64,
                    data: old(self)@[addr@].data,
                },
            ),
    {
        let i = match self.lookup(addr) {
            Some(i) => i,
            None => {
                proof { assert(false); }
                return ;
            },
        };
        let e = &self.entries[i];
        let updated = LedgerEntry {
            addr: clone_bytes(&e.addr),
            lamports: e.lamports - amount,
            data: clone_bytes(&e.data),
        };
        proof {
            lemma_map_update(self.entries@, i as int, updated);
        }
        let ghost olds = self.entries@;
        self.entries.set(i, updated);
        proof {
            assert(self.entries@ =~= olds.update(i as int, updated));
            assert(entries_unique(self.entries@));
        }
    }

    /// Overwrites the record bytes of the account at `addr`, leaving its
    /// balance as it stands.
    pub fn set_data(&mut self, addr: &Vec<u8>, data: Vec<u8>)
        requires
            old(self).wf(),
            old(self)@.contains_key(addr@),
        ensures
            final(self).wf(),
            final(self)@ == old(self)@.insert(
                addr@,
                AccountV { lamports: old(self)@[addr@].lamports, data: data@ },
            ),
    {
        let i = match self.lookup(addr) {
            Some(i) => i,
            None => {
                proof { assert(false); }
                return ;
            },
        };
        let e = &self.entries[i];
        let updated = LedgerEntry { addr: clone_bytes(&e.addr), lamports: e.lamports, data };
        proof {
            lemma_map_update(self.entries@, i as int, updated);
        }
        let ghost olds = self.entries@;
        self.entries.set(i, updated);
        proof {
            assert(self.entries@ =~= olds.update(i as int, updated));
            assert(entries_unique(self.entries@));
        }
    }
}

impl Ledger {
    /// Atomically reserves space for a new record at `addr`, funded by
    /// `payer` according to the cost schedule, and writes the record bytes.
    /// Fails if the funding overflows the machine word, the address is
    /// already occupied, or the payer cannot cover the minimum funding; any
    /// failure leaves the store unchanged.
    pub fn allocate(
        &mut self,
        addr: Vec<u8>,
        data: Vec<u8>,
        payer: &Vec<u8>,
        sched: &CostSchedule,
    ) -> (r: Result<(), ChatError>)
        requires
            old(self).wf(),
        ensures
            final(self).wf(),
            (match spec_allocate(old(self)@, addr@, data@, payer@, *sched) {
                Ok(l2) => r is Ok && final(self)@ == l2,
                Err(e) => r == Err::<(), ChatError>(e) && final(self)@ == old(self)@,
            }),
    {
        let funding = match required_funding(data.len() as u64, sched) {
            Ok(f) => f,
            Err(e) => { return Err(e); },
        };
        if self.contains(&addr) {
            return Err(ChatError::AddressOccupied);
        }
        let balance = match self.lamports_of(payer) {
            Some(b) => b,
            None => { return Err(ChatError::NotRentExempt); },
        };
        if balance < funding {
            return Err(ChatError::NotRentExempt);
        }
        self.debit(payer, funding);
        self.insert_account(addr, funding, data);
        Ok(())
    }
}

/// The cost schedule that the external ledger supplies: the minimum funding
/// to make an allocation of `size` bytes permanent is
/// `size * cost_per_byte + base_cost`.
pub struct CostSchedule {
    /// Funding demanded for each byte of the record.
    pub cost_per_byte: u64,
    /// Fixed funding demanded for any record.
    pub base_cost: u64,
}

/// The minimum funding for an allocation of `size` bytes.
pub open spec fn sp_funding(size: nat, sched: CostSchedule) -> int {
    size * sched.cost_per_byte + sched.base_cost
}

/// What an allocation does to the store: the funding must fit the machine
/// word, the address must be free, and the payer must exist and cover the
/// funding; on success the payer is debited and the record bytes stand at
/// the address, as one atomic unit.
pub open spec fn spec_allocate(
    l: Map<Seq<u8>, AccountV>,
    addr: Seq<u8>,
    data: Seq<u8>,
    payer: Seq<u8>,
    sched: CostSchedule,
) -> Result<Map<Seq<u8>, AccountV>, ChatError> {
    let funding = sp_funding(data.len(), sched);
    if funding > u64::MAX {
        Err(ChatError::AmountOverflow)
    } else if l.contains_key(addr) {
        Err(ChatError::AddressOccupied)
    } else if !l.contains_key(payer) || l[payer].lamports < funding {
        Err(ChatError::NotRentExempt)
    } else {
        Ok(
            l.insert(
                payer,
                AccountV { lamports: (l[payer].lamports - funding) as u64, data: l[payer].data },
            ).insert(addr, AccountV { lamports: funding as u64, data }),
        )
    }
}

/// Computes the minimum funding for an allocation of `size` bytes, and
/// reports an overflow of the machine word as such.
pub fn required_funding(size: u64, sched: &CostSchedule) -> (r: Result<u64, ChatError>)
    ensures
        match r {
            Ok(f) => f == sp_funding(size as nat, *sched) && sp_funding(size as nat, *sched)
                <= u64::MAX,
            Err(e) => e == ChatError::AmountOverflow && sp_funding(size as nat, *sched)
                > u64::MAX,
        },
{
    proof {
        assert((size as int) * (sched.cost_per_byte as int) <= 0xffff_ffff_ffff_ffffu64
            * 0xffff_ffff_ffff_ffffu64) by (nonlinear_arith)
            requires
                0 <= size <= 0xffff_ffff_ffff_ffffu64,
                0 <= sched.cost_per_byte <= 0xffff_ffff_ffff_ffffu64,
        ;
    }
    let total: u128 = (size as u128) * (sched.cost_per_byte as u128) + (sched.base_cost as u128);
    if total > u64::MAX as u128 {
        Err(ChatError::AmountOverflow)
    } else {
        Ok(total as u64)
    }
}

} // verus!
