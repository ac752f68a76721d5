//! The persisted state of the vault and its mathematical view.
//!
//! The concrete state keeps each keyed collection as a vector of entries with
//! pairwise-distinct keys; the view abstracts them into maps and a sequence,
//! which is what every contract in this crate speaks about.
use vstd::prelude::*;

use crate::structs::CurrencyAccount;

verus! {

/// One row of the authorized-handler relation.
pub struct HandlerEntry {
    pub addr: String,
    pub authorized: bool,
}

/// One row of the balance ledger: the account of `owner` in `currency`.
pub struct BalanceEntry {
    pub owner: String,
    pub currency: String,
    pub account: CurrencyAccount,
}

/// The whole state a vault operates on. Every operation takes it explicitly;
/// nothing is global, so each test can build an isolated state.
pub struct VaultState {
    pub admin: String,
    pub handlers: Vec<HandlerEntry>,
    pub currencies: Vec<String>,
    pub balances: Vec<BalanceEntry>,
}

/// The abstract state: the administrator, the handler relation, the registry
/// in its order, and the ledger as a map from (owner, currency) to account.
#[verifier::ext_equal]
pub ghost struct VaultView {
    pub admin: Seq<char>,
    pub handlers: Map<Seq<char>, bool>,
    pub currencies: Seq<Seq<char>>,
    pub balances: Map<(Seq<char>, Seq<char>), CurrencyAccount>,
}

pub open spec fn entry_key(e: BalanceEntry) -> (Seq<char>, Seq<char>) {
    (e.owner@, e.currency@)
}

/// The handler relation that a sequence of rows denotes; later rows win.
pub open spec fn handlers_map(s: Seq<HandlerEntry>) -> Map<Seq<char>, bool>
    decreases s.len(),
{
    if s.len() == 0 {
        Map::empty()
    } else {
        handlers_map(s.drop_last()).insert(s.last().addr@, s.last().authorized)
    }
}

/// The ledger map that a sequence of rows denotes; later rows win.
pub open spec fn balances_map(s: Seq<BalanceEntry>) -> Map<(Seq<char>, Seq<char>), CurrencyAccount>
    decreases s.len(),
{
    if s.len() == 0 {
        Map::empty()
    } else {
        balances_map(s.drop_last()).insert(entry_key(s.last()), s.last().account)
    }
}

pub open spec fn currency_views(s: Seq<String>) -> Seq<Seq<char>> {
    s.map_values(|c: String| c@)
}

impl View for VaultState {
    type V = VaultView;

    open spec fn view(&self) -> VaultView {
        VaultView {
            admin: self.admin@,
            handlers: handlers_map(self.handlers@),
            currencies: currency_views(self.currencies@),
            balances: balances_map(self.balances@),
        }
    }
}

impl VaultState {
    /// Keys are pairwise distinct in every keyed collection, so each key of
    /// the view corresponds to exactly one row.
    pub open spec fn wf(self) -> bool {
        &&& (forall|i: int, j: int|
            #![trigger self.handlers@[i], self.handlers@[j]]
            0 <= i < j < self.handlers@.len() ==> self.handlers@[i].addr@ != self.handlers@[j].addr@)
        &&& (forall|i: int, j: int|
            #![trigger self.currencies@[i], self.currencies@[j]]
            0 <= i < j < self.currencies@.len() ==> self.currencies@[i]@ != self.currencies@[j]@)
        &&& (forall|i: int, j: int|
            #![trigger self.balances@[i], self.balances@[j]]
            0 <= i < j < self.balances@.len() ==> entry_key(self.balances@[i]) != entry_key(
                self.balances@[j],
            ))
    }
}

impl VaultView {
    /// Whether `who` is an authorized handler; an absent entry reads as false.
    pub open spec fn handler_authorized(self, who: Seq<char>) -> bool {
        self.handlers.dom().contains(who) && self.handlers[who]
    }

    /// Whether `id` is an accepted currency identifier.
    pub open spec fn registered(self, id: Seq<char>) -> bool {
        self.currencies.contains(id)
    }
}

// --- how the ledger map relates to its rows ---

pub proof fn lemma_balances_map_index(s: Seq<BalanceEntry>, i: int)
    requires
        forall|p: int, q: int|
            #![trigger s[p], s[q]]
            0 <= p < q < s.len() ==> entry_key(s[p]) != entry_key(s[q]),
        0 <= i < s.len(),
    ensures
        balances_map(s).dom().contains(entry_key(s[i])),
        balances_map(s)[entry_key(s[i])] == s[i].account,
    decreases s.len(),
{
    if i == s.len() - 1 {
    } else {
        assert(s.drop_last()[i] == s[i]);
        lemma_balances_map_index(s.drop_last(), i);
        assert(entry_key(s[i]) != entry_key(s[s.len() - 1]));
    }
}

pub proof fn lemma_balances_map_absent(s: Seq<BalanceEntry>, k: (Seq<char>, Seq<char>))
    requires
        forall|i: int| 0 <= i < s.len() ==> entry_key(#[trigger] s[i]) != k,
    ensures
        !balances_map(s).dom().contains(k),
    decreases s.len(),
{
    if s.len() > 0 {
        assert(forall|i: int|
            0 <= i < s.drop_last().len() ==> entry_key(#[trigger] s.drop_last()[i]) != k);
        lemma_balances_map_absent(s.drop_last(), k);
        assert(entry_key(s[s.len() - 1]) != k);
    }
}

pub proof fn lemma_balances_map_update(s: Seq<BalanceEntry>, i: int, e: BalanceEntry)
    requires
        forall|p: int, q: int|
            #![trigger s[p], s[q]]
            0 <= p < q < s.len() ==> entry_key(s[p]) != entry_key(s[q]),
        0 <= i < s.len(),
        entry_key(e) == entry_key(s[i]),
    ensures
        balances_map(s.update(i, e)) == balances_map(s).insert(entry_key(e), e.account),
    decreases s.len(),
{
    let t = s.update(i, e);
    if i == s.len() - 1 {
        assert(t.drop_last() =~= s.drop_last());
        assert(t.last() == e);
        assert(balances_map(t) =~= balances_map(s).insert(entry_key(e), e.account));
    } else {
        assert(t.drop_last() =~= s.drop_last().update(i, e));
        assert(s.drop_last()[i] == s[i]);
        lemma_balances_map_update(s.drop_last(), i, e);
        assert(t.last() == s.last());
        // the two inserted keys differ, so the inserts commute
        assert(entry_key(s[i]) != entry_key(s[s.len() - 1]));
        assert(balances_map(t) =~= balances_map(s).insert(entry_key(e), e.account));
    }
}

pub proof fn lemma_balances_map_push(s: Seq<BalanceEntry>, e: BalanceEntry)
    ensures
        balances_map(s.push(e)) == balances_map(s).insert(entry_key(e), e.account),
{
    assert(s.push(e).drop_last() =~= s);
    assert(s.push(e).last() == e);
}

// --- how the handler map relates to its rows ---

pub proof fn lemma_handlers_map_index(s: Seq<HandlerEntry>, i: int)
    requires
        forall|p: int, q: int|
            #![trigger s[p], s[q]]
            0 <= p < q < s.len() ==> s[p].addr@ != s[q].addr@,
        0 <= i < s.len(),
    ensures
        handlers_map(s).dom().contains(s[i].addr@),
        handlers_map(s)[s[i].addr@] == s[i].authorized,
    decreases s.len(),
{
    if i == s.len() - 1 {
    } else {
        assert(s.drop_last()[i] == s[i]);
        lemma_handlers_map_index(s.drop_last(), i);
        assert(s[i].addr@ != s[s.len() - 1].addr@);
    }
}

pub proof fn lemma_handlers_map_absent(s: Seq<HandlerEntry>, k: Seq<char>)
    requires
        forall|i: int| 0 <= i < s.len() ==> (#[trigger] s[i]).addr@ != k,
    ensures
        !handlers_map(s).dom().contains(k),
    decreases s.len(),
{
    if s.len() > 0 {
        assert(forall|i: int|
            0 <= i < s.drop_last().len() ==> (#[trigger] s.drop_last()[i]).addr@ != k);
        lemma_handlers_map_absent(s.drop_last(), k);
        assert(s[s.len() - 1].addr@ != k);
    }
}

pub proof fn lemma_handlers_map_update(s: Seq<HandlerEntry>, i: int, e: HandlerEntry)
    requires
        forall|p: int, q: int|
            #![trigger s[p], s[q]]
            0 <= p < q < s.len() ==> s[p].addr@ != s[q].addr@,
        0 <= i < s.len(),
        e.addr@ == s[i].addr@,
    ensures
        handlers_map(s.update(i, e)) == handlers_map(s).insert(e.addr@, e.authorized),
    decreases s.len(),
{
    let t = s.update(i, e);
    if i == s.len() - 1 {
        assert(t.drop_last() =~= s.drop_last());
        assert(t.last() == e);
        assert(handlers_map(t) =~= handlers_map(s).insert(e.addr@, e.authorized));
    } else {
        assert(t.drop_last() =~= s.drop_last().update(i, e));
        assert(s.drop_last()[i] == s[i]);
        lemma_handlers_map_update(s.drop_last(), i, e);
        assert(t.last() == s.last());
        assert(s[i].addr@ != s[s.len() - 1].addr@);
        assert(handlers_map(t) =~= handlers_map(s).insert(e.addr@, e.authorized));
    }
}

pub proof fn lemma_handlers_map_push(s: Seq<HandlerEntry>, e: HandlerEntry)
    ensures
        handlers_map(s.push(e)) == handlers_map(s).insert(e.addr@, e.authorized),
{
    assert(s.push(e).drop_last() =~= s);
    assert(s.push(e).last() == e);
}

// --- shared executable lookups ---

/// The index of the ledger row keyed (owner, currency), if one exists.
pub(crate) fn find_balance_index(
    entries: &Vec<BalanceEntry>,
    owner: &String,
    currency: &String,
) -> (r: Option<usize>)
    ensures
        match r {
            Some(i) => i < entries@.len() && entry_key(entries@[i as int]) == (owner@, currency@),
            None => forall|i: int|
                0 <= i < entries@.len() ==> entry_key(#[trigger] entries@[i]) != (
                    owner@,
                    currency@,
                ),
        },
{
    let mut i: usize = 0;
    while i < entries.len()
        invariant
            i <= entries@.len(),
            forall|j: int| 0 <= j < i ==> entry_key(#[trigger] entries@[j]) != (owner@, currency@),
        decreases entries@.len() - i,
    {
        if entries[i].owner == *owner && entries[i].currency == *currency {
            return Some(i);
        }
        i += 1;
    }
    None
}

/// The index of the handler row for `addr`, if one exists.
pub(crate) fn find_handler_index(entries: &Vec<HandlerEntry>, addr: &String) -> (r: Option<usize>)
    ensures
        match r {
            Some(i) => i < entries@.len() && entries@[i as int].addr@ == addr@,
            None => forall|i: int| 0 <= i < entries@.len() ==> (#[trigger] entries@[i]).addr@ != addr@,
        },
{
    let mut i: usize = 0;
    while i < entries.len()
        invariant
            i <= entries@.len(),
            forall|j: int| 0 <= j < i ==> (#[trigger] entries@[j]).addr@ != addr@,
        decreases entries@.len() - i,
    {
        if entries[i].addr == *addr {
            return Some(i);
        }
        i += 1;
    }
    None
}

} // verus!
