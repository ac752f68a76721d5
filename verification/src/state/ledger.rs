//! The mathematical model of the balance ledger.
//!
//! A ledger is a map from (owner, currency) to a [`CurrencyAccount`]; an
//! unwritten key denotes the zero account. Every mutating operation of the
//! vault is modelled here as a function from ledger to ledger, and the
//! conservation laws at the end of the file are proved over arbitrary
//! sequences of these operations.
use vstd::prelude::*;

use crate::structs::CurrencyAccount;

verus! {

pub type LedgerKey = (Seq<char>, Seq<char>);

pub type LedgerMap = Map<LedgerKey, CurrencyAccount>;

/// What a key reads as: its account, or the zero account where none was
/// ever written. Reading never fails.
pub open spec fn account_of(m: LedgerMap, k: LedgerKey) -> CurrencyAccount {
    if m.dom().contains(k) {
        m[k]
    } else {
        CurrencyAccount { available: 0, locked: 0 }
    }
}

/// The funds a key holds in total, available and locked together.
pub open spec fn total_of(m: LedgerMap, k: LedgerKey) -> int {
    account_of(m, k).total()
}

/// A deposit credit is accepted unless it would push `available` past the
/// widest integer the ledger holds.
pub open spec fn deposit_ok(m: LedgerMap, k: LedgerKey, amount: u128) -> bool {
    account_of(m, k).available + amount <= u128::MAX
}

/// available += amount, materializing the account where absent.
pub open spec fn deposit_map(m: LedgerMap, k: LedgerKey, amount: u128) -> LedgerMap {
    let acc = account_of(m, k);
    m.insert(
        k,
        CurrencyAccount { available: (acc.available + amount) as u128, locked: acc.locked },
    )
}

/// A withdrawal debit needs the available balance to cover the amount; it
/// reads absent keys as zero rather than failing on them.
pub open spec fn debit_ok(m: LedgerMap, k: LedgerKey, amount: u128) -> bool {
    amount <= account_of(m, k).available
}

/// available -= amount.
pub open spec fn debit_map(m: LedgerMap, k: LedgerKey, amount: u128) -> LedgerMap {
    let acc = account_of(m, k);
    m.insert(
        k,
        CurrencyAccount { available: (acc.available - amount) as u128, locked: acc.locked },
    )
}

/// A lock needs an existing account whose available balance covers the
/// amount; the locked side must not overflow.
pub open spec fn lock_ok(m: LedgerMap, k: LedgerKey, amount: u128) -> bool {
    &&& m.dom().contains(k)
    &&& amount <= m[k].available
    &&& m[k].locked + amount <= u128::MAX
}

/// available -= amount, locked += amount.
pub open spec fn lock_map(m: LedgerMap, k: LedgerKey, amount: u128) -> LedgerMap {
    m.insert(
        k,
        CurrencyAccount {
            available: (m[k].available - amount) as u128,
            locked: (m[k].locked + amount) as u128,
        },
    )
}

/// An unlock needs an existing account whose locked balance covers the
/// amount; the available side must not overflow.
pub open spec fn unlock_ok(m: LedgerMap, k: LedgerKey, amount: u128) -> bool {
    &&& m.dom().contains(k)
    &&& amount <= m[k].locked
    &&& m[k].available + amount <= u128::MAX
}

/// locked -= amount, available += amount.
pub open spec fn unlock_map(m: LedgerMap, k: LedgerKey, amount: u128) -> LedgerMap {
    m.insert(
        k,
        CurrencyAccount {
            available: (m[k].available + amount) as u128,
            locked: (m[k].locked - amount) as u128,
        },
    )
}

/// The sender's ledger row after the debit half of a locked transfer.
pub open spec fn transfer_debited(m: LedgerMap, from: LedgerKey, amount: u128) -> LedgerMap {
    m.insert(
        from,
        CurrencyAccount { available: m[from].available, locked: (m[from].locked - amount) as u128 },
    )
}

/// A locked transfer needs an existing sender account whose locked balance
/// covers the amount, and the recipient's available side must not overflow.
/// The recipient is read after the debit, so a transfer to the sender's own
/// key behaves like an unlock.
pub open spec fn transfer_ok(m: LedgerMap, from: LedgerKey, to: LedgerKey, amount: u128) -> bool {
    &&& m.dom().contains(from)
    &&& amount <= m[from].locked
    &&& account_of(transfer_debited(m, from, amount), to).available + amount <= u128::MAX
}

/// from.locked -= amount; to.available += amount. The funds land available,
/// not locked, and the recipient account is materialized where absent.
pub open spec fn transfer_map(m: LedgerMap, from: LedgerKey, to: LedgerKey, amount: u128) -> LedgerMap {
    let m1 = transfer_debited(m, from, amount);
    let recip = account_of(m1, to);
    m1.insert(
        to,
        CurrencyAccount { available: (recip.available + amount) as u128, locked: recip.locked },
    )
}

/// One accounting operation, named by the parties it involves.
pub ghost enum LedgerOp {
    Deposit { owner: Seq<char>, currency: Seq<char>, amount: u128 },
    Withdraw { owner: Seq<char>, currency: Seq<char>, amount: u128 },
    Lock { owner: Seq<char>, currency: Seq<char>, amount: u128 },
    Unlock { owner: Seq<char>, currency: Seq<char>, amount: u128 },
    TransferLocked { from: Seq<char>, to: Seq<char>, currency: Seq<char>, amount: u128 },
}

/// Whether the ledger accepts the operation as it stands.
pub open spec fn op_ok(m: LedgerMap, op: LedgerOp) -> bool {
    match op {
        LedgerOp::Deposit { owner, currency, amount } => deposit_ok(m, (owner, currency), amount),
        LedgerOp::Withdraw { owner, currency, amount } => debit_ok(m, (owner, currency), amount),
        LedgerOp::Lock { owner, currency, amount } => lock_ok(m, (owner, currency), amount),
        LedgerOp::Unlock { owner, currency, amount } => unlock_ok(m, (owner, currency), amount),
        LedgerOp::TransferLocked { from, to, currency, amount } => transfer_ok(
            m,
            (from, currency),
            (to, currency),
            amount,
        ),
    }
}

/// The ledger after the operation: changed where the ledger accepts it,
/// untouched where it rejects it.
pub open spec fn apply_op(m: LedgerMap, op: LedgerOp) -> LedgerMap {
    if !op_ok(m, op) {
        m
    } else {
        match op {
            LedgerOp::Deposit { owner, currency, amount } => deposit_map(
                m,
                (owner, currency),
                amount,
            ),
            LedgerOp::Withdraw { owner, currency, amount } => debit_map(
                m,
                (owner, currency),
                amount,
            ),
            LedgerOp::Lock { owner, currency, amount } => lock_map(m, (owner, currency), amount),
            LedgerOp::Unlock { owner, currency, amount } => unlock_map(
                m,
                (owner, currency),
                amount,
            ),
            LedgerOp::TransferLocked { from, to, currency, amount } => transfer_map(
                m,
                (from, currency),
                (to, currency),
                amount,
            ),
        }
    }
}

/// The ledger after a whole sequence of operations, applied left to right.
pub open spec fn apply_ops(m: LedgerMap, ops: Seq<LedgerOp>) -> LedgerMap
    decreases ops.len(),
{
    if ops.len() == 0 {
        m
    } else {
        apply_ops(apply_op(m, ops.first()), ops.drop_first())
    }
}

/// How much one accepted operation moves in or out of the key `k`:
/// deposits add, withdrawals subtract, locked transfers move between the
/// sender's and the recipient's key, and lock/unlock move nothing at all.
/// A rejected operation moves nothing.
pub open spec fn op_delta(m: LedgerMap, op: LedgerOp, k: LedgerKey) -> int {
    if !op_ok(m, op) {
        0
    } else {
        match op {
            LedgerOp::Deposit { owner, currency, amount } => if (owner, currency) == k {
                amount as int
            } else {
                0
            },
            LedgerOp::Withdraw { owner, currency, amount } => if (owner, currency) == k {
                -(amount as int)
            } else {
                0
            },
            LedgerOp::Lock { .. } => 0,
            LedgerOp::Unlock { .. } => 0,
            LedgerOp::TransferLocked { from, to, currency, amount } => (
            if (to, currency) == k {
                amount as int
            } else {
                0
            }) - (
            if (from, currency) == k {
                amount as int
            } else {
                0
            }),
        }
    }
}

/// The net amount a sequence of operations moves in or out of key `k`.
pub open spec fn net_flow(m: LedgerMap, ops: Seq<LedgerOp>, k: LedgerKey) -> int
    decreases ops.len(),
{
    if ops.len() == 0 {
        0
    } else {
        op_delta(m, ops.first(), k) + net_flow(apply_op(m, ops.first()), ops.drop_first(), k)
    }
}

/// One operation changes the total `available + locked` of a key by exactly
/// its flow into that key.
pub proof fn lemma_apply_op_total(m: LedgerMap, op: LedgerOp, k: LedgerKey)
    ensures
        total_of(apply_op(m, op), k) == total_of(m, k) + op_delta(m, op, k),
{
    if op_ok(m, op) {
        match op {
            LedgerOp::TransferLocked { from, to, currency, amount } => {
                let kf = (from, currency);
                let kt = (to, currency);
                let m1 = transfer_debited(m, kf, amount);
                assert(total_of(m1, k) == if k == kf {
                    total_of(m, k) - amount
                } else {
                    total_of(m, k)
                });
            },
            _ => {},
        }
    }
}

/// Conservation of funds. Over any sequence of accounting operations, the
/// total `available + locked` of every (owner, currency) key changes exactly
/// by the net flow into that key: deposits add their amount, withdrawals
/// subtract theirs, a locked transfer moves its amount from the sender's key
/// to the recipient's, and lock and unlock never change any key's total.
pub proof fn lemma_conservation(m: LedgerMap, ops: Seq<LedgerOp>, k: LedgerKey)
    ensures
        total_of(apply_ops(m, ops), k) == total_of(m, k) + net_flow(m, ops, k),
    decreases ops.len(),
{
    if ops.len() > 0 {
        lemma_apply_op_total(m, ops.first(), k);
        lemma_conservation(apply_op(m, ops.first()), ops.drop_first(), k);
    }
}

/// Sequences of lock and unlock alone leave every key's total untouched.
pub proof fn lemma_lock_unlock_conserve(m: LedgerMap, ops: Seq<LedgerOp>, k: LedgerKey)
    requires
        forall|i: int|
            0 <= i < ops.len() ==> (ops[i] is Lock || ops[i] is Unlock),
    ensures
        total_of(apply_ops(m, ops), k) == total_of(m, k),
    decreases ops.len(),
{
    if ops.len() > 0 {
        assert(ops.first() == ops[0]);
        lemma_apply_op_total(m, ops.first(), k);
        assert(forall|i: int|
            0 <= i < ops.drop_first().len() ==> (#[trigger] ops.drop_first()[i] == ops[i + 1]));
        lemma_lock_unlock_conserve(apply_op(m, ops.first()), ops.drop_first(), k);
    }
}

/// A rejected operation — one whose amount its balance does not cover, one
/// against a missing account, or one that would overflow — leaves the whole
/// ledger exactly as it was. Together with the unsigned balances this is
/// non-negativity: no operation can drive a balance below zero; it fails
/// instead, changing nothing.
pub proof fn lemma_rejected_op_unchanged(m: LedgerMap, op: LedgerOp)
    requires
        !op_ok(m, op),
    ensures
        apply_op(m, op) == m,
{
}

/// Default-zero read: a key that was never written reads as the zero
/// account, never as an error.
pub proof fn lemma_unwritten_reads_zero(m: LedgerMap, k: LedgerKey)
    requires
        !m.dom().contains(k),
    ensures
        account_of(m, k) == (CurrencyAccount { available: 0u128, locked: 0u128 }),
{
}

} // verus!
