//! Properties of the ledger that span several calls, proved over the model
//! that the operations' contracts are stated in.

use vstd::prelude::*;

use crate::ledger::{LedgerModel, TokenError};

verus! {

/// One mutating call on a ledger, with the views of the values handed to it.
pub ghost enum Call {
    Transfer { from: Seq<char>, to: Seq<char>, amount: u64 },
    Approve { owner: Seq<char>, spender: Seq<char>, amount: u64 },
    TransferFrom { spender: Seq<char>, from: Seq<char>, to: Seq<char>, amount: u64 },
}

/// What the call returns on ledger `m`.
pub open spec fn call_result(m: LedgerModel, c: Call) -> Result<(), TokenError> {
    match c {
        Call::Transfer { from, to, amount } => m.transfer_result(from, to, amount),
        Call::Approve { owner, spender, amount } => m.approve_result(owner, spender),
        Call::TransferFrom { spender, from, to, amount } => m.transfer_from_result(
            spender,
            from,
            to,
            amount,
        ),
    }
}

/// The ledger after the call on `m`.
pub open spec fn after_call(m: LedgerModel, c: Call) -> LedgerModel {
    match c {
        Call::Transfer { from, to, amount } => m.after_transfer(from, to, amount),
        Call::Approve { owner, spender, amount } => m.after_approve(owner, spender, amount),
        Call::TransferFrom { spender, from, to, amount } => m.after_transfer_from(
            spender,
            from,
            to,
            amount,
        ),
    }
}

/// The ledger after the calls of `cs` on `m`, in order, whether each succeeds or not.
pub open spec fn after_calls(m: LedgerModel, cs: Seq<Call>) -> LedgerModel
    decreases cs.len(),
{
    if cs.len() == 0 {
        m
    } else {
        after_call(after_calls(m, cs.drop_last()), cs.last())
    }
}

/// The call may write the balance of `a`.
pub open spec fn writes_balance(c: Call, a: Seq<char>) -> bool {
    match c {
        Call::Transfer { from, to, .. } => from == a || to == a,
        Call::Approve { .. } => false,
        Call::TransferFrom { from, to, .. } => from == a || to == a,
    }
}

/// The call may write the allowance of `(owner, spender)`.
pub open spec fn writes_allowance(c: Call, owner: Seq<char>, spender: Seq<char>) -> bool {
    match c {
        Call::Transfer { .. } => false,
        Call::Approve { owner: o, spender: s, .. } => o == owner && s == spender,
        Call::TransferFrom { spender: s, from, .. } => from == owner && s == spender,
    }
}

/// A single call keeps the total supply and the sum of the balances.
proof fn lemma_call_conserves(m: LedgerModel, c: Call)
    ensures
        after_call(m, c).total_supply == m.total_supply,
        after_call(m, c).circulating == m.circulating,
{
}

/// Conservation: on a ledger created by `new(creator, supply)`, after any
/// sequence of transfers, approvals and delegated transfers, successful or not,
/// the balances still add up to the total supply, which is still `supply`.
pub proof fn lemma_conservation(creator: Seq<char>, supply: u64, cs: Seq<Call>)
    ensures
        after_calls(LedgerModel::genesis(creator, supply), cs).conserved(),
        after_calls(LedgerModel::genesis(creator, supply), cs).total_supply == supply,
    decreases cs.len(),
{
    if cs.len() > 0 {
        lemma_conservation(creator, supply, cs.drop_last());
        lemma_call_conserves(after_calls(LedgerModel::genesis(creator, supply), cs.drop_last()), cs.last());
    }
}

/// Zero by default: on a ledger created by `new(creator, supply)`, an address
/// other than `creator` that no call of `cs` sent from or to has balance zero, and
/// a pair that no call of `cs` approved or spent from has allowance zero.
pub proof fn lemma_zero_default(
    creator: Seq<char>,
    supply: u64,
    cs: Seq<Call>,
    a: Seq<char>,
    owner: Seq<char>,
    spender: Seq<char>,
)
    requires
        a != creator,
        forall|i: int| 0 <= i < cs.len() ==> !writes_balance(#[trigger] cs[i], a),
        forall|i: int| 0 <= i < cs.len() ==> !writes_allowance(#[trigger] cs[i], owner, spender),
    ensures
        !after_calls(LedgerModel::genesis(creator, supply), cs).balances.contains_key(a),
        !after_calls(LedgerModel::genesis(creator, supply), cs).allowances.contains_key(
            (owner, spender),
        ),
        after_calls(LedgerModel::genesis(creator, supply), cs).balance(a) == 0,
        after_calls(LedgerModel::genesis(creator, supply), cs).allowance(owner, spender) == 0,
    decreases cs.len(),
{
    if cs.len() > 0 {
        let d = cs.drop_last();
        assert forall|i: int| 0 <= i < d.len() implies !writes_balance(#[trigger] d[i], a)
            && !writes_allowance(d[i], owner, spender) by {
            assert(d[i] == cs[i]);
        }
        lemma_zero_default(creator, supply, d, a, owner, spender);
        assert(!writes_balance(cs[cs.len() - 1], a));
        assert(!writes_allowance(cs[cs.len() - 1], owner, spender));
    }
}

/// Last approval wins: approving `x` and then `y` for the same pair leaves the
/// ledger as approving `y` alone does, with allowance `y`.
pub proof fn lemma_approve_overwrites(
    m: LedgerModel,
    owner: Seq<char>,
    spender: Seq<char>,
    x: u64,
    y: u64,
)
    requires
        owner != spender,
    ensures
        m.after_approve(owner, spender, x).after_approve(owner, spender, y) == m.after_approve(
            owner,
            spender,
            y,
        ),
        m.after_approve(owner, spender, x).after_approve(owner, spender, y).allowance(owner, spender)
            == y,
{
    assert(m.after_approve(owner, spender, x).after_approve(owner, spender, y).allowances
        =~= m.after_approve(owner, spender, y).allowances);
}

/// A refused call changes nothing: every balance, allowance and the supply
/// stay as they were.
pub proof fn lemma_failure_changes_nothing(m: LedgerModel, c: Call)
    requires
        call_result(m, c) is Err,
    ensures
        after_call(m, c) == m,
{
}

/// A successful `transfer_from(spender, owner, to, amount)` lowers the allowance
/// of `(owner, spender)` by exactly `amount` and leaves every other pair's
/// allowance as it was.
pub proof fn lemma_allowance_decrement(
    m: LedgerModel,
    spender: Seq<char>,
    owner: Seq<char>,
    to: Seq<char>,
    amount: u64,
)
    requires
        m.transfer_from_result(spender, owner, to, amount) is Ok,
    ensures
        m.after_transfer_from(spender, owner, to, amount).allowance(owner, spender) == m.allowance(
            owner,
            spender,
        ) - amount,
        forall|o: Seq<char>, s: Seq<char>|
            (o, s) != (owner, spender) ==> #[trigger] m.after_transfer_from(
                spender,
                owner,
                to,
                amount,
            ).allowance(o, s) == m.allowance(o, s),
{
}

} // verus!
