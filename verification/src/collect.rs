use vstd::prelude::*;

use crate::asset::{AssetRef, AssetRefV};
use crate::error::ContractError;
use crate::instr::{view_instrs, Instruction, InstructionV};
use crate::state::{TreasuryState, TreasuryStateV};

verus! {

/// The denomination of the chain's native fee-paying coin.
pub open spec fn native_fee_denom() -> Seq<char> {
    "orai"@
}

/// Returns the native fee denomination as an owned string.
pub fn fee_denom() -> (r: String)
    ensures
        r@ == native_fee_denom(),
{
    "orai".to_owned()
}

/// The minimal balance of the native fee coin the treasury always retains,
/// so that it is never left unable to pay its own transaction costs.
pub const NATIVE_FEE_RESERVE: u128 = 1000000;

/// Whether an asset is the chain's native fee-paying coin.
pub open spec fn is_native_fee_asset(a: AssetRefV) -> bool {
    a matches AssetRefV::NativeCoin { denom } && denom == native_fee_denom()
}

/// Decides whether an asset is the native fee coin.
pub fn is_native_fee_coin(a: &AssetRef) -> (r: bool)
    ensures
        r == is_native_fee_asset(a@),
{
    match a {
        AssetRef::NativeCoin { denom } => {
            let f = fee_denom();
            *denom == f
        },
        AssetRef::CustomToken { .. } => false,
    }
}

/// The sweepable surplus of an asset at an observed balance: the full
/// balance, except that the native fee coin retains the reserve.
pub open spec fn sweepable(a: AssetRefV, balance: int) -> int {
    if is_native_fee_asset(a) {
        if balance > NATIVE_FEE_RESERVE as int {
            balance - NATIVE_FEE_RESERVE as int
        } else {
            0
        }
    } else {
        balance
    }
}

/// One requirement of a fee-collection call: the asset to sweep and an
/// optional floor on what its conversion must yield.
#[derive(Debug, Clone)]
pub struct CollectFeeRequirement {
    pub asset: AssetRef,
    pub minimum_receive: Option<u128>,
}

/// The mathematical model of a [`CollectFeeRequirement`].
pub struct CollectFeeRequirementV {
    pub asset: AssetRefV,
    pub minimum_receive: Option<int>,
}

impl View for CollectFeeRequirement {
    type V = CollectFeeRequirementV;

    open spec fn view(&self) -> CollectFeeRequirementV {
        CollectFeeRequirementV {
            asset: self.asset@,
            minimum_receive: match self.minimum_receive {
                Some(m) => Some(m as int),
                None => None,
            },
        }
    }
}

/// The model of a requirement list.
pub open spec fn view_reqs(rs: Seq<CollectFeeRequirement>) -> Seq<CollectFeeRequirementV> {
    rs.map_values(|r: CollectFeeRequirement| r@)
}

/// The model of a list of observed balances.
pub open spec fn view_balances(bs: Seq<u128>) -> Seq<int> {
    bs.map_values(|b: u128| b as int)
}

/// Whether a caller may trigger fee collection: the admin may, and so may
/// the configured fee collector.
pub open spec fn collect_authorized(s: TreasuryStateV, caller: Seq<char>) -> bool {
    caller == s.admin || s.fee_collector == Some(caller)
}

/// Decides whether the caller may trigger fee collection.
pub fn check_collect_authorized(state: &TreasuryState, caller: &String) -> (r: bool)
    ensures
        r == collect_authorized(state@, caller@),
{
    if *caller == state.admin {
        true
    } else {
        match &state.fee_collector {
            Some(fc) => *fc == *caller,
            None => false,
        }
    }
}

/// The instructions of the requirements from index `i` on, in call order:
/// one swap per requirement whose asset has a sweepable surplus and is not
/// already the primary asset. A requirement with no surplus, or whose asset
/// is the primary asset itself, yields nothing.
pub open spec fn collect_instrs_from(
    s: TreasuryStateV,
    reqs: Seq<CollectFeeRequirementV>,
    bals: Seq<int>,
    i: int,
) -> Seq<InstructionV>
    decreases reqs.len() - i,
{
    if i < 0 || i >= reqs.len() {
        Seq::empty()
    } else {
        let rest = collect_instrs_from(s, reqs, bals, i + 1);
        let surplus = sweepable(reqs[i].asset, bals[i]);
        if surplus > 0 && reqs[i].asset != s.primary_asset {
            seq![
                InstructionV::Swap {
                    offer_asset: reqs[i].asset,
                    ask_asset: s.primary_asset,
                    amount: surplus,
                    minimum_receive: reqs[i].minimum_receive,
                },
            ] + rest
        } else {
            rest
        }
    }
}

/// The full instruction batch of one fee-collection call.
pub open spec fn collect_instrs(
    s: TreasuryStateV,
    reqs: Seq<CollectFeeRequirementV>,
    bals: Seq<int>,
) -> Seq<InstructionV> {
    collect_instrs_from(s, reqs, bals, 0)
}

proof fn lemma_collect_noop_from(
    s: TreasuryStateV,
    reqs: Seq<CollectFeeRequirementV>,
    bals: Seq<int>,
    i: int,
)
    requires
        0 <= i,
        forall|k: int|
            0 <= k < reqs.len() ==> sweepable(#[trigger] reqs[k].asset, bals[k]) == 0,
    ensures
        collect_instrs_from(s, reqs, bals, i) == Seq::<InstructionV>::empty(),
    decreases reqs.len() - i,
{
    if i < reqs.len() {
        lemma_collect_noop_from(s, reqs, bals, i + 1);
    }
}

/// IDEMPOTENT NO-OP: a fee collection over no requirements, or over
/// requirements none of whose assets has any sweepable surplus, emits no
/// instruction at all.
pub proof fn lemma_collect_noop(
    s: TreasuryStateV,
    reqs: Seq<CollectFeeRequirementV>,
    bals: Seq<int>,
)
    requires
        forall|k: int|
            0 <= k < reqs.len() ==> sweepable(#[trigger] reqs[k].asset, bals[k]) == 0,
    ensures
        collect_instrs(s, reqs, bals) == Seq::<InstructionV>::empty(),
{
    lemma_collect_noop_from(s, reqs, bals, 0);
}

/// Computes the fee-collection batch for the given requirements and the
/// balances the ledger reported for them, pairwise.
///
/// Fails with `Unauthorized` unless the caller is the admin or the
/// configured fee collector. Otherwise it succeeds and returns, in call
/// order, one swap to the primary asset per requirement with a sweepable
/// surplus in a non-primary asset, each carrying the requirement's slippage
/// floor; the exchange service aborts the whole batch when it cannot meet a
/// floor (see [`settle_swap`]).
pub fn collect_fees(
    state: &TreasuryState,
    caller: &String,
    requirements: &Vec<CollectFeeRequirement>,
    balances: &Vec<u128>,
) -> (r: Result<Vec<Instruction>, ContractError>)
    requires
        requirements@.len() == balances@.len(),
    ensures
        r is Ok <==> collect_authorized(state@, caller@),
        r is Ok ==> view_instrs(r->Ok_0@) == collect_instrs(
            state@,
            view_reqs(requirements@),
            view_balances(balances@),
        ),
        r is Err ==> r == Err::<Vec<Instruction>, ContractError>(ContractError::Unauthorized),
{
    let ghost vreqs = view_reqs(requirements@);
    let ghost vbals = view_balances(balances@);
    if !check_collect_authorized(state, caller) {
        return Err(ContractError::Unauthorized);
    }
    let n = requirements.len();
    let mut out: Vec<Instruction> = Vec::new();
    let mut i: usize = 0;
    while i < n
        invariant
            0 <= i <= n,
            n == requirements@.len(),
            n == balances@.len(),
            vreqs == view_reqs(requirements@),
            vbals == view_balances(balances@),
            vreqs.len() == n,
            vbals.len() == n,
            view_instrs(out@) + collect_instrs_from(state@, vreqs, vbals, i as int)
                == collect_instrs(state@, vreqs, vbals),
        decreases n - i,
    {
        proof {
            assert(vreqs[i as int] == requirements@[i as int]@);
            assert(vbals[i as int] == balances@[i as int] as int);
        }
        let req = &requirements[i];
        let bal = balances[i];
        let surplus: u128 = if is_native_fee_coin(&req.asset) {
            if bal > NATIVE_FEE_RESERVE {
                bal - NATIVE_FEE_RESERVE
            } else {
                0
            }
        } else {
            bal
        };
        let ghost prev = out@;
        if surplus > 0 && !(req.asset == state.primary_asset) {
            let ins = Instruction::Swap {
                offer_asset: req.asset.clone(),
                ask_asset: state.primary_asset.clone(),
                amount: surplus,
                minimum_receive: req.minimum_receive,
            };
            assert(ins@ == (InstructionV::Swap {
                offer_asset: vreqs[i as int].asset,
                ask_asset: state@.primary_asset,
                amount: surplus as int,
                minimum_receive: vreqs[i as int].minimum_receive,
            }));
            out.push(ins);
            proof {
                assert(view_instrs(out@) =~= view_instrs(prev) + seq![ins@]);
                assert((view_instrs(prev) + seq![ins@]) + collect_instrs_from(
                    state@,
                    vreqs,
                    vbals,
                    i as int + 1,
                ) =~= view_instrs(prev) + (seq![ins@] + collect_instrs_from(
                    state@,
                    vreqs,
                    vbals,
                    i as int + 1,
                )));
            }
        }
        i = i + 1;
    }
    proof {
        assert(collect_instrs_from(state@, vreqs, vbals, n as int) =~= Seq::empty());
        assert(view_instrs(out@) + Seq::<InstructionV>::empty() =~= view_instrs(out@));
    }
    Ok(out)
}

/// Settles the outcome of one swap executed by the exchange service, which
/// reports how much of the primary asset it delivered. With a slippage floor
/// set, an output below the floor aborts the whole call with
/// `SlippageExceeded` — the host then rolls every balance back; otherwise
/// the delivered output becomes distributable.
pub fn settle_swap(minimum_receive: Option<u128>, amount_out: u128) -> (r: Result<
    u128,
    ContractError,
>)
    ensures
        r is Ok <==> (minimum_receive matches Some(m) ==> amount_out >= m),
        r is Ok ==> r->Ok_0 == amount_out,
        r is Err ==> r == Err::<u128, ContractError>(ContractError::SlippageExceeded),
{
    match minimum_receive {
        Some(m) => {
            if amount_out >= m {
                Ok(amount_out)
            } else {
                Err(ContractError::SlippageExceeded)
            }
        },
        None => Ok(amount_out),
    }
}

/// Settles the outcome of one ledger transfer or callback delivery: a
/// rejection by the ledger aborts the whole call with `TransferFailed`.
pub fn settle_transfer(accepted: bool) -> (r: Result<(), ContractError>)
    ensures
        r is Ok <==> accepted,
        r is Err ==> r == Err::<(), ContractError>(ContractError::TransferFailed),
{
    if accepted {
        Ok(())
    } else {
        Err(ContractError::TransferFailed)
    }
}

} // verus!
