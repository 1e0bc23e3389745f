use vstd::prelude::*;

use crate::asset::{AssetRef, AssetRefV};
use crate::error::ContractError;

verus! {

/// One entry of the distribution target table: a relative weight, the
/// recipient's account address, and an optional opaque callback payload that
/// is delivered together with the recipient's share.
#[derive(Debug, Clone)]
pub struct DistributeTarget {
    pub weight: u64,
    pub addr: String,
    pub msg_hook: Option<Vec<u8>>,
}

/// The mathematical model of a [`DistributeTarget`].
pub struct DistributeTargetV {
    pub weight: int,
    pub addr: Seq<char>,
    pub msg_hook: Option<Seq<u8>>,
}

impl View for DistributeTarget {
    type V = DistributeTargetV;

    open spec fn view(&self) -> DistributeTargetV {
        DistributeTargetV {
            weight: self.weight as int,
            addr: self.addr@,
            msg_hook: match self.msg_hook {
                Some(payload) => Some(payload@),
                None => None,
            },
        }
    }
}

/// The model of a target table.
pub open spec fn view_targets(ts: Seq<DistributeTarget>) -> Seq<DistributeTargetV> {
    ts.map_values(|t: DistributeTarget| t@)
}

/// The sum of the weights of the first `k` targets.
pub open spec fn sum_weights_upto(ts: Seq<DistributeTargetV>, k: int) -> int
    decreases k,
{
    if k <= 0 {
        0
    } else {
        sum_weights_upto(ts, k - 1) + ts[k - 1].weight
    }
}

/// The sum of all weights of the table.
pub open spec fn sum_weights(ts: Seq<DistributeTargetV>) -> int {
    sum_weights_upto(ts, ts.len() as int)
}

/// Every weight of the table fits in the weight type. This holds of the view
/// of every executable table; lemmas over arbitrary models state it
/// explicitly.
pub open spec fn weights_in_range(ts: Seq<DistributeTargetV>) -> bool {
    forall|i: int| 0 <= i < ts.len() ==> 0 <= #[trigger] ts[i].weight <= u64::MAX
}

/// A well-formed target table: non-empty with positive total weight. A table
/// that fails this is a configuration error, rejected at setup.
pub open spec fn wf_targets(ts: Seq<DistributeTargetV>) -> bool {
    &&& ts.len() > 0
    &&& weights_in_range(ts)
    &&& sum_weights(ts) > 0
}

/// The treasury's configuration: the admin account, the asset that is
/// distributed, an optional fee-collector account that may also trigger fee
/// collection, the exchange service that converts swept assets, and the
/// distribution target table. Only the admin is ever reassigned after setup.
#[derive(Debug, Clone)]
pub struct TreasuryState {
    pub admin: String,
    pub primary_asset: AssetRef,
    pub fee_collector: Option<String>,
    pub exchange_service: String,
    pub targets: Vec<DistributeTarget>,
}

/// The mathematical model of a [`TreasuryState`].
pub struct TreasuryStateV {
    pub admin: Seq<char>,
    pub primary_asset: AssetRefV,
    pub fee_collector: Option<Seq<char>>,
    pub exchange_service: Seq<char>,
    pub targets: Seq<DistributeTargetV>,
}

impl View for TreasuryState {
    type V = TreasuryStateV;

    open spec fn view(&self) -> TreasuryStateV {
        TreasuryStateV {
            admin: self.admin@,
            primary_asset: self.primary_asset@,
            fee_collector: match self.fee_collector {
                Some(addr) => Some(addr@),
                None => None,
            },
            exchange_service: self.exchange_service@,
            targets: view_targets(self.targets@),
        }
    }
}

/// Computes the total weight of a table. The sum of up to `usize::MAX`
/// weights, each at most `u64::MAX`, always fits the return type.
pub fn total_weight(targets: &Vec<DistributeTarget>) -> (r: u128)
    ensures
        r == sum_weights(view_targets(targets@)),
{
    let ghost vts = view_targets(targets@);
    let mut acc: u128 = 0;
    let mut i: usize = 0;
    while i < targets.len()
        invariant
            0 <= i <= targets@.len(),
            vts == view_targets(targets@),
            vts.len() == targets@.len(),
            acc == sum_weights_upto(vts, i as int),
            acc <= i * 0xffff_ffff_ffff_ffffu64,
        decreases targets@.len() - i,
    {
        let w = targets[i].weight;
        assert(vts[i as int] == targets@[i as int]@);
        acc = acc + (w as u128);
        i = i + 1;
    }
    acc
}

/// Creates the treasury state, rejecting a malformed target table.
///
/// Returns `Ok` exactly when the table is non-empty with positive total
/// weight; the resulting state carries the given fields unchanged. Otherwise
/// returns `Err(InvalidConfiguration)`.
pub fn init(
    admin: String,
    primary_asset: AssetRef,
    fee_collector: Option<String>,
    exchange_service: String,
    targets: Vec<DistributeTarget>,
) -> (r: Result<TreasuryState, ContractError>)
    ensures
        r is Ok <==> wf_targets(view_targets(targets@)),
        r is Ok ==> r->Ok_0@ == (TreasuryStateV {
            admin: admin@,
            primary_asset: primary_asset@,
            fee_collector: match fee_collector {
                Some(addr) => Some(addr@),
                None => None::<Seq<char>>,
            },
            exchange_service: exchange_service@,
            targets: view_targets(targets@),
        }),
        r is Err ==> r == Err::<TreasuryState, ContractError>(ContractError::InvalidConfiguration),
{
    let total = total_weight(&targets);
    if targets.len() == 0 || total == 0 {
        return Err(ContractError::InvalidConfiguration);
    }
    Ok(TreasuryState { admin, primary_asset, fee_collector, exchange_service, targets })
}

/// Authorization gate: only the admin may pass.
pub fn require_admin(state: &TreasuryState, caller: &String) -> (r: Result<(), ContractError>)
    ensures
        r is Ok <==> caller@ == state@.admin,
        r is Err ==> r == Err::<(), ContractError>(ContractError::Unauthorized),
{
    if *caller == state.admin {
        Ok(())
    } else {
        Err(ContractError::Unauthorized)
    }
}

/// Validation gate: a request must not exceed the observed balance.
pub fn require_sufficient_balance(amount: u128, observed_balance: u128) -> (r: Result<
    (),
    ContractError,
>)
    ensures
        r is Ok <==> amount <= observed_balance,
        r is Err ==> r == Err::<(), ContractError>(ContractError::ExceedContractBalance),
{
    if amount > observed_balance {
        Err(ContractError::ExceedContractBalance)
    } else {
        Ok(())
    }
}

impl TreasuryState {
    /// Transfers ownership: only the current admin may hand the treasury to a
    /// new admin; every other field is kept unchanged.
    pub fn update_admin(self, caller: &String, new_admin: String) -> (r: Result<
        TreasuryState,
        ContractError,
    >)
        ensures
            r is Ok <==> caller@ == self@.admin,
            r is Ok ==> r->Ok_0@ == (TreasuryStateV { admin: new_admin@, ..self@ }),
            r is Err ==> r == Err::<TreasuryState, ContractError>(ContractError::Unauthorized),
    {
        if *caller == self.admin {
            Ok(TreasuryState { admin: new_admin, ..self })
        } else {
            Err(ContractError::Unauthorized)
        }
    }
}

} // verus!
