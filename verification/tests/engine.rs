use treasury::asset::AssetRef;
use treasury::collect::{
    collect_fees, is_native_fee_coin, settle_swap, settle_transfer, CollectFeeRequirement,
    NATIVE_FEE_RESERVE,
};
use treasury::distribute::distribute;
use treasury::instr::Instruction;
use treasury::state::{
    init, require_admin, require_sufficient_balance, DistributeTarget, TreasuryState,
};
use treasury::ContractError;

fn primary() -> AssetRef {
    AssetRef::CustomToken { address: String::from("cw20") }
}

fn treasury_with(targets: Vec<DistributeTarget>) -> TreasuryState {
    init(
        String::from("owner"),
        primary(),
        Some(String::from("collector")),
        String::from("router"),
        targets,
    )
    .unwrap()
}

fn target(weight: u64, addr: &str) -> DistributeTarget {
    DistributeTarget { weight, addr: String::from(addr), msg_hook: None }
}

fn amounts(instrs: &[Instruction]) -> Vec<u128> {
    instrs
        .iter()
        .map(|i| match i {
            Instruction::Transfer { amount, .. } => *amount,
            Instruction::TransferWithPayload { amount, .. } => *amount,
            Instruction::Swap { amount, .. } => *amount,
        })
        .collect()
}

#[test]
fn distribute_conserves_with_remainder() {
    // weights 1 and 2 over amount 100: the floors are 33 and 66, the
    // dropped unit goes to the first target in table order
    let state = treasury_with(vec![target(1, "a"), target(2, "b")]);
    let owner = String::from("owner");
    let res = distribute(&state, &owner, 100, 100).unwrap();
    assert_eq!(amounts(&res), vec![34u128, 66u128]);
    assert_eq!(amounts(&res).iter().sum::<u128>(), 100u128);
}

#[test]
fn distribute_heavier_weight_gets_no_less() {
    let state = treasury_with(vec![target(10, "a"), target(20, "b")]);
    let owner = String::from("owner");
    let res = distribute(&state, &owner, 100, 100).unwrap();
    let shares = amounts(&res);
    assert_eq!(shares, vec![34u128, 66u128]);
    assert!(shares[1] >= shares[0]);
}

#[test]
fn distribute_zero_share_target_emits_nothing() {
    // a zero-weight target with a callback hook gets share zero: no
    // instruction and no callback for it
    let hooked = DistributeTarget {
        weight: 0,
        addr: String::from("hooked"),
        msg_hook: Some(b"ping".to_vec()),
    };
    let state = treasury_with(vec![hooked, target(1, "b")]);
    let owner = String::from("owner");
    let res = distribute(&state, &owner, 5, 5).unwrap();
    assert_eq!(res.len(), 1);
    assert_eq!(
        res[0],
        Instruction::Transfer { asset: primary(), recipient: String::from("b"), amount: 5u128 }
    );
}

#[test]
fn distribute_conserves_over_many_targets() {
    let state = treasury_with(vec![
        target(3, "a"),
        target(1, "b"),
        target(4, "c"),
        target(1, "d"),
        target(5, "e"),
        target(9, "f"),
        target(2, "g"),
    ]);
    let owner = String::from("owner");
    let res = distribute(&state, &owner, 103, 103).unwrap();
    // floors are [12, 4, 16, 4, 20, 37, 8]; the two dropped units go to the
    // first two targets
    assert_eq!(amounts(&res), vec![13u128, 5, 16, 4, 20, 37, 8]);
    assert_eq!(amounts(&res).iter().sum::<u128>(), 103u128);
}

#[test]
fn distribute_handles_huge_amounts_and_weights() {
    // the weighted product amount * weight does not fit 128 bits; the share
    // arithmetic must still be exact
    let state = treasury_with(vec![target(u64::MAX, "a"), target(u64::MAX, "b")]);
    let owner = String::from("owner");
    let amount = u128::MAX - 1;
    let res = distribute(&state, &owner, amount, u128::MAX).unwrap();
    let shares = amounts(&res);
    assert_eq!(shares, vec![amount / 2, amount / 2]);
    assert_eq!(shares.iter().sum::<u128>(), amount);
}

#[test]
fn distribute_rejects_non_admin() {
    let state = treasury_with(vec![target(1, "a")]);
    let mallory = String::from("mallory");
    let err = distribute(&state, &mallory, 1, 100).unwrap_err();
    assert_eq!(err, ContractError::Unauthorized);
}

#[test]
fn distribute_rejects_zero_total_weight_table() {
    // a malformed table built directly, bypassing init
    let state = TreasuryState {
        admin: String::from("owner"),
        primary_asset: primary(),
        fee_collector: None,
        exchange_service: String::from("router"),
        targets: vec![target(0, "a")],
    };
    let owner = String::from("owner");
    let err = distribute(&state, &owner, 1, 100).unwrap_err();
    assert_eq!(err, ContractError::InvalidConfiguration);
}

#[test]
fn init_rejects_zero_total_weight() {
    let r = init(
        String::from("owner"),
        primary(),
        None,
        String::from("router"),
        vec![target(0, "a"), target(0, "b")],
    );
    assert_eq!(r.unwrap_err(), ContractError::InvalidConfiguration);
}

#[test]
fn init_rejects_empty_table() {
    let r = init(String::from("owner"), primary(), None, String::from("router"), vec![]);
    assert_eq!(r.unwrap_err(), ContractError::InvalidConfiguration);
}

#[test]
fn update_admin_transfers_ownership() {
    let state = treasury_with(vec![target(1, "a")]);
    let owner = String::from("owner");
    let state = state.update_admin(&owner, String::from("heir")).unwrap();
    assert_eq!(state.admin, String::from("heir"));
    let err = state.update_admin(&owner, String::from("owner")).unwrap_err();
    assert_eq!(err, ContractError::Unauthorized);
}

#[test]
fn balance_gate_boundary() {
    assert!(require_sufficient_balance(100, 100).is_ok());
    assert_eq!(
        require_sufficient_balance(101, 100).unwrap_err(),
        ContractError::ExceedContractBalance
    );
}

#[test]
fn admin_gate() {
    let state = treasury_with(vec![target(1, "a")]);
    assert!(require_admin(&state, &String::from("owner")).is_ok());
    assert_eq!(
        require_admin(&state, &String::from("collector")).unwrap_err(),
        ContractError::Unauthorized
    );
}

#[test]
fn collect_fees_no_requirements_is_a_noop() {
    let state = treasury_with(vec![target(1, "a")]);
    let owner = String::from("owner");
    let res = collect_fees(&state, &owner, &vec![], &vec![]).unwrap();
    assert!(res.is_empty());
}

#[test]
fn collect_fees_all_sweepables_zero_is_a_noop() {
    let state = treasury_with(vec![target(1, "a")]);
    let owner = String::from("owner");
    let reqs = vec![
        // the native coin's balance is exactly the retained reserve
        CollectFeeRequirement {
            asset: AssetRef::NativeCoin { denom: String::from("orai") },
            minimum_receive: None,
        },
        // another token with nothing to sweep
        CollectFeeRequirement {
            asset: AssetRef::CustomToken { address: String::from("usdc") },
            minimum_receive: None,
        },
    ];
    let res = collect_fees(&state, &owner, &reqs, &vec![NATIVE_FEE_RESERVE, 0]).unwrap();
    assert!(res.is_empty());
}

#[test]
fn collect_fees_keeps_the_native_reserve() {
    let state = treasury_with(vec![target(1, "a")]);
    let owner = String::from("owner");
    let reqs = vec![CollectFeeRequirement {
        asset: AssetRef::NativeCoin { denom: String::from("orai") },
        minimum_receive: Some(400),
    }];
    let res = collect_fees(&state, &owner, &reqs, &vec![NATIVE_FEE_RESERVE + 500]).unwrap();
    assert_eq!(
        res,
        vec![Instruction::Swap {
            offer_asset: AssetRef::NativeCoin { denom: String::from("orai") },
            ask_asset: primary(),
            amount: 500u128,
            minimum_receive: Some(400),
        }]
    );
}

#[test]
fn collect_fees_skips_the_primary_asset() {
    let state = treasury_with(vec![target(1, "a")]);
    let owner = String::from("owner");
    let reqs = vec![CollectFeeRequirement { asset: primary(), minimum_receive: None }];
    let res = collect_fees(&state, &owner, &reqs, &vec![12345]).unwrap();
    assert!(res.is_empty());
}

#[test]
fn collect_fees_allows_the_fee_collector() {
    let state = treasury_with(vec![target(1, "a")]);
    let collector = String::from("collector");
    assert!(collect_fees(&state, &collector, &vec![], &vec![]).is_ok());
    let mallory = String::from("mallory");
    let err = collect_fees(&state, &mallory, &vec![], &vec![]).unwrap_err();
    assert_eq!(err, ContractError::Unauthorized);
}

#[test]
fn slippage_floor_is_enforced() {
    // the exchange returned less than the floor: the call aborts
    assert_eq!(settle_swap(Some(100), 99).unwrap_err(), ContractError::SlippageExceeded);
    // at or above the floor the output is accepted
    assert_eq!(settle_swap(Some(100), 100).unwrap(), 100u128);
    // with no floor anything is accepted
    assert_eq!(settle_swap(None, 0).unwrap(), 0u128);
}

#[test]
fn rejected_transfer_aborts() {
    assert_eq!(settle_transfer(false).unwrap_err(), ContractError::TransferFailed);
    assert!(settle_transfer(true).is_ok());
}

#[test]
fn native_fee_coin_is_recognised() {
    assert!(is_native_fee_coin(&AssetRef::NativeCoin { denom: String::from("orai") }));
    assert!(!is_native_fee_coin(&AssetRef::NativeCoin { denom: String::from("atom") }));
    assert!(!is_native_fee_coin(&AssetRef::CustomToken { address: String::from("orai") }));
}

#[test]
fn asset_equality_is_structural() {
    let orai = AssetRef::NativeCoin { denom: String::from("orai") };
    assert!(orai == AssetRef::NativeCoin { denom: String::from("orai") });
    assert!(orai != AssetRef::NativeCoin { denom: String::from("atom") });
    assert!(orai != AssetRef::CustomToken { address: String::from("orai") });
}
