use treasury::asset::AssetRef;
use treasury::collect::{collect_fees, CollectFeeRequirement};
use treasury::distribute::distribute;
use treasury::instr::Instruction;
use treasury::state::{init, DistributeTarget, TreasuryState};
use treasury::ContractError;

const INITAL_BALANCE: u128 = 1000000000000000000u128;

fn mock_treasury() -> (TreasuryState, AssetRef) {
    let owner = String::from("owner");
    let finance = String::from("finance");
    let cw20 = AssetRef::CustomToken { address: String::from("cw20") };
    let state = init(
        owner.clone(),
        cw20.clone(),
        Some(owner),
        String::from("router"),
        vec![
            DistributeTarget {
                weight: 40,
                addr: String::from("ping_pong"),
                msg_hook: Some(b"ping".to_vec()),
            },
            DistributeTarget { weight: 60, addr: finance, msg_hook: None },
        ],
    )
    .unwrap();
    (state, cw20)
}

#[test]
fn test_distribute_happy_path() {
    let owner = String::from("owner");
    let finance = String::from("finance");
    let distribute_amount: u128 = 100;
    let (state, cw20) = mock_treasury();

    // the treasury holds exactly the amount to distribute
    let treasury_balance: u128 = 100;
    assert_eq!(treasury_balance, distribute_amount);

    let res = distribute(&state, &owner, distribute_amount, treasury_balance).unwrap();

    // the ping callback fires: exactly one payload-bearing instruction
    let ping: Vec<&Instruction> = res
        .iter()
        .filter(|i| matches!(i, Instruction::TransferWithPayload { .. }))
        .collect();
    assert!(!ping.is_empty());

    // everything is paid out: 40 to the callback recipient, 60 to finance,
    // nothing is left behind
    assert_eq!(
        res[0],
        Instruction::TransferWithPayload {
            asset: cw20.clone(),
            recipient: String::from("ping_pong"),
            amount: 40u128,
            payload: b"ping".to_vec(),
        }
    );
    assert_eq!(
        res[1],
        Instruction::Transfer { asset: cw20, recipient: finance, amount: 60u128 }
    );
    let paid: u128 = res
        .iter()
        .map(|i| match i {
            Instruction::Transfer { amount, .. } => *amount,
            Instruction::TransferWithPayload { amount, .. } => *amount,
            Instruction::Swap { .. } => 0,
        })
        .sum();
    assert_eq!(distribute_amount - paid, 0u128);
}

#[test]
fn test_exceed_balance_distribute() {
    // arrange
    let owner = String::from("owner");
    let distribute_amount: u128 = 100;
    let (state, _cw20) = mock_treasury();

    // act: the treasury holds 100 but one more is requested
    let treasury_balance: u128 = 100;
    let err = distribute(
        &state,
        &owner,
        distribute_amount.checked_add(1).unwrap(),
        treasury_balance,
    )
    .unwrap_err();

    // assert
    assert_eq!(err, ContractError::ExceedContractBalance);
}

#[test]
fn test_collect_fees_balance_distribute() {
    // arrange
    let owner = String::from("owner");
    let (state, cw20) = mock_treasury();

    // the treasury was handed almost the whole native balance, one token's
    // worth is left with the sender for fees, and holds the cw20 allowance
    let orai_balance: u128 = 999999999999000000;
    let cw20_balance: u128 = INITAL_BALANCE;

    // act
    let _response = collect_fees(
        &state,
        &owner,
        &vec![
            CollectFeeRequirement {
                asset: AssetRef::NativeCoin { denom: String::from("orai") },
                minimum_receive: None,
            },
            CollectFeeRequirement { asset: cw20, minimum_receive: None },
        ],
        &vec![orai_balance, cw20_balance],
    )
    .unwrap();
}
