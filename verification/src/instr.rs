use vstd::prelude::*;

use crate::asset::{AssetRef, AssetRefV};

verus! {

/// One outbound instruction of a treasury call. The host executes the whole
/// batch of a call atomically and in order: either every instruction is
/// applied or none is.
#[derive(Debug, Clone, PartialEq)]
pub enum Instruction {
    /// Deliver `amount` of `asset` to `recipient`.
    Transfer { asset: AssetRef, recipient: String, amount: u128 },
    /// Deliver `amount` of `asset` to `recipient` and execute the opaque
    /// `payload` against `recipient` within the same atomic unit, after the
    /// funds are visible to it.
    TransferWithPayload { asset: AssetRef, recipient: String, amount: u128, payload: Vec<u8> },
    /// Ask the exchange service to convert `amount` of `offer_asset` into
    /// `ask_asset`. With a set `minimum_receive` the exchange must abort the
    /// whole batch when it cannot deliver at least that much.
    Swap { offer_asset: AssetRef, ask_asset: AssetRef, amount: u128, minimum_receive: Option<u128> },
}

/// The mathematical model of an [`Instruction`].
pub enum InstructionV {
    Transfer { asset: AssetRefV, recipient: Seq<char>, amount: int },
    TransferWithPayload { asset: AssetRefV, recipient: Seq<char>, amount: int, payload: Seq<u8> },
    Swap { offer_asset: AssetRefV, ask_asset: AssetRefV, amount: int, minimum_receive: Option<int> },
}

impl View for Instruction {
    type V = InstructionV;

    open spec fn view(&self) -> InstructionV {
        match self {
            Instruction::Transfer { asset, recipient, amount } => InstructionV::Transfer {
                asset: asset@,
                recipient: recipient@,
                amount: *amount as int,
            },
            Instruction::TransferWithPayload {
                asset,
                recipient,
                amount,
                payload,
            } => InstructionV::TransferWithPayload {
                asset: asset@,
                recipient: recipient@,
                amount: *amount as int,
                payload: payload@,
            },
            Instruction::Swap {
                offer_asset,
                ask_asset,
                amount,
                minimum_receive,
            } => InstructionV::Swap {
                offer_asset: offer_asset@,
                ask_asset: ask_asset@,
                amount: *amount as int,
                minimum_receive: match minimum_receive {
                    Some(m) => Some(*m as int),
                    None => None,
                },
            },
        }
    }
}

/// The model of an instruction batch.
pub open spec fn view_instrs(s: Seq<Instruction>) -> Seq<InstructionV> {
    s.map_values(|i: Instruction| i@)
}

/// Whether an instruction carries a callback payload.
pub open spec fn bears_payload(i: InstructionV) -> bool {
    i is TransferWithPayload
}

} // verus!
