use vstd::prelude::*;

verus! {

/// A reference to a fungible asset: either a native ledger coin, identified
/// by its denomination string, or a custom token, identified by the address
/// of the contract that manages it.
#[derive(Debug)]
pub enum AssetRef {
    NativeCoin { denom: String },
    CustomToken { address: String },
}

impl Clone for AssetRef {
    fn clone(&self) -> (r: AssetRef)
        ensures
            r@ == self@,
    {
        match self {
            AssetRef::NativeCoin { denom } => AssetRef::NativeCoin { denom: denom.clone() },
            AssetRef::CustomToken { address } => AssetRef::CustomToken {
                address: address.clone(),
            },
        }
    }
}

/// The mathematical model of an [`AssetRef`]: the same tag over character
/// sequences.
pub enum AssetRefV {
    NativeCoin { denom: Seq<char> },
    CustomToken { address: Seq<char> },
}

impl View for AssetRef {
    type V = AssetRefV;

    open spec fn view(&self) -> AssetRefV {
        match self {
            AssetRef::NativeCoin { denom } => AssetRefV::NativeCoin { denom: denom@ },
            AssetRef::CustomToken { address } => AssetRefV::CustomToken { address: address@ },
        }
    }
}

impl PartialEq for AssetRef {
    fn eq(&self, other: &AssetRef) -> (r: bool) {
        match (self, other) {
            (AssetRef::NativeCoin { denom: a }, AssetRef::NativeCoin { denom: b }) => *a == *b,
            (AssetRef::CustomToken { address: a }, AssetRef::CustomToken { address: b }) => (
                *a == *b
            ),
            _ => false,
        }
    }
}

impl vstd::std_specs::cmp::PartialEqSpecImpl for AssetRef {
    open spec fn obeys_eq_spec() -> bool {
        true
    }

    open spec fn eq_spec(&self, other: &AssetRef) -> bool {
        self@ == other@
    }
}

impl Eq for AssetRef {

}

} // verus!
