//! The contract's side: the payloads that a contract hands to the
//! dispatcher, built from what its caller gives.

use crate::asset::{
    Asset, AssetId, AssetIdView, AssetView, Fungibility, FungibilityView, VersionedAsset,
};
use crate::command::{
    ContractCallInput, ContractCallInputView, ValidateSendInput, ValidateSendInputView, Weight,
};
use crate::junction::{Junction, JunctionView, NetworkId, NetworkIdView};
use crate::location::{junction_views, Location, LocationView, VersionedLocation};
use crate::message::{contract_call_program, encode_program, Message, VersionedMessage};
use vstd::prelude::*;

verus! {

/// The selector of the contract message that `flip_sby` calls by default.
pub const FLIP_SELECTOR: [u8; 4] = [0x63, 0x3a, 0xa5, 0x51];

/// The weight ceiling of a sent call where the caller names none.
pub const DEFAULT_MAX_WEIGHT: u64 = 1_000_000_000;

/// The fee of a sent call where the caller names none.
pub const DEFAULT_MAX_FEES: u128 = 100_000_000_000_000_000;

/// The chain `para_id`, seen from a sibling.
pub open spec fn sibling(para_id: u32) -> LocationView {
    LocationView { parents: 1, interior: seq![JunctionView::Parachain(para_id)] }
}

/// The account `account` on the chain `para_id`, seen from a sibling.
pub open spec fn sibling_account(para_id: u32, account: Seq<u8>) -> LocationView {
    LocationView {
        parents: 1,
        interior: seq![
            JunctionView::Parachain(para_id),
            JunctionView::AccountId32 { network: NetworkIdView::Any, id: account },
        ],
    }
}

/// `amount` of the asset that lives at `location`.
pub open spec fn fungible(location: LocationView, amount: u128) -> AssetView {
    AssetView { id: AssetIdView::Concrete(location), fun: FungibilityView::Fungible(amount) }
}

/// The contract that reaches other chains through the dispatcher. It keeps
/// nothing between two calls.
#[derive(Debug, PartialEq, Eq, Structural)]
pub struct XcmContractPoC;

impl Default for XcmContractPoC {
    fn default() -> (r: XcmContractPoC)
        ensures
            r == XcmContractPoC,
    {
        XcmContractPoC
    }
}

impl XcmContractPoC {
    /// The contract as it is deployed.
    pub fn new() -> (r: XcmContractPoC)
        ensures
            r == XcmContractPoC,
    {
        XcmContractPoC
    }

    /// The payload of the call of `account` on the chain `para_id`: the
    /// data is the selector, the default one where none is given; the fee
    /// is `max_fees_amount` of that chain's own asset.
    pub fn flip_sby(
        &mut self,
        para_id: u32,
        account: [u8; 32],
        gas_limit: Weight,
        max_fees_amount: u128,
        max_weight: u64,
        selector: Option<[u8; 4]>,
    ) -> (r: ContractCallInput)
        ensures
            r@ == (ContractCallInputView {
                dest: sibling_account(para_id, account@),
                data: match selector {
                    Some(chosen) => chosen@,
                    None => FLIP_SELECTOR@,
                },
                gas_limit,
                max_fees: fungible(sibling(para_id), max_fees_amount),
                max_weight,
            }),
            r@.wf(),
    {
        let chosen: [u8; 4] = match selector {
            Some(chosen) => chosen,
            None => FLIP_SELECTOR,
        };
        let mut data: Vec<u8> = Vec::new();
        let mut i: usize = 0;
        while i < 4
            invariant
                i <= 4,
                data@ == chosen@.subrange(0, i as int),
            decreases 4 - i,
        {
            data.push(chosen[i]);
            proof {
                assert(data@ =~= chosen@.subrange(0, i + 1));
            }
            i = i + 1;
        }
        proof {
            assert(chosen@.subrange(0, 4) =~= chosen@);
        }
        let mut chain: Vec<Junction> = Vec::new();
        chain.push(Junction::Parachain(para_id));
        proof {
            assert(junction_views(chain@) =~= sibling(para_id).interior);
        }
        let fee_asset = Location::new(1, chain).unwrap();
        let mut contract: Vec<Junction> = Vec::new();
        contract.push(Junction::Parachain(para_id));
        contract.push(Junction::AccountId32 { network: NetworkId::Any, id: account });
        proof {
            assert(junction_views(contract@) =~= sibling_account(para_id, account@).interior);
        }
        let dest = Location::new(1, contract).unwrap();
        let max_fees = Asset {
            id: AssetId::Concrete(fee_asset),
            fun: Fungibility::Fungible(max_fees_amount),
        };
        ContractCallInput {
            dest: VersionedLocation::V1(dest),
            data,
            gas_limit,
            max_fees: VersionedAsset::V1(max_fees),
            max_weight,
        }
    }

    /// The payload of a send to the chain `para_id` that dispatches `call`
    /// there: withdraw the fee from this chain's account there, buy
    /// execution, transact, refund. Where the caller names no fee or no
    /// weight ceiling, the defaults stand in.
    pub fn send_message(
        &mut self,
        para_id: u32,
        call: Vec<u8>,
        max_fees: Option<u128>,
        max_weight: Option<u64>,
    ) -> (r: ValidateSendInput)
        ensures
            r@ == (ValidateSendInputView {
                dest: sibling(para_id),
                xcm: encode_program(
                    contract_call_program(
                        fungible(
                            LocationView { parents: 0, interior: Seq::empty() },
                            match max_fees {
                                Some(amount) => amount,
                                None => DEFAULT_MAX_FEES,
                            },
                        ),
                        match max_weight {
                            Some(weight) => weight,
                            None => DEFAULT_MAX_WEIGHT,
                        },
                        call@,
                    ),
                ),
            }),
    {
        let max_weight: u64 = match max_weight {
            Some(weight) => weight,
            None => DEFAULT_MAX_WEIGHT,
        };
        let max_fees: u128 = match max_fees {
            Some(amount) => amount,
            None => DEFAULT_MAX_FEES,
        };
        let mut chain: Vec<Junction> = Vec::new();
        chain.push(Junction::Parachain(para_id));
        proof {
            assert(junction_views(chain@) =~= sibling(para_id).interior);
        }
        let dest = Location::new(1, chain).unwrap();
        let fees = Asset {
            id: AssetId::Concrete(Location::here()),
            fun: Fungibility::Fungible(max_fees),
        };
        let xcm = Message::contract_call(&fees, max_weight, call.as_slice());
        ValidateSendInput { dest: VersionedLocation::V1(dest), xcm: VersionedMessage::V2(xcm) }
    }
}

} // verus!
