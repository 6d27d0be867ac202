use parity_scale_codec::Encode;
use staging_xcm::v2;
use xcm_extension::{Asset, AssetId, AssetInstance, Error, Fungibility, Junction, Location, NetworkId};

fn place(parents: u8, interior: Vec<Junction>) -> Location {
    Location::new(parents, interior).expect("at most eight junctions")
}

fn some_of(location: Location, amount: u128) -> Asset {
    Asset { id: AssetId::Concrete(location), fun: Fungibility::Fungible(amount) }
}

#[test]
fn native_asset_is_seen_from_a_sibling_as_the_sending_chain() {
    // This chain is 1000 under the relay; its own asset goes to chain 2000.
    let ancestry = place(0, vec![Junction::Parachain(1000)]);
    let target = place(1, vec![Junction::Parachain(2000)]);
    let moved = some_of(Location::here(), 500).reanchored(&target, &ancestry);
    assert_eq!(moved, Ok(some_of(place(1, vec![Junction::Parachain(1000)]), 500)));
}

#[test]
fn asset_of_the_target_becomes_local_there() {
    let ancestry = place(0, vec![Junction::Parachain(1000)]);
    let target = place(1, vec![Junction::Parachain(2000)]);
    let fee = some_of(place(1, vec![Junction::Parachain(2000)]), 7);
    assert_eq!(fee.reanchored(&target, &ancestry), Ok(some_of(Location::here(), 7)));
}

#[test]
fn relay_asset_stays_one_step_up_for_a_sibling() {
    let ancestry = place(0, vec![Junction::Parachain(1000)]);
    let target = place(1, vec![Junction::Parachain(2000)]);
    let fee = some_of(place(1, vec![]), 9);
    assert_eq!(fee.reanchored(&target, &ancestry), Ok(some_of(place(1, vec![]), 9)));
}

#[test]
fn reanchoring_agrees_with_the_messaging_crate() {
    let ancestry = place(0, vec![Junction::Parachain(1000), Junction::PalletInstance(4)]);
    let target = place(2, vec![Junction::Parachain(3), Junction::OnlyChild]);
    let asset = Asset {
        id: AssetId::Concrete(place(1, vec![Junction::GeneralIndex(12)])),
        fun: Fungibility::NonFungible(AssetInstance::Array4([1, 2, 3, 4])),
    };
    let their_asset = v2::MultiAsset {
        id: v2::AssetId::Concrete(v2::MultiLocation {
            parents: 1,
            interior: v2::Junctions::X1(v2::Junction::GeneralIndex(12)),
        }),
        fun: v2::Fungibility::NonFungible(v2::AssetInstance::Array4([1, 2, 3, 4])),
    };
    let their_target = v2::MultiLocation {
        parents: 2,
        interior: v2::Junctions::X2(v2::Junction::Parachain(3), v2::Junction::OnlyChild),
    };
    let their_ancestry = v2::MultiLocation {
        parents: 0,
        interior: v2::Junctions::X2(
            v2::Junction::Parachain(1000),
            v2::Junction::PalletInstance(4),
        ),
    };
    let theirs = their_asset.reanchored(&their_target, &their_ancestry).expect("reachable");
    let ours = asset.reanchored(&target, &ancestry).expect("reachable");
    assert_eq!(ours.encode(), theirs.encode());
    assert_eq!(
        ours,
        Asset {
            id: AssetId::Concrete(place(
                2,
                vec![
                    Junction::Parachain(1000),
                    Junction::GeneralIndex(12),
                ]
            )),
            fun: Fungibility::NonFungible(AssetInstance::Array4([1, 2, 3, 4])),
        }
    );
}

#[test]
fn reanchoring_and_back_restores_the_asset() {
    let here = place(0, vec![Junction::Parachain(1000)]);
    let there = place(0, vec![Junction::Parachain(2000)]);
    let to_there = place(1, vec![Junction::Parachain(2000)]);
    let to_here = place(1, vec![Junction::Parachain(1000)]);
    let assets = vec![
        some_of(Location::here(), 1),
        some_of(place(0, vec![Junction::PalletInstance(50), Junction::GeneralIndex(1984)]), 2),
        some_of(place(1, vec![]), 3),
        some_of(place(1, vec![Junction::Parachain(2000)]), 4),
        some_of(place(1, vec![Junction::Parachain(3000), Junction::PalletInstance(1)]), 5),
    ];
    for asset in assets {
        let wire = asset.encode();
        let moved = asset.reanchored(&to_there, &here).expect("reachable");
        let back = moved.reanchored(&to_here, &there).expect("reachable");
        assert_eq!(back.encode(), wire);
    }
}

#[test]
fn abstract_asset_passes_through_unchanged() {
    let ancestry = place(0, vec![Junction::Parachain(1000)]);
    let target = place(1, vec![Junction::Parachain(2000)]);
    let asset = Asset { id: AssetId::Abstract(b"token".to_vec()), fun: Fungibility::Fungible(3) };
    let same = Asset { id: AssetId::Abstract(b"token".to_vec()), fun: Fungibility::Fungible(3) };
    assert_eq!(asset.reanchored(&target, &ancestry), Ok(same));
    // Also where a concrete asset would be out of reach.
    let far = place(9, vec![]);
    let asset = Asset { id: AssetId::Abstract(vec![]), fun: Fungibility::Fungible(0) };
    let same = Asset { id: AssetId::Abstract(vec![]), fun: Fungibility::Fungible(0) };
    assert_eq!(asset.reanchored(&far, &ancestry), Ok(same));
}

#[test]
fn target_out_of_reach_is_an_unsupported_version() {
    let ancestry = place(0, vec![Junction::Parachain(1000)]);
    // Nine steps up cannot be turned round: a location holds eight junctions.
    let far = place(9, vec![]);
    assert_eq!(some_of(Location::here(), 1).reanchored(&far, &ancestry), Err(Error::UnsupportedVersion));
}

#[test]
fn asset_too_deep_for_the_target_is_an_unsupported_version() {
    let ancestry = place(0, vec![Junction::Parachain(1000)]);
    let target = place(1, vec![Junction::Parachain(2000)]);
    let deep: Vec<Junction> = (0..8).map(|i| Junction::GeneralIndex(i)).collect();
    let asset = some_of(place(0, deep), 1);
    assert_eq!(asset.reanchored(&target, &ancestry), Err(Error::UnsupportedVersion));
}

#[test]
fn account_junction_survives_reanchoring() {
    let ancestry = place(0, vec![Junction::Parachain(1)]);
    let target = place(1, vec![Junction::Parachain(2)]);
    let account = Junction::AccountId32 { network: NetworkId::Named(vec![1, 2]), id: [8; 32] };
    let moved = some_of(place(0, vec![account]), 1).reanchored(&target, &ancestry);
    let account = Junction::AccountId32 { network: NetworkId::Named(vec![1, 2]), id: [8; 32] };
    assert_eq!(moved, Ok(some_of(place(1, vec![Junction::Parachain(1), account]), 1)));
}

#[test]
fn reanchor_outcome_reads_the_answer() {
    assert_eq!(Asset::reanchor_outcome(None), Err(Error::UnsupportedVersion));
    let asset = some_of(place(1, vec![Junction::Parachain(5)]), 10);
    let wire = asset.encode();
    assert_eq!(Asset::reanchor_outcome(Some(wire.clone())), Ok(asset));
    let mut longer = wire.clone();
    longer.push(0);
    assert_eq!(Asset::reanchor_outcome(Some(longer)), Err(Error::DecodeError));
    assert_eq!(Asset::reanchor_outcome(Some(wire[..3].to_vec())), Err(Error::DecodeError));
    assert_eq!(Asset::reanchor_outcome(Some(vec![])), Err(Error::DecodeError));
}
