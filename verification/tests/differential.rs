use parity_scale_codec::{Decode, Encode};
use staging_xcm::v2;
use xcm_extension::{Asset, ContractCallInput, Junction, Location};

/// A small generator of numbers, the same on every run.
struct Numbers(u64);

impl Numbers {
    fn next(&mut self) -> u64 {
        self.0 = self.0.wrapping_mul(6364136223846793005).wrapping_add(1442695040888963407);
        self.0 >> 33
    }

    fn below(&mut self, bound: u64) -> u64 {
        self.next() % bound
    }

    /// Bytes that lean towards the small values that tags and counts take.
    fn bytes(&mut self, len: usize) -> Vec<u8> {
        (0..len)
            .map(|_| match self.below(4) {
                0 => self.below(256) as u8,
                1 => self.below(4) as u8,
                _ => self.below(10) as u8,
            })
            .collect()
    }
}

fn their_location(bytes: &[u8]) -> Option<(Vec<u8>, usize)> {
    let mut input = bytes;
    let value = v2::MultiLocation::decode(&mut input).ok()?;
    Some((value.encode(), bytes.len() - input.len()))
}

fn our_location(bytes: &[u8]) -> Option<(Vec<u8>, usize)> {
    let (value, end) = Location::read(bytes, 0)?;
    Some((value.encode(), end))
}

fn their_junction(bytes: &[u8]) -> Option<(Vec<u8>, usize)> {
    let mut input = bytes;
    let value = v2::Junction::decode(&mut input).ok()?;
    Some((value.encode(), bytes.len() - input.len()))
}

fn our_junction(bytes: &[u8]) -> Option<(Vec<u8>, usize)> {
    let (value, end) = Junction::read(bytes, 0)?;
    let mut wire = Vec::new();
    value.write(&mut wire);
    Some((wire, end))
}

fn their_asset(bytes: &[u8]) -> Option<(Vec<u8>, usize)> {
    let mut input = bytes;
    let value = v2::MultiAsset::decode(&mut input).ok()?;
    Some((value.encode(), bytes.len() - input.len()))
}

fn our_asset(bytes: &[u8]) -> Option<(Vec<u8>, usize)> {
    let (value, end) = Asset::read(bytes, 0)?;
    Some((value.encode(), end))
}

type TheirContractCall =
    (staging_xcm::VersionedLocation, Vec<u8>, u64, staging_xcm::VersionedAsset, u64);

fn is_of_version_one(versioned: &TheirContractCall) -> bool {
    matches!(versioned.0, staging_xcm::VersionedLocation::V2(_))
        && matches!(versioned.3, staging_xcm::VersionedAsset::V2(_))
}

#[test]
fn junctions_decode_as_in_the_messaging_crate() {
    let mut numbers = Numbers(1);
    let mut accepted = 0;
    for _ in 0..20_000 {
        let len = numbers.below(40) as usize;
        let bytes = numbers.bytes(len);
        let ours = our_junction(&bytes);
        assert_eq!(ours, their_junction(&bytes), "{:?}", bytes);
        if let Some((wire, end)) = ours {
            assert_eq!(&wire[..], &bytes[..end]);
            accepted += 1;
        }
    }
    assert!(accepted > 1_000);
}

#[test]
fn locations_decode_as_in_the_messaging_crate() {
    let mut numbers = Numbers(2);
    let mut accepted = 0;
    for _ in 0..20_000 {
        let len = numbers.below(48) as usize;
        let bytes = numbers.bytes(len);
        let ours = our_location(&bytes);
        assert_eq!(ours, their_location(&bytes), "{:?}", bytes);
        if let Some((wire, end)) = ours {
            assert_eq!(&wire[..], &bytes[..end]);
            accepted += 1;
        }
    }
    assert!(accepted > 1_000);
}

#[test]
fn assets_decode_as_in_the_messaging_crate() {
    let mut numbers = Numbers(3);
    let mut accepted = 0;
    for _ in 0..20_000 {
        let len = numbers.below(48) as usize;
        let mut bytes = numbers.bytes(len);
        if len > 0 && numbers.below(2) == 0 {
            bytes[0] = numbers.below(2) as u8;
        }
        let ours = our_asset(&bytes);
        assert_eq!(ours, their_asset(&bytes), "{:?}", bytes);
        if let Some((wire, end)) = ours {
            assert_eq!(&wire[..], &bytes[..end]);
            accepted += 1;
        }
    }
    assert!(accepted > 100);
}

#[test]
fn damaged_contract_calls_decode_as_in_the_codec() {
    let whole = (
        staging_xcm::VersionedLocation::V2(v2::MultiLocation {
            parents: 1,
            interior: v2::Junctions::X2(
                v2::Junction::Parachain(2000),
                v2::Junction::AccountId32 { network: v2::NetworkId::Any, id: [6; 32] },
            ),
        }),
        vec![1u8, 2, 3],
        70_000u64,
        staging_xcm::VersionedAsset::V2(v2::MultiAsset {
            id: v2::AssetId::Concrete(v2::MultiLocation::here()),
            fun: v2::Fungibility::Fungible(1 << 70),
        }),
        5u64,
    )
        .encode();
    let mut numbers = Numbers(4);
    let mut accepted = 0;
    for _ in 0..20_000 {
        let mut bytes = whole.clone();
        for _ in 0..1 + numbers.below(2) {
            let at = numbers.below(bytes.len() as u64) as usize;
            bytes[at] = numbers.bytes(1)[0];
        }
        if numbers.below(8) == 0 {
            bytes.truncate(numbers.below(bytes.len() as u64) as usize);
        }
        // The codec takes a prefix; the dispatcher takes nothing but the whole.
        let theirs = TheirContractCall::decode(&mut &bytes[..])
            .ok()
            .filter(|value| value.encode().len() == bytes.len() && is_of_version_one(value))
            .map(|value| value.encode());
        let ours = ContractCallInput::decode(&bytes).ok().map(|value| value.encode());
        assert_eq!(ours, theirs, "{:?}", bytes);
        if ours.is_some() {
            accepted += 1;
        }
    }
    assert!(accepted > 1_000);
}

/// The wire form of a location of a few short junctions.
fn small_location(numbers: &mut Numbers, most_parents: u64, most_junctions: u64) -> Vec<u8> {
    let count = numbers.below(most_junctions + 1) as u8;
    let mut wire = vec![numbers.below(most_parents + 1) as u8, count];
    for _ in 0..count {
        match numbers.below(4) {
            0 => wire.extend_from_slice(&[0, 4 * numbers.below(3) as u8]),
            1 => wire.extend_from_slice(&[4, numbers.below(3) as u8]),
            2 => wire.push(7),
            _ => wire.extend_from_slice(&[5, 4 * numbers.below(3) as u8]),
        }
    }
    wire
}

#[test]
fn reanchoring_agrees_with_the_messaging_crate_on_many_assets() {
    let mut numbers = Numbers(5);
    let mut moved = 0;
    let mut refused = 0;
    for _ in 0..5_000 {
        let place = small_location(&mut numbers, 9, 8);
        let target = small_location(&mut numbers, 9, 4);
        let ancestry = small_location(&mut numbers, 0, 4);
        let mut asset = vec![0u8];
        asset.extend_from_slice(&place);
        asset.extend_from_slice(&[0, 4 * numbers.below(60) as u8]);

        let their_asset = v2::MultiAsset::decode(&mut &asset[..]).expect("an asset");
        let their_target = v2::MultiLocation::decode(&mut &target[..]).expect("a location");
        let their_ancestry = v2::MultiLocation::decode(&mut &ancestry[..]).expect("a location");
        let theirs = their_asset.reanchored(&their_target, &their_ancestry);

        let (our_asset, _) = Asset::read(&asset, 0).expect("an asset");
        let (our_target, _) = Location::read(&target, 0).expect("a location");
        let (our_ancestry, _) = Location::read(&ancestry, 0).expect("a location");
        let ours = our_asset.reanchored(&our_target, &our_ancestry);

        match (ours, theirs) {
            (Ok(ours), Ok(theirs)) => {
                assert_eq!(ours.encode(), theirs.encode());
                moved += 1;
            },
            (Err(error), Err(())) => {
                assert_eq!(error, xcm_extension::Error::UnsupportedVersion);
                refused += 1;
            },
            (ours, theirs) => panic!("{:?} against {:?} for {:?}", ours, theirs, asset),
        }
    }
    assert!(moved > 500);
    assert!(refused > 50);
}
