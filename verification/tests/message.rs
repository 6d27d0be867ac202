use parity_scale_codec::Encode;
use staging_xcm::v2::{self, Instruction};
use staging_xcm::{v3, VersionedXcm};
use xcm_extension::{
    Asset, AssetId, Error, Fungibility, Junction, Location, Message, VersionedMessage,
};

fn sample_program() -> v2::Xcm<()> {
    v2::Xcm(vec![
        Instruction::ClearOrigin,
        Instruction::Trap(7),
        Instruction::DescendOrigin(v2::Junctions::X1(v2::Junction::Parachain(9))),
    ])
}

fn fee(amount: u128) -> Asset {
    let chain = Location::new(1, vec![Junction::Parachain(2000)]).expect("one junction");
    Asset { id: AssetId::Concrete(chain), fun: Fungibility::Fungible(amount) }
}

fn their_fee(amount: u128) -> v2::MultiAsset {
    v2::MultiAsset {
        id: v2::AssetId::Concrete(v2::MultiLocation {
            parents: 1,
            interior: v2::Junctions::X1(v2::Junction::Parachain(2000)),
        }),
        fun: v2::Fungibility::Fungible(amount),
    }
}

#[test]
fn message_from_the_messaging_crate_is_taken() {
    let body = sample_program().encode();
    let message = Message::from_encoded(body.clone()).expect("a program");
    assert_eq!(message.encoded(), &body);
}

#[test]
fn empty_program_is_a_message() {
    let body = v2::Xcm::<()>(vec![]).encode();
    assert_eq!(body, vec![0]);
    assert!(Message::from_encoded(body).is_ok());
}

#[test]
fn bytes_that_are_no_program_are_a_decode_error() {
    assert_eq!(Message::from_encoded(vec![]), Err(Error::DecodeError));
    assert_eq!(Message::from_encoded(vec![4, 200]), Err(Error::DecodeError));
    assert_eq!(Message::from_encoded(vec![8, 10]), Err(Error::DecodeError));
    let mut longer = sample_program().encode();
    longer.push(0);
    assert_eq!(Message::from_encoded(longer), Err(Error::DecodeError));
}

#[test]
fn program_of_too_many_instructions_is_a_decode_error() {
    let many = v2::Xcm::<()>(vec![Instruction::ClearOrigin; 101]).encode();
    assert_eq!(Message::from_encoded(many), Err(Error::DecodeError));
    let most = v2::Xcm::<()>(vec![Instruction::ClearOrigin; 100]).encode();
    assert!(Message::from_encoded(most).is_ok());
}

#[test]
fn checked_follows_the_verdict() {
    assert_eq!(Message::checked(vec![1, 2, 3], false), Err(Error::DecodeError));
    let taken = Message::checked(vec![1, 2, 3], true).expect("taken");
    assert_eq!(taken.encoded(), &vec![1, 2, 3]);
}

#[test]
fn versioned_message_agrees_with_the_messaging_crate() {
    let wire = VersionedXcm::V2(sample_program()).encode();
    assert_eq!(wire[0], 2);
    let message = VersionedMessage::read(&wire, 0).expect("a message");
    assert_eq!(message.encode(), wire);
    assert_eq!(message.into_latest().encoded(), &sample_program().encode());
}

#[test]
fn versioned_message_is_read_from_where_it_starts() {
    let mut input = vec![0xee, 0xee];
    input.extend_from_slice(&VersionedXcm::V2(sample_program()).encode());
    assert!(VersionedMessage::read(&input, 2).is_ok());
    assert_eq!(VersionedMessage::read(&input, 0), Err(Error::UnsupportedVersion));
}

#[test]
fn versioned_message_of_another_version_is_unsupported() {
    let newer = VersionedXcm::<()>::V3(v3::Xcm(vec![v3::Instruction::ClearOrigin])).encode();
    assert_eq!(newer[0], 3);
    assert_eq!(VersionedMessage::read(&newer, 0), Err(Error::UnsupportedVersion));
    for tag in [0u8, 1, 4, 9] {
        assert_eq!(VersionedMessage::read(&[tag, 0], 0), Err(Error::UnsupportedVersion));
    }
}

#[test]
fn versioned_message_that_is_malformed_is_a_decode_error() {
    assert_eq!(VersionedMessage::read(&[], 0), Err(Error::DecodeError));
    assert_eq!(VersionedMessage::read(&[2], 0), Err(Error::DecodeError));
    assert_eq!(VersionedMessage::read(&[2, 4], 0), Err(Error::DecodeError));
    assert_eq!(VersionedMessage::read(&[2, 0, 0], 0), Err(Error::DecodeError));
    assert_eq!(VersionedMessage::read(&[2, 0], 2), Err(Error::DecodeError));
}

#[test]
fn composed_message_has_the_four_steps_in_order() {
    let call = vec![0xca, 0xfe, 0x00, 0x01];
    let message = Message::contract_call(&fee(1_000_000), 5_000_000_000, &call);
    let expected = v2::Xcm::<()>(vec![
        Instruction::WithdrawAsset(vec![their_fee(1_000_000)].into()),
        Instruction::BuyExecution {
            fees: their_fee(1_000_000),
            weight_limit: v2::WeightLimit::Unlimited,
        },
        Instruction::Transact {
            origin_type: v2::OriginKind::SovereignAccount,
            require_weight_at_most: 5_000_000_000,
            call: call.clone().into(),
        },
        Instruction::RefundSurplus,
    ]);
    assert_eq!(message.encoded(), &expected.encode());
    // The composed bytes are a program for the messaging crate too.
    assert_eq!(Message::from_encoded(message.encoded().clone()), Ok(message));
}

#[test]
fn composed_message_has_these_bytes() {
    let here = Asset { id: AssetId::Concrete(Location::here()), fun: Fungibility::Fungible(1) };
    let message = Message::contract_call(&here, 3, &[0xab]);
    assert_eq!(
        message.encoded(),
        &vec![
            0x10, // four instructions
            0, 4, 0, 0, 0, 0, 4, // withdraw one asset: here, fungible, 1
            19, 0, 0, 0, 0, 4, 0, // buy execution with it, unlimited
            6, 1, 12, 4, 0xab, // transact: sovereign account, 3, one byte of call
            20, // refund surplus
        ]
    );
}

#[test]
fn composed_message_carries_the_weight_ceiling_it_was_given() {
    for max_weight in [0u64, 1, 63, 64, 1 << 30, u64::MAX] {
        let message = Message::contract_call(&fee(0), max_weight, &[]);
        let expected = v2::Xcm::<()>(vec![
            Instruction::WithdrawAsset(vec![their_fee(0)].into()),
            Instruction::BuyExecution { fees: their_fee(0), weight_limit: v2::WeightLimit::Unlimited },
            Instruction::Transact {
                origin_type: v2::OriginKind::SovereignAccount,
                require_weight_at_most: max_weight,
                call: Vec::new().into(),
            },
            Instruction::RefundSurplus,
        ]);
        assert_eq!(message.encoded(), &expected.encode());
    }
}
