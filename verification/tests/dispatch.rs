use parity_scale_codec::{Decode, Encode};
use staging_xcm::v2::{self, Instruction};
use staging_xcm::{VersionedAsset as TheirVersionedAsset, VersionedLocation as TheirVersionedLocation, VersionedXcm};
use std::collections::HashMap;
use xcm_extension::{
    Asset, AssetId, Command, Context, Error, Event, Extension, Fungibility, Junction, Location,
    Message, NetworkId, Outcome, Reply, Request, Status, Step, ValidateSendInput,
    VersionedLocation, VersionedMessage, Weight,
};

const CONTRACT: [u8; 32] = [0xc0; 32];
const CALLER: [u8; 32] = [0xca; 32];
const REMOTE: [u8; 32] = [0xee; 32];

fn context() -> Context {
    Context {
        address: CONTRACT,
        caller: CALLER,
        value_transferred: 12345,
        ancestry: Location::new(0, vec![Junction::Parachain(1000)]).expect("one junction"),
    }
}

fn account(id: [u8; 32]) -> v2::MultiLocation {
    v2::MultiLocation {
        parents: 0,
        interior: v2::Junctions::X1(v2::Junction::AccountId32 {
            network: v2::NetworkId::Any,
            id,
        }),
    }
}

fn sibling(para_id: u32) -> v2::MultiLocation {
    v2::MultiLocation { parents: 1, interior: v2::Junctions::X1(v2::Junction::Parachain(para_id)) }
}

fn program() -> v2::Xcm<()> {
    v2::Xcm(vec![Instruction::ClearOrigin, Instruction::Trap(3)])
}

fn program_input() -> Vec<u8> {
    VersionedXcm::V2(program()).encode()
}

fn send_input(para_id: u32) -> Vec<u8> {
    (TheirVersionedLocation::V2(sibling(para_id)), VersionedXcm::V2(program())).encode()
}

fn contract_call_input(dest: v2::MultiLocation, fees: v2::MultiAsset) -> Vec<u8> {
    (
        TheirVersionedLocation::V2(dest),
        vec![0x63u8, 0x3a, 0xa5, 0x51],
        77_000u64,
        TheirVersionedAsset::V2(fees),
        9_000_000u64,
    )
        .encode()
}

fn remote_contract() -> v2::MultiLocation {
    v2::MultiLocation {
        parents: 1,
        interior: v2::Junctions::X2(
            v2::Junction::Parachain(2000),
            v2::Junction::AccountId32 { network: v2::NetworkId::Any, id: REMOTE },
        ),
    }
}

fn sibling_fee(amount: u128) -> v2::MultiAsset {
    v2::MultiAsset {
        id: v2::AssetId::Concrete(sibling(2000)),
        fun: v2::Fungibility::Fungible(amount),
    }
}

fn asked(step: Result<Step, Error>) -> Request {
    match step {
        Ok(Step::Call(request)) => request,
        other => panic!("expected a request, got {:?}", other),
    }
}

fn replied(step: Result<Step, Error>) -> Reply {
    match step {
        Ok(Step::Done(reply)) => reply,
        other => panic!("expected a reply, got {:?}", other),
    }
}

fn prepare(ext: &mut Extension, ref_time: u64) -> Reply {
    let request = asked(ext.call(0, &program_input(), &context()));
    replied(ext.resume(request, Event::Weighed(Some(ref_time)), &context()))
}

#[test]
fn new_extension_has_nothing_prepared() {
    let ext = Extension::new();
    assert_eq!(ext.prepared_execute(), &None);
    assert_eq!(ext.validated_send(), &None);
    assert_eq!(Extension::default(), Extension::new());
}

#[test]
fn command_numbers_are_zero_to_six() {
    let all = [
        Command::PrepareExecute,
        Command::Execute,
        Command::ValidateSend,
        Command::Send,
        Command::NewQuery,
        Command::TakeResponse,
        Command::ContractCall,
    ];
    for (number, command) in all.iter().enumerate() {
        assert_eq!(command.id(), number as u16);
        assert_eq!(Command::try_from(number as u16), Ok(*command));
    }
    assert_eq!(Command::try_from(7), Err(Error::InvalidCommand));
    assert_eq!(Command::try_from(99), Err(Error::InvalidCommand));
    assert_eq!(Command::try_from(u16::MAX), Err(Error::InvalidCommand));
}

#[test]
fn command_selectors_carry_the_extension_identifier() {
    assert_eq!(xcm_extension::command::ID, 10);
    assert_eq!(Command::PrepareExecute.selector(), 0x000a_0000);
    assert_eq!(Command::Execute.selector(), 0x000a_0001);
    assert_eq!(Command::ValidateSend.selector(), 0x000a_0002);
    assert_eq!(Command::Send.selector(), 0x000a_0003);
    assert_eq!(Command::NewQuery.selector(), 0x000a_0004);
    assert_eq!(Command::TakeResponse.selector(), 0x000a_0005);
    assert_eq!(Command::ContractCall.selector(), 0x000a_0006);
}

#[test]
fn status_codes_are_zero_and_one() {
    assert_eq!(Status::Success.code(), 0);
    assert_eq!(Status::NoResponse.code(), 1);
    assert_eq!(Error::from_status_code(0), Ok(()));
    assert_eq!(Error::from_status_code(1), Err(Error::NoResponse));
}

#[test]
fn unknown_command_is_invalid_whatever_the_input() {
    let inputs: Vec<Vec<u8>> = vec![vec![], vec![0xff; 40], program_input(), send_input(5)];
    for func_id in [7u16, 8, 99, 255, 256, u16::MAX] {
        for input in &inputs {
            let mut ext = Extension::new();
            prepare(&mut ext, 10);
            let before = format!("{:?}", ext);
            assert_eq!(ext.call(func_id, input, &context()), Err(Error::InvalidCommand));
            assert_eq!(format!("{:?}", ext), before);
        }
    }
}

#[test]
fn prepare_execute_asks_for_the_weight_and_stores_the_message() {
    let mut ext = Extension::new();
    let request = asked(ext.call(0, &program_input(), &context()));
    match &request {
        Request::Weigh { xcm } => assert_eq!(xcm.encoded(), &program().encode()),
        other => panic!("expected a weighing, got {:?}", other),
    }
    assert_eq!(ext.prepared_execute(), &None);
    let reply = replied(ext.resume(request, Event::Weighed(Some(0x0102_0304)), &context()));
    assert_eq!(reply.status, Status::Success);
    assert_eq!(reply.output, vec![4, 3, 2, 1, 0, 0, 0, 0]);
    let prepared = ext.prepared_execute().as_ref().expect("prepared");
    assert_eq!(prepared.weight, Weight::from_ref_time(0x0102_0304));
    assert_eq!(prepared.weight.ref_time(), 0x0102_0304);
    assert_eq!(prepared.xcm.encoded(), &program().encode());
}

#[test]
fn prepare_execute_refuses_what_is_no_message() {
    let mut ext = Extension::new();
    assert_eq!(ext.call(0, &[], &context()), Err(Error::DecodeError));
    assert_eq!(ext.call(0, &[2, 4], &context()), Err(Error::DecodeError));
    assert_eq!(ext.call(0, &[3, 0], &context()), Err(Error::UnsupportedVersion));
    let mut longer = program_input();
    longer.push(0);
    assert_eq!(ext.call(0, &longer, &context()), Err(Error::DecodeError));
    assert_eq!(ext.prepared_execute(), &None);
}

#[test]
fn message_that_cannot_be_weighed_is_not_prepared() {
    let mut ext = Extension::new();
    let request = asked(ext.call(0, &program_input(), &context()));
    assert_eq!(ext.resume(request, Event::Weighed(None), &context()), Err(Error::CannotWeigh));
    assert_eq!(ext.prepared_execute(), &None);
    assert_eq!(ext.call(1, &[], &context()), Err(Error::PreparationMissing));
}

#[test]
fn weighing_that_fails_keeps_what_was_prepared_before() {
    let mut ext = Extension::new();
    prepare(&mut ext, 55);
    let request = asked(ext.call(0, &program_input(), &context()));
    assert_eq!(ext.resume(request, Event::Weighed(None), &context()), Err(Error::CannotWeigh));
    assert_eq!(ext.prepared_execute().as_ref().expect("kept").weight, Weight::from_ref_time(55));
}

#[test]
fn execute_before_prepare_is_a_missing_preparation() {
    let mut ext = Extension::new();
    assert_eq!(ext.call(1, &[], &context()), Err(Error::PreparationMissing));
    assert_eq!(ext.call(1, &[], &context()), Err(Error::PreparationMissing));
    assert_eq!(ext.call(1, &program_input(), &context()), Err(Error::PreparationMissing));
    assert_eq!(ext, Extension::new());
}

#[test]
fn execute_runs_what_was_prepared_from_the_contract() {
    let mut ext = Extension::new();
    prepare(&mut ext, 4_000);
    match asked(ext.call(1, &[], &context())) {
        Request::Execute { origin, xcm, weight } => {
            assert_eq!(origin, TheirVersionedLocation::V2(account(CONTRACT)).encode());
            assert_eq!(xcm, program_input());
            assert_eq!(weight, Weight { ref_time: 4_000 });
        },
        other => panic!("expected an execution, got {:?}", other),
    }
}

#[test]
fn execute_is_single_use() {
    let mut ext = Extension::new();
    prepare(&mut ext, 4_000);
    let request = asked(ext.call(1, &[], &context()));
    let reply = replied(ext.resume(request, Event::Executed(Outcome::Complete), &context()));
    assert_eq!(reply, Reply { status: Status::Success, output: vec![] });
    assert_eq!(ext.prepared_execute(), &None);
    assert_eq!(ext.call(1, &[], &context()), Err(Error::PreparationMissing));
    assert_eq!(ext.call(1, &[], &context()), Err(Error::PreparationMissing));
    // A new preparation makes execute possible again.
    prepare(&mut ext, 1);
    assert!(ext.call(1, &[], &context()).is_ok());
}

#[test]
fn incomplete_execution_fails_like_an_error() {
    for outcome in [Outcome::Incomplete, Outcome::Error] {
        let mut ext = Extension::new();
        prepare(&mut ext, 4_000);
        let request = asked(ext.call(1, &[], &context()));
        assert_eq!(
            ext.resume(request, Event::Executed(outcome), &context()),
            Err(Error::ExecutionFailed)
        );
        // Nothing was consumed: the same message can be tried again.
        let prepared = ext.prepared_execute().as_ref().expect("kept");
        assert_eq!(prepared.weight, Weight { ref_time: 4_000 });
        assert!(ext.call(1, &[], &context()).is_ok());
    }
}

#[test]
fn execution_answer_without_preparation_is_a_missing_preparation() {
    let mut ext = Extension::new();
    let request = Request::Execute { origin: vec![], xcm: vec![], weight: Weight { ref_time: 0 } };
    assert_eq!(
        ext.resume(request, Event::Executed(Outcome::Complete), &context()),
        Err(Error::PreparationMissing)
    );
}

#[test]
fn validate_send_answers_with_the_placeholder() {
    let mut ext = Extension::new();
    let reply = replied(ext.call(2, &send_input(2000), &context()));
    assert_eq!(reply.status, Status::Success);
    let placeholder = TheirVersionedAsset::V2(v2::MultiAsset {
        id: v2::AssetId::Concrete(v2::MultiLocation::here()),
        fun: v2::Fungibility::Fungible(0),
    });
    assert_eq!(reply.output, placeholder.encode());
    assert_eq!(reply.output, vec![1, 0, 0, 0, 0, 0]);
    let validated = ext.validated_send().as_ref().expect("validated");
    assert_eq!(validated.dest.encode(), sibling(2000).encode());
    assert_eq!(validated.xcm.encoded(), &program().encode());
}

#[test]
fn validate_send_takes_values_as_well() {
    let mut ext = Extension::new();
    let input = ValidateSendInput {
        dest: VersionedLocation::V1(Location::here()),
        xcm: VersionedMessage::V2(Message::from_encoded(vec![0]).expect("empty program")),
    };
    let asset = ext.validate_send(input).expect("always answers");
    assert_eq!(asset, Asset { id: AssetId::Concrete(Location::here()), fun: Fungibility::Fungible(0) });
    assert!(ext.validated_send().is_some());
}

#[test]
fn validate_send_refuses_what_does_not_decode() {
    let mut ext = Extension::new();
    assert_eq!(ext.call(2, &[], &context()), Err(Error::DecodeError));
    assert_eq!(ext.call(2, &[0, 0, 0], &context()), Err(Error::UnsupportedVersion));
    assert_eq!(ext.call(2, &[1, 0, 0], &context()), Err(Error::DecodeError));
    assert_eq!(ext.call(2, &[1, 0, 0, 3, 0], &context()), Err(Error::UnsupportedVersion));
    assert_eq!(ext.call(2, &[1, 0, 0, 2, 0xff], &context()), Err(Error::DecodeError));
    let mut longer = send_input(1);
    longer.push(0);
    assert_eq!(ext.call(2, &longer, &context()), Err(Error::DecodeError));
    assert_eq!(ext.validated_send(), &None);
}

#[test]
fn failed_validation_keeps_what_was_validated_before() {
    let mut ext = Extension::new();
    replied(ext.call(2, &send_input(2000), &context()));
    assert_eq!(ext.call(2, &[1, 0, 0, 2, 0xff], &context()), Err(Error::DecodeError));
    let validated = ext.validated_send().as_ref().expect("kept");
    assert_eq!(validated.dest.encode(), sibling(2000).encode());
}

#[test]
fn send_before_validate_is_a_missing_preparation() {
    let mut ext = Extension::new();
    assert_eq!(ext.call(3, &[], &context()), Err(Error::PreparationMissing));
    assert_eq!(ext.call(3, &[], &context()), Err(Error::PreparationMissing));
    assert_eq!(ext.send(CALLER), Err(Error::PreparationMissing));
    // What is prepared for execution does not count for sending.
    prepare(&mut ext, 1);
    assert_eq!(ext.call(3, &[], &context()), Err(Error::PreparationMissing));
}

#[test]
fn send_hands_on_what_was_validated_from_the_caller() {
    let mut ext = Extension::new();
    replied(ext.call(2, &send_input(2000), &context()));
    match asked(ext.call(3, &[], &context())) {
        Request::Send { origin, dest, xcm } => {
            assert_eq!(origin, TheirVersionedLocation::V2(account(CALLER)).encode());
            assert_eq!(dest, TheirVersionedLocation::V2(sibling(2000)).encode());
            assert_eq!(xcm, program_input());
            let decoded = VersionedXcm::<()>::decode(&mut &xcm[..]).expect("a message");
            assert_eq!(decoded, VersionedXcm::V2(program()));
        },
        other => panic!("expected a send, got {:?}", other),
    }
}

#[test]
fn send_is_single_use() {
    let mut ext = Extension::new();
    replied(ext.call(2, &send_input(2000), &context()));
    let request = asked(ext.call(3, &[], &context()));
    let reply = replied(ext.resume(request, Event::Sent(true), &context()));
    assert_eq!(reply, Reply { status: Status::Success, output: vec![] });
    assert_eq!(ext.validated_send(), &None);
    assert_eq!(ext.call(3, &[], &context()), Err(Error::PreparationMissing));
    replied(ext.call(2, &send_input(3000), &context()));
    assert!(ext.call(3, &[], &context()).is_ok());
}

#[test]
fn refused_send_fails_and_keeps_what_was_validated() {
    let mut ext = Extension::new();
    replied(ext.call(2, &send_input(2000), &context()));
    let request = asked(ext.call(3, &[], &context()));
    assert_eq!(ext.resume(request, Event::Sent(false), &context()), Err(Error::SendFailed));
    assert!(ext.validated_send().is_some());
    assert!(ext.call(3, &[], &context()).is_ok());
}

#[test]
fn execute_and_send_do_not_disturb_each_other() {
    let mut ext = Extension::new();
    prepare(&mut ext, 9);
    replied(ext.call(2, &send_input(2000), &context()));
    let request = asked(ext.call(3, &[], &context()));
    replied(ext.resume(request, Event::Sent(true), &context()));
    assert!(ext.prepared_execute().is_some());
    let request = asked(ext.call(1, &[], &context()));
    replied(ext.resume(request, Event::Executed(Outcome::Complete), &context()));
    assert_eq!(ext, Extension::new());
}

#[test]
fn new_query_binds_the_contract_as_responder_without_a_deadline() {
    let mut ext = Extension::new();
    let request = asked(ext.call(4, &[], &context()));
    match &request {
        Request::NewQuery { responder, timeout } => {
            assert_eq!(responder, &TheirVersionedLocation::V2(account(CONTRACT)).encode());
            assert_eq!(*timeout, u64::MAX);
        },
        other => panic!("expected a new query, got {:?}", other),
    }
    let reply = replied(ext.resume(request, Event::QueryCreated(0x0a0b), &context()));
    assert_eq!(reply, Reply { status: Status::Success, output: vec![0x0b, 0x0a, 0, 0, 0, 0, 0, 0] });
}

#[test]
fn take_response_reads_the_query_identifier() {
    let mut ext = Extension::new();
    let input = 0x1122_3344_5566_7788u64.encode();
    match asked(ext.call(5, &input, &context())) {
        Request::TakeResponse { query_id } => assert_eq!(query_id, 0x1122_3344_5566_7788),
        other => panic!("expected a lookup, got {:?}", other),
    }
    assert_eq!(ext.call(5, &input[..7], &context()), Err(Error::DecodeError));
    assert_eq!(ext.call(5, &[], &context()), Err(Error::DecodeError));
}

/// The routing subsystem's store of queries, as far as the dispatcher sees it.
struct Queries {
    next: u64,
    ready: HashMap<u64, Vec<u8>>,
}

impl Queries {
    fn perform(&mut self, request: &Request) -> Event {
        match request {
            Request::NewQuery { .. } => {
                self.next += 1;
                Event::QueryCreated(self.next)
            },
            Request::TakeResponse { query_id } => Event::ResponseTaken(self.ready.remove(query_id)),
            other => panic!("not a query: {:?}", other),
        }
    }
}

fn take(ext: &mut Extension, queries: &mut Queries, query_id: u64) -> Reply {
    let request = asked(ext.call(5, &query_id.to_le_bytes(), &context()));
    let event = queries.perform(&request);
    replied(ext.resume(request, event, &context()))
}

#[test]
fn response_is_taken_exactly_once() {
    let mut ext = Extension::new();
    let mut queries = Queries { next: 40, ready: HashMap::new() };
    let request = asked(ext.call(4, &[], &context()));
    let event = queries.perform(&request);
    let reply = replied(ext.resume(request, event, &context()));
    let query_id = u64::from_le_bytes(reply.output.clone().try_into().expect("eight bytes"));
    assert_eq!(query_id, 41);
    // Before a response arrives.
    let reply = take(&mut ext, &mut queries, query_id);
    assert_eq!(reply, Reply { status: Status::NoResponse, output: vec![] });
    assert_eq!(Error::from_status_code(reply.status.code()), Err(Error::NoResponse));
    // The routing subsystem records a response.
    let response = staging_xcm::VersionedResponse::V2(v2::Response::Version(2));
    queries.ready.insert(query_id, response.encode());
    let reply = take(&mut ext, &mut queries, query_id);
    assert_eq!(reply.status, Status::Success);
    assert_eq!(reply.output, response.encode());
    assert_eq!(reply.output, vec![2, 3, 2, 0, 0, 0]);
    assert_eq!(Error::from_status_code(reply.status.code()), Ok(()));
    // It was consumed.
    let reply = take(&mut ext, &mut queries, query_id);
    assert_eq!(reply, Reply { status: Status::NoResponse, output: vec![] });
    // A query that was never opened has no response either.
    let reply = take(&mut ext, &mut queries, 7);
    assert_eq!(reply.status, Status::NoResponse);
}

#[test]
fn contract_call_asks_for_the_encoded_call() {
    let mut ext = Extension::new();
    let input = contract_call_input(remote_contract(), sibling_fee(1_000_000));
    match asked(ext.call(6, &input, &context())) {
        Request::EncodeCall { contract, value, gas_limit, data, dest, max_fees, max_weight } => {
            assert_eq!(contract, REMOTE);
            assert_eq!(value, 12345);
            assert_eq!(gas_limit, Weight { ref_time: 77_000 });
            assert_eq!(data, vec![0x63, 0x3a, 0xa5, 0x51]);
            assert_eq!(dest.encode(), sibling(2000).encode());
            // The fee is the destination's own asset: local, seen from there.
            let local = v2::MultiAsset {
                id: v2::AssetId::Concrete(v2::MultiLocation::here()),
                fun: v2::Fungibility::Fungible(1_000_000),
            };
            assert_eq!(max_fees.encode(), local.encode());
            assert_eq!(max_weight, 9_000_000);
        },
        other => panic!("expected an encoding, got {:?}", other),
    }
    assert_eq!(ext, Extension::new());
}

#[test]
fn contract_call_sends_the_composed_message() {
    let mut ext = Extension::new();
    let input = contract_call_input(remote_contract(), sibling_fee(1_000_000));
    let request = asked(ext.call(6, &input, &context()));
    let call = vec![0x07, 0x00, 0xaa, 0xbb];
    let request = asked(ext.resume(request, Event::CallEncoded(call.clone()), &context()));
    let local = v2::MultiAsset {
        id: v2::AssetId::Concrete(v2::MultiLocation::here()),
        fun: v2::Fungibility::Fungible(1_000_000),
    };
    let expected = v2::Xcm::<()>(vec![
        Instruction::WithdrawAsset(vec![local.clone()].into()),
        Instruction::BuyExecution { fees: local, weight_limit: v2::WeightLimit::Unlimited },
        Instruction::Transact {
            origin_type: v2::OriginKind::SovereignAccount,
            require_weight_at_most: 9_000_000,
            call: call.into(),
        },
        Instruction::RefundSurplus,
    ]);
    match &request {
        Request::Send { origin, dest, xcm } => {
            assert_eq!(origin, &TheirVersionedLocation::V2(account(CALLER)).encode());
            assert_eq!(dest, &TheirVersionedLocation::V2(sibling(2000)).encode());
            assert_eq!(xcm, &VersionedXcm::V2(expected).encode());
        },
        other => panic!("expected a send, got {:?}", other),
    }
    assert!(ext.validated_send().is_some());
    let reply = replied(ext.resume(request, Event::Sent(true), &context()));
    assert_eq!(reply, Reply { status: Status::Success, output: vec![] });
    assert_eq!(ext, Extension::new());
}

#[test]
fn contract_call_reanchors_a_fee_that_lives_elsewhere() {
    let mut ext = Extension::new();
    // The fee is this chain's own asset: from chain 2000 it lives on chain 1000.
    let own = v2::MultiAsset {
        id: v2::AssetId::Concrete(v2::MultiLocation::here()),
        fun: v2::Fungibility::Fungible(5),
    };
    let input = contract_call_input(remote_contract(), own);
    match asked(ext.call(6, &input, &context())) {
        Request::EncodeCall { max_fees, .. } => {
            let seen = v2::MultiAsset {
                id: v2::AssetId::Concrete(sibling(1000)),
                fun: v2::Fungibility::Fungible(5),
            };
            assert_eq!(max_fees.encode(), seen.encode());
        },
        other => panic!("expected an encoding, got {:?}", other),
    }
}

#[test]
fn contract_call_to_what_is_no_account_is_invalid() {
    let mut ext = Extension::new();
    let destinations = vec![
        sibling(2000),
        v2::MultiLocation::here(),
        v2::MultiLocation { parents: 1, interior: v2::Junctions::Here },
        v2::MultiLocation {
            parents: 1,
            interior: v2::Junctions::X2(
                v2::Junction::Parachain(2000),
                v2::Junction::AccountKey20 { network: v2::NetworkId::Any, key: [1; 20] },
            ),
        },
        v2::MultiLocation {
            parents: 1,
            interior: v2::Junctions::X2(
                v2::Junction::AccountId32 { network: v2::NetworkId::Any, id: REMOTE },
                v2::Junction::PalletInstance(1),
            ),
        },
    ];
    for dest in destinations {
        let input = contract_call_input(dest, sibling_fee(1));
        assert_eq!(ext.call(6, &input, &context()), Err(Error::InvalidCommand));
    }
    assert_eq!(ext, Extension::new());
}

#[test]
fn contract_call_takes_an_account_of_any_network() {
    let mut ext = Extension::new();
    let dest = v2::MultiLocation {
        parents: 1,
        interior: v2::Junctions::X2(
            v2::Junction::Parachain(2000),
            v2::Junction::AccountId32 { network: v2::NetworkId::Kusama, id: REMOTE },
        ),
    };
    let input = contract_call_input(dest, sibling_fee(1));
    match asked(ext.call(6, &input, &context())) {
        Request::EncodeCall { contract, .. } => assert_eq!(contract, REMOTE),
        other => panic!("expected an encoding, got {:?}", other),
    }
}

#[test]
fn contract_call_with_a_fee_out_of_reach_is_an_unsupported_version() {
    let mut ext = Extension::new();
    let deep = v2::MultiLocation {
        parents: 0,
        interior: v2::Junctions::X8(
            v2::Junction::OnlyChild,
            v2::Junction::OnlyChild,
            v2::Junction::OnlyChild,
            v2::Junction::OnlyChild,
            v2::Junction::OnlyChild,
            v2::Junction::OnlyChild,
            v2::Junction::OnlyChild,
            v2::Junction::OnlyChild,
        ),
    };
    let fee = v2::MultiAsset { id: v2::AssetId::Concrete(deep), fun: v2::Fungibility::Fungible(1) };
    let input = contract_call_input(remote_contract(), fee);
    assert_eq!(ext.call(6, &input, &context()), Err(Error::UnsupportedVersion));
}

#[test]
fn contract_call_refuses_what_does_not_decode() {
    let mut ext = Extension::new();
    let input = contract_call_input(remote_contract(), sibling_fee(1));
    for cut in 0..input.len() {
        assert_eq!(ext.call(6, &input[..cut], &context()), Err(Error::DecodeError), "cut at {}", cut);
    }
    let mut longer = input.clone();
    longer.push(0);
    assert_eq!(ext.call(6, &longer, &context()), Err(Error::DecodeError));
    let mut other_version = input.clone();
    other_version[0] = 3;
    assert_eq!(ext.call(6, &other_version, &context()), Err(Error::UnsupportedVersion));
}

#[test]
fn contract_call_replaces_what_was_validated() {
    let mut ext = Extension::new();
    replied(ext.call(2, &send_input(3000), &context()));
    let input = contract_call_input(remote_contract(), sibling_fee(1));
    let request = asked(ext.call(6, &input, &context()));
    // Until the call is encoded, the earlier validation stands.
    assert_eq!(
        ext.validated_send().as_ref().expect("kept").dest.encode(),
        sibling(3000).encode()
    );
    asked(ext.resume(request, Event::CallEncoded(vec![1]), &context()));
    assert_eq!(
        ext.validated_send().as_ref().expect("replaced").dest.encode(),
        sibling(2000).encode()
    );
}

#[test]
fn answer_to_another_request_is_invalid() {
    let mut ext = Extension::new();
    prepare(&mut ext, 1);
    let before = format!("{:?}", ext);
    let request = asked(ext.call(1, &[], &context()));
    assert_eq!(ext.resume(request, Event::Sent(true), &context()), Err(Error::InvalidCommand));
    let request = asked(ext.call(4, &[], &context()));
    assert_eq!(
        ext.resume(request, Event::ResponseTaken(None), &context()),
        Err(Error::InvalidCommand)
    );
    let request = asked(ext.call(5, &[0; 8], &context()));
    assert_eq!(ext.resume(request, Event::QueryCreated(1), &context()), Err(Error::InvalidCommand));
    let request = asked(ext.call(0, &program_input(), &context()));
    assert_eq!(
        ext.resume(request, Event::CallEncoded(vec![]), &context()),
        Err(Error::InvalidCommand)
    );
    assert_eq!(format!("{:?}", ext), before);
}

#[test]
fn account_of_named_network_is_not_taken_for_the_caller() {
    // The origin of a send is the caller's account of any network.
    let ext_origin = {
        let mut ext = Extension::new();
        replied(ext.call(2, &send_input(1), &context()));
        match ext.send([5; 32]).expect("validated") {
            Request::Send { origin, .. } => origin,
            other => panic!("expected a send, got {:?}", other),
        }
    };
    let named = VersionedLocation::V1(
        Location::new(
            0,
            vec![Junction::AccountId32 { network: NetworkId::Polkadot, id: [5; 32] }],
        )
        .expect("one junction"),
    );
    assert_ne!(ext_origin, named.encode());
    assert_eq!(ext_origin, VersionedLocation::V1(Location::from_account([5; 32])).encode());
}
