//! Messages: programs of instructions for another chain. The dispatcher
//! carries a message in its wire form and never looks inside it. A message
//! comes either from a contract's input, where the decoder of the messaging
//! crate says whether it is one, or from the composer here, which writes the
//! four instructions that call a contract on another chain.

use crate::asset::{encode_asset, Asset, AssetView};
use crate::error::Error;
use crate::scale::{encode_bytes, encode_compact, write_bytes, write_compact, write_raw};
use parity_scale_codec::DecodeLimit;
use staging_xcm::v2::Xcm;
use vstd::prelude::*;
use vstd::slice::slice_subrange;

verus! {

/// The version tag of the message format that is understood.
pub const MESSAGE_VERSION: u8 = 2;

/// How deep the values inside a message from a contract may nest.
pub const MAX_DECODE_NESTING: u32 = 256;

/// In whose name a transacted call is dispatched.
#[derive(Clone, Copy, Debug, PartialEq, Eq, Structural)]
pub enum OriginKind {
    Native,
    SovereignAccount,
    Superuser,
    Xcm,
}

/// A ceiling on the weight that may be bought.
#[derive(Clone, Copy, Debug, PartialEq, Eq, Structural)]
pub enum WeightLimit {
    Unlimited,
    Limited(u64),
}

/// The instructions that the composer writes.
pub enum Instruction {
    /// Take the assets out of the sender's account on the other chain.
    WithdrawAsset(Seq<AssetView>),
    /// Pay for execution with `fees`, for as much weight as `weight_limit` allows.
    BuyExecution { fees: AssetView, weight_limit: WeightLimit },
    /// Dispatch `call`, which may weigh `require_weight_at_most` at most.
    Transact { origin_type: OriginKind, require_weight_at_most: u64, call: Seq<u8> },
    /// Give back what execution did not use.
    RefundSurplus,
}

/// A message in wire form, without its version tag.
#[derive(Debug, PartialEq, Eq)]
pub struct Message {
    encoded: Vec<u8>,
}

/// A message under its version tag.
#[derive(Debug, PartialEq, Eq)]
pub enum VersionedMessage {
    V2(Message),
}

impl View for Message {
    type V = Seq<u8>;

    closed spec fn view(&self) -> Seq<u8> {
        self.encoded@
    }
}

impl View for VersionedMessage {
    type V = Seq<u8>;

    open spec fn view(&self) -> Seq<u8> {
        match self {
            VersionedMessage::V2(message) => message@,
        }
    }
}

/// The tag of an origin kind.
pub open spec fn encode_origin_kind(v: OriginKind) -> Seq<u8> {
    match v {
        OriginKind::Native => seq![0u8],
        OriginKind::SovereignAccount => seq![1u8],
        OriginKind::Superuser => seq![2u8],
        OriginKind::Xcm => seq![3u8],
    }
}

/// The wire form of a weight limit.
pub open spec fn encode_weight_limit(v: WeightLimit) -> Seq<u8> {
    match v {
        WeightLimit::Unlimited => seq![0u8],
        WeightLimit::Limited(weight) => seq![1u8] + encode_compact(weight as nat),
    }
}

/// The wire forms of the assets, one behind the other.
pub open spec fn encode_each_asset(assets: Seq<AssetView>) -> Seq<u8>
    decreases assets.len(),
{
    if assets.len() == 0 {
        Seq::empty()
    } else {
        encode_each_asset(assets.drop_last()) + encode_asset(assets.last())
    }
}

/// The wire form of a list of assets: their number, then each.
pub open spec fn encode_assets(assets: Seq<AssetView>) -> Seq<u8> {
    encode_compact(assets.len()) + encode_each_asset(assets)
}

/// The wire form of an instruction: its tag, then its fields in order.
pub open spec fn encode_instruction(v: Instruction) -> Seq<u8> {
    match v {
        Instruction::WithdrawAsset(assets) => seq![0u8] + encode_assets(assets),
        Instruction::BuyExecution { fees, weight_limit } => seq![19u8] + encode_asset(fees)
            + encode_weight_limit(weight_limit),
        Instruction::Transact { origin_type, require_weight_at_most, call } => seq![6u8]
            + encode_origin_kind(origin_type) + encode_compact(require_weight_at_most as nat)
            + encode_bytes(call),
        Instruction::RefundSurplus => seq![20u8],
    }
}

/// The wire forms of the instructions, one behind the other.
pub open spec fn encode_each_instruction(steps: Seq<Instruction>) -> Seq<u8>
    decreases steps.len(),
{
    if steps.len() == 0 {
        Seq::empty()
    } else {
        encode_each_instruction(steps.drop_last()) + encode_instruction(steps.last())
    }
}

/// The wire form of a program: the number of its instructions, then each.
pub open spec fn encode_program(steps: Seq<Instruction>) -> Seq<u8> {
    encode_compact(steps.len()) + encode_each_instruction(steps)
}

/// The program that calls a contract on another chain: withdraw the fee,
/// buy execution with all of it, dispatch the call in the name of the
/// sender's sovereign account, give back what is left.
pub open spec fn contract_call_program(fees: AssetView, max_weight: u64, call: Seq<u8>) -> Seq<
    Instruction,
> {
    seq![
        Instruction::WithdrawAsset(seq![fees]),
        Instruction::BuyExecution { fees, weight_limit: WeightLimit::Unlimited },
        Instruction::Transact {
            origin_type: OriginKind::SovereignAccount,
            require_weight_at_most: max_weight,
            call,
        },
        Instruction::RefundSurplus,
    ]
}

/// Whether the decoder of `staging_xcm` takes `body`, whole, for a program of
/// version 2 whose values nest no deeper than `depth_limit`.
pub uninterp spec fn program_accepted(body: Seq<u8>, depth_limit: u32) -> bool;

/// The wire form of a message with its version tag before it.
pub open spec fn encode_versioned_message(body: Seq<u8>) -> Seq<u8> {
    seq![MESSAGE_VERSION] + body
}

/// The versioned message that the input holds from `at` to its end: its
/// body, or why there is none. A version that is not understood is told
/// apart from a body that the decoder refuses.
pub open spec fn decode_versioned_message(s: Seq<u8>, at: int) -> Result<Seq<u8>, Error> {
    if at < 0 || at >= s.len() {
        Err(Error::DecodeError)
    } else if s[at] != MESSAGE_VERSION {
        Err(Error::UnsupportedVersion)
    } else if program_accepted(s.subrange(at + 1, s.len() as int), MAX_DECODE_NESTING) {
        Ok(s.subrange(at + 1, s.len() as int))
    } else {
        Err(Error::DecodeError)
    }
}

/// The wire form of four instructions is that of each, in order.
pub proof fn lemma_encode_four(a: Instruction, b: Instruction, c: Instruction, d: Instruction)
    ensures
        encode_each_instruction(seq![a, b, c, d]) == encode_instruction(a) + encode_instruction(b)
            + encode_instruction(c) + encode_instruction(d),
{
    let s4 = seq![a, b, c, d];
    let s3 = seq![a, b, c];
    let s2 = seq![a, b];
    let s1 = seq![a];
    assert(s4.drop_last() =~= s3);
    assert(s3.drop_last() =~= s2);
    assert(s2.drop_last() =~= s1);
    assert(s1.drop_last() =~= Seq::<Instruction>::empty());
    assert(encode_each_instruction(s1.drop_last()) =~= Seq::<u8>::empty());
    assert(encode_each_instruction(s1) =~= encode_instruction(a));
    assert(encode_each_instruction(s2) =~= encode_instruction(a) + encode_instruction(b));
    assert(encode_each_instruction(s3) =~= encode_instruction(a) + encode_instruction(b)
        + encode_instruction(c));
}

/// A composed program has exactly four instructions: withdraw, buy
/// execution, transact, refund, in this order; the transact step's ceiling
/// is `max_weight`, and the fee is the same in the first two.
pub proof fn lemma_contract_call_program(fees: AssetView, max_weight: u64, call: Seq<u8>)
    ensures
        contract_call_program(fees, max_weight, call).len() == 4,
        contract_call_program(fees, max_weight, call)[0] == Instruction::WithdrawAsset(seq![fees]),
        contract_call_program(fees, max_weight, call)[1] == (Instruction::BuyExecution {
            fees,
            weight_limit: WeightLimit::Unlimited,
        }),
        contract_call_program(fees, max_weight, call)[2] == (Instruction::Transact {
            origin_type: OriginKind::SovereignAccount,
            require_weight_at_most: max_weight,
            call,
        }),
        contract_call_program(fees, max_weight, call)[3] == Instruction::RefundSurplus,
{
}

/// `parity_scale_codec::DecodeLimit::decode_all_with_depth_limit` at
/// `staging_xcm::v2::Xcm<()>`: decodes a program from `body`, refusing one
/// that leaves input over or nests deeper than `depth_limit`, and drops the
/// program. Claimed: whether it succeeds depends on the bytes and the limit
/// alone.
#[verifier::external_body]
#[allow(deprecated)]
fn check_program(body: &[u8], depth_limit: u32) -> (accepted: bool)
    ensures
        accepted == program_accepted(body@, depth_limit),
{
    Xcm::<()>::decode_all_with_depth_limit(depth_limit, &mut &body[..]).is_ok()
}

impl Message {
    /// The wire form, without a version tag.
    pub fn encoded(&self) -> (r: &Vec<u8>)
        ensures
            r@ == self@,
    {
        &self.encoded
    }

    /// The wire form under the version tag.
    pub fn encode_versioned(&self) -> (out: Vec<u8>)
        ensures
            out@ == encode_versioned_message(self@),
    {
        let mut out: Vec<u8> = Vec::new();
        out.push(MESSAGE_VERSION);
        write_raw(&mut out, self.encoded.as_slice());
        proof {
            assert(out@ =~= encode_versioned_message(self@));
        }
        out
    }

    /// What a check of `body` amounts to: the message where the decoder took
    /// it, a decode error where it did not.
    pub fn checked(body: Vec<u8>, accepted: bool) -> (r: Result<Message, Error>)
        ensures
            accepted ==> r is Ok && r->Ok_0@ == body@,
            !accepted ==> r == Err::<Message, Error>(Error::DecodeError),
    {
        if accepted {
            Ok(Message { encoded: body })
        } else {
            Err(Error::DecodeError)
        }
    }

    /// The message that `body` is, where the decoder of `staging_xcm` takes
    /// it for a program; a decode error where it does not.
    pub fn from_encoded(body: Vec<u8>) -> (r: Result<Message, Error>)
        ensures
            program_accepted(body@, MAX_DECODE_NESTING) ==> r is Ok && r->Ok_0@ == body@,
            !program_accepted(body@, MAX_DECODE_NESTING) ==> r == Err::<Message, Error>(
                Error::DecodeError,
            ),
    {
        let accepted = check_program(body.as_slice(), MAX_DECODE_NESTING);
        Message::checked(body, accepted)
    }

    /// Composes the message that calls a contract on another chain: withdraw
    /// `fees`, buy execution with all of it and no ceiling on the weight,
    /// dispatch `call` in the name of the sovereign account with `max_weight`
    /// as its ceiling, refund the surplus.
    pub fn contract_call(fees: &Asset, max_weight: u64, call: &[u8]) -> (r: Message)
        ensures
            r@ == encode_program(contract_call_program(fees@, max_weight, call@)),
    {
        let mut out: Vec<u8> = Vec::new();
        write_compact(&mut out, 4);
        let ghost head = out@;
        out.push(0);
        write_compact(&mut out, 1);
        fees.write(&mut out);
        let ghost first = out@;
        out.push(19);
        fees.write(&mut out);
        out.push(0);
        let ghost second = out@;
        out.push(6);
        out.push(1);
        write_compact(&mut out, max_weight as u128);
        write_bytes(&mut out, call);
        let ghost third = out@;
        out.push(20);
        proof {
            let program = contract_call_program(fees@, max_weight, call@);
            lemma_encode_four(program[0], program[1], program[2], program[3]);
            assert(program =~= seq![program[0], program[1], program[2], program[3]]);
            assert(seq![fees@].drop_last() =~= Seq::<AssetView>::empty());
            assert(encode_each_asset(seq![fees@].drop_last()) =~= Seq::<u8>::empty());
            assert(encode_each_asset(seq![fees@]) =~= encode_asset(fees@));
            assert(head =~= encode_compact(4));
            assert(first =~= head + encode_instruction(program[0]));
            assert(second =~= first + encode_instruction(program[1]));
            assert(third =~= second + encode_instruction(program[2]));
            assert(out@ =~= third + encode_instruction(program[3]));
            assert(out@ =~= encode_program(program));
        }
        Message { encoded: out }
    }
}

impl VersionedMessage {
    /// The message, whatever tag it came under.
    pub fn into_latest(self) -> (r: Message)
        ensures
            r@ == self@,
    {
        match self {
            VersionedMessage::V2(message) => message,
        }
    }

    /// Appends the version tag and the wire form.
    pub fn write(&self, out: &mut Vec<u8>)
        ensures
            final(out)@ == old(out)@ + encode_versioned_message(self@),
    {
        let ghost before = out@;
        match self {
            VersionedMessage::V2(message) => {
                out.push(MESSAGE_VERSION);
                write_raw(out, message.encoded.as_slice());
            },
        }
        proof {
            assert(out@ =~= before + encode_versioned_message(self@));
        }
    }

    /// The version tag and the wire form.
    pub fn encode(&self) -> (out: Vec<u8>)
        ensures
            out@ == encode_versioned_message(self@),
    {
        let mut out: Vec<u8> = Vec::new();
        self.write(&mut out);
        proof {
            assert(Seq::<u8>::empty() + encode_versioned_message(self@)
                =~= encode_versioned_message(self@));
        }
        out
    }

    /// Reads the versioned message that takes up the input from `at` to its end.
    pub fn read(input: &[u8], at: usize) -> (r: Result<VersionedMessage, Error>)
        ensures
            match r {
                Ok(v) => decode_versioned_message(input@, at as int) == Ok::<Seq<u8>, Error>(v@),
                Err(e) => decode_versioned_message(input@, at as int) == Err::<Seq<u8>, Error>(e),
            },
    {
        if at >= input.len() {
            return Err(Error::DecodeError);
        }
        if input[at] != MESSAGE_VERSION {
            return Err(Error::UnsupportedVersion);
        }
        let body = slice_subrange(input, at + 1, input.len());
        let mut copy: Vec<u8> = Vec::new();
        write_raw(&mut copy, body);
        proof {
            assert(copy@ =~= body@);
        }
        match Message::from_encoded(copy) {
            Ok(message) => Ok(VersionedMessage::V2(message)),
            Err(e) => Err(e),
        }
    }
}

} // verus!
