//! The commands that a contract can give, by number, and the payloads that
//! come with them.

use crate::asset::{
    decode_versioned_asset, encode_asset, encode_versioned_asset, lemma_asset_roundtrip,
    lemma_decode_asset_bounds, lemma_versioned_asset_canonical, AssetView, VersionedAsset,
};
use crate::error::Error;
use crate::location::{
    decode_versioned_location, encode_location, encode_versioned_location,
    lemma_decode_location_bounds, lemma_location_roundtrip, lemma_versioned_location_canonical,
    LocationView, VersionedLocation, LOCATION_VERSION,
};
use crate::message::{decode_versioned_message, encode_versioned_message, VersionedMessage};
use crate::scale::{
    decode_bytes, decode_u64, encode_bytes, encode_u64, lemma_bytes_canonical,
    lemma_bytes_roundtrip, lemma_decode_bytes_bounds, lemma_holds_at_split, lemma_holds_at_tag,
    lemma_holds_at_whole, lemma_le_bytes_len, lemma_subrange_join, lemma_u64_canonical,
    lemma_u64_roundtrip, read_bytes, read_u64, write_bytes, write_u64,
};
use vstd::prelude::*;
use vstd::std_specs::convert::TryFromSpecImpl;

verus! {

/// The identifier under which the extension is registered with the host.
pub const ID: u16 = 10;

/// What a contract can ask for.
#[derive(Clone, Copy, Debug, PartialEq, Eq, Structural)]
pub enum Command {
    PrepareExecute,
    Execute,
    ValidateSend,
    Send,
    NewQuery,
    TakeResponse,
    ContractCall,
}

impl Command {
    /// The command of a number; none for a number above six.
    pub open spec fn from_id(id: u16) -> Option<Command> {
        if id == 0 {
            Some(Command::PrepareExecute)
        } else if id == 1 {
            Some(Command::Execute)
        } else if id == 2 {
            Some(Command::ValidateSend)
        } else if id == 3 {
            Some(Command::Send)
        } else if id == 4 {
            Some(Command::NewQuery)
        } else if id == 5 {
            Some(Command::TakeResponse)
        } else if id == 6 {
            Some(Command::ContractCall)
        } else {
            None
        }
    }

    /// The number of a command.
    pub open spec fn id_spec(self) -> u16 {
        match self {
            Command::PrepareExecute => 0,
            Command::Execute => 1,
            Command::ValidateSend => 2,
            Command::Send => 3,
            Command::NewQuery => 4,
            Command::TakeResponse => 5,
            Command::ContractCall => 6,
        }
    }

    /// The number under which a contract gives the command.
    pub fn id(self) -> (id: u16)
        ensures
            id == self.id_spec(),
            Command::from_id(id) == Some(self),
    {
        match self {
            Command::PrepareExecute => 0,
            Command::Execute => 1,
            Command::ValidateSend => 2,
            Command::Send => 3,
            Command::NewQuery => 4,
            Command::TakeResponse => 5,
            Command::ContractCall => 6,
        }
    }

    /// The number by which a contract reaches the command through the host:
    /// the extension's identifier in the high half, the command's number in
    /// the low half.
    pub fn selector(self) -> (selector: u32)
        ensures
            selector == ID * 0x1_0000 + self.id_spec(),
    {
        let high: u32 = ID as u32 * 0x1_0000;
        high + self.id() as u32
    }
}

impl TryFrom<u16> for Command {
    type Error = Error;

    /// The command of a number. An unknown number is an invalid command.
    fn try_from(id: u16) -> (r: Result<Command, Error>) {
        if id == 0 {
            Ok(Command::PrepareExecute)
        } else if id == 1 {
            Ok(Command::Execute)
        } else if id == 2 {
            Ok(Command::ValidateSend)
        } else if id == 3 {
            Ok(Command::Send)
        } else if id == 4 {
            Ok(Command::NewQuery)
        } else if id == 5 {
            Ok(Command::TakeResponse)
        } else if id == 6 {
            Ok(Command::ContractCall)
        } else {
            Err(Error::InvalidCommand)
        }
    }
}

impl TryFromSpecImpl<u16> for Command {
    open spec fn obeys_try_from_spec() -> bool {
        true
    }

    open spec fn try_from_spec(id: u16) -> Result<Command, Error> {
        match Command::from_id(id) {
            Some(command) => Ok(command),
            None => Err(Error::InvalidCommand),
        }
    }
}

/// A measure of the time that a computation may take.
#[derive(Clone, Copy, Debug, PartialEq, Eq, Structural)]
pub struct Weight {
    pub ref_time: u64,
}

impl Weight {
    /// The weight of `ref_time` units.
    pub fn from_ref_time(ref_time: u64) -> (r: Weight)
        ensures
            r == (Weight { ref_time }),
    {
        Weight { ref_time }
    }

    /// The units of the weight.
    pub fn ref_time(&self) -> (r: u64)
        ensures
            r == self.ref_time,
    {
        self.ref_time
    }
}

/// What comes with the command that validates a send.
#[derive(Debug, PartialEq, Eq)]
pub struct ValidateSendInput {
    pub dest: VersionedLocation,
    pub xcm: VersionedMessage,
}

/// The mathematical value of a [`ValidateSendInput`].
pub struct ValidateSendInputView {
    pub dest: LocationView,
    pub xcm: Seq<u8>,
}

impl View for ValidateSendInput {
    type V = ValidateSendInputView;

    open spec fn view(&self) -> ValidateSendInputView {
        ValidateSendInputView { dest: self.dest@, xcm: self.xcm@ }
    }
}

/// What comes with the command that calls a contract on another chain.
#[derive(Debug, PartialEq, Eq)]
pub struct ContractCallInput {
    /// The contract, as the caller's chain sees it: a chain, then an account on it.
    pub dest: VersionedLocation,
    /// What the contract is called with.
    pub data: Vec<u8>,
    /// The gas that the call may use.
    pub gas_limit: Weight,
    /// The most that may be paid in fees, as the caller's chain sees it.
    pub max_fees: VersionedAsset,
    /// The most that the dispatched call may weigh.
    pub max_weight: u64,
}

/// The mathematical value of a [`ContractCallInput`].
pub struct ContractCallInputView {
    pub dest: LocationView,
    pub data: Seq<u8>,
    pub gas_limit: Weight,
    pub max_fees: AssetView,
    pub max_weight: u64,
}

impl ContractCallInputView {
    /// The destination and the fee are well formed, and the data is short
    /// enough to carry a 32-bit length.
    pub open spec fn wf(self) -> bool {
        self.dest.wf() && self.data.len() <= u32::MAX && self.max_fees.wf()
    }
}

impl View for ContractCallInput {
    type V = ContractCallInputView;

    open spec fn view(&self) -> ContractCallInputView {
        ContractCallInputView {
            dest: self.dest@,
            data: self.data@,
            gas_limit: self.gas_limit,
            max_fees: self.max_fees@,
            max_weight: self.max_weight,
        }
    }
}

/// The wire form of a send to validate: the destination, then the message.
pub open spec fn encode_validate_send(v: ValidateSendInputView) -> Seq<u8> {
    encode_versioned_location(v.dest) + encode_versioned_message(v.xcm)
}

/// The send to validate that the whole input holds, or why it holds none.
pub open spec fn decode_validate_send(s: Seq<u8>) -> Result<ValidateSendInputView, Error> {
    match decode_versioned_location(s, 0) {
        Err(e) => Err(e),
        Ok((dest, p)) => match decode_versioned_message(s, p) {
            Err(e) => Err(e),
            Ok(xcm) => Ok(ValidateSendInputView { dest, xcm }),
        },
    }
}

/// The wire form of a contract call: the fields, in order.
pub open spec fn encode_contract_call(v: ContractCallInputView) -> Seq<u8> {
    encode_versioned_location(v.dest) + (encode_bytes(v.data) + (encode_u64(v.gas_limit.ref_time)
        + (encode_versioned_asset(v.max_fees) + encode_u64(v.max_weight))))
}

/// The contract call that the whole input holds, or why it holds none.
/// Input that goes on behind the last field is a decode error.
pub open spec fn decode_contract_call(s: Seq<u8>) -> Result<ContractCallInputView, Error> {
    match decode_versioned_location(s, 0) {
        Err(e) => Err(e),
        Ok((dest, at_data)) => match decode_bytes(s, at_data) {
            None => Err(Error::DecodeError),
            Some((data, at_gas)) => match decode_u64(s, at_gas) {
                None => Err(Error::DecodeError),
                Some((gas, at_fees)) => match decode_versioned_asset(s, at_fees) {
                    Err(e) => Err(e),
                    Ok((max_fees, at_weight)) => match decode_u64(s, at_weight) {
                        None => Err(Error::DecodeError),
                        Some((max_weight, end)) => if end == s.len() {
                            Ok(
                                ContractCallInputView {
                                    dest,
                                    data,
                                    gas_limit: Weight { ref_time: gas },
                                    max_fees,
                                    max_weight,
                                },
                            )
                        } else {
                            Err(Error::DecodeError)
                        },
                    },
                },
            },
        },
    }
}

/// The query identifier that the input starts with, or a decode error.
pub open spec fn decode_query_id(s: Seq<u8>) -> Result<u64, Error> {
    match decode_u64(s, 0) {
        Some((id, _)) => Ok(id),
        None => Err(Error::DecodeError),
    }
}

/// For every well-formed contract call, decoding its wire form gives it back.
pub proof fn lemma_contract_call_roundtrip(v: ContractCallInputView)
    requires
        v.wf(),
    ensures
        decode_contract_call(encode_contract_call(v)) == Ok::<ContractCallInputView, Error>(v),
{
    let s = encode_contract_call(v);
    let e1 = encode_versioned_location(v.dest);
    let e2 = encode_bytes(v.data);
    let e3 = encode_u64(v.gas_limit.ref_time);
    let e4 = encode_versioned_asset(v.max_fees);
    let e5 = encode_u64(v.max_weight);
    let at_data: int = e1.len() as int;
    let at_gas: int = at_data + e2.len();
    let at_fees: int = at_gas + e3.len();
    let at_weight: int = at_fees + e4.len();
    lemma_holds_at_whole(s);
    lemma_holds_at_split(s, 0, e1, e2 + (e3 + (e4 + e5)));
    lemma_holds_at_split(s, at_data, e2, e3 + (e4 + e5));
    lemma_holds_at_split(s, at_gas, e3, e4 + e5);
    lemma_holds_at_split(s, at_fees, e4, e5);
    lemma_holds_at_tag(s, 0, LOCATION_VERSION, encode_location(v.dest));
    lemma_location_roundtrip(s, 1, v.dest);
    lemma_bytes_roundtrip(s, at_data, v.data);
    lemma_u64_roundtrip(s, at_gas, v.gas_limit.ref_time);
    lemma_holds_at_tag(s, at_fees, LOCATION_VERSION, encode_asset(v.max_fees));
    lemma_asset_roundtrip(s, at_fees + 1, v.max_fees);
    lemma_u64_roundtrip(s, at_weight, v.max_weight);
    lemma_le_bytes_len(v.max_weight as nat, 8);
}

/// An input that decodes as a contract call is the wire form of that call:
/// every contract call has one wire form.
pub proof fn lemma_contract_call_canonical(s: Seq<u8>)
    requires
        decode_contract_call(s) is Ok,
    ensures
        s == encode_contract_call(decode_contract_call(s).unwrap()),
{
    let at_data = decode_versioned_location(s, 0).unwrap().1;
    lemma_decode_location_bounds(s, 1);
    lemma_versioned_location_canonical(s, 0);
    let at_gas = decode_bytes(s, at_data).unwrap().1;
    lemma_decode_bytes_bounds(s, at_data);
    lemma_bytes_canonical(s, at_data);
    let at_fees = at_gas + 8;
    lemma_u64_canonical(s, at_gas);
    let at_weight = decode_versioned_asset(s, at_fees).unwrap().1;
    lemma_decode_asset_bounds(s, at_fees + 1);
    lemma_versioned_asset_canonical(s, at_fees);
    lemma_u64_canonical(s, at_weight);
    let end = s.len() as int;
    lemma_subrange_join(s, at_fees, at_weight, end);
    lemma_subrange_join(s, at_gas, at_fees, end);
    lemma_subrange_join(s, at_data, at_gas, end);
    lemma_subrange_join(s, 0, at_data, end);
    assert(s.subrange(0, end) =~= s);
}

impl ValidateSendInput {
    /// The wire form.
    pub fn encode(&self) -> (out: Vec<u8>)
        ensures
            out@ == encode_validate_send(self@),
    {
        let mut out: Vec<u8> = Vec::new();
        self.dest.write(&mut out);
        self.xcm.write(&mut out);
        proof {
            assert(out@ =~= encode_validate_send(self@));
        }
        out
    }

    /// Reads the send to validate that takes up the whole input.
    pub fn decode(input: &[u8]) -> (r: Result<ValidateSendInput, Error>)
        ensures
            match r {
                Ok(v) => decode_validate_send(input@) == Ok::<ValidateSendInputView, Error>(v@),
                Err(e) => decode_validate_send(input@) == Err::<ValidateSendInputView, Error>(e),
            },
    {
        match VersionedLocation::read(input, 0) {
            Err(e) => Err(e),
            Ok((dest, p)) => match VersionedMessage::read(input, p) {
                Err(e) => Err(e),
                Ok(xcm) => Ok(ValidateSendInput { dest, xcm }),
            },
        }
    }
}

impl ContractCallInput {
    /// The wire form.
    pub fn encode(&self) -> (out: Vec<u8>)
        ensures
            out@ == encode_contract_call(self@),
    {
        let mut out: Vec<u8> = Vec::new();
        self.dest.write(&mut out);
        write_bytes(&mut out, self.data.as_slice());
        write_u64(&mut out, self.gas_limit.ref_time);
        self.max_fees.write(&mut out);
        write_u64(&mut out, self.max_weight);
        proof {
            assert(out@ =~= encode_contract_call(self@));
        }
        out
    }

    /// Reads the contract call that takes up the whole input.
    pub fn decode(input: &[u8]) -> (r: Result<ContractCallInput, Error>)
        ensures
            match r {
                Ok(v) => decode_contract_call(input@) == Ok::<ContractCallInputView, Error>(v@),
                Err(e) => decode_contract_call(input@) == Err::<ContractCallInputView, Error>(e),
            },
    {
        let (dest, at_data) = match VersionedLocation::read(input, 0) {
            Ok(found) => found,
            Err(e) => {
                return Err(e);
            },
        };
        let (data, at_gas) = match read_bytes(input, at_data) {
            Some(found) => found,
            None => {
                return Err(Error::DecodeError);
            },
        };
        let (gas, at_fees) = match read_u64(input, at_gas) {
            Some(found) => found,
            None => {
                return Err(Error::DecodeError);
            },
        };
        let (max_fees, at_weight) = match VersionedAsset::read(input, at_fees) {
            Ok(found) => found,
            Err(e) => {
                return Err(e);
            },
        };
        let (max_weight, end) = match read_u64(input, at_weight) {
            Some(found) => found,
            None => {
                return Err(Error::DecodeError);
            },
        };
        if end != input.len() {
            return Err(Error::DecodeError);
        }
        Ok(
            ContractCallInput {
                dest,
                data,
                gas_limit: Weight::from_ref_time(gas),
                max_fees,
                max_weight,
            },
        )
    }
}

/// Reads the query identifier that the input starts with.
pub fn read_query_id(input: &[u8]) -> (r: Result<u64, Error>)
    ensures
        r == decode_query_id(input@),
{
    match read_u64(input, 0) {
        Some((id, _)) => Ok(id),
        None => Err(Error::DecodeError),
    }
}

} // verus!
