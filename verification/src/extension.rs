//! The dispatcher: it takes a command and its input, keeps what was prepared
//! for the length of one invocation, and says what the host has to do next.
//!
//! The host weighs, executes, sends and keeps the queries. The dispatcher
//! decides: [`Extension::call`] turns a command into either a finished reply
//! or a request to the host, and [`Extension::resume`] takes the request
//! back together with what the host made of it.

use crate::asset::{encode_versioned_asset, reanchored_spec, Asset, AssetView, VersionedAsset};
use crate::command::{
    decode_contract_call, decode_query_id, decode_validate_send, read_query_id, Command,
    ContractCallInput, ValidateSendInput, Weight,
};
use crate::error::{Error, Status};
use crate::junction::{Junction, JunctionView};
use crate::location::{
    account_location, encode_versioned_location, Location, LocationView, VersionedLocation,
    LOCATION_VERSION,
};
use crate::message::{
    contract_call_program, decode_versioned_message, encode_program, encode_versioned_message,
    Message, VersionedMessage,
};
use crate::scale::{encode_u64, write_u64};
use vstd::prelude::*;

verus! {

/// A message that was decoded and weighed, ready to be executed.
#[derive(Debug, PartialEq, Eq)]
pub struct PreparedExecution {
    pub xcm: Message,
    pub weight: Weight,
}

/// The mathematical value of a [`PreparedExecution`].
pub struct PreparedExecutionView {
    pub xcm: Seq<u8>,
    pub weight: Weight,
}

/// A destination and a message, ready to be sent.
#[derive(Debug, PartialEq, Eq)]
pub struct ValidatedSend {
    pub dest: Location,
    pub xcm: Message,
}

/// The mathematical value of a [`ValidatedSend`].
pub struct ValidatedSendView {
    pub dest: LocationView,
    pub xcm: Seq<u8>,
}

/// What is prepared in the invocation that the dispatcher serves. Both
/// slots are empty when the invocation starts.
#[derive(Debug, PartialEq, Eq)]
pub struct Extension {
    prepared_execute: Option<PreparedExecution>,
    validated_send: Option<ValidatedSend>,
}

/// The mathematical value of an [`Extension`].
pub struct ExtensionView {
    pub prepared_execute: Option<PreparedExecutionView>,
    pub validated_send: Option<ValidatedSendView>,
}

/// What the host knows of the invocation.
#[derive(Debug, PartialEq, Eq)]
pub struct Context {
    /// The contract that gives the commands.
    pub address: [u8; 32],
    /// Who called that contract.
    pub caller: [u8; 32],
    /// The value that came with the call.
    pub value_transferred: u128,
    /// Where this chain stands among its ancestors.
    pub ancestry: Location,
}

/// The mathematical value of a [`Context`].
pub struct ContextView {
    pub address: Seq<u8>,
    pub caller: Seq<u8>,
    pub value_transferred: u128,
    pub ancestry: LocationView,
}

/// How the execution of a message ended.
#[derive(Clone, Copy, Debug, PartialEq, Eq, Structural)]
pub enum Outcome {
    /// Every instruction ran.
    Complete,
    /// Execution stopped part of the way.
    Incomplete,
    /// Nothing ran.
    Error,
}

/// What the dispatcher asks of the host. Locations and messages are in
/// versioned wire form.
#[derive(Debug, PartialEq, Eq)]
#[allow(inconsistent_fields)]
pub enum Request {
    /// Weigh the message.
    Weigh { xcm: Message },
    /// Charge `weight` to the invocation, then execute the message from
    /// `origin` in credit, with `weight` as its budget and its ceiling.
    Execute { origin: Vec<u8>, xcm: Vec<u8>, weight: Weight },
    /// Hand the message to the routing subsystem, from `origin` to `dest`.
    Send { origin: Vec<u8>, dest: Vec<u8>, xcm: Vec<u8> },
    /// Open a query that `responder` may answer until `timeout`.
    NewQuery { responder: Vec<u8>, timeout: u64 },
    /// Take the response to the query, if one is there.
    TakeResponse { query_id: u64 },
    /// Encode the call of the contract `contract` with `value`, `gas_limit`
    /// and `data` and no ceiling on the storage deposit. The last three
    /// fields say where the call goes and what it may cost.
    EncodeCall {
        contract: [u8; 32],
        value: u128,
        gas_limit: Weight,
        data: Vec<u8>,
        dest: Location,
        max_fees: Asset,
        max_weight: u64,
    },
}

/// The mathematical value of a [`Request`].
#[allow(inconsistent_fields)]
pub enum RequestView {
    Weigh { xcm: Seq<u8> },
    Execute { origin: Seq<u8>, xcm: Seq<u8>, weight: Weight },
    Send { origin: Seq<u8>, dest: Seq<u8>, xcm: Seq<u8> },
    NewQuery { responder: Seq<u8>, timeout: u64 },
    TakeResponse { query_id: u64 },
    EncodeCall {
        contract: Seq<u8>,
        value: u128,
        gas_limit: Weight,
        data: Seq<u8>,
        dest: LocationView,
        max_fees: AssetView,
        max_weight: u64,
    },
}

/// What the host made of a request.
#[derive(Debug, PartialEq, Eq)]
pub enum Event {
    /// The weight of the message, or none where it cannot be weighed.
    Weighed(Option<u64>),
    /// How the execution ended.
    Executed(Outcome),
    /// Whether the routing subsystem took the message.
    Sent(bool),
    /// The identifier of the new query.
    QueryCreated(u64),
    /// The response in versioned wire form, or none where none is there.
    ResponseTaken(Option<Vec<u8>>),
    /// The encoded call.
    CallEncoded(Vec<u8>),
}

/// The mathematical value of an [`Event`].
pub enum EventView {
    Weighed(Option<u64>),
    Executed(Outcome),
    Sent(bool),
    QueryCreated(u64),
    ResponseTaken(Option<Seq<u8>>),
    CallEncoded(Seq<u8>),
}

/// What goes back to the contract when a command completes.
#[derive(Debug, PartialEq, Eq)]
pub struct Reply {
    pub status: Status,
    pub output: Vec<u8>,
}

/// The mathematical value of a [`Reply`].
pub struct ReplyView {
    pub status: Status,
    pub output: Seq<u8>,
}

/// Where a command stands: the host has something to do, or it is done.
#[derive(Debug, PartialEq, Eq)]
pub enum Step {
    Call(Request),
    Done(Reply),
}

/// The mathematical value of a [`Step`].
pub enum StepView {
    Call(RequestView),
    Done(ReplyView),
}

impl View for PreparedExecution {
    type V = PreparedExecutionView;

    open spec fn view(&self) -> PreparedExecutionView {
        PreparedExecutionView { xcm: self.xcm@, weight: self.weight }
    }
}

impl View for ValidatedSend {
    type V = ValidatedSendView;

    open spec fn view(&self) -> ValidatedSendView {
        ValidatedSendView { dest: self.dest@, xcm: self.xcm@ }
    }
}

impl View for Extension {
    type V = ExtensionView;

    closed spec fn view(&self) -> ExtensionView {
        ExtensionView {
            prepared_execute: match self.prepared_execute {
                Some(prepared) => Some(prepared@),
                None => None,
            },
            validated_send: match self.validated_send {
                Some(validated) => Some(validated@),
                None => None,
            },
        }
    }
}

impl View for Context {
    type V = ContextView;

    open spec fn view(&self) -> ContextView {
        ContextView {
            address: self.address@,
            caller: self.caller@,
            value_transferred: self.value_transferred,
            ancestry: self.ancestry@,
        }
    }
}

impl View for Request {
    type V = RequestView;

    open spec fn view(&self) -> RequestView {
        match self {
            Request::Weigh { xcm } => RequestView::Weigh { xcm: xcm@ },
            Request::Execute { origin, xcm, weight } => RequestView::Execute {
                origin: origin@,
                xcm: xcm@,
                weight: *weight,
            },
            Request::Send { origin, dest, xcm } => RequestView::Send {
                origin: origin@,
                dest: dest@,
                xcm: xcm@,
            },
            Request::NewQuery { responder, timeout } => RequestView::NewQuery {
                responder: responder@,
                timeout: *timeout,
            },
            Request::TakeResponse { query_id } => RequestView::TakeResponse {
                query_id: *query_id,
            },
            Request::EncodeCall {
                contract,
                value,
                gas_limit,
                data,
                dest,
                max_fees,
                max_weight,
            } => RequestView::EncodeCall {
                contract: contract@,
                value: *value,
                gas_limit: *gas_limit,
                data: data@,
                dest: dest@,
                max_fees: max_fees@,
                max_weight: *max_weight,
            },
        }
    }
}

impl View for Event {
    type V = EventView;

    open spec fn view(&self) -> EventView {
        match self {
            Event::Weighed(weight) => EventView::Weighed(*weight),
            Event::Executed(outcome) => EventView::Executed(*outcome),
            Event::Sent(taken) => EventView::Sent(*taken),
            Event::QueryCreated(query_id) => EventView::QueryCreated(*query_id),
            Event::ResponseTaken(response) => EventView::ResponseTaken(
                match response {
                    Some(body) => Some(body@),
                    None => None,
                },
            ),
            Event::CallEncoded(call) => EventView::CallEncoded(call@),
        }
    }
}

impl View for Reply {
    type V = ReplyView;

    open spec fn view(&self) -> ReplyView {
        ReplyView { status: self.status, output: self.output@ }
    }
}

impl View for Step {
    type V = StepView;

    open spec fn view(&self) -> StepView {
        match self {
            Step::Call(request) => StepView::Call(request@),
            Step::Done(reply) => StepView::Done(reply@),
        }
    }
}

/// The fee as the destination chain sees it: unchanged where its
/// identifier is abstract, rewritten where it is concrete.
pub open spec fn reanchored_fee(fee: AssetView, target: LocationView, ancestry: LocationView)
    -> Result<AssetView, Error> {
    if fee.id is Abstract {
        Ok(fee)
    } else {
        reanchored_spec(fee, target, ancestry)
    }
}

/// The value of what a command or a resumption returns.
pub open spec fn step_view(r: Result<Step, Error>) -> Result<StepView, Error> {
    match r {
        Ok(step) => Ok(step@),
        Err(e) => Err(e),
    }
}

/// A reply of success that carries `output`.
pub open spec fn done(output: Seq<u8>) -> Result<StepView, Error> {
    Ok(StepView::Done(ReplyView { status: Status::Success, output }))
}

impl ExtensionView {
    /// Nothing is prepared.
    pub open spec fn empty() -> ExtensionView {
        ExtensionView { prepared_execute: None, validated_send: None }
    }

    /// The state after a send was validated: the destination and the
    /// message take the slot, whatever was in it.
    pub open spec fn validate_send(self, dest: LocationView, xcm: Seq<u8>) -> ExtensionView {
        ExtensionView {
            prepared_execute: self.prepared_execute,
            validated_send: Some(ValidatedSendView { dest, xcm }),
        }
    }

    /// The request to send what was validated, in the name of `caller`;
    /// preparation is missing where nothing was.
    pub open spec fn send(self, caller: Seq<u8>) -> Result<RequestView, Error> {
        match self.validated_send {
            None => Err(Error::PreparationMissing),
            Some(validated) => Ok(
                RequestView::Send {
                    origin: encode_versioned_location(account_location(caller)),
                    dest: encode_versioned_location(validated.dest),
                    xcm: encode_versioned_message(validated.xcm),
                },
            ),
        }
    }

    /// The request to execute what was prepared, in the name of the
    /// contract at `address`; preparation is missing where nothing was.
    pub open spec fn execute(self, address: Seq<u8>) -> Result<StepView, Error> {
        match self.prepared_execute {
            None => Err(Error::PreparationMissing),
            Some(prepared) => Ok(
                StepView::Call(
                    RequestView::Execute {
                        origin: encode_versioned_location(account_location(address)),
                        xcm: encode_versioned_message(prepared.xcm),
                        weight: prepared.weight,
                    },
                ),
            ),
        }
    }

    /// What the command to call a contract on another chain comes to: the
    /// destination is parted into the chain and the account on it, the fee
    /// is rewritten for that chain, and the host is asked to encode the call.
    pub open spec fn contract_call(input: Seq<u8>, ctx: ContextView) -> Result<StepView, Error> {
        match decode_contract_call(input) {
            Err(e) => Err(e),
            Ok(v) => match v.dest.split_last() {
                (chain, Some(JunctionView::AccountId32 { network, id })) => match reanchored_fee(
                    v.max_fees,
                    chain,
                    ctx.ancestry,
                ) {
                    Err(e) => Err(e),
                    Ok(max_fees) => Ok(
                        StepView::Call(
                            RequestView::EncodeCall {
                                contract: id,
                                value: ctx.value_transferred,
                                gas_limit: v.gas_limit,
                                data: v.data,
                                dest: chain,
                                max_fees,
                                max_weight: v.max_weight,
                            },
                        ),
                    ),
                },
                _ => Err(Error::InvalidCommand),
            },
        }
    }

    /// The state after the command `func_id` with `input`, and what the
    /// command returns. A failure leaves the state as it was.
    pub open spec fn call(self, func_id: u16, input: Seq<u8>, ctx: ContextView) -> (
        ExtensionView,
        Result<StepView, Error>,
    ) {
        match Command::from_id(func_id) {
            None => (self, Err(Error::InvalidCommand)),
            Some(Command::PrepareExecute) => match decode_versioned_message(input, 0) {
                Err(e) => (self, Err(e)),
                Ok(xcm) => (self, Ok(StepView::Call(RequestView::Weigh { xcm }))),
            },
            Some(Command::Execute) => (self, self.execute(ctx.address)),
            Some(Command::ValidateSend) => match decode_validate_send(input) {
                Err(e) => (self, Err(e)),
                Ok(v) => (
                    self.validate_send(v.dest, v.xcm),
                    done(encode_versioned_asset(AssetView::placeholder())),
                ),
            },
            Some(Command::Send) => match self.send(ctx.caller) {
                Err(e) => (self, Err(e)),
                Ok(request) => (self, Ok(StepView::Call(request))),
            },
            Some(Command::NewQuery) => (
                self,
                Ok(
                    StepView::Call(
                        RequestView::NewQuery {
                            responder: encode_versioned_location(account_location(ctx.address)),
                            timeout: u64::MAX,
                        },
                    ),
                ),
            ),
            Some(Command::TakeResponse) => match decode_query_id(input) {
                Err(e) => (self, Err(e)),
                Ok(query_id) => (self, Ok(StepView::Call(RequestView::TakeResponse { query_id }))),
            },
            Some(Command::ContractCall) => (self, ExtensionView::contract_call(input, ctx)),
        }
    }

    /// The state after the host answered `request` with `event`, and what
    /// the command returns. An event that does not answer the request is an
    /// invalid command. A failure leaves the state as it was.
    pub open spec fn resume(self, request: RequestView, event: EventView, ctx: ContextView) -> (
        ExtensionView,
        Result<StepView, Error>,
    ) {
        match (request, event) {
            (RequestView::Weigh { xcm }, EventView::Weighed(None)) => (
                self,
                Err(Error::CannotWeigh),
            ),
            (RequestView::Weigh { xcm }, EventView::Weighed(Some(ref_time))) => (
                ExtensionView {
                    prepared_execute: Some(
                        PreparedExecutionView { xcm, weight: Weight { ref_time } },
                    ),
                    validated_send: self.validated_send,
                },
                done(encode_u64(ref_time)),
            ),
            (RequestView::Execute { .. }, EventView::Executed(outcome)) => {
                if self.prepared_execute is None {
                    (self, Err(Error::PreparationMissing))
                } else if outcome == Outcome::Complete {
                    (
                        ExtensionView {
                            prepared_execute: None,
                            validated_send: self.validated_send,
                        },
                        done(Seq::empty()),
                    )
                } else {
                    (self, Err(Error::ExecutionFailed))
                }
            },
            (RequestView::Send { .. }, EventView::Sent(taken)) => {
                if self.validated_send is None {
                    (self, Err(Error::PreparationMissing))
                } else if taken {
                    (
                        ExtensionView {
                            prepared_execute: self.prepared_execute,
                            validated_send: None,
                        },
                        done(Seq::empty()),
                    )
                } else {
                    (self, Err(Error::SendFailed))
                }
            },
            (RequestView::NewQuery { .. }, EventView::QueryCreated(query_id)) => (
                self,
                done(encode_u64(query_id)),
            ),
            (RequestView::TakeResponse { .. }, EventView::ResponseTaken(None)) => (
                self,
                Ok(
                    StepView::Done(
                        ReplyView { status: Status::NoResponse, output: Seq::empty() },
                    ),
                ),
            ),
            (RequestView::TakeResponse { .. }, EventView::ResponseTaken(Some(response))) => (
                self,
                done(response),
            ),
            (
                RequestView::EncodeCall { dest, max_fees, max_weight, .. },
                EventView::CallEncoded(call),
            ) => {
                let validated = self.validate_send(
                    dest,
                    encode_program(contract_call_program(max_fees, max_weight, call)),
                );
                match validated.send(ctx.caller) {
                    Err(e) => (self, Err(e)),
                    Ok(send) => (validated, Ok(StepView::Call(send))),
                }
            },
            _ => (self, Err(Error::InvalidCommand)),
        }
    }
}

impl Default for Extension {
    fn default() -> (r: Extension)
        ensures
            r@ == ExtensionView::empty(),
    {
        Extension { prepared_execute: None, validated_send: None }
    }
}

impl Extension {
    /// The dispatcher of a new invocation: nothing is prepared.
    pub fn new() -> (r: Extension)
        ensures
            r@ == ExtensionView::empty(),
    {
        Extension { prepared_execute: None, validated_send: None }
    }

    /// What is prepared for execution.
    pub fn prepared_execute(&self) -> (r: &Option<PreparedExecution>)
        ensures
            match r {
                Some(prepared) => self@.prepared_execute == Some(prepared@),
                None => self@.prepared_execute is None,
            },
    {
        &self.prepared_execute
    }

    /// What is validated for sending.
    pub fn validated_send(&self) -> (r: &Option<ValidatedSend>)
        ensures
            match r {
                Some(validated) => self@.validated_send == Some(validated@),
                None => self@.validated_send is None,
            },
    {
        &self.validated_send
    }

    /// Keeps the destination and the message for a send that follows, and
    /// answers with the placeholder asset: the fee of a send is not computed.
    pub fn validate_send(&mut self, input: ValidateSendInput) -> (r: Result<Asset, Error>)
        ensures
            final(self)@ == old(self)@.validate_send(input@.dest, input@.xcm),
            r is Ok,
            r->Ok_0@ == AssetView::placeholder(),
    {
        let ValidateSendInput { dest, xcm } = input;
        self.validated_send = Some(
            ValidatedSend { dest: dest.into_latest(), xcm: xcm.into_latest() },
        );
        Ok(Asset::placeholder())
    }

    /// The request to send what was validated, in the name of `caller`.
    /// Nothing is cleared before the host says that the message was taken.
    pub fn send(&self, caller: [u8; 32]) -> (r: Result<Request, Error>)
        ensures
            match r {
                Ok(request) => self@.send(caller@) == Ok::<RequestView, Error>(request@),
                Err(e) => self@.send(caller@) == Err::<RequestView, Error>(e),
            },
    {
        match &self.validated_send {
            None => Err(Error::PreparationMissing),
            Some(validated) => {
                let origin = encode_account(caller);
                let mut dest: Vec<u8> = Vec::new();
                dest.push(LOCATION_VERSION);
                validated.dest.write(&mut dest);
                let xcm = validated.xcm.encode_versioned();
                proof {
                    assert(dest@ =~= encode_versioned_location(validated.dest@));
                }
                Ok(Request::Send { origin, dest, xcm })
            },
        }
    }

    /// Takes the command `func_id` with its `input`. The result is either a
    /// reply for the contract or a request to the host, whose answer goes
    /// to [`Extension::resume`].
    pub fn call(&mut self, func_id: u16, input: &[u8], ctx: &Context) -> (r: Result<Step, Error>)
        ensures
            (final(self)@, step_view(r)) == old(self)@.call(func_id, input@, ctx@),
    {
        let command = match Command::try_from(func_id) {
            Ok(command) => command,
            Err(e) => {
                return Err(e);
            },
        };
        match command {
            Command::PrepareExecute => {
                match VersionedMessage::read(input, 0) {
                    Err(e) => Err(e),
                    Ok(xcm) => Ok(Step::Call(Request::Weigh { xcm: xcm.into_latest() })),
                }
            },
            Command::Execute => {
                match &self.prepared_execute {
                    None => Err(Error::PreparationMissing),
                    Some(prepared) => {
                        let origin = encode_account(ctx.address);
                        let xcm = prepared.xcm.encode_versioned();
                        Ok(Step::Call(Request::Execute { origin, xcm, weight: prepared.weight }))
                    },
                }
            },
            Command::ValidateSend => {
                match ValidateSendInput::decode(input) {
                    Err(e) => Err(e),
                    Ok(v) => {
                        match self.validate_send(v) {
                            Err(e) => Err(e),
                            Ok(asset) => {
                                let output = VersionedAsset::V1(asset).encode();
                                Ok(Step::Done(Reply { status: Status::Success, output }))
                            },
                        }
                    },
                }
            },
            Command::Send => {
                match self.send(ctx.caller) {
                    Err(e) => Err(e),
                    Ok(request) => Ok(Step::Call(request)),
                }
            },
            Command::NewQuery => {
                let responder = encode_account(ctx.address);
                Ok(Step::Call(Request::NewQuery { responder, timeout: u64::MAX }))
            },
            Command::TakeResponse => {
                match read_query_id(input) {
                    Err(e) => Err(e),
                    Ok(query_id) => Ok(Step::Call(Request::TakeResponse { query_id })),
                }
            },
            Command::ContractCall => contract_call(input, ctx),
        }
    }

    /// Takes what the host made of `request`. The result is either a reply
    /// for the contract or the next request to the host.
    pub fn resume(&mut self, request: Request, event: Event, ctx: &Context) -> (r: Result<
        Step,
        Error,
    >)
        ensures
            (final(self)@, step_view(r)) == old(self)@.resume(request@, event@, ctx@),
    {
        match (request, event) {
            (Request::Weigh { xcm }, Event::Weighed(None)) => Err(Error::CannotWeigh),
            (Request::Weigh { xcm }, Event::Weighed(Some(ref_time))) => {
                self.prepared_execute = Some(
                    PreparedExecution { xcm, weight: Weight::from_ref_time(ref_time) },
                );
                Ok(Step::Done(success(encode_number(ref_time))))
            },
            (Request::Execute { .. }, Event::Executed(outcome)) => {
                if self.prepared_execute.is_none() {
                    Err(Error::PreparationMissing)
                } else {
                    match outcome {
                        Outcome::Complete => {
                            self.prepared_execute = None;
                            Ok(Step::Done(success(Vec::new())))
                        },
                        _ => Err(Error::ExecutionFailed),
                    }
                }
            },
            (Request::Send { .. }, Event::Sent(taken)) => {
                if self.validated_send.is_none() {
                    Err(Error::PreparationMissing)
                } else if taken {
                    self.validated_send = None;
                    Ok(Step::Done(success(Vec::new())))
                } else {
                    Err(Error::SendFailed)
                }
            },
            (Request::NewQuery { .. }, Event::QueryCreated(query_id)) => {
                Ok(Step::Done(success(encode_number(query_id))))
            },
            (Request::TakeResponse { .. }, Event::ResponseTaken(None)) => {
                Ok(Step::Done(Reply { status: Status::NoResponse, output: Vec::new() }))
            },
            (Request::TakeResponse { .. }, Event::ResponseTaken(Some(response))) => {
                Ok(Step::Done(success(response)))
            },
            (
                Request::EncodeCall { dest, max_fees, max_weight, .. },
                Event::CallEncoded(call),
            ) => {
                let xcm = Message::contract_call(&max_fees, max_weight, call.as_slice());
                let input = ValidateSendInput {
                    dest: VersionedLocation::V1(dest),
                    xcm: VersionedMessage::V2(xcm),
                };
                match self.validate_send(input) {
                    Err(e) => Err(e),
                    Ok(_) => match self.send(ctx.caller) {
                        Err(e) => Err(e),
                        Ok(request) => Ok(Step::Call(request)),
                    },
                }
            },
            _ => Err(Error::InvalidCommand),
        }
    }
}

/// The versioned wire form of the account `id` as a location.
fn encode_account(id: [u8; 32]) -> (out: Vec<u8>)
    ensures
        out@ == encode_versioned_location(account_location(id@)),
{
    VersionedLocation::V1(Location::from_account(id)).encode()
}

/// The eight bytes of a number.
fn encode_number(v: u64) -> (out: Vec<u8>)
    ensures
        out@ == encode_u64(v),
{
    let mut out: Vec<u8> = Vec::new();
    write_u64(&mut out, v);
    proof {
        assert(out@ =~= encode_u64(v));
    }
    out
}

/// A reply of success that carries `output`.
fn success(output: Vec<u8>) -> (r: Reply)
    ensures
        r@ == (ReplyView { status: Status::Success, output: output@ }),
{
    Reply { status: Status::Success, output }
}

/// Takes the command to call a contract on another chain as far as the
/// host's part: decodes the input, parts the destination into the chain and
/// the account on it, and has the fee rewritten for that chain.
pub fn contract_call(input: &[u8], ctx: &Context) -> (r: Result<Step, Error>)
    ensures
        step_view(r) == ExtensionView::contract_call(input@, ctx@),
{
    let v = match ContractCallInput::decode(input) {
        Ok(v) => v,
        Err(e) => {
            return Err(e);
        },
    };
    let ContractCallInput { dest, data, gas_limit, max_fees, max_weight } = v;
    let (chain, last) = dest.into_latest().split_last();
    let contract = match last {
        Some(Junction::AccountId32 { network, id }) => id,
        _ => {
            return Err(Error::InvalidCommand);
        },
    };
    let max_fees = match max_fees.into_latest().reanchored(&chain, &ctx.ancestry) {
        Ok(moved) => moved,
        Err(e) => {
            return Err(e);
        },
    };
    Ok(
        Step::Call(
            Request::EncodeCall {
                contract,
                value: ctx.value_transferred,
                gas_limit,
                data,
                dest: chain,
                max_fees,
                max_weight,
            },
        ),
    )
}

} // verus!
