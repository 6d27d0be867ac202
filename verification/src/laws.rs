//! What holds of the dispatcher whatever the commands, the inputs and the
//! host's answers are.

use crate::command::{Command, Weight};
use crate::error::{Error, Status};
use crate::extension::{
    done, ContextView, EventView, ExtensionView, Outcome, ReplyView, RequestView, StepView,
};
use crate::location::{account_location, encode_versioned_location, LocationView};
use crate::asset::AssetView;
use crate::message::{contract_call_program, encode_program, encode_versioned_message};
use vstd::prelude::*;

verus! {

/// A command number above six is an invalid command, whatever the input
/// holds: nothing is decoded and nothing changes.
pub proof fn law_unknown_command_is_rejected(
    state: ExtensionView,
    func_id: u16,
    input: Seq<u8>,
    ctx: ContextView,
)
    requires
        func_id > 6,
    ensures
        state.call(func_id, input, ctx) == (state, Err::<StepView, Error>(Error::InvalidCommand)),
{
}

/// Execute with nothing prepared fails with a missing preparation and
/// changes nothing, so that it fails the same way however often it is
/// repeated. In a new invocation nothing is prepared.
pub proof fn law_execute_needs_preparation(state: ExtensionView, input: Seq<u8>, ctx: ContextView)
    requires
        state.prepared_execute is None,
    ensures
        state.call(Command::Execute.id_spec(), input, ctx) == (
            state,
            Err::<StepView, Error>(Error::PreparationMissing),
        ),
        ExtensionView::empty().prepared_execute is None,
{
}

/// Send with nothing validated fails with a missing preparation and
/// changes nothing. In a new invocation nothing is validated.
pub proof fn law_send_needs_validation(state: ExtensionView, input: Seq<u8>, ctx: ContextView)
    requires
        state.validated_send is None,
    ensures
        state.call(Command::Send.id_spec(), input, ctx) == (
            state,
            Err::<StepView, Error>(Error::PreparationMissing),
        ),
        ExtensionView::empty().validated_send is None,
{
}

/// What is executed is what was prepared: after a message was weighed, the
/// command to execute asks for that message, with that weight, in the name
/// of the contract.
pub proof fn law_execute_runs_what_was_prepared(
    state: ExtensionView,
    xcm: Seq<u8>,
    ref_time: u64,
    input: Seq<u8>,
    ctx: ContextView,
)
    ensures
        state.resume(RequestView::Weigh { xcm }, EventView::Weighed(Some(ref_time)), ctx).0.call(
            Command::Execute.id_spec(),
            input,
            ctx,
        ).1 == Ok::<StepView, Error>(
            StepView::Call(
                RequestView::Execute {
                    origin: encode_versioned_location(account_location(ctx.address)),
                    xcm: encode_versioned_message(xcm),
                    weight: Weight { ref_time },
                },
            ),
        ),
{
}

/// What is sent is what was validated: after a send was validated, the
/// command to send asks for that message to that destination, in the name
/// of the caller.
pub proof fn law_send_hands_on_what_was_validated(
    state: ExtensionView,
    dest: LocationView,
    xcm: Seq<u8>,
    input: Seq<u8>,
    ctx: ContextView,
)
    ensures
        state.validate_send(dest, xcm).call(Command::Send.id_spec(), input, ctx).1 == Ok::<
            StepView,
            Error,
        >(
            StepView::Call(
                RequestView::Send {
                    origin: encode_versioned_location(account_location(ctx.caller)),
                    dest: encode_versioned_location(dest),
                    xcm: encode_versioned_message(xcm),
                },
            ),
        ),
{
}

/// What a contract call sends is the composed message: once the host has
/// encoded the call, the dispatcher asks for the four instructions, built
/// from the rewritten fee, the weight ceiling and the encoded call, to be
/// sent to the destination chain in the name of the caller.
pub proof fn law_contract_call_sends_the_composed_message(
    state: ExtensionView,
    contract: Seq<u8>,
    value: u128,
    gas_limit: Weight,
    data: Seq<u8>,
    dest: LocationView,
    max_fees: AssetView,
    max_weight: u64,
    call: Seq<u8>,
    ctx: ContextView,
)
    ensures
        state.resume(
            RequestView::EncodeCall { contract, value, gas_limit, data, dest, max_fees, max_weight },
            EventView::CallEncoded(call),
            ctx,
        ).1 == Ok::<StepView, Error>(
            StepView::Call(
                RequestView::Send {
                    origin: encode_versioned_location(account_location(ctx.caller)),
                    dest: encode_versioned_location(dest),
                    xcm: encode_versioned_message(
                        encode_program(contract_call_program(max_fees, max_weight, call)),
                    ),
                },
            ),
        ),
        contract_call_program(max_fees, max_weight, call).len() == 4,
{
}

/// What was prepared is executed once: after an execution that completed,
/// execute fails with a missing preparation until a message is prepared again.
pub proof fn law_execute_is_single_use(
    state: ExtensionView,
    request: RequestView,
    input: Seq<u8>,
    ctx: ContextView,
)
    requires
        request is Execute,
        state.prepared_execute is Some,
    ensures
        state.resume(request, EventView::Executed(Outcome::Complete), ctx).1 == done(Seq::empty()),
        state.resume(request, EventView::Executed(Outcome::Complete), ctx).0.call(
            Command::Execute.id_spec(),
            input,
            ctx,
        ).1 == Err::<StepView, Error>(Error::PreparationMissing),
{
}

/// What was validated is sent once: after a send that the routing subsystem
/// took, send fails with a missing preparation until a send is validated again.
pub proof fn law_send_is_single_use(
    state: ExtensionView,
    request: RequestView,
    input: Seq<u8>,
    ctx: ContextView,
)
    requires
        request is Send,
        state.validated_send is Some,
    ensures
        state.resume(request, EventView::Sent(true), ctx).1 == done(Seq::empty()),
        state.resume(request, EventView::Sent(true), ctx).0.call(
            Command::Send.id_spec(),
            input,
            ctx,
        ).1 == Err::<StepView, Error>(Error::PreparationMissing),
{
}

/// An execution that stopped part of the way counts as one that did not run:
/// both fail the command in the same way, and what was prepared stays.
pub proof fn law_incomplete_execution_fails(
    state: ExtensionView,
    request: RequestView,
    ctx: ContextView,
)
    ensures
        state.resume(request, EventView::Executed(Outcome::Incomplete), ctx) == state.resume(
            request,
            EventView::Executed(Outcome::Error),
            ctx,
        ),
        request is Execute && state.prepared_execute is Some ==> state.resume(
            request,
            EventView::Executed(Outcome::Incomplete),
            ctx,
        ) == (state, Err::<StepView, Error>(Error::ExecutionFailed)),
{
}

/// A command or an answer that fails leaves what is prepared as it was.
pub proof fn law_failure_changes_nothing(
    state: ExtensionView,
    func_id: u16,
    input: Seq<u8>,
    request: RequestView,
    event: EventView,
    ctx: ContextView,
)
    ensures
        state.call(func_id, input, ctx).1 is Err ==> state.call(func_id, input, ctx).0 == state,
        state.resume(request, event, ctx).1 is Err ==> state.resume(request, event, ctx).0
            == state,
{
}

/// Whether a response is there is the host's to say, and the dispatcher
/// hands it on: no response is the status of that name with no output, a
/// response goes back as it came with the status of success. Neither
/// changes what is prepared.
pub proof fn law_response_is_handed_on(
    state: ExtensionView,
    query_id: u64,
    response: Seq<u8>,
    ctx: ContextView,
)
    ensures
        state.resume(
            RequestView::TakeResponse { query_id },
            EventView::ResponseTaken(None),
            ctx,
        ) == (
            state,
            Ok::<StepView, Error>(
                StepView::Done(ReplyView { status: Status::NoResponse, output: Seq::empty() }),
            ),
        ),
        state.resume(
            RequestView::TakeResponse { query_id },
            EventView::ResponseTaken(Some(response)),
            ctx,
        ) == (state, done(response)),
{
}

} // verus!
