//! The life of one delivery, from the request body to the response.
//!
//! A delivery moves `Received -> Parsed -> Authorized -> Processed ->
//! Responded`; from any stage before `Processed` it may end in `Failed`. The
//! program around the library owns the socket, the lock around the shared state
//! and the downstream client. It asks the delivery what to do next, does it,
//! and hands back what came of it. Every operation is total: one that does not
//! apply at the delivery's stage leaves the delivery and the state as they are.

use crate::dispatch::{
    action_of, classified, classify, delivery_key, derive_action, key_of, Ack, Action, ActionView,
    DispatchError, ProviderReport,
};
use crate::event::{
    decoded, decoded_text, outcome_view, PayloadError, WebhookEvent, WebhookEventView,
};
use crate::http::{acknowledgment, ok_response, Response, ResponseView};
use crate::json::{member, JsonFieldView};
use crate::schema::FieldId;
use crate::state::{
    admission_of, after_rejection, after_reserve, after_settle, after_withdraw, claim_in,
    Admission, Claim, ProcessState, ProcessStateView,
};
use vstd::prelude::*;
use vstd::string::*;

verus! {

/// How often a dispatch is tried at most, the first try included.
pub const MAX_ATTEMPTS: u32 = 3;

/// The pause before the second try, in milliseconds. Each later pause is twice
/// the one before.
pub const BACKOFF_BASE_MS: u64 = 100;

/// The longest pause between two tries, in milliseconds.
pub const BACKOFF_CAP_MS: u64 = 5000;

/// How long one dispatch may take, in milliseconds. One that takes longer is
/// reported as `DeadlineExceeded`.
pub const DISPATCH_DEADLINE_MS: u64 = 10000;

/// Why a delivery failed.
#[derive(Clone, Copy, Debug, PartialEq, Eq, Structural)]
pub enum Failure {
    /// The body could not be read as a webhook event.
    MalformedPayload(PayloadError),
    /// The caller was not allowed to deliver.
    Unauthorized,
    /// The downstream client kept failing until the tries ran out.
    TransientFailure,
    /// The provider refused the action for good.
    RejectedByProvider,
    /// The downstream client turned the session credential down.
    AuthenticationFailed,
}

/// How a processed delivery came to its end.
#[derive(Clone, Copy, Debug, PartialEq, Eq, Structural)]
pub enum Completion {
    /// This request dispatched the action and the provider acknowledged it.
    Delivered(Ack),
    /// Another request holds or has completed the same delivery: nothing was
    /// dispatched.
    Duplicate,
}

/// The stage of a delivery, without what it carries.
#[derive(Clone, Copy, Debug, PartialEq, Eq, Structural)]
pub enum Stage {
    Received,
    Parsed,
    Authorized,
    Processed,
    Responded,
    Failed(Failure),
}

/// One delivery on its way through the pipeline.
#[derive(Clone, Debug, PartialEq, Eq)]
pub enum Delivery {
    /// The request has arrived; its body is unread.
    Received,
    /// The body was read as an event.
    Parsed(WebhookEvent),
    /// The caller may deliver. `attempts` counts the dispatches started: zero
    /// until the delivery is claimed in the shared state.
    Authorized { event: WebhookEvent, attempts: u32 },
    /// The work is done; the response is owed.
    Processed(Completion),
    /// The response was sent.
    Responded,
    /// The delivery failed. This is final.
    Failed(Failure),
}

/// The mathematical value of a [`Delivery`].
pub enum DeliveryView {
    Received,
    Parsed(WebhookEventView),
    Authorized { event: WebhookEventView, attempts: u32 },
    Processed(Completion),
    Responded,
    Failed(Failure),
}

impl View for Delivery {
    type V = DeliveryView;

    open spec fn view(&self) -> DeliveryView {
        match *self {
            Delivery::Received => DeliveryView::Received,
            Delivery::Parsed(event) => DeliveryView::Parsed(event@),
            Delivery::Authorized { event, attempts } => DeliveryView::Authorized {
                event: event@,
                attempts,
            },
            Delivery::Processed(completion) => DeliveryView::Processed(completion),
            Delivery::Responded => DeliveryView::Responded,
            Delivery::Failed(failure) => DeliveryView::Failed(failure),
        }
    }
}

/// What the program around the library has to do next for a delivery.
#[derive(Clone, Debug, PartialEq, Eq)]
pub enum Directive {
    /// Hand over the request body.
    Parse,
    /// Hand over the verdict on the caller.
    Authorize,
    /// Take exclusive access to the shared state and begin.
    Reserve,
    /// Wait `delay_ms` milliseconds, dispatch the action without holding the
    /// shared state, then take exclusive access and hand over the report.
    Dispatch { action: Action, delay_ms: u64 },
    /// Send the response.
    Respond,
    /// Nothing: the response was sent.
    Done,
}

/// The mathematical value of a [`Directive`].
pub enum DirectiveView {
    Parse,
    Authorize,
    Reserve,
    Dispatch { action: ActionView, delay_ms: u64 },
    Respond,
    Done,
}

impl View for Directive {
    type V = DirectiveView;

    open spec fn view(&self) -> DirectiveView {
        match *self {
            Directive::Parse => DirectiveView::Parse,
            Directive::Authorize => DirectiveView::Authorize,
            Directive::Reserve => DirectiveView::Reserve,
            Directive::Dispatch { action, delay_ms } => DirectiveView::Dispatch {
                action: action@,
                delay_ms,
            },
            Directive::Respond => DirectiveView::Respond,
            Directive::Done => DirectiveView::Done,
        }
    }
}

/// `base` doubled `times` times.
pub open spec fn doubled(base: nat, times: nat) -> nat
    decreases times,
{
    if times == 0 {
        base
    } else {
        2 * doubled(base, (times - 1) as nat)
    }
}

/// The pause before the dispatch numbered `attempt`, in milliseconds: none
/// before the first, the base before the second, then twice the one before,
/// up to the cap.
pub open spec fn backoff_ms(attempt: nat) -> nat {
    if attempt <= 1 {
        0
    } else if doubled(BACKOFF_BASE_MS as nat, (attempt - 2) as nat) < BACKOFF_CAP_MS {
        doubled(BACKOFF_BASE_MS as nat, (attempt - 2) as nat)
    } else {
        BACKOFF_CAP_MS as nat
    }
}

proof fn lemma_doubled_grows(base: nat, fewer: nat, more: nat)
    requires
        fewer <= more,
    ensures
        doubled(base, fewer) <= doubled(base, more),
    decreases more,
{
    if fewer < more {
        lemma_doubled_grows(base, fewer, (more - 1) as nat);
    }
}

/// The pause before the dispatch numbered `attempt`, in milliseconds.
pub fn backoff_delay(attempt: u32) -> (ms: u64)
    ensures
        ms == backoff_ms(attempt as nat),
{
    if attempt <= 1 {
        return 0;
    }
    let mut delay: u64 = BACKOFF_BASE_MS;
    let mut k: u32 = 2;
    while k < attempt && delay < BACKOFF_CAP_MS
        invariant
            2 <= k <= attempt,
            delay == doubled(BACKOFF_BASE_MS as nat, (k - 2) as nat),
            delay < 2 * BACKOFF_CAP_MS,
        decreases attempt - k,
    {
        delay = delay * 2;
        k += 1;
    }
    proof {
        lemma_doubled_grows(BACKOFF_BASE_MS as nat, (k - 2) as nat, (attempt - 2) as nat);
    }
    if delay < BACKOFF_CAP_MS {
        delay
    } else {
        BACKOFF_CAP_MS
    }
}

/// The stage of a delivery.
pub open spec fn stage_of(delivery: DeliveryView) -> Stage {
    match delivery {
        DeliveryView::Received => Stage::Received,
        DeliveryView::Parsed(_) => Stage::Parsed,
        DeliveryView::Authorized { .. } => Stage::Authorized,
        DeliveryView::Processed(_) => Stage::Processed,
        DeliveryView::Responded => Stage::Responded,
        DeliveryView::Failed(failure) => Stage::Failed(failure),
    }
}

/// `Received -> Parsed`, or `Failed(MalformedPayload)` where the body was
/// refused.
pub open spec fn after_parse(
    delivery: DeliveryView,
    outcome: Result<WebhookEventView, PayloadError>,
) -> DeliveryView {
    match delivery {
        DeliveryView::Received => match outcome {
            Ok(event) => DeliveryView::Parsed(event),
            Err(error) => DeliveryView::Failed(Failure::MalformedPayload(error)),
        },
        _ => delivery,
    }
}

/// `Parsed -> Authorized`, or `Failed(Unauthorized)` where the caller was
/// turned away.
pub open spec fn after_verdict(delivery: DeliveryView, allowed: bool) -> DeliveryView {
    match delivery {
        DeliveryView::Parsed(event) => if allowed {
            DeliveryView::Authorized { event, attempts: 0 }
        } else {
            DeliveryView::Failed(Failure::Unauthorized)
        },
        _ => delivery,
    }
}

/// An authorized delivery that is not yet claimed and is recorded as completed
/// is processed as a duplicate. This only reads the shared state.
pub open spec fn after_recall(delivery: DeliveryView, state: ProcessStateView) -> DeliveryView {
    match delivery {
        DeliveryView::Authorized { event, attempts } => if attempts == 0 && claim_in(
            state,
            key_of(event),
        ) == Some(Claim::Delivered) {
            DeliveryView::Processed(Completion::Duplicate)
        } else {
            delivery
        },
        _ => delivery,
    }
}

/// An authorized delivery that is not yet claimed asks for its key: if nobody
/// holds it, the delivery counts its first dispatch; if it is recorded, the
/// delivery is processed as a duplicate.
pub open spec fn after_begin(delivery: DeliveryView, state: ProcessStateView) -> DeliveryView {
    match delivery {
        DeliveryView::Authorized { event, attempts } => if attempts == 0 {
            match admission_of(state, key_of(event)) {
                Admission::Fresh => DeliveryView::Authorized { event, attempts: 1 },
                Admission::Duplicate(_) => DeliveryView::Processed(Completion::Duplicate),
            }
        } else {
            delivery
        },
        _ => delivery,
    }
}

/// The shared state after a delivery began.
pub open spec fn state_after_begin(
    delivery: DeliveryView,
    state: ProcessStateView,
) -> ProcessStateView {
    match delivery {
        DeliveryView::Authorized { event, attempts } => if attempts == 0 {
            after_reserve(state, key_of(event))
        } else {
            state
        },
        _ => state,
    }
}

/// A delivery whose dispatch is outstanding takes the report: acknowledged, it
/// is processed; failed for now, it counts another dispatch while tries are
/// left and fails when none is; refused, it fails at once.
pub open spec fn after_report(delivery: DeliveryView, report: ProviderReport) -> DeliveryView {
    match delivery {
        DeliveryView::Authorized { event, attempts } => if attempts == 0 {
            delivery
        } else {
            match classified(report) {
                Ok(ack) => DeliveryView::Processed(Completion::Delivered(ack)),
                Err(DispatchError::TransientFailure) => if attempts < MAX_ATTEMPTS {
                    DeliveryView::Authorized { event, attempts: (attempts + 1) as u32 }
                } else {
                    DeliveryView::Failed(Failure::TransientFailure)
                },
                Err(DispatchError::RejectedByProvider) => DeliveryView::Failed(
                    Failure::RejectedByProvider,
                ),
                Err(DispatchError::AuthenticationFailed) => DeliveryView::Failed(
                    Failure::AuthenticationFailed,
                ),
            }
        },
        _ => delivery,
    }
}

/// The shared state after a delivery took a report: an acknowledged delivery
/// is recorded as completed, one that failed gives up its claim, and a
/// credential that was turned down is noted.
pub open spec fn state_after_report(
    delivery: DeliveryView,
    state: ProcessStateView,
    report: ProviderReport,
) -> ProcessStateView {
    match delivery {
        DeliveryView::Authorized { event, attempts } => if attempts == 0 {
            state
        } else {
            match classified(report) {
                Ok(_) => after_settle(state, key_of(event)),
                Err(DispatchError::TransientFailure) => if attempts < MAX_ATTEMPTS {
                    state
                } else {
                    after_withdraw(state, key_of(event))
                },
                Err(DispatchError::RejectedByProvider) => after_withdraw(state, key_of(event)),
                Err(DispatchError::AuthenticationFailed) => after_rejection(
                    after_withdraw(state, key_of(event)),
                ),
            }
        },
        _ => state,
    }
}

/// `Processed -> Responded`.
pub open spec fn after_respond(delivery: DeliveryView) -> DeliveryView {
    match delivery {
        DeliveryView::Processed(_) => DeliveryView::Responded,
        _ => delivery,
    }
}

/// The HTTP status that a failure is answered with.
pub open spec fn failure_status(failure: Failure) -> u16 {
    match failure {
        Failure::MalformedPayload(_) => 400,
        Failure::Unauthorized => 401,
        Failure::TransientFailure => 504,
        Failure::RejectedByProvider => 502,
        Failure::AuthenticationFailed => 502,
    }
}

/// The body that a failure is answered with.
pub open spec fn failure_body(failure: Failure) -> Seq<char> {
    match failure {
        Failure::MalformedPayload(PayloadError::NotAnObject) => "malformed payload"@,
        Failure::MalformedPayload(PayloadError::Field(field)) => "malformed payload: "@
            + field.spec_wire_name(),
        Failure::Unauthorized => "unauthorized"@,
        Failure::TransientFailure => "downstream unavailable"@,
        Failure::RejectedByProvider => "rejected by provider"@,
        Failure::AuthenticationFailed => "downstream authentication failed"@,
    }
}

/// The response that a delivery is answered with, once it has one: 200 `OK`
/// for a processed delivery, duplicate or not, and the failure's status and
/// body for a failed one.
pub open spec fn response_of(delivery: DeliveryView) -> Option<ResponseView> {
    match delivery {
        DeliveryView::Processed(_) => Some(ok_response()),
        DeliveryView::Failed(failure) => Some(
            ResponseView { status: failure_status(failure), body: failure_body(failure) },
        ),
        _ => None,
    }
}

/// What is to be done next for a delivery.
pub open spec fn directive_of(delivery: DeliveryView) -> DirectiveView {
    match delivery {
        DeliveryView::Received => DirectiveView::Parse,
        DeliveryView::Parsed(_) => DirectiveView::Authorize,
        DeliveryView::Authorized { event, attempts } => if attempts == 0 {
            DirectiveView::Reserve
        } else {
            DirectiveView::Dispatch {
                action: action_of(event),
                delay_ms: backoff_ms(attempts as nat) as u64,
            }
        },
        DeliveryView::Processed(_) => DirectiveView::Respond,
        DeliveryView::Failed(_) => DirectiveView::Respond,
        DeliveryView::Responded => DirectiveView::Done,
    }
}

/// The view of an optional response.
pub open spec fn response_view(response: Option<Response>) -> Option<ResponseView> {
    match response {
        Some(r) => Some(r@),
        None => None,
    }
}

/// The response that a failure is answered with.
pub fn failure_response(failure: Failure) -> (response: Response)
    ensures
        response@ == (ResponseView {
            status: failure_status(failure),
            body: failure_body(failure),
        }),
{
    match failure {
        Failure::MalformedPayload(PayloadError::NotAnObject) => Response {
            status: 400,
            body: String::from_str("malformed payload"),
        },
        Failure::MalformedPayload(PayloadError::Field(field)) => {
            let mut body: String = String::from_str("malformed payload: ");
            body.append(field.wire_name());
            Response { status: 400, body }
        },
        Failure::Unauthorized => Response { status: 401, body: String::from_str("unauthorized") },
        Failure::TransientFailure => Response {
            status: 504,
            body: String::from_str("downstream unavailable"),
        },
        Failure::RejectedByProvider => Response {
            status: 502,
            body: String::from_str("rejected by provider"),
        },
        Failure::AuthenticationFailed => Response {
            status: 502,
            body: String::from_str("downstream authentication failed"),
        },
    }
}

impl Delivery {
    /// A delivery whose request has just arrived.
    pub fn new() -> (delivery: Delivery)
        ensures
            delivery@ == DeliveryView::Received,
    {
        Delivery::Received
    }

    /// The stage of the delivery.
    pub fn stage(&self) -> (stage: Stage)
        ensures
            stage == stage_of(self@),
    {
        match self {
            Delivery::Received => Stage::Received,
            Delivery::Parsed(_) => Stage::Parsed,
            Delivery::Authorized { .. } => Stage::Authorized,
            Delivery::Processed(_) => Stage::Processed,
            Delivery::Responded => Stage::Responded,
            Delivery::Failed(failure) => Stage::Failed(*failure),
        }
    }

    /// Takes the outcome of reading the body.
    pub fn accept(self, outcome: Result<WebhookEvent, PayloadError>) -> (next: Delivery)
        ensures
            next@ == after_parse(self@, outcome_view(outcome)),
    {
        match self {
            Delivery::Received => match outcome {
                Ok(event) => Delivery::Parsed(event),
                Err(error) => Delivery::Failed(Failure::MalformedPayload(error)),
            },
            other => other,
        }
    }

    /// Reads the request body.
    pub fn parse(self, body: &[u8]) -> (next: Delivery)
        ensures
            next@ == after_parse(self@, decoded_text(body@)),
    {
        match self {
            Delivery::Received => Delivery::Received.accept(WebhookEvent::parse(body)),
            other => other,
        }
    }

    /// Takes the verdict on the caller. Where the deployment checks nothing,
    /// the verdict is `true`.
    pub fn authorize(self, allowed: bool) -> (next: Delivery)
        ensures
            next@ == after_verdict(self@, allowed),
    {
        match self {
            Delivery::Parsed(event) => if allowed {
                Delivery::Authorized { event, attempts: 0 }
            } else {
                Delivery::Failed(Failure::Unauthorized)
            },
            other => other,
        }
    }

    /// Looks the delivery up under shared access: one that is recorded as
    /// completed is done without any exclusive access.
    pub fn recall(self, state: &ProcessState) -> (next: Delivery)
        requires
            state.wf(),
        ensures
            next@ == after_recall(self@, state@),
    {
        match self {
            Delivery::Authorized { event, attempts } => {
                if attempts == 0 {
                    let key = delivery_key(&event);
                    match state.claim_of(&key) {
                        Some(Claim::Delivered) => Delivery::Processed(Completion::Duplicate),
                        _ => Delivery::Authorized { event, attempts },
                    }
                } else {
                    Delivery::Authorized { event, attempts }
                }
            },
            other => other,
        }
    }

    /// Checks and records the delivery under exclusive access, as one step.
    pub fn begin(self, state: &mut ProcessState) -> (next: Delivery)
        requires
            old(state).wf(),
        ensures
            final(state).wf(),
            next@ == after_begin(self@, old(state)@),
            final(state)@ == state_after_begin(self@, old(state)@),
    {
        match self {
            Delivery::Authorized { event, attempts } => {
                if attempts == 0 {
                    let key = delivery_key(&event);
                    match state.reserve(&key) {
                        Admission::Fresh => Delivery::Authorized { event, attempts: 1 },
                        Admission::Duplicate(_) => Delivery::Processed(Completion::Duplicate),
                    }
                } else {
                    Delivery::Authorized { event, attempts }
                }
            },
            other => other,
        }
    }

    /// Takes what came back from the downstream client, under exclusive
    /// access.
    pub fn complete(self, state: &mut ProcessState, report: ProviderReport) -> (next: Delivery)
        requires
            old(state).wf(),
        ensures
            final(state).wf(),
            next@ == after_report(self@, report),
            final(state)@ == state_after_report(self@, old(state)@, report),
    {
        match self {
            Delivery::Authorized { event, attempts } => {
                if attempts == 0 {
                    return Delivery::Authorized { event, attempts };
                }
                let key = delivery_key(&event);
                match classify(report) {
                    Ok(ack) => {
                        state.settle(&key);
                        Delivery::Processed(Completion::Delivered(ack))
                    },
                    Err(DispatchError::TransientFailure) => {
                        if attempts < MAX_ATTEMPTS {
                            Delivery::Authorized { event, attempts: attempts + 1 }
                        } else {
                            state.withdraw(&key);
                            Delivery::Failed(Failure::TransientFailure)
                        }
                    },
                    Err(DispatchError::RejectedByProvider) => {
                        state.withdraw(&key);
                        Delivery::Failed(Failure::RejectedByProvider)
                    },
                    Err(DispatchError::AuthenticationFailed) => {
                        state.withdraw(&key);
                        state.mark_credential_rejected();
                        Delivery::Failed(Failure::AuthenticationFailed)
                    },
                }
            },
            other => other,
        }
    }

    /// The response that the delivery is answered with, if it has one yet.
    pub fn response(&self) -> (response: Option<Response>)
        ensures
            response_view(response) == response_of(self@),
    {
        match self {
            Delivery::Processed(_) => Some(acknowledgment()),
            Delivery::Failed(failure) => Some(failure_response(*failure)),
            _ => None,
        }
    }

    /// Notes that the response was sent: `Processed -> Responded`.
    pub fn respond(self) -> (next: Delivery)
        ensures
            next@ == after_respond(self@),
    {
        match self {
            Delivery::Processed(_) => Delivery::Responded,
            other => other,
        }
    }

    /// What is to be done next for the delivery.
    pub fn directive(&self) -> (directive: Directive)
        ensures
            directive@ == directive_of(self@),
    {
        match self {
            Delivery::Received => Directive::Parse,
            Delivery::Parsed(_) => Directive::Authorize,
            Delivery::Authorized { event, attempts } => {
                if *attempts == 0 {
                    Directive::Reserve
                } else {
                    Directive::Dispatch {
                        action: derive_action(event),
                        delay_ms: backoff_delay(*attempts),
                    }
                }
            },
            Delivery::Processed(_) => Directive::Respond,
            Delivery::Failed(_) => Directive::Respond,
            Delivery::Responded => Directive::Done,
        }
    }
}

/// What can be handed to a delivery.
pub enum Input {
    /// The outcome of reading the request body.
    Body(Result<WebhookEventView, PayloadError>),
    /// The verdict on the caller.
    Verdict(bool),
    /// A look at the shared state under shared access.
    Recall,
    /// The claim under exclusive access.
    Begin,
    /// What came back from the downstream client.
    Report(ProviderReport),
    /// The note that the response was sent.
    Respond,
}

/// The delivery and the shared state after one input.
pub open spec fn step(delivery: DeliveryView, state: ProcessStateView, input: Input) -> (
    DeliveryView,
    ProcessStateView,
) {
    match input {
        Input::Body(outcome) => (after_parse(delivery, outcome), state),
        Input::Verdict(allowed) => (after_verdict(delivery, allowed), state),
        Input::Recall => (after_recall(delivery, state), state),
        Input::Begin => (after_begin(delivery, state), state_after_begin(delivery, state)),
        Input::Report(report) => (
            after_report(delivery, report),
            state_after_report(delivery, state, report),
        ),
        Input::Respond => (after_respond(delivery), state),
    }
}

/// The delivery and the shared state after a run of inputs.
pub open spec fn run(delivery: DeliveryView, state: ProcessStateView, inputs: Seq<Input>) -> (
    DeliveryView,
    ProcessStateView,
)
    decreases inputs.len(),
{
    if inputs.len() == 0 {
        (delivery, state)
    } else {
        let next = step(delivery, state, inputs[0]);
        run(next.0, next.1, inputs.drop_first())
    }
}

/// Whether a delivery has not used more tries than it may.
pub open spec fn within_tries(delivery: DeliveryView) -> bool {
    delivery matches DeliveryView::Authorized { attempts, .. } ==> attempts <= MAX_ATTEMPTS
}

/// A failure is final: whatever is handed to a failed delivery afterwards, in
/// whatever order, the delivery stays as it is, the shared state stays
/// untouched, and what is to be done is to respond, never to dispatch.
pub proof fn law_failure_is_final(failure: Failure, state: ProcessStateView, inputs: Seq<Input>)
    ensures
        run(DeliveryView::Failed(failure), state, inputs) == (
            DeliveryView::Failed(failure),
            state,
        ),
        directive_of(DeliveryView::Failed(failure)) == DirectiveView::Respond,
        response_of(DeliveryView::Failed(failure)) matches Some(response) && response.status
            == failure_status(failure) && response.status >= 400,
    decreases inputs.len(),
{
    if inputs.len() > 0 {
        law_failure_is_final(failure, state, inputs.drop_first());
    }
}

/// A body that is refused fails the delivery with 400 before anything else
/// happens, and nothing that follows reaches the downstream client or the
/// shared state.
pub proof fn law_refused_body_never_reaches_dispatch(
    error: PayloadError,
    state: ProcessStateView,
    inputs: Seq<Input>,
)
    ensures
        ({
            let failed = after_parse(DeliveryView::Received, Err(error));
            &&& failed == DeliveryView::Failed(Failure::MalformedPayload(error))
            &&& run(failed, state, inputs) == (failed, state)
            &&& directive_of(failed) == DirectiveView::Respond
            &&& response_of(failed) matches Some(response) && response.status == 400
        }),
{
    law_failure_is_final(Failure::MalformedPayload(error), state, inputs);
}

/// A payload that lacks a required member is such a body: the delivery fails
/// as malformed, is answered with 400, and never reaches the downstream
/// client.
pub proof fn law_missing_member_never_reaches_dispatch(
    doc: Seq<JsonFieldView>,
    field: FieldId,
    state: ProcessStateView,
    inputs: Seq<Input>,
)
    requires
        field.spec_required(),
        member(doc, field.spec_wire_name()) is None,
    ensures
        ({
            let failed = after_parse(DeliveryView::Received, decoded(doc));
            &&& failed matches DeliveryView::Failed(Failure::MalformedPayload(_))
            &&& run(failed, state, inputs) == (failed, state)
            &&& directive_of(failed) == DirectiveView::Respond
            &&& response_of(failed) matches Some(response) && response.status == 400
        }),
{
    crate::event::law_missing_required_member_is_malformed(doc, field);
    law_refused_body_never_reaches_dispatch(decoded(doc)->Err_0, state, inputs);
}

/// The same delivery arriving twice is dispatched once. Of two requests with
/// the same fingerprint and id, on a state that does not know the delivery,
/// the one that begins first is told to dispatch; the other is processed as a
/// duplicate without a dispatch, whether it begins after the first has
/// completed or while the first's dispatch is still outstanding, and it leaves
/// the shared state as it found it. Both are answered with the same 200 `OK`.
pub proof fn law_redelivery_dispatches_once(
    first: WebhookEventView,
    second: WebhookEventView,
    state: ProcessStateView,
    message_id: u64,
)
    requires
        key_of(first) == key_of(second),
        claim_in(state, key_of(first)) is None,
    ensures
        ({
            let a0 = DeliveryView::Authorized { event: first, attempts: 0 };
            let b0 = DeliveryView::Authorized { event: second, attempts: 0 };
            let accepted = ProviderReport::Accepted(message_id);
            let a1 = after_begin(a0, state);
            let s1 = state_after_begin(a0, state);
            let a2 = after_report(a1, accepted);
            let s2 = state_after_report(a1, s1, accepted);
            &&& directive_of(a1) is Dispatch
            &&& a2 == DeliveryView::Processed(Completion::Delivered(Ack { message_id }))
            &&& after_begin(b0, s2) == DeliveryView::Processed(Completion::Duplicate)
            &&& state_after_begin(b0, s2) == s2
            &&& after_recall(b0, s2) == DeliveryView::Processed(Completion::Duplicate)
            &&& after_begin(b0, s1) == DeliveryView::Processed(Completion::Duplicate)
            &&& state_after_begin(b0, s1) == s1
            &&& directive_of(DeliveryView::Processed(Completion::Duplicate))
                == DirectiveView::Respond
            &&& response_of(a2) == Some(ok_response())
            &&& response_of(DeliveryView::Processed(Completion::Duplicate)) == Some(ok_response())
        }),
{
}

/// A delivery that failed downstream gives up its claim: the state is as if
/// the delivery had never begun, but for the note of a credential that was
/// turned down, so the provider's next delivery of it is processed afresh.
pub proof fn law_failed_dispatch_gives_up_claim(
    event: WebhookEventView,
    state: ProcessStateView,
    report: ProviderReport,
)
    requires
        claim_in(state, key_of(event)) is None,
    ensures
        ({
            let begun = DeliveryView::Authorized { event, attempts: 1 };
            let s1 = after_reserve(state, key_of(event));
            let last = DeliveryView::Authorized { event, attempts: MAX_ATTEMPTS };
            &&& after_report(begun, report) is Failed ==> state_after_report(
                begun,
                s1,
                report,
            ).claims == state.claims
            &&& after_report(last, report) is Failed ==> state_after_report(
                last,
                s1,
                report,
            ).claims == state.claims
            &&& after_report(last, report) !is Authorized
        }),
{
    let s1 = after_reserve(state, key_of(event));
    assert(after_withdraw(s1, key_of(event)).claims =~= state.claims);
}

/// Deliveries with different keys do not stand in each other's way: what a
/// delivery is told when it begins is the same whether or not another one has
/// begun or taken its report before, and no step of the other one changes
/// what is recorded for it.
pub proof fn law_other_deliveries_do_not_interfere(
    delivery: DeliveryView,
    other: WebhookEventView,
    other_attempts: u32,
    state: ProcessStateView,
    report: ProviderReport,
)
    requires
        delivery matches DeliveryView::Authorized { event, .. } && key_of(event) != key_of(other),
    ensures
        ({
            let theirs = DeliveryView::Authorized { event: other, attempts: other_attempts };
            let key = key_of(delivery->Authorized_event);
            &&& after_begin(delivery, state_after_begin(theirs, state)) == after_begin(
                delivery,
                state,
            )
            &&& after_begin(delivery, state_after_report(theirs, state, report)) == after_begin(
                delivery,
                state,
            )
            &&& claim_in(state_after_begin(theirs, state), key) == claim_in(state, key)
            &&& claim_in(state_after_report(theirs, state, report), key) == claim_in(state, key)
        }),
{
}

/// No delivery is dispatched more often than the limit allows: a delivery
/// within its tries stays within them under every run of inputs.
pub proof fn law_tries_stay_bounded(
    delivery: DeliveryView,
    state: ProcessStateView,
    inputs: Seq<Input>,
)
    requires
        within_tries(delivery),
    ensures
        within_tries(run(delivery, state, inputs).0),
    decreases inputs.len(),
{
    if inputs.len() > 0 {
        let next = step(delivery, state, inputs[0]);
        law_tries_stay_bounded(next.0, next.1, inputs.drop_first());
    }
}

} // verus!
