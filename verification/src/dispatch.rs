//! The boundary to the downstream messaging client: the action that a webhook
//! event gives rise to, what the client reported back, and what that report
//! means for the delivery.

use crate::event::{WebhookEvent, WebhookEventView};
use crate::state::{DeliveryKey, DeliveryKeyView};
use crate::text::{decimal, is_digit, lemma_decimal_injective, lemma_decimal_is_digits, render_decimal};
use vstd::prelude::*;
use vstd::string::*;

verus! {

/// What the downstream client is asked to do for one event: relay the message
/// text to the conversation's final destination, under a correlation id that
/// names the delivery.
#[derive(Clone, Debug, PartialEq, Eq)]
pub struct Action {
    pub final_source: String,
    pub final_destination: String,
    pub correlation_id: String,
    pub body: String,
}

/// The mathematical value of an [`Action`].
pub struct ActionView {
    pub final_source: Seq<char>,
    pub final_destination: Seq<char>,
    pub correlation_id: Seq<char>,
    pub body: Seq<char>,
}

impl View for Action {
    type V = ActionView;

    open spec fn view(&self) -> ActionView {
        ActionView {
            final_source: self.final_source@,
            final_destination: self.final_destination@,
            correlation_id: self.correlation_id@,
            body: self.body@,
        }
    }
}

/// The key under which an event's delivery is recorded.
pub open spec fn key_of(event: WebhookEventView) -> DeliveryKeyView {
    DeliveryKeyView { fingerprint: event.fingerprint, id: event.id }
}

/// The correlation id of a delivery: its fingerprint, a slash, and its id in
/// decimal.
pub open spec fn correlation_of(key: DeliveryKeyView) -> Seq<char> {
    key.fingerprint + seq!['/'] + decimal(key.id as nat)
}

/// The action that an event gives rise to.
pub open spec fn action_of(event: WebhookEventView) -> ActionView {
    ActionView {
        final_source: event.final_source,
        final_destination: event.final_destination,
        correlation_id: correlation_of(key_of(event)),
        body: event.body,
    }
}

/// The key under which an event's delivery is recorded.
pub fn delivery_key(event: &WebhookEvent) -> (key: DeliveryKey)
    ensures
        key@ == key_of(event@),
{
    DeliveryKey { fingerprint: event.fingerprint.clone(), id: event.id }
}

/// The correlation id of a delivery.
pub fn correlation_id(key: &DeliveryKey) -> (id: String)
    ensures
        id@ == correlation_of(key@),
{
    proof {
        reveal_strlit("/");
    }
    let mut id: String = key.fingerprint.clone();
    id.append("/");
    assert("/"@ =~= seq!['/']);
    let number: String = render_decimal(key.id);
    id.append(number.as_str());
    id
}

/// The action that an event gives rise to.
pub fn derive_action(event: &WebhookEvent) -> (action: Action)
    ensures
        action@ == action_of(event@),
{
    let key: DeliveryKey = delivery_key(event);
    Action {
        final_source: event.final_source.clone(),
        final_destination: event.final_destination.clone(),
        correlation_id: correlation_id(&key),
        body: event.body.clone(),
    }
}

/// Different deliveries have different correlation ids.
pub proof fn law_correlation_names_one_delivery(a: DeliveryKeyView, b: DeliveryKeyView)
    requires
        correlation_of(a) == correlation_of(b),
    ensures
        a == b,
{
    let da = decimal(a.id as nat);
    let db = decimal(b.id as nat);
    let ca = correlation_of(a);
    let cb = correlation_of(b);
    lemma_decimal_is_digits(a.id as nat);
    lemma_decimal_is_digits(b.id as nat);
    let fa = a.fingerprint.len() as int;
    let fb = b.fingerprint.len() as int;
    assert(ca.len() == fa + 1 + da.len());
    assert(cb.len() == fb + 1 + db.len());
    assert(ca[fa] == '/');
    assert(cb[fb] == '/');
    if fa < fb {
        assert(cb[fb] == ca[fb]);
        assert(ca[fb] == da[fb - fa - 1]);
        assert(is_digit(da[fb - fa - 1]));
    } else if fb < fa {
        assert(ca[fa] == cb[fa]);
        assert(cb[fa] == db[fa - fb - 1]);
        assert(is_digit(db[fa - fb - 1]));
    } else {
        assert(a.fingerprint =~= ca.subrange(0, fa));
        assert(b.fingerprint =~= cb.subrange(0, fb));
        assert(da =~= ca.subrange(fa + 1, ca.len() as int));
        assert(db =~= cb.subrange(fb + 1, cb.len() as int));
        lemma_decimal_injective(a.id as nat, b.id as nat);
    }
}

/// The token that acknowledges a dispatch: the id that the provider gave the
/// relayed message.
#[derive(Clone, Copy, Debug, PartialEq, Eq, Structural)]
pub struct Ack {
    pub message_id: u64,
}

/// Why a dispatch did not go through.
#[derive(Clone, Copy, Debug, PartialEq, Eq, Structural)]
pub enum DispatchError {
    /// The session credential was turned down. Trying again will not help.
    AuthenticationFailed,
    /// The network or the provider failed for now. Worth trying again.
    TransientFailure,
    /// The provider refused the action for good.
    RejectedByProvider,
}

/// What came back from the downstream client, as plain values.
#[derive(Clone, Copy, Debug, PartialEq, Eq, Structural)]
pub enum ProviderReport {
    /// The provider took the message and gave it this id.
    Accepted(u64),
    /// The provider, or the transport on its behalf, answered with this HTTP
    /// status. A status below 400 here stands for a request that failed before
    /// any status came back.
    Status(u16),
    /// The message text is longer than the provider takes.
    BodyTooLong,
    /// The action names more recipients than the provider takes.
    TooManyRecipients,
    /// The provider's answer could not be read.
    CorruptResponse,
    /// The dispatch did not end within its deadline.
    DeadlineExceeded,
}

/// What a failing HTTP status means.
pub open spec fn status_error(code: u16) -> DispatchError {
    if code == 401 || code == 403 {
        DispatchError::AuthenticationFailed
    } else if code < 400 || code == 408 || code == 429 || code >= 500 {
        DispatchError::TransientFailure
    } else {
        DispatchError::RejectedByProvider
    }
}

/// What a report means for the delivery.
pub open spec fn classified(report: ProviderReport) -> Result<Ack, DispatchError> {
    match report {
        ProviderReport::Accepted(message_id) => Ok(Ack { message_id }),
        ProviderReport::Status(code) => Err(status_error(code)),
        ProviderReport::BodyTooLong => Err(DispatchError::RejectedByProvider),
        ProviderReport::TooManyRecipients => Err(DispatchError::RejectedByProvider),
        ProviderReport::CorruptResponse => Err(DispatchError::RejectedByProvider),
        ProviderReport::DeadlineExceeded => Err(DispatchError::TransientFailure),
    }
}

/// Classifies what came back from the downstream client.
pub fn classify(report: ProviderReport) -> (outcome: Result<Ack, DispatchError>)
    ensures
        outcome == classified(report),
{
    match report {
        ProviderReport::Accepted(message_id) => Ok(Ack { message_id }),
        ProviderReport::Status(code) => {
            if code == 401 || code == 403 {
                Err(DispatchError::AuthenticationFailed)
            } else if code < 400 || code == 408 || code == 429 || code >= 500 {
                Err(DispatchError::TransientFailure)
            } else {
                Err(DispatchError::RejectedByProvider)
            }
        },
        ProviderReport::DeadlineExceeded => Err(DispatchError::TransientFailure),
        _ => Err(DispatchError::RejectedByProvider),
    }
}

} // verus!
