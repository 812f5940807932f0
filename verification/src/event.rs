//! The webhook event: the typed form of one inbound notification, how it is
//! read out of a decoded JSON object, and how it is written back into one.

use crate::json::{
    decode_object, document_view, find_member, json_object, member, JsonField, JsonFieldView,
    JsonValue, JsonValueView,
};
use crate::schema::{lemma_wire_names_distinct, FieldId, FieldKind, FIELD_COUNT};
use vstd::prelude::*;
use vstd::string::*;

verus! {

/// Why a payload was refused.
#[derive(Clone, Copy, Debug, PartialEq, Eq, Structural)]
pub enum PayloadError {
    /// The body is not a single JSON object.
    NotAnObject,
    /// The named member is missing, null though required, or of the wrong kind.
    Field(FieldId),
}

/// One inbound notification from the messaging provider.
#[derive(Clone, Debug, PartialEq, Eq)]
pub struct WebhookEvent {
    pub body: String,
    /// The provider's claim about the body's length: a hint, never trusted.
    pub body_size: u64,
    pub address: String,
    pub final_source: String,
    pub final_destination: String,
    pub message_type: String,
    pub fingerprint: String,
    pub id: u64,
    pub cc: Option<String>,
    pub bcc: Option<String>,
    pub read: bool,
    pub contact_id: u64,
    pub scheduled_date: Option<String>,
    pub device_id: Option<u64>,
    pub date_deleted: Option<String>,
    pub message_transport: u64,
    pub has_attachment: bool,
    pub date_created: Option<String>,
    pub deleted: bool,
    pub date_read: Option<String>,
    pub status_code: u64,
}

/// The mathematical value of a [`WebhookEvent`].
pub struct WebhookEventView {
    pub body: Seq<char>,
    pub body_size: u64,
    pub address: Seq<char>,
    pub final_source: Seq<char>,
    pub final_destination: Seq<char>,
    pub message_type: Seq<char>,
    pub fingerprint: Seq<char>,
    pub id: u64,
    pub cc: Option<Seq<char>>,
    pub bcc: Option<Seq<char>>,
    pub read: bool,
    pub contact_id: u64,
    pub scheduled_date: Option<Seq<char>>,
    pub device_id: Option<u64>,
    pub date_deleted: Option<Seq<char>>,
    pub message_transport: u64,
    pub has_attachment: bool,
    pub date_created: Option<Seq<char>>,
    pub deleted: bool,
    pub date_read: Option<Seq<char>>,
    pub status_code: u64,
}

/// The characters of an optional text.
pub open spec fn text_view(text: Option<String>) -> Option<Seq<char>> {
    match text {
        Some(t) => Some(t@),
        None => None,
    }
}

impl View for WebhookEvent {
    type V = WebhookEventView;

    open spec fn view(&self) -> WebhookEventView {
        WebhookEventView {
            body: self.body@,
            body_size: self.body_size,
            address: self.address@,
            final_source: self.final_source@,
            final_destination: self.final_destination@,
            message_type: self.message_type@,
            fingerprint: self.fingerprint@,
            id: self.id,
            cc: text_view(self.cc),
            bcc: text_view(self.bcc),
            read: self.read,
            contact_id: self.contact_id,
            scheduled_date: text_view(self.scheduled_date),
            device_id: self.device_id,
            date_deleted: text_view(self.date_deleted),
            message_transport: self.message_transport,
            has_attachment: self.has_attachment,
            date_created: text_view(self.date_created),
            deleted: self.deleted,
            date_read: text_view(self.date_read),
            status_code: self.status_code,
        }
    }
}

/// The view of a decoding outcome.
pub open spec fn outcome_view(outcome: Result<WebhookEvent, PayloadError>) -> Result<
    WebhookEventView,
    PayloadError,
> {
    match outcome {
        Ok(event) => Ok(event@),
        Err(error) => Err(error),
    }
}

/// Whether `value` is of the kind `kind`.
pub open spec fn fits(value: JsonValueView, kind: FieldKind) -> bool {
    match kind {
        FieldKind::Text => value is Text,
        FieldKind::Integer => value matches JsonValueView::Number(Some(_)),
        FieldKind::Flag => value is Bool,
    }
}

/// Whether the document serves the member `field`: a required member is
/// present, not null and of its kind; an optional one is absent, null or of its
/// kind.
pub open spec fn acceptable(doc: Seq<JsonFieldView>, field: FieldId) -> bool {
    match member(doc, field.spec_wire_name()) {
        None => !field.spec_required(),
        Some(JsonValueView::Null) => !field.spec_required(),
        Some(value) => fits(value, field.spec_kind()),
    }
}

/// The text that the document gives for `field`, if it gives one.
pub open spec fn text_of(doc: Seq<JsonFieldView>, field: FieldId) -> Option<Seq<char>> {
    match member(doc, field.spec_wire_name()) {
        Some(JsonValueView::Text(text)) => Some(text),
        _ => None,
    }
}

/// The integer that the document gives for `field`, if it gives one.
pub open spec fn integer_of(doc: Seq<JsonFieldView>, field: FieldId) -> Option<u64> {
    match member(doc, field.spec_wire_name()) {
        Some(JsonValueView::Number(Some(n))) => Some(n),
        _ => None,
    }
}

/// The flag that the document gives for `field`, if it gives one.
pub open spec fn flag_of(doc: Seq<JsonFieldView>, field: FieldId) -> Option<bool> {
    match member(doc, field.spec_wire_name()) {
        Some(JsonValueView::Bool(flag)) => Some(flag),
        _ => None,
    }
}

/// The first member, in schema order, that the document does not serve.
pub open spec fn first_offender(doc: Seq<JsonFieldView>) -> Option<FieldId> {
    if !acceptable(doc, FieldId::Body) {
        Some(FieldId::Body)
    } else if !acceptable(doc, FieldId::BodySize) {
        Some(FieldId::BodySize)
    } else if !acceptable(doc, FieldId::Address) {
        Some(FieldId::Address)
    } else if !acceptable(doc, FieldId::FinalSource) {
        Some(FieldId::FinalSource)
    } else if !acceptable(doc, FieldId::FinalDestination) {
        Some(FieldId::FinalDestination)
    } else if !acceptable(doc, FieldId::MessageType) {
        Some(FieldId::MessageType)
    } else if !acceptable(doc, FieldId::Fingerprint) {
        Some(FieldId::Fingerprint)
    } else if !acceptable(doc, FieldId::Id) {
        Some(FieldId::Id)
    } else if !acceptable(doc, FieldId::Cc) {
        Some(FieldId::Cc)
    } else if !acceptable(doc, FieldId::Bcc) {
        Some(FieldId::Bcc)
    } else if !acceptable(doc, FieldId::Read) {
        Some(FieldId::Read)
    } else if !acceptable(doc, FieldId::ContactId) {
        Some(FieldId::ContactId)
    } else if !acceptable(doc, FieldId::ScheduledDate) {
        Some(FieldId::ScheduledDate)
    } else if !acceptable(doc, FieldId::DeviceId) {
        Some(FieldId::DeviceId)
    } else if !acceptable(doc, FieldId::DateDeleted) {
        Some(FieldId::DateDeleted)
    } else if !acceptable(doc, FieldId::MessageTransport) {
        Some(FieldId::MessageTransport)
    } else if !acceptable(doc, FieldId::HasAttachment) {
        Some(FieldId::HasAttachment)
    } else if !acceptable(doc, FieldId::DateCreated) {
        Some(FieldId::DateCreated)
    } else if !acceptable(doc, FieldId::Deleted) {
        Some(FieldId::Deleted)
    } else if !acceptable(doc, FieldId::DateRead) {
        Some(FieldId::DateRead)
    } else if !acceptable(doc, FieldId::StatusCode) {
        Some(FieldId::StatusCode)
    } else {
        None
    }
}

/// The event that a document spells, member by member.
pub open spec fn event_of(doc: Seq<JsonFieldView>) -> WebhookEventView {
    WebhookEventView {
        body: text_of(doc, FieldId::Body)->0,
        body_size: integer_of(doc, FieldId::BodySize)->0,
        address: text_of(doc, FieldId::Address)->0,
        final_source: text_of(doc, FieldId::FinalSource)->0,
        final_destination: text_of(doc, FieldId::FinalDestination)->0,
        message_type: text_of(doc, FieldId::MessageType)->0,
        fingerprint: text_of(doc, FieldId::Fingerprint)->0,
        id: integer_of(doc, FieldId::Id)->0,
        cc: text_of(doc, FieldId::Cc),
        bcc: text_of(doc, FieldId::Bcc),
        read: flag_of(doc, FieldId::Read)->0,
        contact_id: integer_of(doc, FieldId::ContactId)->0,
        scheduled_date: text_of(doc, FieldId::ScheduledDate),
        device_id: integer_of(doc, FieldId::DeviceId),
        date_deleted: text_of(doc, FieldId::DateDeleted),
        message_transport: integer_of(doc, FieldId::MessageTransport)->0,
        has_attachment: flag_of(doc, FieldId::HasAttachment)->0,
        date_created: text_of(doc, FieldId::DateCreated),
        deleted: flag_of(doc, FieldId::Deleted)->0,
        date_read: text_of(doc, FieldId::DateRead),
        status_code: integer_of(doc, FieldId::StatusCode)->0,
    }
}

/// What reading a document yields: the event it spells, or the first member
/// that it does not serve.
pub open spec fn decoded(doc: Seq<JsonFieldView>) -> Result<WebhookEventView, PayloadError> {
    match first_offender(doc) {
        Some(field) => Err(PayloadError::Field(field)),
        None => Ok(event_of(doc)),
    }
}

/// What reading a request body yields.
pub open spec fn decoded_text(text: Seq<u8>) -> Result<WebhookEventView, PayloadError> {
    match json_object(text) {
        Some(doc) => decoded(doc),
        None => Err(PayloadError::NotAnObject),
    }
}

/// The schema member at place `k`.
pub open spec fn field_at(k: int) -> FieldId {
    if k == 0 {
        FieldId::Body
    } else if k == 1 {
        FieldId::BodySize
    } else if k == 2 {
        FieldId::Address
    } else if k == 3 {
        FieldId::FinalSource
    } else if k == 4 {
        FieldId::FinalDestination
    } else if k == 5 {
        FieldId::MessageType
    } else if k == 6 {
        FieldId::Fingerprint
    } else if k == 7 {
        FieldId::Id
    } else if k == 8 {
        FieldId::Cc
    } else if k == 9 {
        FieldId::Bcc
    } else if k == 10 {
        FieldId::Read
    } else if k == 11 {
        FieldId::ContactId
    } else if k == 12 {
        FieldId::ScheduledDate
    } else if k == 13 {
        FieldId::DeviceId
    } else if k == 14 {
        FieldId::DateDeleted
    } else if k == 15 {
        FieldId::MessageTransport
    } else if k == 16 {
        FieldId::HasAttachment
    } else if k == 17 {
        FieldId::DateCreated
    } else if k == 18 {
        FieldId::Deleted
    } else if k == 19 {
        FieldId::DateRead
    } else {
        FieldId::StatusCode
    }
}

/// A text as a JSON value; an absent one is null.
pub open spec fn text_value(text: Option<Seq<char>>) -> JsonValueView {
    match text {
        Some(t) => JsonValueView::Text(t),
        None => JsonValueView::Null,
    }
}

/// An integer as a JSON value; an absent one is null.
pub open spec fn integer_value(number: Option<u64>) -> JsonValueView {
    match number {
        Some(n) => JsonValueView::Number(Some(n)),
        None => JsonValueView::Null,
    }
}

/// The JSON value that an event holds for `field`.
pub open spec fn value_of(event: WebhookEventView, field: FieldId) -> JsonValueView {
    match field {
        FieldId::Body => JsonValueView::Text(event.body),
        FieldId::BodySize => JsonValueView::Number(Some(event.body_size)),
        FieldId::Address => JsonValueView::Text(event.address),
        FieldId::FinalSource => JsonValueView::Text(event.final_source),
        FieldId::FinalDestination => JsonValueView::Text(event.final_destination),
        FieldId::MessageType => JsonValueView::Text(event.message_type),
        FieldId::Fingerprint => JsonValueView::Text(event.fingerprint),
        FieldId::Id => JsonValueView::Number(Some(event.id)),
        FieldId::Cc => text_value(event.cc),
        FieldId::Bcc => text_value(event.bcc),
        FieldId::Read => JsonValueView::Bool(event.read),
        FieldId::ContactId => JsonValueView::Number(Some(event.contact_id)),
        FieldId::ScheduledDate => text_value(event.scheduled_date),
        FieldId::DeviceId => integer_value(event.device_id),
        FieldId::DateDeleted => text_value(event.date_deleted),
        FieldId::MessageTransport => JsonValueView::Number(Some(event.message_transport)),
        FieldId::HasAttachment => JsonValueView::Bool(event.has_attachment),
        FieldId::DateCreated => text_value(event.date_created),
        FieldId::Deleted => JsonValueView::Bool(event.deleted),
        FieldId::DateRead => text_value(event.date_read),
        FieldId::StatusCode => JsonValueView::Number(Some(event.status_code)),
    }
}

/// The member that an event writes for `field`.
pub open spec fn member_of(event: WebhookEventView, field: FieldId) -> JsonFieldView {
    JsonFieldView { name: field.spec_wire_name(), value: value_of(event, field) }
}

/// The JSON object that an event is written as: one member for each schema
/// member, in schema order, with null for what is absent.
pub open spec fn document_of(event: WebhookEventView) -> Seq<JsonFieldView> {
    Seq::new(FIELD_COUNT as nat, |k: int| member_of(event, field_at(k)))
}

/// Reads a text member; `Ok(None)` where an optional one is absent or null.
fn read_text(doc: &Vec<JsonField>, field: FieldId) -> (read: Result<Option<String>, PayloadError>)
    requires
        field.spec_kind() == FieldKind::Text,
    ensures
        match read {
            Ok(text) => acceptable(document_view(doc@), field) && text_view(text) == text_of(
                document_view(doc@),
                field,
            ) && (field.spec_required() ==> text is Some),
            Err(error) => !acceptable(document_view(doc@), field) && error == PayloadError::Field(
                field,
            ),
        },
{
    let name: String = String::from_str(field.wire_name());
    match find_member(doc, &name) {
        Some(JsonValue::Text(text)) => Ok(Some(text.clone())),
        Some(JsonValue::Null) | None => if field.required() {
            Err(PayloadError::Field(field))
        } else {
            Ok(None)
        },
        Some(_) => Err(PayloadError::Field(field)),
    }
}

/// Reads an integer member; `Ok(None)` where an optional one is absent or null.
fn read_integer(doc: &Vec<JsonField>, field: FieldId) -> (read: Result<Option<u64>, PayloadError>)
    requires
        field.spec_kind() == FieldKind::Integer,
    ensures
        match read {
            Ok(number) => acceptable(document_view(doc@), field) && number == integer_of(
                document_view(doc@),
                field,
            ) && (field.spec_required() ==> number is Some),
            Err(error) => !acceptable(document_view(doc@), field) && error == PayloadError::Field(
                field,
            ),
        },
{
    let name: String = String::from_str(field.wire_name());
    match find_member(doc, &name) {
        Some(JsonValue::Number(Some(n))) => Ok(Some(*n)),
        Some(JsonValue::Null) | None => if field.required() {
            Err(PayloadError::Field(field))
        } else {
            Ok(None)
        },
        Some(_) => Err(PayloadError::Field(field)),
    }
}

/// Reads a required flag member.
fn read_flag(doc: &Vec<JsonField>, field: FieldId) -> (read: Result<bool, PayloadError>)
    requires
        field.spec_kind() == FieldKind::Flag,
        field.spec_required(),
    ensures
        match read {
            Ok(flag) => acceptable(document_view(doc@), field) && Some(flag) == flag_of(
                document_view(doc@),
                field,
            ),
            Err(error) => !acceptable(document_view(doc@), field) && error == PayloadError::Field(
                field,
            ),
        },
{
    let name: String = String::from_str(field.wire_name());
    match find_member(doc, &name) {
        Some(JsonValue::Bool(flag)) => Ok(*flag),
        _ => Err(PayloadError::Field(field)),
    }
}

/// Reads a required text member.
fn need_text(doc: &Vec<JsonField>, field: FieldId) -> (read: Result<String, PayloadError>)
    requires
        field.spec_kind() == FieldKind::Text,
        field.spec_required(),
    ensures
        match read {
            Ok(text) => acceptable(document_view(doc@), field) && Some(text@) == text_of(
                document_view(doc@),
                field,
            ),
            Err(error) => !acceptable(document_view(doc@), field) && error == PayloadError::Field(
                field,
            ),
        },
{
    match read_text(doc, field) {
        Ok(Some(text)) => Ok(text),
        Ok(None) => Err(PayloadError::Field(field)),
        Err(error) => Err(error),
    }
}

/// Reads a required integer member.
fn need_integer(doc: &Vec<JsonField>, field: FieldId) -> (read: Result<u64, PayloadError>)
    requires
        field.spec_kind() == FieldKind::Integer,
        field.spec_required(),
    ensures
        match read {
            Ok(number) => acceptable(document_view(doc@), field) && Some(number) == integer_of(
                document_view(doc@),
                field,
            ),
            Err(error) => !acceptable(document_view(doc@), field) && error == PayloadError::Field(
                field,
            ),
        },
{
    match read_integer(doc, field) {
        Ok(Some(number)) => Ok(number),
        Ok(None) => Err(PayloadError::Field(field)),
        Err(error) => Err(error),
    }
}

/// Writes a text member.
fn write_text(field: FieldId, text: &String) -> (written: JsonField)
    ensures
        written@ == (JsonFieldView {
            name: field.spec_wire_name(),
            value: JsonValueView::Text(text@),
        }),
{
    JsonField { name: String::from_str(field.wire_name()), value: JsonValue::Text(text.clone()) }
}

/// Writes an optional text member, null where it is absent.
fn write_optional_text(field: FieldId, text: &Option<String>) -> (written: JsonField)
    ensures
        written@ == (JsonFieldView {
            name: field.spec_wire_name(),
            value: text_value(text_view(*text)),
        }),
{
    let value = match text {
        Some(t) => JsonValue::Text(t.clone()),
        None => JsonValue::Null,
    };
    JsonField { name: String::from_str(field.wire_name()), value }
}

/// Writes an integer member, null where it is absent.
fn write_integer(field: FieldId, number: Option<u64>) -> (written: JsonField)
    ensures
        written@ == (JsonFieldView {
            name: field.spec_wire_name(),
            value: integer_value(number),
        }),
{
    let value = match number {
        Some(n) => JsonValue::Number(Some(n)),
        None => JsonValue::Null,
    };
    JsonField { name: String::from_str(field.wire_name()), value }
}

/// Writes a flag member.
fn write_flag(field: FieldId, flag: bool) -> (written: JsonField)
    ensures
        written@ == (JsonFieldView {
            name: field.spec_wire_name(),
            value: JsonValueView::Bool(flag),
        }),
{
    JsonField { name: String::from_str(field.wire_name()), value: JsonValue::Bool(flag) }
}

impl WebhookEvent {
    /// Reads the event out of a decoded JSON object.
    ///
    /// Members are checked in schema order and the first one that the document
    /// does not serve is reported; members that the schema does not know are
    /// passed over.
    pub fn from_document(doc: &Vec<JsonField>) -> (outcome: Result<WebhookEvent, PayloadError>)
        ensures
            outcome_view(outcome) == decoded(document_view(doc@)),
    {
        let body = need_text(doc, FieldId::Body)?;
        let body_size = need_integer(doc, FieldId::BodySize)?;
        let address = need_text(doc, FieldId::Address)?;
        let final_source = need_text(doc, FieldId::FinalSource)?;
        let final_destination = need_text(doc, FieldId::FinalDestination)?;
        let message_type = need_text(doc, FieldId::MessageType)?;
        let fingerprint = need_text(doc, FieldId::Fingerprint)?;
        let id = need_integer(doc, FieldId::Id)?;
        let cc = read_text(doc, FieldId::Cc)?;
        let bcc = read_text(doc, FieldId::Bcc)?;
        let read = read_flag(doc, FieldId::Read)?;
        let contact_id = need_integer(doc, FieldId::ContactId)?;
        let scheduled_date = read_text(doc, FieldId::ScheduledDate)?;
        let device_id = read_integer(doc, FieldId::DeviceId)?;
        let date_deleted = read_text(doc, FieldId::DateDeleted)?;
        let message_transport = need_integer(doc, FieldId::MessageTransport)?;
        let has_attachment = read_flag(doc, FieldId::HasAttachment)?;
        let date_created = read_text(doc, FieldId::DateCreated)?;
        let deleted = read_flag(doc, FieldId::Deleted)?;
        let date_read = read_text(doc, FieldId::DateRead)?;
        let status_code = need_integer(doc, FieldId::StatusCode)?;
        Ok(
            WebhookEvent {
                body,
                body_size,
                address,
                final_source,
                final_destination,
                message_type,
                fingerprint,
                id,
                cc,
                bcc,
                read,
                contact_id,
                scheduled_date,
                device_id,
                date_deleted,
                message_transport,
                has_attachment,
                date_created,
                deleted,
                date_read,
                status_code,
            },
        )
    }

    /// Reads the event out of a request body.
    pub fn parse(text: &[u8]) -> (outcome: Result<WebhookEvent, PayloadError>)
        ensures
            outcome_view(outcome) == decoded_text(text@),
    {
        match decode_object(text) {
            Some(doc) => WebhookEvent::from_document(&doc),
            None => Err(PayloadError::NotAnObject),
        }
    }

    /// Writes the event as a JSON object: every schema member, in schema
    /// order, an absent optional member as null.
    pub fn to_document(&self) -> (doc: Vec<JsonField>)
        ensures
            document_view(doc@) == document_of(self@),
    {
        let mut doc: Vec<JsonField> = Vec::new();
        doc.push(write_text(FieldId::Body, &self.body));
        doc.push(write_integer(FieldId::BodySize, Some(self.body_size)));
        doc.push(write_text(FieldId::Address, &self.address));
        doc.push(write_text(FieldId::FinalSource, &self.final_source));
        doc.push(write_text(FieldId::FinalDestination, &self.final_destination));
        doc.push(write_text(FieldId::MessageType, &self.message_type));
        doc.push(write_text(FieldId::Fingerprint, &self.fingerprint));
        doc.push(write_integer(FieldId::Id, Some(self.id)));
        doc.push(write_optional_text(FieldId::Cc, &self.cc));
        doc.push(write_optional_text(FieldId::Bcc, &self.bcc));
        doc.push(write_flag(FieldId::Read, self.read));
        doc.push(write_integer(FieldId::ContactId, Some(self.contact_id)));
        doc.push(write_optional_text(FieldId::ScheduledDate, &self.scheduled_date));
        doc.push(write_integer(FieldId::DeviceId, self.device_id));
        doc.push(write_optional_text(FieldId::DateDeleted, &self.date_deleted));
        doc.push(write_integer(FieldId::MessageTransport, Some(self.message_transport)));
        doc.push(write_flag(FieldId::HasAttachment, self.has_attachment));
        doc.push(write_optional_text(FieldId::DateCreated, &self.date_created));
        doc.push(write_flag(FieldId::Deleted, self.deleted));
        doc.push(write_optional_text(FieldId::DateRead, &self.date_read));
        doc.push(write_integer(FieldId::StatusCode, Some(self.status_code)));
        assert(document_view(doc@) =~= document_of(self@));
        doc
    }

    /// Whether the provider's size hint agrees with the body as measured, in
    /// characters.
    pub fn body_size_matches(&self) -> (matches: bool)
        ensures
            matches == (self.body@.len() == self.body_size),
    {
        let measured: usize = self.body.as_str().unicode_len();
        measured as u64 == self.body_size
    }
}

/// Looking up the name of a member that no earlier member shares finds that
/// member.
pub proof fn lemma_member_at(doc: Seq<JsonFieldView>, i: int)
    requires
        0 <= i < doc.len(),
        forall|j: int| 0 <= j < i ==> (#[trigger] doc[j]).name != doc[i].name,
    ensures
        member(doc, doc[i].name) == Some(doc[i].value),
    decreases i,
{
    if i > 0 {
        let rest = doc.drop_first();
        assert(rest[i - 1] == doc[i]);
        assert forall|j: int| 0 <= j < i - 1 implies (#[trigger] rest[j]).name != rest[i - 1].name by {
            assert(rest[j] == doc[j + 1]);
        }
        lemma_member_at(rest, i - 1);
    }
}

/// In the object that an event is written as, each schema member is found
/// under its wire name with the value that the event holds for it.
pub proof fn lemma_written_member(event: WebhookEventView, field: FieldId)
    ensures
        member(document_of(event), field.spec_wire_name()) == Some(value_of(event, field)),
{
    let doc = document_of(event);
    let i = field.ordinal() as int;
    assert(field_at(i) == field);
    assert(doc[i] == member_of(event, field));
    assert forall|j: int| 0 <= j < i implies (#[trigger] doc[j]).name != doc[i].name by {
        if doc[j].name == doc[i].name {
            lemma_wire_names_distinct(field_at(j), field);
        }
    }
    lemma_member_at(doc, i);
}

/// Writing is lossless: for every payload that decodes, each schema member of
/// the object written from the decoded event has the value that the payload
/// gave it, and null where the payload left an optional member out.
pub proof fn law_reserialize_is_lossless(doc: Seq<JsonFieldView>, field: FieldId)
    requires
        decoded(doc) is Ok,
    ensures
        member(document_of(decoded(doc)->Ok_0), field.spec_wire_name()) == Some(
            match member(doc, field.spec_wire_name()) {
                Some(value) => value,
                None => JsonValueView::Null,
            },
        ),
{
    lemma_written_member(event_of(doc), field);
    assert(acceptable(doc, field));
}

/// Reading inverts writing: the object written from any event decodes to that
/// event.
pub proof fn law_decode_inverts_encode(event: WebhookEventView)
    ensures
        decoded(document_of(event)) == Ok::<WebhookEventView, PayloadError>(event),
{
    let doc = document_of(event);
    assert forall|field: FieldId|
        member(doc, field.spec_wire_name()) == Some(value_of(event, field)) by {
        lemma_written_member(event, field);
    }
    assert(first_offender(doc) is None);
    assert(event_of(doc) == event);
}

/// A payload that lacks a required member is refused, and the member reported
/// is that one or one that the schema checks before it.
pub proof fn law_missing_required_member_is_malformed(doc: Seq<JsonFieldView>, field: FieldId)
    requires
        field.spec_required(),
        member(doc, field.spec_wire_name()) is None,
    ensures
        decoded(doc) matches Err(PayloadError::Field(reported)) && reported.ordinal()
            <= field.ordinal(),
{
    assert(!acceptable(doc, field));
}

} // verus!
