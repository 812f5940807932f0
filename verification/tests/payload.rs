use webhook_bridge::event::{PayloadError, WebhookEvent};
use webhook_bridge::json::{find_member, JsonField, JsonValue};
use webhook_bridge::schema::{FieldId, FieldKind, FIELD_COUNT};

const MINIMAL: &[u8] = br#"{"body":"hi","bodySize":2,"address":"A","finalSource":"S1","finalDestination":"D1","messageType":"sms","fingerprint":"fp-1","id":1,"read":false,"contactId":7,"messageTransport":0,"hasAttachment":false,"deleted":false,"statusCode":200}"#;

const FULL: &[u8] = br#"{
    "body": "hello there",
    "bodySize": 11,
    "address": "ptn:/+12065550100",
    "finalSource": "+12065550100",
    "finalDestination": "+12065550199",
    "messageType": "MO",
    "fingerprint": "2900816318",
    "id": 1267890123456,
    "cc": "+12065550101",
    "bcc": "+12065550102",
    "read": true,
    "contactId": 30000000001,
    "scheduledDate": "2020-07-01T10:00:00+00:00",
    "deviceId": 999,
    "dateDeleted": "2020-07-03T10:00:00+00:00",
    "messageTransport": 5,
    "hasAttachment": true,
    "dateCreated": "2020-07-01T09:59:58+00:00",
    "deleted": true,
    "dateRead": "2020-07-02T10:00:00+00:00",
    "statusCode": 4
}"#;

fn text(name: &str, value: &str) -> JsonField {
    JsonField { name: name.to_string(), value: JsonValue::Text(value.to_string()) }
}

fn number(name: &str, value: u64) -> JsonField {
    JsonField { name: name.to_string(), value: JsonValue::Number(Some(value)) }
}

fn flag(name: &str, value: bool) -> JsonField {
    JsonField { name: name.to_string(), value: JsonValue::Bool(value) }
}

fn minimal_document() -> Vec<JsonField> {
    vec![
        text("body", "hi"),
        number("bodySize", 2),
        text("address", "A"),
        text("finalSource", "S1"),
        text("finalDestination", "D1"),
        text("messageType", "sms"),
        text("fingerprint", "fp-1"),
        number("id", 1),
        flag("read", false),
        number("contactId", 7),
        number("messageTransport", 0),
        flag("hasAttachment", false),
        flag("deleted", false),
        number("statusCode", 200),
    ]
}

fn minimal_event() -> WebhookEvent {
    WebhookEvent {
        body: "hi".to_string(),
        body_size: 2,
        address: "A".to_string(),
        final_source: "S1".to_string(),
        final_destination: "D1".to_string(),
        message_type: "sms".to_string(),
        fingerprint: "fp-1".to_string(),
        id: 1,
        cc: None,
        bcc: None,
        read: false,
        contact_id: 7,
        scheduled_date: None,
        device_id: None,
        date_deleted: None,
        message_transport: 0,
        has_attachment: false,
        date_created: None,
        deleted: false,
        date_read: None,
        status_code: 200,
    }
}

fn without(document: Vec<JsonField>, name: &str) -> Vec<JsonField> {
    document.into_iter().filter(|member| member.name != name).collect()
}

fn with(mut document: Vec<JsonField>, name: &str, value: JsonValue) -> Vec<JsonField> {
    document.retain(|member| member.name != name);
    document.push(JsonField { name: name.to_string(), value });
    document
}

const ALL_FIELDS: [FieldId; 21] = [
    FieldId::Body,
    FieldId::BodySize,
    FieldId::Address,
    FieldId::FinalSource,
    FieldId::FinalDestination,
    FieldId::MessageType,
    FieldId::Fingerprint,
    FieldId::Id,
    FieldId::Cc,
    FieldId::Bcc,
    FieldId::Read,
    FieldId::ContactId,
    FieldId::ScheduledDate,
    FieldId::DeviceId,
    FieldId::DateDeleted,
    FieldId::MessageTransport,
    FieldId::HasAttachment,
    FieldId::DateCreated,
    FieldId::Deleted,
    FieldId::DateRead,
    FieldId::StatusCode,
];

#[test]
fn parse_reads_the_minimal_payload() {
    assert_eq!(WebhookEvent::parse(MINIMAL), Ok(minimal_event()));
}

#[test]
fn parse_reads_every_member_of_a_full_payload() {
    let event = WebhookEvent::parse(FULL).unwrap();
    assert_eq!(event.body, "hello there");
    assert_eq!(event.body_size, 11);
    assert_eq!(event.address, "ptn:/+12065550100");
    assert_eq!(event.final_source, "+12065550100");
    assert_eq!(event.final_destination, "+12065550199");
    assert_eq!(event.message_type, "MO");
    assert_eq!(event.fingerprint, "2900816318");
    assert_eq!(event.id, 1267890123456);
    assert_eq!(event.cc, Some("+12065550101".to_string()));
    assert_eq!(event.bcc, Some("+12065550102".to_string()));
    assert!(event.read);
    assert_eq!(event.contact_id, 30000000001);
    assert_eq!(event.scheduled_date, Some("2020-07-01T10:00:00+00:00".to_string()));
    assert_eq!(event.device_id, Some(999));
    assert_eq!(event.date_deleted, Some("2020-07-03T10:00:00+00:00".to_string()));
    assert_eq!(event.message_transport, 5);
    assert!(event.has_attachment);
    assert_eq!(event.date_created, Some("2020-07-01T09:59:58+00:00".to_string()));
    assert!(event.deleted);
    assert_eq!(event.date_read, Some("2020-07-02T10:00:00+00:00".to_string()));
    assert_eq!(event.status_code, 4);
}

#[test]
fn parse_agrees_with_from_document() {
    assert_eq!(WebhookEvent::parse(MINIMAL), WebhookEvent::from_document(&minimal_document()));
}

#[test]
fn parse_then_write_then_read_is_lossless_with_all_optionals_present() {
    let event = WebhookEvent::parse(FULL).unwrap();
    let written = event.to_document();
    assert_eq!(written.len(), FIELD_COUNT);
    assert_eq!(WebhookEvent::from_document(&written), Ok(event.clone()));
    let cc = "cc".to_string();
    assert_eq!(find_member(&written, &cc), Some(&JsonValue::Text("+12065550101".to_string())));
    let device = "deviceId".to_string();
    assert_eq!(find_member(&written, &device), Some(&JsonValue::Number(Some(999))));
}

#[test]
fn written_document_lists_members_in_schema_order() {
    let written = minimal_event().to_document();
    let names: Vec<&str> = written.iter().map(|member| member.name.as_str()).collect();
    let expected: Vec<&str> = ALL_FIELDS.iter().map(|field| field.wire_name()).collect();
    assert_eq!(names, expected);
    assert_eq!(written[8].value, JsonValue::Null);
    assert_eq!(written[13].value, JsonValue::Null);
    assert_eq!(written[7].value, JsonValue::Number(Some(1)));
    assert_eq!(written[10].value, JsonValue::Bool(false));
}

#[test]
fn write_then_read_gives_the_event_back() {
    let event = minimal_event();
    assert_eq!(WebhookEvent::from_document(&event.to_document()), Ok(event));
}

#[test]
fn optional_members_may_be_null_or_absent() {
    let null_everywhere = br#"{"body":"hi","bodySize":2,"address":"A","finalSource":"S1","finalDestination":"D1","messageType":"sms","fingerprint":"fp-1","id":1,"cc":null,"bcc":null,"read":false,"contactId":7,"scheduledDate":null,"deviceId":null,"dateDeleted":null,"messageTransport":0,"hasAttachment":false,"dateCreated":null,"deleted":false,"dateRead":null,"statusCode":200}"#;
    assert_eq!(WebhookEvent::parse(null_everywhere), Ok(minimal_event()));
    assert_eq!(WebhookEvent::parse(MINIMAL), Ok(minimal_event()));
}

#[test]
fn every_missing_required_member_is_reported_by_name() {
    for field in ALL_FIELDS {
        let document = without(minimal_document(), field.wire_name());
        let outcome = WebhookEvent::from_document(&document);
        if field.required() {
            assert_eq!(outcome, Err(PayloadError::Field(field)));
        } else {
            assert_eq!(outcome, Ok(minimal_event()));
        }
    }
}

#[test]
fn missing_fingerprint_is_malformed() {
    let body = br#"{"body":"hi","bodySize":2,"address":"A","finalSource":"S1","finalDestination":"D1","messageType":"sms","id":1,"read":false,"contactId":7,"messageTransport":0,"hasAttachment":false,"deleted":false,"statusCode":200}"#;
    assert_eq!(WebhookEvent::parse(body), Err(PayloadError::Field(FieldId::Fingerprint)));
}

#[test]
fn a_required_member_that_is_null_is_malformed() {
    let document = with(minimal_document(), "address", JsonValue::Null);
    assert_eq!(
        WebhookEvent::from_document(&document),
        Err(PayloadError::Field(FieldId::Address))
    );
}

#[test]
fn a_member_of_the_wrong_kind_is_malformed() {
    let id_as_text = with(minimal_document(), "id", JsonValue::Text("one".to_string()));
    assert_eq!(WebhookEvent::from_document(&id_as_text), Err(PayloadError::Field(FieldId::Id)));
    let body_as_number = with(minimal_document(), "body", JsonValue::Number(Some(3)));
    assert_eq!(
        WebhookEvent::from_document(&body_as_number),
        Err(PayloadError::Field(FieldId::Body))
    );
    let read_as_text = with(minimal_document(), "read", JsonValue::Text("no".to_string()));
    assert_eq!(
        WebhookEvent::from_document(&read_as_text),
        Err(PayloadError::Field(FieldId::Read))
    );
    let cc_as_flag = with(minimal_document(), "cc", JsonValue::Bool(true));
    assert_eq!(WebhookEvent::from_document(&cc_as_flag), Err(PayloadError::Field(FieldId::Cc)));
    let device_as_array = with(minimal_document(), "deviceId", JsonValue::Array);
    assert_eq!(
        WebhookEvent::from_document(&device_as_array),
        Err(PayloadError::Field(FieldId::DeviceId))
    );
    let date_as_object = with(minimal_document(), "dateRead", JsonValue::Object);
    assert_eq!(
        WebhookEvent::from_document(&date_as_object),
        Err(PayloadError::Field(FieldId::DateRead))
    );
}

#[test]
fn numbers_must_be_non_negative_integers() {
    let negative = br#"{"body":"hi","bodySize":2,"address":"A","finalSource":"S1","finalDestination":"D1","messageType":"sms","fingerprint":"fp-1","id":-1,"read":false,"contactId":7,"messageTransport":0,"hasAttachment":false,"deleted":false,"statusCode":200}"#;
    assert_eq!(WebhookEvent::parse(negative), Err(PayloadError::Field(FieldId::Id)));
    let fraction = br#"{"body":"hi","bodySize":2.5,"address":"A","finalSource":"S1","finalDestination":"D1","messageType":"sms","fingerprint":"fp-1","id":1,"read":false,"contactId":7,"messageTransport":0,"hasAttachment":false,"deleted":false,"statusCode":200}"#;
    assert_eq!(WebhookEvent::parse(fraction), Err(PayloadError::Field(FieldId::BodySize)));
    let quoted = br#"{"body":"hi","bodySize":2,"address":"A","finalSource":"S1","finalDestination":"D1","messageType":"sms","fingerprint":"fp-1","id":"1","read":false,"contactId":7,"messageTransport":0,"hasAttachment":false,"deleted":false,"statusCode":200}"#;
    assert_eq!(WebhookEvent::parse(quoted), Err(PayloadError::Field(FieldId::Id)));
    let too_large = with(minimal_document(), "statusCode", JsonValue::Number(None));
    assert_eq!(
        WebhookEvent::from_document(&too_large),
        Err(PayloadError::Field(FieldId::StatusCode))
    );
    let largest = br#"{"body":"hi","bodySize":2,"address":"A","finalSource":"S1","finalDestination":"D1","messageType":"sms","fingerprint":"fp-1","id":18446744073709551615,"read":false,"contactId":7,"messageTransport":0,"hasAttachment":false,"deleted":false,"statusCode":200}"#;
    assert_eq!(WebhookEvent::parse(largest).unwrap().id, u64::MAX);
    let beyond = br#"{"body":"hi","bodySize":2,"address":"A","finalSource":"S1","finalDestination":"D1","messageType":"sms","fingerprint":"fp-1","id":18446744073709551616,"read":false,"contactId":7,"messageTransport":0,"hasAttachment":false,"deleted":false,"statusCode":200}"#;
    assert_eq!(WebhookEvent::parse(beyond), Err(PayloadError::Field(FieldId::Id)));
}

#[test]
fn the_first_offender_in_schema_order_is_reported() {
    let document = without(without(minimal_document(), "statusCode"), "address");
    assert_eq!(
        WebhookEvent::from_document(&document),
        Err(PayloadError::Field(FieldId::Address))
    );
    let empty: Vec<JsonField> = Vec::new();
    assert_eq!(WebhookEvent::from_document(&empty), Err(PayloadError::Field(FieldId::Body)));
    assert_eq!(WebhookEvent::parse(b"{}"), Err(PayloadError::Field(FieldId::Body)));
}

#[test]
fn unknown_members_are_passed_over() {
    let body = br#"{"extra":[1,2,{"deep":true}],"body":"hi","bodySize":2,"address":"A","finalSource":"S1","finalDestination":"D1","messageType":"sms","fingerprint":"fp-1","id":1,"read":false,"contactId":7,"messageTransport":0,"hasAttachment":false,"deleted":false,"statusCode":200,"other":{"a":1.5}}"#;
    assert_eq!(WebhookEvent::parse(body), Ok(minimal_event()));
}

#[test]
fn a_body_that_is_not_one_object_is_refused() {
    assert_eq!(WebhookEvent::parse(b""), Err(PayloadError::NotAnObject));
    assert_eq!(WebhookEvent::parse(b"null"), Err(PayloadError::NotAnObject));
    assert_eq!(WebhookEvent::parse(b"[]"), Err(PayloadError::NotAnObject));
    assert_eq!(WebhookEvent::parse(b"\"text\""), Err(PayloadError::NotAnObject));
    assert_eq!(WebhookEvent::parse(b"17"), Err(PayloadError::NotAnObject));
    assert_eq!(WebhookEvent::parse(b"{\"body\":"), Err(PayloadError::NotAnObject));
    assert_eq!(WebhookEvent::parse(b"{} {}"), Err(PayloadError::NotAnObject));
    assert_eq!(WebhookEvent::parse(&[0xff, 0xfe]), Err(PayloadError::NotAnObject));
}

#[test]
fn text_members_keep_escapes_and_unicode() {
    let body = r#"{"body":"line\none é😀","bodySize":9,"address":"A","finalSource":"S1","finalDestination":"D1","messageType":"sms","fingerprint":"fp-1","id":1,"read":false,"contactId":7,"messageTransport":0,"hasAttachment":false,"deleted":false,"statusCode":200}"#;
    let event = WebhookEvent::parse(body.as_bytes()).unwrap();
    assert_eq!(event.body, "line\none \u{e9}\u{1f600}");
    assert!(!event.body_size_matches());
}

#[test]
fn body_size_is_measured_in_characters() {
    let mut event = minimal_event();
    assert!(event.body_size_matches());
    event.body_size = 3;
    assert!(!event.body_size_matches());
    event.body = "h\u{e9}\u{1f600}".to_string();
    assert!(event.body_size_matches());
    event.body = String::new();
    event.body_size = 0;
    assert!(event.body_size_matches());
}

#[test]
fn find_member_takes_the_first_of_a_name() {
    let document = vec![number("id", 1), text("id", "second"), flag("read", true)];
    let id = "id".to_string();
    assert_eq!(find_member(&document, &id), Some(&JsonValue::Number(Some(1))));
    let read = "read".to_string();
    assert_eq!(find_member(&document, &read), Some(&JsonValue::Bool(true)));
    let missing = "Id".to_string();
    assert_eq!(find_member(&document, &missing), None);
    assert_eq!(find_member(&Vec::new(), &id), None);
}

#[test]
fn schema_names_kinds_and_duties() {
    assert_eq!(ALL_FIELDS.len(), FIELD_COUNT);
    assert_eq!(FieldId::FinalDestination.wire_name(), "finalDestination");
    assert_eq!(FieldId::BodySize.wire_name(), "bodySize");
    assert_eq!(FieldId::DeviceId.wire_name(), "deviceId");
    assert_eq!(FieldId::Id.wire_name(), "id");
    assert_eq!(FieldId::MessageTransport.wire_name(), "messageTransport");
    assert_eq!(FieldId::Body.kind(), FieldKind::Text);
    assert_eq!(FieldId::Id.kind(), FieldKind::Integer);
    assert_eq!(FieldId::DeviceId.kind(), FieldKind::Integer);
    assert_eq!(FieldId::Deleted.kind(), FieldKind::Flag);
    let optional: Vec<FieldId> = ALL_FIELDS.iter().copied().filter(|f| !f.required()).collect();
    assert_eq!(
        optional,
        vec![
            FieldId::Cc,
            FieldId::Bcc,
            FieldId::ScheduledDate,
            FieldId::DeviceId,
            FieldId::DateDeleted,
            FieldId::DateCreated,
            FieldId::DateRead,
        ]
    );
    for (i, a) in ALL_FIELDS.iter().enumerate() {
        for b in ALL_FIELDS.iter().skip(i + 1) {
            assert_ne!(a.wire_name(), b.wire_name());
        }
    }
}
