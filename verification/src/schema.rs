//! The members that a webhook payload may carry: their wire names, what kind of
//! value each holds, and which of them must be present.

use vstd::prelude::*;

verus! {

/// A member of the webhook payload, in the order in which a delivery is checked.
#[derive(Clone, Copy, Debug, PartialEq, Eq, Structural)]
pub enum FieldId {
    Body,
    BodySize,
    Address,
    FinalSource,
    FinalDestination,
    MessageType,
    Fingerprint,
    Id,
    Cc,
    Bcc,
    Read,
    ContactId,
    ScheduledDate,
    DeviceId,
    DateDeleted,
    MessageTransport,
    HasAttachment,
    DateCreated,
    Deleted,
    DateRead,
    StatusCode,
}

/// The kind of value that a member holds.
#[derive(Clone, Copy, Debug, PartialEq, Eq, Structural)]
pub enum FieldKind {
    Text,
    Integer,
    Flag,
}

/// How many members the payload schema has.
pub const FIELD_COUNT: usize = 21;

impl FieldId {
    /// The member's place in the schema, from zero.
    pub open spec fn ordinal(self) -> nat {
        match self {
            FieldId::Body => 0,
            FieldId::BodySize => 1,
            FieldId::Address => 2,
            FieldId::FinalSource => 3,
            FieldId::FinalDestination => 4,
            FieldId::MessageType => 5,
            FieldId::Fingerprint => 6,
            FieldId::Id => 7,
            FieldId::Cc => 8,
            FieldId::Bcc => 9,
            FieldId::Read => 10,
            FieldId::ContactId => 11,
            FieldId::ScheduledDate => 12,
            FieldId::DeviceId => 13,
            FieldId::DateDeleted => 14,
            FieldId::MessageTransport => 15,
            FieldId::HasAttachment => 16,
            FieldId::DateCreated => 17,
            FieldId::Deleted => 18,
            FieldId::DateRead => 19,
            FieldId::StatusCode => 20,
        }
    }

    /// The member's name on the wire, in lower camel case.
    pub open spec fn spec_wire_name(self) -> Seq<char> {
        match self {
            FieldId::Body => "body"@,
            FieldId::BodySize => "bodySize"@,
            FieldId::Address => "address"@,
            FieldId::FinalSource => "finalSource"@,
            FieldId::FinalDestination => "finalDestination"@,
            FieldId::MessageType => "messageType"@,
            FieldId::Fingerprint => "fingerprint"@,
            FieldId::Id => "id"@,
            FieldId::Cc => "cc"@,
            FieldId::Bcc => "bcc"@,
            FieldId::Read => "read"@,
            FieldId::ContactId => "contactId"@,
            FieldId::ScheduledDate => "scheduledDate"@,
            FieldId::DeviceId => "deviceId"@,
            FieldId::DateDeleted => "dateDeleted"@,
            FieldId::MessageTransport => "messageTransport"@,
            FieldId::HasAttachment => "hasAttachment"@,
            FieldId::DateCreated => "dateCreated"@,
            FieldId::Deleted => "deleted"@,
            FieldId::DateRead => "dateRead"@,
            FieldId::StatusCode => "statusCode"@,
        }
    }

    /// The member's name on the wire, in lower camel case.
    pub fn wire_name(self) -> (name: &'static str)
        ensures
            name@ == self.spec_wire_name(),
    {
        match self {
            FieldId::Body => "body",
            FieldId::BodySize => "bodySize",
            FieldId::Address => "address",
            FieldId::FinalSource => "finalSource",
            FieldId::FinalDestination => "finalDestination",
            FieldId::MessageType => "messageType",
            FieldId::Fingerprint => "fingerprint",
            FieldId::Id => "id",
            FieldId::Cc => "cc",
            FieldId::Bcc => "bcc",
            FieldId::Read => "read",
            FieldId::ContactId => "contactId",
            FieldId::ScheduledDate => "scheduledDate",
            FieldId::DeviceId => "deviceId",
            FieldId::DateDeleted => "dateDeleted",
            FieldId::MessageTransport => "messageTransport",
            FieldId::HasAttachment => "hasAttachment",
            FieldId::DateCreated => "dateCreated",
            FieldId::Deleted => "deleted",
            FieldId::DateRead => "dateRead",
            FieldId::StatusCode => "statusCode",
        }
    }

    /// The kind of value that the member holds.
    pub open spec fn spec_kind(self) -> FieldKind {
        match self {
            FieldId::Body
            | FieldId::Address
            | FieldId::FinalSource
            | FieldId::FinalDestination
            | FieldId::MessageType
            | FieldId::Fingerprint
            | FieldId::Cc
            | FieldId::Bcc
            | FieldId::ScheduledDate
            | FieldId::DateDeleted
            | FieldId::DateCreated
            | FieldId::DateRead => FieldKind::Text,
            FieldId::BodySize
            | FieldId::Id
            | FieldId::ContactId
            | FieldId::DeviceId
            | FieldId::MessageTransport
            | FieldId::StatusCode => FieldKind::Integer,
            FieldId::Read | FieldId::HasAttachment | FieldId::Deleted => FieldKind::Flag,
        }
    }

    /// The kind of value that the member holds.
    #[verifier::when_used_as_spec(spec_kind)]
    pub fn kind(self) -> (kind: FieldKind)
        ensures
            kind == self.spec_kind(),
    {
        match self {
            FieldId::Body
            | FieldId::Address
            | FieldId::FinalSource
            | FieldId::FinalDestination
            | FieldId::MessageType
            | FieldId::Fingerprint
            | FieldId::Cc
            | FieldId::Bcc
            | FieldId::ScheduledDate
            | FieldId::DateDeleted
            | FieldId::DateCreated
            | FieldId::DateRead => FieldKind::Text,
            FieldId::BodySize
            | FieldId::Id
            | FieldId::ContactId
            | FieldId::DeviceId
            | FieldId::MessageTransport
            | FieldId::StatusCode => FieldKind::Integer,
            FieldId::Read | FieldId::HasAttachment | FieldId::Deleted => FieldKind::Flag,
        }
    }

    /// Whether a payload without the member is malformed.
    pub open spec fn spec_required(self) -> bool {
        match self {
            FieldId::Cc
            | FieldId::Bcc
            | FieldId::ScheduledDate
            | FieldId::DeviceId
            | FieldId::DateDeleted
            | FieldId::DateCreated
            | FieldId::DateRead => false,
            _ => true,
        }
    }

    /// Whether a payload without the member is malformed.
    #[verifier::when_used_as_spec(spec_required)]
    pub fn required(self) -> (required: bool)
        ensures
            required == self.spec_required(),
    {
        match self {
            FieldId::Cc
            | FieldId::Bcc
            | FieldId::ScheduledDate
            | FieldId::DeviceId
            | FieldId::DateDeleted
            | FieldId::DateCreated
            | FieldId::DateRead => false,
            _ => true,
        }
    }
}

/// No two members share a wire name.
pub proof fn lemma_wire_names_distinct(a: FieldId, b: FieldId)
    requires
        a.spec_wire_name() == b.spec_wire_name(),
    ensures
        a == b,
{
    reveal_strlit("body");
    reveal_strlit("bodySize");
    reveal_strlit("address");
    reveal_strlit("finalSource");
    reveal_strlit("finalDestination");
    reveal_strlit("messageType");
    reveal_strlit("fingerprint");
    reveal_strlit("id");
    reveal_strlit("cc");
    reveal_strlit("bcc");
    reveal_strlit("read");
    reveal_strlit("contactId");
    reveal_strlit("scheduledDate");
    reveal_strlit("deviceId");
    reveal_strlit("dateDeleted");
    reveal_strlit("messageTransport");
    reveal_strlit("hasAttachment");
    reveal_strlit("dateCreated");
    reveal_strlit("deleted");
    reveal_strlit("dateRead");
    reveal_strlit("statusCode");
    let s = a.spec_wire_name();
    let t = b.spec_wire_name();
    assert(s.len() == t.len());
    assert(s[0] == t[0]);
    assert(s[1] == t[1]);
    assert(s.len() > 4 ==> s[3] == t[3] && s[4] == t[4]);
}

} // verus!
