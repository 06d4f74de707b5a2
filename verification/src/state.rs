//! The two persistent record types and the message status enumeration.

use vstd::prelude::*;

verus! {

/// Maximum length in bytes for a message content.
pub const MAX_MESSAGE_LENGTH: usize = 1024;

/// Largest length that a length-prefixed variable field can carry.
pub const MAX_FIELD_LENGTH: usize = 0xffff_ffff;

/// The delivery status of a message, as a closed enumeration with an
/// explicit, total transition order: sent, then delivered, then read.
#[derive(Debug, Copy, Clone, PartialEq, Eq, Structural)]
pub enum MessageStatus {
    Sent,
    Delivered,
    Read,
}

impl MessageStatus {
    /// The position of this status in the forward-only lifecycle.
    pub open spec fn rank(self) -> int {
        match self {
            MessageStatus::Sent => 0,
            MessageStatus::Delivered => 1,
            MessageStatus::Read => 2,
        }
    }

    /// The textual name of this status, as UTF-8 bytes.
    pub open spec fn spec_name(self) -> Seq<u8> {
        match self {
            MessageStatus::Sent => lit_sent(),
            MessageStatus::Delivered => lit_delivered(),
            MessageStatus::Read => lit_read(),
        }
    }

    /// The textual name of this status.
    pub fn name_bytes(&self) -> (r: Vec<u8>)
        ensures
            r@ == self.spec_name(),
    {
        match self {
            MessageStatus::Sent => {
                let r = vec![115u8, 101u8, 110u8, 116u8];
                proof { assert(r@ =~= lit_sent()); }
                r
            },
            MessageStatus::Delivered => {
                let r = vec![100u8, 101u8, 108u8, 105u8, 118u8, 101u8, 114u8, 101u8, 100u8];
                proof { assert(r@ =~= lit_delivered()); }
                r
            },
            MessageStatus::Read => {
                let r = vec![114u8, 101u8, 97u8, 100u8];
                proof { assert(r@ =~= lit_read()); }
                r
            },
        }
    }

    /// Parses a status from its textual name; any other text is unknown.
    pub fn from_text(t: &Vec<u8>) -> (r: Option<MessageStatus>)
        ensures
            r == spec_status_of_text(t@),
    {
        let sent = MessageStatus::Sent.name_bytes();
        if bytes_eq(t, &sent) {
            return Some(MessageStatus::Sent);
        }
        let delivered = MessageStatus::Delivered.name_bytes();
        if bytes_eq(t, &delivered) {
            return Some(MessageStatus::Delivered);
        }
        let read = MessageStatus::Read.name_bytes();
        if bytes_eq(t, &read) {
            return Some(MessageStatus::Read);
        }
        None
    }
}

/// The bytes of the text "sent".
pub open spec fn lit_sent() -> Seq<u8> {
    seq![115u8, 101u8, 110u8, 116u8]
}

/// The bytes of the text "delivered".
pub open spec fn lit_delivered() -> Seq<u8> {
    seq![100u8, 101u8, 108u8, 105u8, 118u8, 101u8, 114u8, 101u8, 100u8]
}

/// The bytes of the text "read".
pub open spec fn lit_read() -> Seq<u8> {
    seq![114u8, 101u8, 97u8, 100u8]
}

/// The status named by the given text, if any.
pub open spec fn spec_status_of_text(t: Seq<u8>) -> Option<MessageStatus> {
    if t == lit_sent() {
        Some(MessageStatus::Sent)
    } else if t == lit_delivered() {
        Some(MessageStatus::Delivered)
    } else if t == lit_read() {
        Some(MessageStatus::Read)
    } else {
        None
    }
}

/// Whether moving from `from` to `to` is a strictly forward step of the
/// lifecycle sent, delivered, read.
pub open spec fn spec_transition_allowed(from: MessageStatus, to: MessageStatus) -> bool {
    to.rank() > from.rank()
}

/// Whether moving from `from` to `to` is a strictly forward step of the
/// lifecycle.
pub fn transition_allowed(from: MessageStatus, to: MessageStatus) -> (r: bool)
    ensures
        r == spec_transition_allowed(from, to),
{
    match from {
        MessageStatus::Sent => (match to {
            MessageStatus::Sent => false,
            MessageStatus::Delivered => true,
            MessageStatus::Read => true,
        }),
        MessageStatus::Delivered => (match to {
            MessageStatus::Read => true,
            _ => false,
        }),
        MessageStatus::Read => false,
    }
}

/// Compares two byte vectors for equality of their contents.
pub fn bytes_eq(a: &Vec<u8>, b: &Vec<u8>) -> (r: bool)
    ensures
        r == (a@ == b@),
{
    if a.len() != b.len() {
        return false;
    }
    let n = a.len();
    let mut i: usize = 0;
    while i < n
        invariant
            n == a@.len(),
            n == b@.len(),
            i <= n,
            forall|k: int| 0 <= k < i ==> a@[k] == b@[k],
        decreases n - i,
    {
        if a[i] != b[i] {
            return false;
        }
        i = i + 1;
    }
    proof { assert(a@ =~= b@); }
    true
}

/// Copies a byte vector.
pub fn clone_bytes(v: &Vec<u8>) -> (r: Vec<u8>)
    ensures
        r@ == v@,
{
    let mut r: Vec<u8> = Vec::new();
    let n = v.len();
    let mut i: usize = 0;
    while i < n
        invariant
            n == v@.len(),
            i <= n,
            r@ == v@.subrange(0, i as int),
        decreases n - i,
    {
        r.push(v[i]);
        proof { assert(r@ =~= v@.subrange(0, i + 1 as int)); }
        i = i + 1;
    }
    proof { assert(v@.subrange(0, n as int) =~= v@); }
    r
}

/// Copies an optional byte vector.
pub fn clone_opt_bytes(v: &Option<Vec<u8>>) -> (r: Option<Vec<u8>>)
    ensures
        match v {
            Some(s) => r matches Some(t) && t@ == s@,
            None => r is None,
        },
{
    match v {
        Some(s) => Some(clone_bytes(s)),
        None => None,
    }
}

/// Copies a list of byte vectors.
pub fn clone_id_list(v: &Vec<Vec<u8>>) -> (r: Vec<Vec<u8>>)
    ensures
        r.deep_view() == v.deep_view(),
{
    let mut r: Vec<Vec<u8>> = Vec::new();
    let n = v.len();
    let mut i: usize = 0;
    while i < n
        invariant
            n == v@.len(),
            i <= n,
            r@.len() == i,
            forall|k: int| 0 <= k < i ==> #[trigger] r@[k]@ == v@[k]@,
        decreases n - i,
    {
        r.push(clone_bytes(&v[i]));
        i = i + 1;
    }
    proof {
        assert forall|k: int| 0 <= k < n implies r.deep_view()[k] == v.deep_view()[k] by {
            assert(r@[k]@ == v@[k]@);
            assert(r.deep_view()[k] =~= r@[k]@);
            assert(v.deep_view()[k] =~= v@[k]@);
        }
        assert(r.deep_view() =~= v.deep_view());
    }
    r
}

/// The mathematical value of a message record.
pub ghost struct MessageV {
    pub is_initialized: bool,
    pub sender: Seq<u8>,
    pub recipient: Seq<u8>,
    pub content: Seq<u8>,
    pub timestamp: u64,
    pub is_encrypted: bool,
    pub status: MessageStatus,
    pub group_id: Option<Seq<u8>>,
}

impl MessageV {
    /// Well-formedness of a message record: the two party identifiers are
    /// 32-byte keys and the variable fields fit their length prefixes.
    pub open spec fn wf(self) -> bool {
        &&& self.sender.len() == 32
        &&& self.recipient.len() == 32
        &&& self.content.len() <= MAX_FIELD_LENGTH
        &&& match self.group_id {
            Some(g) => g.len() <= MAX_FIELD_LENGTH,
            None => true,
        }
    }
}

/// A direct message record.
pub struct MessageAccount {
    /// Whether this record has been initialized.
    pub is_initialized: bool,
    /// The sender's 32-byte identifier.
    pub sender: Vec<u8>,
    /// The recipient's 32-byte identifier.
    pub recipient: Vec<u8>,
    /// Content of the message (possibly encrypted by the caller).
    pub content: Vec<u8>,
    /// Timestamp when the message was sent.
    pub timestamp: u64,
    /// Whether the content is encrypted.
    pub is_encrypted: bool,
    /// Delivery status of the message.
    pub status: MessageStatus,
    /// Optional group identifier if this is a group message.
    pub group_id: Option<Vec<u8>>,
}

impl View for MessageAccount {
    type V = MessageV;

    open spec fn view(&self) -> MessageV {
        MessageV {
            is_initialized: self.is_initialized,
            sender: self.sender@,
            recipient: self.recipient@,
            content: self.content@,
            timestamp: self.timestamp,
            is_encrypted: self.is_encrypted,
            status: self.status,
            group_id: match self.group_id {
                Some(g) => Some(g@),
                None => None,
            },
        }
    }
}

impl MessageAccount {
    /// Whether this record has been initialized.
    pub fn is_initialized(&self) -> (r: bool)
        ensures
            r == self@.is_initialized,
    {
        self.is_initialized
    }
}

/// The mathematical value of a group record.
pub ghost struct GroupV {
    pub is_initialized: bool,
    pub id: Seq<u8>,
    pub name: Seq<u8>,
    pub participants: Seq<Seq<u8>>,
    pub created_at: u64,
    pub creator: Seq<u8>,
}

impl GroupV {
    /// Well-formedness of a group record: the creator and every participant
    /// are 32-byte keys and the variable fields fit their length prefixes.
    pub open spec fn wf(self) -> bool {
        &&& self.id.len() <= MAX_FIELD_LENGTH
        &&& self.name.len() <= MAX_FIELD_LENGTH
        &&& self.participants.len() <= MAX_FIELD_LENGTH
        &&& (forall|k: int| 0 <= k < self.participants.len() ==> #[trigger] self.participants[k].len() == 32)
        &&& self.creator.len() == 32
    }
}

/// A group chat record.
pub struct GroupAccount {
    /// Whether this record has been initialized.
    pub is_initialized: bool,
    /// Group identifier, generated by the processor.
    pub id: Vec<u8>,
    /// Group name.
    pub name: Vec<u8>,
    /// The participants' 32-byte identifiers.
    pub participants: Vec<Vec<u8>>,
    /// Timestamp when the group was created.
    pub created_at: u64,
    /// The creator's 32-byte identifier.
    pub creator: Vec<u8>,
}

impl View for GroupAccount {
    type V = GroupV;

    open spec fn view(&self) -> GroupV {
        GroupV {
            is_initialized: self.is_initialized,
            id: self.id@,
            name: self.name@,
            participants: self.participants.deep_view(),
            created_at: self.created_at,
            creator: self.creator@,
        }
    }
}

impl GroupAccount {
    /// Whether this record has been initialized.
    pub fn is_initialized(&self) -> (r: bool)
        ensures
            r == self@.is_initialized,
    {
        self.is_initialized
    }
}

} // verus!
