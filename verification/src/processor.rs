//! The instruction processor: dispatches decoded operations, enforces
//! authorization and content constraints, verifies the derived address,
//! allocates storage through the record store, and writes the serialized
//! record. Every operation is atomic: any failure leaves the store exactly
//! as it stood.

use vstd::prelude::*;
use crate::addressing::{
    group_address, message_address, sp_group_address, sp_group_id, sp_message_address,
    generate_group_id,
};
use crate::codec::{
    decode_message, encode_group, encode_message, sp_dec_message, sp_enc_group, sp_enc_message,
};
use crate::error::ChatError;
use crate::instruction::{decode_instruction, sp_dec_instruction, ChatInstruction,
    ChatInstructionV};
use crate::ledger::{sp_funding, spec_allocate, AccountV, CostSchedule, Ledger};
use crate::state::{
    bytes_eq, clone_bytes, clone_id_list, clone_opt_bytes, spec_status_of_text,
    spec_transition_allowed, GroupV, MessageAccount, MessageStatus, MessageV, MAX_FIELD_LENGTH,
    MAX_MESSAGE_LENGTH,
};

verus! {

/// The mathematical value of the record store: addresses to accounts.
pub type LedgerV = Map<Seq<u8>, AccountV>;

// ---------------------------------------------------------------------------
// SendMessage
// ---------------------------------------------------------------------------

/// The mathematical value of a send request.
pub ghost struct SendMessageRequestV {
    pub sender: Seq<u8>,
    pub sender_signed: bool,
    pub recipient: Seq<u8>,
    pub target: Seq<u8>,
    pub content: Seq<u8>,
    pub timestamp: u64,
    pub is_encrypted: bool,
    pub group_id: Option<Seq<u8>>,
}

impl SendMessageRequestV {
    /// The parties are 32-byte keys.
    pub open spec fn wf(self) -> bool {
        self.sender.len() == 32 && self.recipient.len() == 32
    }
}

/// A typed send request: the submitting party, its signature status, the
/// addressed roles, and the message fields.
pub struct SendMessageRequest {
    /// The sender's 32-byte identifier; the sender funds the record.
    pub sender: Vec<u8>,
    /// Whether the sender has signed the operation.
    pub sender_signed: bool,
    /// The recipient's 32-byte identifier.
    pub recipient: Vec<u8>,
    /// The caller-supplied address of the message-record slot.
    pub target: Vec<u8>,
    /// The content of the message.
    pub content: Vec<u8>,
    /// Timestamp of the message.
    pub timestamp: u64,
    /// Whether the content is encrypted.
    pub is_encrypted: bool,
    /// Optional group identifier.
    pub group_id: Option<Vec<u8>>,
}

impl View for SendMessageRequest {
    type V = SendMessageRequestV;

    open spec fn view(&self) -> SendMessageRequestV {
        SendMessageRequestV {
            sender: self.sender@,
            sender_signed: self.sender_signed,
            recipient: self.recipient@,
            target: self.target@,
            content: self.content@,
            timestamp: self.timestamp,
            is_encrypted: self.is_encrypted,
            group_id: match self.group_id {
                Some(g) => Some(g@),
                None => None,
            },
        }
    }
}

/// The message record that a send request creates.
pub open spec fn spec_sent_record(req: SendMessageRequestV) -> MessageV {
    MessageV {
        is_initialized: true,
        sender: req.sender,
        recipient: req.recipient,
        content: req.content,
        timestamp: req.timestamp,
        is_encrypted: req.is_encrypted,
        status: MessageStatus::Sent,
        group_id: req.group_id,
    }
}

/// What a send request does to the store: the exact success conditions, the
/// error each rejected input produces, and the store that success yields.
pub open spec fn spec_send(
    l: LedgerV,
    program_id: Seq<u8>,
    req: SendMessageRequestV,
    sched: CostSchedule,
) -> Result<LedgerV, ChatError> {
    let addr = sp_message_address(program_id, req.sender, req.recipient, req.timestamp);
    let bytes = sp_enc_message(spec_sent_record(req));
    if req.content.len() > MAX_MESSAGE_LENGTH as int {
        Err(ChatError::MessageTooLong)
    } else if !req.sender_signed {
        Err(ChatError::Unauthorized)
    } else if (match req.group_id {
        Some(g) => g.len() > MAX_FIELD_LENGTH as int,
        None => false,
    }) {
        Err(ChatError::InvalidGroup)
    } else if req.target != addr {
        Err(ChatError::InvalidAddress)
    } else {
        spec_allocate(l, addr, bytes, req.sender, sched)
    }
}

/// Processes a send request: validates the content length, the signer and
/// the derived address, allocates the record slot funded by the sender, and
/// writes the serialized message record with status "sent".
pub fn process_send_message(
    ledger: &mut Ledger,
    program_id: &Vec<u8>,
    req: &SendMessageRequest,
    sched: &CostSchedule,
) -> (r: Result<(), ChatError>)
    requires
        old(ledger).wf(),
        program_id@.len() == 32,
        req@.wf(),
    ensures
        final(ledger).wf(),
        (match spec_send(old(ledger)@, program_id@, req@, *sched) {
            Ok(l2) => r is Ok && final(ledger)@ == l2,
            Err(e) => r == Err::<(), ChatError>(e) && final(ledger)@ == old(ledger)@,
        }),
{
    if req.content.len() > MAX_MESSAGE_LENGTH {
        return Err(ChatError::MessageTooLong);
    }
    if !req.sender_signed {
        return Err(ChatError::Unauthorized);
    }
    match &req.group_id {
        Some(g) => {
            if g.len() > MAX_FIELD_LENGTH {
                return Err(ChatError::InvalidGroup);
            }
        },
        None => {},
    }
    let (addr, _nonce) = message_address(program_id, &req.sender, &req.recipient, req.timestamp);
    if !bytes_eq(&req.target, &addr) {
        return Err(ChatError::InvalidAddress);
    }
    let record = MessageAccount {
        is_initialized: true,
        sender: clone_bytes(&req.sender),
        recipient: clone_bytes(&req.recipient),
        content: clone_bytes(&req.content),
        timestamp: req.timestamp,
        is_encrypted: req.is_encrypted,
        status: MessageStatus::Sent,
        group_id: clone_opt_bytes(&req.group_id),
    };
    proof {
        assert(record@ =~~= spec_sent_record(req@));
    }
    let bytes = encode_message(&record);
    ledger.allocate(addr, bytes, &req.sender, sched)
}

// ---------------------------------------------------------------------------
// CreateGroup
// ---------------------------------------------------------------------------

/// The mathematical value of a group-creation request.
pub ghost struct CreateGroupRequestV {
    pub creator: Seq<u8>,
    pub creator_signed: bool,
    pub target: Seq<u8>,
    pub name: Seq<u8>,
    pub participants: Seq<Seq<u8>>,
}

impl CreateGroupRequestV {
    /// The creator and every participant are 32-byte keys.
    pub open spec fn wf(self) -> bool {
        &&& self.creator.len() == 32
        &&& forall|k: int| 0 <= k < self.participants.len() ==> #[trigger] self.participants[
            k
        ].len() == 32
    }
}

/// A typed group-creation request.
pub struct CreateGroupRequest {
    /// The creator's 32-byte identifier; the creator funds the record.
    pub creator: Vec<u8>,
    /// Whether the creator has signed the operation.
    pub creator_signed: bool,
    /// The caller-supplied address of the group-record slot.
    pub target: Vec<u8>,
    /// Name of the group.
    pub name: Vec<u8>,
    /// The participants' 32-byte identifiers.
    pub participants: Vec<Vec<u8>>,
}

impl View for CreateGroupRequest {
    type V = CreateGroupRequestV;

    open spec fn view(&self) -> CreateGroupRequestV {
        CreateGroupRequestV {
            creator: self.creator@,
            creator_signed: self.creator_signed,
            target: self.target@,
            name: self.name@,
            participants: self.participants.deep_view(),
        }
    }
}

/// The group record that a creation request creates at ledger time `now`.
pub open spec fn spec_created_group(req: CreateGroupRequestV, now: u64) -> GroupV {
    GroupV {
        is_initialized: true,
        id: sp_group_id(now, req.creator),
        name: req.name,
        participants: req.participants,
        created_at: now,
        creator: req.creator,
    }
}

/// What a group-creation request does to the store at ledger time `now`.
/// The group identifier is generated from the ledger time and the creator,
/// so it depends on the time of execution, not purely on caller inputs.
pub open spec fn spec_create_group(
    l: LedgerV,
    program_id: Seq<u8>,
    req: CreateGroupRequestV,
    sched: CostSchedule,
    now: u64,
) -> Result<LedgerV, ChatError> {
    let gid = sp_group_id(now, req.creator);
    let addr = sp_group_address(program_id, gid);
    let bytes = sp_enc_group(spec_created_group(req, now));
    if !req.creator_signed {
        Err(ChatError::Unauthorized)
    } else if req.name.len() > MAX_FIELD_LENGTH as int {
        Err(ChatError::InvalidGroup)
    } else if req.participants.len() > MAX_FIELD_LENGTH as int {
        Err(ChatError::InvalidGroup)
    } else if gid.len() > 32 {
        Err(ChatError::InvalidGroup)
    } else if req.target != addr {
        Err(ChatError::InvalidAddress)
    } else {
        spec_allocate(l, addr, bytes, req.creator, sched)
    }
}

/// Processes a group-creation request at ledger time `now`: validates the
/// signer, generates the group identifier from the time and the creator,
/// verifies the derived address, allocates the record slot funded by the
/// creator, and writes the serialized group record.
pub fn process_create_group(
    ledger: &mut Ledger,
    program_id: &Vec<u8>,
    req: &CreateGroupRequest,
    sched: &CostSchedule,
    now: u64,
) -> (r: Result<(), ChatError>)
    requires
        old(ledger).wf(),
        program_id@.len() == 32,
        req@.wf(),
    ensures
        final(ledger).wf(),
        (match spec_create_group(old(ledger)@, program_id@, req@, *sched, now) {
            Ok(l2) => r is Ok && final(ledger)@ == l2,
            Err(e) => r == Err::<(), ChatError>(e) && final(ledger)@ == old(ledger)@,
        }),
{
    if !req.creator_signed {
        return Err(ChatError::Unauthorized);
    }
    if req.name.len() > MAX_FIELD_LENGTH {
        return Err(ChatError::InvalidGroup);
    }
    if req.participants.len() > MAX_FIELD_LENGTH {
        return Err(ChatError::InvalidGroup);
    }
    let gid = generate_group_id(now, &req.creator);
    if gid.len() > 32 {
        return Err(ChatError::InvalidGroup);
    }
    let (addr, _nonce) = group_address(program_id, &gid);
    if !bytes_eq(&req.target, &addr) {
        return Err(ChatError::InvalidAddress);
    }
    let record = crate::state::GroupAccount {
        is_initialized: true,
        id: gid,
        name: clone_bytes(&req.name),
        participants: clone_id_list(&req.participants),
        created_at: now,
        creator: clone_bytes(&req.creator),
    };
    proof {
        assert(record@ =~~= spec_created_group(req@, now));
    }
    let bytes = encode_group(&record);
    ledger.allocate(addr, bytes, &req.creator, sched)
}

// ---------------------------------------------------------------------------
// UpdateMessageStatus
// ---------------------------------------------------------------------------

/// The mathematical value of a status-update request.
pub ghost struct UpdateStatusRequestV {
    pub caller: Seq<u8>,
    pub caller_signed: bool,
    pub target: Seq<u8>,
    pub status_text: Seq<u8>,
}

/// A typed status-update request: the message's address is supplied
/// directly, without re-derivation.
pub struct UpdateStatusRequest {
    /// The updating party's 32-byte identifier.
    pub caller: Vec<u8>,
    /// Whether the updating party has signed the operation.
    pub caller_signed: bool,
    /// The address of the message record to update.
    pub target: Vec<u8>,
    /// The new status as text: "sent", "delivered" or "read".
    pub status_text: Vec<u8>,
}

impl View for UpdateStatusRequest {
    type V = UpdateStatusRequestV;

    open spec fn view(&self) -> UpdateStatusRequestV {
        UpdateStatusRequestV {
            caller: self.caller@,
            caller_signed: self.caller_signed,
            target: self.target@,
            status_text: self.status_text@,
        }
    }
}

/// What a status update does to the store: the caller must have signed and
/// be the record's sender or recipient, the record must exist, decode and
/// be initialized, the status text must name a known status, the transition
/// must be strictly forward, and on success only the status field of the
/// record changes.
pub open spec fn spec_update_status(l: LedgerV, req: UpdateStatusRequestV) -> Result<
    LedgerV,
    ChatError,
> {
    if !req.caller_signed {
        Err(ChatError::Unauthorized)
    } else {
        match spec_status_of_text(req.status_text) {
            None => Err(ChatError::InvalidStatus),
            Some(st) => if !l.contains_key(req.target) {
                Err(ChatError::MessageNotFound)
            } else {
                match sp_dec_message(l[req.target].data) {
                    None => Err(ChatError::MessageNotFound),
                    Some(m) => if !m.is_initialized {
                        Err(ChatError::MessageNotFound)
                    } else if req.caller != m.sender && req.caller != m.recipient {
                        Err(ChatError::Unauthorized)
                    } else if !spec_transition_allowed(m.status, st) {
                        Err(ChatError::InvalidStatus)
                    } else {
                        Ok(
                            l.insert(
                                req.target,
                                AccountV {
                                    lamports: l[req.target].lamports,
                                    data: sp_enc_message(MessageV { status: st, ..m }),
                                },
                            ),
                        )
                    },
                }
            },
        }
    }
}

/// Processes a status update: re-authorizes the caller against the stored
/// record, enforces the forward-only transition, and re-serializes the
/// record with only its status changed, back to its existing address.
pub fn process_update_message_status(ledger: &mut Ledger, req: &UpdateStatusRequest) -> (r: Result<
    (),
    ChatError,
>)
    requires
        old(ledger).wf(),
    ensures
        final(ledger).wf(),
        (match spec_update_status(old(ledger)@, req@) {
            Ok(l2) => r is Ok && final(ledger)@ == l2,
            Err(e) => r == Err::<(), ChatError>(e) && final(ledger)@ == old(ledger)@,
        }),
{
    if !req.caller_signed {
        return Err(ChatError::Unauthorized);
    }
    let st = match MessageStatus::from_text(&req.status_text) {
        Some(s) => s,
        None => { return Err(ChatError::InvalidStatus); },
    };
    let data = match ledger.fetch(&req.target) {
        Some(d) => d,
        None => { return Err(ChatError::MessageNotFound); },
    };
    let mut record = match decode_message(&data) {
        Some(m) => m,
        None => { return Err(ChatError::MessageNotFound); },
    };
    if !record.is_initialized {
        return Err(ChatError::MessageNotFound);
    }
    if !bytes_eq(&req.caller, &record.sender) && !bytes_eq(&req.caller, &record.recipient) {
        return Err(ChatError::Unauthorized);
    }
    if !crate::state::transition_allowed(record.status, st) {
        return Err(ChatError::InvalidStatus);
    }
    record.status = st;
    let bytes = encode_message(&record);
    ledger.set_data(&req.target, bytes);
    Ok(())
}

// ---------------------------------------------------------------------------
// Dispatch
// ---------------------------------------------------------------------------

/// The mathematical value of the account roles a submission carries.
pub ghost struct OperationAccountsV {
    pub signer: Seq<u8>,
    pub signer_is_signer: bool,
    pub target: Seq<u8>,
    pub recipient: Option<Seq<u8>>,
}

impl OperationAccountsV {
    /// The parties are 32-byte keys.
    pub open spec fn wf(self) -> bool {
        &&& self.signer.len() == 32
        &&& match self.recipient {
            Some(p) => p.len() == 32,
            None => true,
        }
    }
}

/// The account roles a submission carries: the submitting party and its
/// signature status, the writable record slot, and, for sends, the
/// recipient.
pub struct OperationAccounts {
    /// The submitting party's 32-byte identifier.
    pub signer: Vec<u8>,
    /// Whether the submitting party has signed the operation.
    pub signer_is_signer: bool,
    /// The address of the writable record slot.
    pub target: Vec<u8>,
    /// The recipient's 32-byte identifier, for sends.
    pub recipient: Option<Vec<u8>>,
}

impl View for OperationAccounts {
    type V = OperationAccountsV;

    open spec fn view(&self) -> OperationAccountsV {
        OperationAccountsV {
            signer: self.signer@,
            signer_is_signer: self.signer_is_signer,
            target: self.target@,
            recipient: match self.recipient {
                Some(p) => Some(p@),
                None => None,
            },
        }
    }
}

/// The send request that a decoded payload and the account roles denote.
pub open spec fn spec_send_request(
    acc: OperationAccountsV,
    recipient: Seq<u8>,
    content: Seq<u8>,
    timestamp: u64,
    is_encrypted: bool,
    group_id: Option<Seq<u8>>,
) -> SendMessageRequestV {
    SendMessageRequestV {
        sender: acc.signer,
        sender_signed: acc.signer_is_signer,
        recipient,
        target: acc.target,
        content,
        timestamp,
        is_encrypted,
        group_id,
    }
}

/// What a raw submission does to the store: decode the payload, then apply
/// the operation it names with the supplied account roles.
pub open spec fn spec_process(
    l: LedgerV,
    program_id: Seq<u8>,
    acc: OperationAccountsV,
    data: Seq<u8>,
    sched: CostSchedule,
    now: u64,
) -> Result<LedgerV, ChatError> {
    match sp_dec_instruction(data) {
        None => Err(ChatError::InvalidInstruction),
        Some(ins) => match ins {
            ChatInstructionV::SendMessage { content, timestamp, is_encrypted, group_id } => {
                match acc.recipient {
                    None => Err(ChatError::InvalidRecipient),
                    Some(rcp) => spec_send(
                        l,
                        program_id,
                        spec_send_request(acc, rcp, content, timestamp, is_encrypted, group_id),
                        sched,
                    ),
                }
            },
            ChatInstructionV::CreateGroup { name, participants } => {
                spec_create_group(
                    l,
                    program_id,
                    CreateGroupRequestV {
                        creator: acc.signer,
                        creator_signed: acc.signer_is_signer,
                        target: acc.target,
                        name,
                        participants,
                    },
                    sched,
                    now,
                )
            },
            ChatInstructionV::UpdateMessageStatus { status } => {
                spec_update_status(
                    l,
                    UpdateStatusRequestV {
                        caller: acc.signer,
                        caller_signed: acc.signer_is_signer,
                        target: acc.target,
                        status_text: status,
                    },
                )
            },
        },
    }
}

/// Decodes and processes one raw submission at ledger time `now`. Decode
/// errors, authorization failures, validation failures and resource
/// failures abort the operation with no change to the store.
pub fn process_instruction(
    ledger: &mut Ledger,
    program_id: &Vec<u8>,
    acc: &OperationAccounts,
    data: &Vec<u8>,
    sched: &CostSchedule,
    now: u64,
) -> (r: Result<(), ChatError>)
    requires
        old(ledger).wf(),
        program_id@.len() == 32,
        acc@.wf(),
    ensures
        final(ledger).wf(),
        (match spec_process(old(ledger)@, program_id@, acc@, data@, *sched, now) {
            Ok(l2) => r is Ok && final(ledger)@ == l2,
            Err(e) => r == Err::<(), ChatError>(e) && final(ledger)@ == old(ledger)@,
        }),
{
    let ins = match decode_instruction(data) {
        Ok(v) => v,
        Err(e) => { return Err(e); },
    };
    match ins {
        ChatInstruction::SendMessage { content, timestamp, is_encrypted, group_id } => {
            let rcp = match &acc.recipient {
                Some(p) => clone_bytes(p),
                None => { return Err(ChatError::InvalidRecipient); },
            };
            let req = SendMessageRequest {
                sender: clone_bytes(&acc.signer),
                sender_signed: acc.signer_is_signer,
                recipient: rcp,
                target: clone_bytes(&acc.target),
                content,
                timestamp,
                is_encrypted,
                group_id,
            };
            process_send_message(ledger, program_id, &req, sched)
        },
        ChatInstruction::CreateGroup { name, participants } => {
            let req = CreateGroupRequest {
                creator: clone_bytes(&acc.signer),
                creator_signed: acc.signer_is_signer,
                target: clone_bytes(&acc.target),
                name,
                participants,
            };
            process_create_group(ledger, program_id, &req, sched, now)
        },
        ChatInstruction::UpdateMessageStatus { status } => {
            let req = UpdateStatusRequest {
                caller: clone_bytes(&acc.signer),
                caller_signed: acc.signer_is_signer,
                target: clone_bytes(&acc.target),
                status_text: status,
            };
            process_update_message_status(ledger, &req)
        },
    }
}

// ---------------------------------------------------------------------------
// Laws
// ---------------------------------------------------------------------------

/// A send with content over the maximum length always fails as too long,
/// whatever the other fields and the store hold.
pub proof fn lemma_send_rejects_long_content(
    l: LedgerV,
    program_id: Seq<u8>,
    req: SendMessageRequestV,
    sched: CostSchedule,
)
    requires
        req.content.len() > MAX_MESSAGE_LENGTH as int,
    ensures
        spec_send(l, program_id, req, sched) == Err::<LedgerV, ChatError>(
            ChatError::MessageTooLong,
        ),
{
}

/// A send with content at or under the maximum length succeeds whenever the
/// sender signed, the target is the derived address, the funding fits the
/// machine word, the slot is free and the sender can cover the funding; the
/// boundary at exactly the maximum length succeeds.
pub proof fn lemma_send_accepts_bounded_content(
    l: LedgerV,
    program_id: Seq<u8>,
    req: SendMessageRequestV,
    sched: CostSchedule,
)
    requires
        req.content.len() <= MAX_MESSAGE_LENGTH as int,
        req.sender_signed,
        (match req.group_id {
            Some(g) => g.len() <= MAX_FIELD_LENGTH as int,
            None => true,
        }),
        req.target == sp_message_address(program_id, req.sender, req.recipient, req.timestamp),
        sp_funding(sp_enc_message(spec_sent_record(req)).len(), sched) <= u64::MAX,
        !l.contains_key(sp_message_address(program_id, req.sender, req.recipient, req.timestamp)),
        l.contains_key(req.sender),
        l[req.sender].lamports >= sp_funding(sp_enc_message(spec_sent_record(req)).len(), sched),
    ensures
        spec_send(l, program_id, req, sched) is Ok,
{
}

/// A send without a valid signer fails as unauthorized, whatever the other
/// fields and the store hold, for any content within the maximum length.
pub proof fn lemma_unsigned_send_rejected(
    l: LedgerV,
    program_id: Seq<u8>,
    req: SendMessageRequestV,
    sched: CostSchedule,
)
    requires
        !req.sender_signed,
        req.content.len() <= MAX_MESSAGE_LENGTH as int,
    ensures
        spec_send(l, program_id, req, sched) == Err::<LedgerV, ChatError>(ChatError::Unauthorized),
{
}

/// Two sends with identical sender, recipient and timestamp cannot both
/// succeed: the first success occupies the derived address, so the second
/// is rejected before it can change the store.
pub proof fn lemma_no_double_send(
    l: LedgerV,
    program_id: Seq<u8>,
    req1: SendMessageRequestV,
    req2: SendMessageRequestV,
    sched1: CostSchedule,
    sched2: CostSchedule,
)
    requires
        spec_send(l, program_id, req1, sched1) is Ok,
        req2.sender == req1.sender,
        req2.recipient == req1.recipient,
        req2.timestamp == req1.timestamp,
    ensures
        !(spec_send(spec_send(l, program_id, req1, sched1).unwrap(), program_id, req2, sched2)
            is Ok),
{
    let addr = sp_message_address(program_id, req1.sender, req1.recipient, req1.timestamp);
    let l2 = spec_send(l, program_id, req1, sched1).unwrap();
    assert(l2.contains_key(addr));
}

/// A status update succeeds only strictly forward: on success the stored
/// record named a status strictly earlier in the lifecycle than the one the
/// request carries.
pub proof fn lemma_update_forward_only(l: LedgerV, req: UpdateStatusRequestV)
    requires
        spec_update_status(l, req) is Ok,
    ensures
        l.contains_key(req.target),
        sp_dec_message(l[req.target].data) is Some,
        spec_status_of_text(req.status_text) is Some,
        spec_status_of_text(req.status_text).unwrap().rank() > sp_dec_message(
            l[req.target].data,
        ).unwrap().status.rank(),
{
}

} // verus!
