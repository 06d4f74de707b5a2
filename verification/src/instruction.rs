//! The three binary-encoded operations of the record store, their codec,
//! and builders for submitting them with the account roles each operation
//! declares.

use vstd::prelude::*;
use vstd::bytes::{
    lemma_auto_spec_u32_to_from_le_bytes, lemma_auto_spec_u64_to_from_le_bytes,
    spec_u32_to_le_bytes, spec_u64_to_le_bytes,
};
use crate::codec::{
    lemma_enc_ids_len, lemma_rd_bytes_at, lemma_rd_ids_at, lemma_rd_opt_bytes_at, lemma_rd_u32_at,
    lemma_rd_u64_at, push_bytes_field, push_opt_bytes_field, push_seq, read_id_list, sp_enc_bool,
    sp_enc_bytes, sp_enc_ids, sp_enc_opt_bytes, sp_rd_bool, sp_rd_bytes, sp_rd_ids, sp_rd_opt_bytes,
    sp_rd_u32, sp_rd_u64,
};
use crate::error::ChatError;
use crate::state::{clone_bytes, MAX_FIELD_LENGTH};

verus! {

/// The mathematical value of an operation payload.
pub ghost enum ChatInstructionV {
    SendMessage { content: Seq<u8>, timestamp: u64, is_encrypted: bool, group_id: Option<Seq<u8>> },
    CreateGroup { name: Seq<u8>, participants: Seq<Seq<u8>> },
    UpdateMessageStatus { status: Seq<u8> },
}

impl ChatInstructionV {
    /// Well-formedness: variable fields fit their length prefixes and every
    /// participant is a 32-byte key.
    pub open spec fn wf(self) -> bool {
        match self {
            ChatInstructionV::SendMessage { content, group_id, .. } => {
                &&& content.len() <= MAX_FIELD_LENGTH
                &&& match group_id {
                    Some(g) => g.len() <= MAX_FIELD_LENGTH,
                    None => true,
                }
            },
            ChatInstructionV::CreateGroup { name, participants } => {
                &&& name.len() <= MAX_FIELD_LENGTH
                &&& participants.len() <= MAX_FIELD_LENGTH
                &&& forall|k: int|
                    0 <= k < participants.len() ==> #[trigger] participants[k].len() == 32
            },
            ChatInstructionV::UpdateMessageStatus { status } => status.len() <= MAX_FIELD_LENGTH,
        }
    }
}

/// An operation payload of the record store.
#[derive(Debug, PartialEq)]
pub enum ChatInstruction {
    /// Sends a message to another user. Roles: the sender signs, the
    /// message-record slot is writable, the recipient is read-only.
    SendMessage {
        /// The content of the message (possibly encrypted by the caller).
        content: Vec<u8>,
        /// Timestamp of the message.
        timestamp: u64,
        /// Whether the content is encrypted.
        is_encrypted: bool,
        /// Optional group identifier.
        group_id: Option<Vec<u8>>,
    },
    /// Creates a group chat. Roles: the creator signs, the group-record
    /// slot is writable.
    CreateGroup {
        /// Name of the group.
        name: Vec<u8>,
        /// The participants' 32-byte identifiers.
        participants: Vec<Vec<u8>>,
    },
    /// Updates the status of a message. Roles: the updating party signs,
    /// the message-record slot is writable.
    UpdateMessageStatus {
        /// New status text: "sent", "delivered" or "read".
        status: Vec<u8>,
    },
}

impl View for ChatInstruction {
    type V = ChatInstructionV;

    open spec fn view(&self) -> ChatInstructionV {
        match self {
            ChatInstruction::SendMessage { content, timestamp, is_encrypted, group_id } => {
                ChatInstructionV::SendMessage {
                    content: content@,
                    timestamp: *timestamp,
                    is_encrypted: *is_encrypted,
                    group_id: match group_id {
                        Some(g) => Some(g@),
                        None => None,
                    },
                }
            },
            ChatInstruction::CreateGroup { name, participants } => {
                ChatInstructionV::CreateGroup {
                    name: name@,
                    participants: participants.deep_view(),
                }
            },
            ChatInstruction::UpdateMessageStatus { status } => {
                ChatInstructionV::UpdateMessageStatus { status: status@ }
            },
        }
    }
}

/// The byte image of an operation payload: a one-byte discriminant tag,
/// then the variant's fields in declared order.
pub open spec fn sp_enc_instruction(v: ChatInstructionV) -> Seq<u8>
    recommends
        v.wf(),
{
    match v {
        ChatInstructionV::SendMessage { content, timestamp, is_encrypted, group_id } => {
            seq![0u8] + sp_enc_bytes(content) + spec_u64_to_le_bytes(timestamp) + sp_enc_bool(
                is_encrypted,
            ) + sp_enc_opt_bytes(group_id)
        },
        ChatInstructionV::CreateGroup { name, participants } => {
            seq![1u8] + sp_enc_bytes(name) + spec_u32_to_le_bytes(participants.len() as u32)
                + sp_enc_ids(participants)
        },
        ChatInstructionV::UpdateMessageStatus { status } => { seq![2u8] + sp_enc_bytes(status) },
    }
}

/// Decodes an operation payload; unknown tags and truncated or malformed
/// buffers are rejected, and the whole buffer must be consumed.
pub open spec fn sp_dec_instruction(b: Seq<u8>) -> Option<ChatInstructionV> {
    if b.len() < 1 {
        None
    } else if b[0] == 0u8 {
        match sp_rd_bytes(b, 1) {
            None => None,
            Some((content, i1)) => match sp_rd_u64(b, i1) {
                None => None,
                Some((timestamp, i2)) => match sp_rd_bool(b, i2) {
                    None => None,
                    Some((is_encrypted, i3)) => match sp_rd_opt_bytes(b, i3) {
                        None => None,
                        Some((group_id, i4)) => if i4 == b.len() {
                            Some(ChatInstructionV::SendMessage {
                                content,
                                timestamp,
                                is_encrypted,
                                group_id,
                            })
                        } else {
                            None
                        },
                    },
                },
            },
        }
    } else if b[0] == 1u8 {
        match sp_rd_bytes(b, 1) {
            None => None,
            Some((name, i1)) => match sp_rd_u32(b, i1) {
                None => None,
                Some((count, i2)) => match sp_rd_ids(b, i2, count as int) {
                    None => None,
                    Some((participants, i3)) => if i3 == b.len() {
                        Some(ChatInstructionV::CreateGroup { name, participants })
                    } else {
                        None
                    },
                },
            },
        }
    } else if b[0] == 2u8 {
        match sp_rd_bytes(b, 1) {
            None => None,
            Some((status, i1)) => if i1 == b.len() {
                Some(ChatInstructionV::UpdateMessageStatus { status })
            } else {
                None
            },
        }
    } else {
        None
    }
}

/// Round-trip law for operation payloads: decoding the byte image of any
/// well-formed payload yields the original payload.
pub proof fn lemma_instruction_round_trip(v: ChatInstructionV)
    requires
        v.wf(),
    ensures
        sp_dec_instruction(sp_enc_instruction(v)) == Some(v),
{
    lemma_auto_spec_u32_to_from_le_bytes();
    lemma_auto_spec_u64_to_from_le_bytes();
    let b = sp_enc_instruction(v);
    match v {
        ChatInstructionV::SendMessage { content, timestamp, is_encrypted, group_id } => {
            let p1 = sp_enc_bytes(content);
            let p2 = spec_u64_to_le_bytes(timestamp);
            let p3 = sp_enc_bool(is_encrypted);
            let p4 = sp_enc_opt_bytes(group_id);
            let i1 = 1 + 4 + content.len() as int;
            let i2 = i1 + 8;
            let i3 = i2 + 1;
            let i4 = i3 + p4.len();
            assert(b.len() == i4);
            assert(b[0] == 0u8);
            assert(b.subrange(1, i1) =~= p1);
            lemma_rd_bytes_at(b, 1, content);
            assert(b.subrange(i1, i2) =~= p2);
            lemma_rd_u64_at(b, i1, timestamp);
            assert(b.subrange(i2, i3) =~= p3);
            assert(b[i2] == p3[0]);
            assert(b.subrange(i3, i4) =~= p4);
            lemma_rd_opt_bytes_at(b, i3, group_id);
        },
        ChatInstructionV::CreateGroup { name, participants } => {
            lemma_enc_ids_len(participants);
            let p1 = sp_enc_bytes(name);
            let p2 = spec_u32_to_le_bytes(participants.len() as u32);
            let p3 = sp_enc_ids(participants);
            let i1 = 1 + 4 + name.len() as int;
            let i2 = i1 + 4;
            let i3 = i2 + 32 * participants.len();
            assert(b.len() == i3);
            assert(b[0] == 1u8);
            assert(b.subrange(1, i1) =~= p1);
            lemma_rd_bytes_at(b, 1, name);
            assert(b.subrange(i1, i2) =~= p2);
            lemma_rd_u32_at(b, i1, participants.len() as u32);
            assert(b.subrange(i2, i3) =~= p3);
            lemma_rd_ids_at(b, i2, participants);
        },
        ChatInstructionV::UpdateMessageStatus { status } => {
            let p1 = sp_enc_bytes(status);
            let i1 = 1 + 4 + status.len() as int;
            assert(b.len() == i1);
            assert(b[0] == 2u8);
            assert(b.subrange(1, i1) =~= p1);
            lemma_rd_bytes_at(b, 1, status);
        },
    }
}

/// Serializes an operation payload into its byte image.
pub fn encode_instruction(v: &ChatInstruction) -> (r: Vec<u8>)
    requires
        v@.wf(),
    ensures
        r@ == sp_enc_instruction(v@),
{
    let mut out: Vec<u8> = Vec::new();
    match v {
        ChatInstruction::SendMessage { content, timestamp, is_encrypted, group_id } => {
            out.push(0u8);
            push_bytes_field(&mut out, content);
            let ts = vstd::bytes::u64_to_le_bytes(*timestamp);
            push_seq(&mut out, &ts);
            out.push(if *is_encrypted { 1u8 } else { 0u8 });
            push_opt_bytes_field(&mut out, group_id);
            proof { assert(out@ =~= sp_enc_instruction(v@)); }
        },
        ChatInstruction::CreateGroup { name, participants } => {
            out.push(1u8);
            push_bytes_field(&mut out, name);
            let count = vstd::bytes::u32_to_le_bytes(participants.len() as u32);
            push_seq(&mut out, &count);
            let ghost pre = out@;
            let n = participants.len();
            let mut k: usize = 0;
            while k < n
                invariant
                    n == participants@.len(),
                    k <= n,
                    out@ == pre + sp_enc_ids(participants.deep_view().take(k as int)),
                decreases n - k,
            {
                push_seq(&mut out, &participants[k]);
                proof {
                    let dv = participants.deep_view();
                    assert(dv.take(k + 1 as int) =~= dv.take(k as int).push(dv[k as int]));
                    crate::codec::lemma_enc_ids_push(dv.take(k as int), dv[k as int]);
                    assert(dv[k as int] =~= participants@[k as int]@);
                    assert(out@ =~= pre + sp_enc_ids(dv.take(k + 1 as int)));
                }
                k = k + 1;
            }
            proof {
                assert(participants.deep_view().take(n as int) =~= participants.deep_view());
                assert(out@ =~= sp_enc_instruction(v@));
            }
        },
        ChatInstruction::UpdateMessageStatus { status } => {
            out.push(2u8);
            push_bytes_field(&mut out, status);
            proof { assert(out@ =~= sp_enc_instruction(v@)); }
        },
    }
    out
}

/// Deserializes an operation payload; malformed bytes are reported as an
/// invalid instruction and never partially decoded.
pub fn decode_instruction(b: &Vec<u8>) -> (r: Result<ChatInstruction, ChatError>)
    ensures
        match r {
            Ok(v) => sp_dec_instruction(b@) == Some(v@) && v@.wf(),
            Err(e) => sp_dec_instruction(b@) is None && e == ChatError::InvalidInstruction,
        },
{
    if b.len() < 1 {
        return Err(ChatError::InvalidInstruction);
    }
    let tag = b[0];
    if tag == 0u8 {
        let (content, i1) = match crate::codec::read_bytes_field(b, 1) {
            Some(p) => p,
            None => { return Err(ChatError::InvalidInstruction); },
        };
        let (timestamp, i2) = match crate::codec::read_u64(b, i1) {
            Some(p) => p,
            None => { return Err(ChatError::InvalidInstruction); },
        };
        let (is_encrypted, i3) = match crate::codec::read_bool(b, i2) {
            Some(p) => p,
            None => { return Err(ChatError::InvalidInstruction); },
        };
        let (group_id, i4) = match crate::codec::read_opt_bytes_field(b, i3) {
            Some(p) => p,
            None => { return Err(ChatError::InvalidInstruction); },
        };
        if i4 != b.len() {
            return Err(ChatError::InvalidInstruction);
        }
        Ok(ChatInstruction::SendMessage { content, timestamp, is_encrypted, group_id })
    } else if tag == 1u8 {
        let (name, i1) = match crate::codec::read_bytes_field(b, 1) {
            Some(p) => p,
            None => { return Err(ChatError::InvalidInstruction); },
        };
        let (count, i2) = match crate::codec::read_u32(b, i1) {
            Some(p) => p,
            None => { return Err(ChatError::InvalidInstruction); },
        };
        let (participants, i3) = match read_id_list(b, i2, count) {
            Some(p) => p,
            None => { return Err(ChatError::InvalidInstruction); },
        };
        if i3 != b.len() {
            return Err(ChatError::InvalidInstruction);
        }
        proof {
            lemma_rd_ids_wf(b@, i2 as int, count as int);
        }
        Ok(ChatInstruction::CreateGroup { name, participants })
    } else if tag == 2u8 {
        let (status, i1) = match crate::codec::read_bytes_field(b, 1) {
            Some(p) => p,
            None => { return Err(ChatError::InvalidInstruction); },
        };
        if i1 != b.len() {
            return Err(ChatError::InvalidInstruction);
        }
        Ok(ChatInstruction::UpdateMessageStatus { status })
    } else {
        Err(ChatError::InvalidInstruction)
    }
}

/// Every identifier that the list reader yields is a 32-byte key.
proof fn lemma_rd_ids_wf(b: Seq<u8>, i: int, n: int)
    ensures
        match sp_rd_ids(b, i, n) {
            Some(p) => (forall|k: int| 0 <= k < p.0.len() ==> #[trigger] p.0[k].len() == 32)
                && p.0.len() == (if n >= 0 { n } else { 0 }),
            None => true,
        },
    decreases n,
{
    if n > 0 {
        match crate::codec::sp_rd_fixed(b, i, 32) {
            None => {},
            Some((id, j)) => {
                lemma_rd_ids_wf(b, j, n - 1);
            },
        }
    }
}

/// One account role demanded by an operation.
pub struct AccountMeta {
    /// The 32-byte address of the account.
    pub pubkey: Vec<u8>,
    /// Whether the account must sign the operation.
    pub is_signer: bool,
    /// Whether the operation writes the account.
    pub is_writable: bool,
}

/// A fully addressed operation: the namespace identifier of the record
/// store, the account roles in declared order, and the encoded payload.
pub struct Instruction {
    /// The 32-byte namespace identifier of the record store.
    pub program_id: Vec<u8>,
    /// The account roles, in the order the operation declares.
    pub accounts: Vec<AccountMeta>,
    /// The encoded operation payload.
    pub data: Vec<u8>,
}

/// Relies on system_program::id(): the fixed 32-byte address of the system
/// program, used as the read-only allocator role.
#[verifier::external_body]
fn system_program_id_bytes() -> (r: Vec<u8>)
    ensures
        r@.len() == 32,
{
    solana_program::system_program::id().to_bytes().to_vec()
}

/// Relies on sysvar::rent::id(): the fixed 32-byte address of the rent
/// sysvar, used as the read-only cost-schedule role.
#[verifier::external_body]
fn rent_sysvar_id_bytes() -> (r: Vec<u8>)
    ensures
        r@.len() == 32,
{
    solana_program::sysvar::rent::id().to_bytes().to_vec()
}

/// Builds a `SendMessage` operation: the sender signs, the message-record
/// slot is writable, the recipient, the allocator service and the cost
/// schedule are read-only.
pub fn send_message(
    program_id: &Vec<u8>,
    sender: &Vec<u8>,
    recipient: &Vec<u8>,
    message_pda: &Vec<u8>,
    content: Vec<u8>,
    timestamp: u64,
    is_encrypted: bool,
    group_id: Option<Vec<u8>>,
) -> (r: Instruction)
    requires
        content@.len() <= MAX_FIELD_LENGTH,
        match group_id {
            Some(g) => g@.len() <= MAX_FIELD_LENGTH,
            None => true,
        },
    ensures
        r.program_id@ == program_id@,
        r.data@ == sp_enc_instruction(
            ChatInstructionV::SendMessage {
                content: content@,
                timestamp,
                is_encrypted,
                group_id: (match group_id {
                    Some(g) => Some(g@),
                    None => None,
                }),
            },
        ),
        r.accounts@.len() == 5,
        r.accounts@[0].pubkey@ == sender@ && r.accounts@[0].is_signer && !r.accounts@[
            0
        ].is_writable,
        r.accounts@[1].pubkey@ == message_pda@ && !r.accounts@[1].is_signer && r.accounts@[
            1
        ].is_writable,
        r.accounts@[2].pubkey@ == recipient@ && !r.accounts@[2].is_signer && !r.accounts@[
            2
        ].is_writable,
        r.accounts@[3].pubkey@.len() == 32 && !r.accounts@[3].is_signer && !r.accounts@[
            3
        ].is_writable,
        r.accounts@[4].pubkey@.len() == 32 && !r.accounts@[4].is_signer && !r.accounts@[
            4
        ].is_writable,
{
    let payload = ChatInstruction::SendMessage { content, timestamp, is_encrypted, group_id };
    let data = encode_instruction(&payload);
    let mut accounts: Vec<AccountMeta> = Vec::new();
    accounts.push(
        AccountMeta { pubkey: clone_bytes(sender), is_signer: true, is_writable: false },
    );
    accounts.push(
        AccountMeta { pubkey: clone_bytes(message_pda), is_signer: false, is_writable: true },
    );
    accounts.push(
        AccountMeta { pubkey: clone_bytes(recipient), is_signer: false, is_writable: false },
    );
    accounts.push(
        AccountMeta { pubkey: system_program_id_bytes(), is_signer: false, is_writable: false },
    );
    accounts.push(
        AccountMeta { pubkey: rent_sysvar_id_bytes(), is_signer: false, is_writable: false },
    );
    Instruction { program_id: clone_bytes(program_id), accounts, data }
}

/// Builds a `CreateGroup` operation: the creator signs, the group-record
/// slot is writable, the allocator service and the cost schedule are
/// read-only.
pub fn create_group(
    program_id: &Vec<u8>,
    creator: &Vec<u8>,
    group_pda: &Vec<u8>,
    name: Vec<u8>,
    participants: Vec<Vec<u8>>,
) -> (r: Instruction)
    requires
        name@.len() <= MAX_FIELD_LENGTH,
        participants@.len() <= MAX_FIELD_LENGTH,
        forall|k: int| 0 <= k < participants@.len() ==> #[trigger] participants@[k]@.len() == 32,
    ensures
        r.program_id@ == program_id@,
        r.data@ == sp_enc_instruction(
            ChatInstructionV::CreateGroup {
                name: name@,
                participants: participants.deep_view(),
            },
        ),
        r.accounts@.len() == 4,
        r.accounts@[0].pubkey@ == creator@ && r.accounts@[0].is_signer && !r.accounts@[
            0
        ].is_writable,
        r.accounts@[1].pubkey@ == group_pda@ && !r.accounts@[1].is_signer && r.accounts@[
            1
        ].is_writable,
        r.accounts@[2].pubkey@.len() == 32 && !r.accounts@[2].is_signer && !r.accounts@[
            2
        ].is_writable,
        r.accounts@[3].pubkey@.len() == 32 && !r.accounts@[3].is_signer && !r.accounts@[
            3
        ].is_writable,
{
    proof {
        assert(forall|k: int|
            0 <= k < participants.deep_view().len() ==> #[trigger] participants.deep_view()[
                k
            ].len() == 32) by {
            assert(forall|k: int|
                0 <= k < participants@.len() ==> participants.deep_view()[k]
                    == #[trigger] participants@[k]@);
        }
    }
    let payload = ChatInstruction::CreateGroup { name, participants };
    let data = encode_instruction(&payload);
    let mut accounts: Vec<AccountMeta> = Vec::new();
    accounts.push(
        AccountMeta { pubkey: clone_bytes(creator), is_signer: true, is_writable: false },
    );
    accounts.push(
        AccountMeta { pubkey: clone_bytes(group_pda), is_signer: false, is_writable: true },
    );
    accounts.push(
        AccountMeta { pubkey: system_program_id_bytes(), is_signer: false, is_writable: false },
    );
    accounts.push(
        AccountMeta { pubkey: rent_sysvar_id_bytes(), is_signer: false, is_writable: false },
    );
    Instruction { program_id: clone_bytes(program_id), accounts, data }
}

/// Builds an `UpdateMessageStatus` operation: the updating party signs and
/// the message-record slot is writable.
pub fn update_message_status(
    program_id: &Vec<u8>,
    user: &Vec<u8>,
    message_pda: &Vec<u8>,
    status: Vec<u8>,
) -> (r: Instruction)
    requires
        status@.len() <= MAX_FIELD_LENGTH,
    ensures
        r.program_id@ == program_id@,
        r.data@ == sp_enc_instruction(ChatInstructionV::UpdateMessageStatus { status: status@ }),
        r.accounts@.len() == 2,
        r.accounts@[0].pubkey@ == user@ && r.accounts@[0].is_signer && !r.accounts@[0].is_writable,
        r.accounts@[1].pubkey@ == message_pda@ && !r.accounts@[1].is_signer && r.accounts@[
            1
        ].is_writable,
{
    let payload = ChatInstruction::UpdateMessageStatus { status };
    let data = encode_instruction(&payload);
    let mut accounts: Vec<AccountMeta> = Vec::new();
    accounts.push(AccountMeta { pubkey: clone_bytes(user), is_signer: true, is_writable: false });
    accounts.push(
        AccountMeta { pubkey: clone_bytes(message_pda), is_signer: false, is_writable: true },
    );
    Instruction { program_id: clone_bytes(program_id), accounts, data }
}

} // verus!
