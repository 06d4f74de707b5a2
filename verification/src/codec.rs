//! Fixed-schema binary codec for the two record types and the operation
//! payloads: a discriminant tag selects the variant, fields follow in
//! declared order, and variable-length fields are length-prefixed with a
//! 32-bit little-endian count. Decoding malformed or truncated buffers
//! fails cleanly, and decoding is the exact inverse of encoding.

use vstd::prelude::*;
use vstd::bytes::*;
use vstd::slice::{slice_subrange, slice_to_vec};
use crate::state::{GroupAccount, GroupV, MessageAccount, MessageStatus, MessageV, MAX_FIELD_LENGTH};

verus! {

// ---------------------------------------------------------------------------
// Specification-level encoders
// ---------------------------------------------------------------------------

/// One byte for a boolean: 1 for true, 0 for false.
pub open spec fn sp_enc_bool(b: bool) -> Seq<u8> {
    seq![if b { 1u8 } else { 0u8 }]
}

/// A length-prefixed byte field: 32-bit little-endian length, then the bytes.
pub open spec fn sp_enc_bytes(s: Seq<u8>) -> Seq<u8>
    recommends
        s.len() <= MAX_FIELD_LENGTH,
{
    spec_u32_to_le_bytes(s.len() as u32) + s
}

/// An optional length-prefixed byte field: a presence byte, then the field.
pub open spec fn sp_enc_opt_bytes(o: Option<Seq<u8>>) -> Seq<u8> {
    match o {
        None => seq![0u8],
        Some(s) => seq![1u8] + sp_enc_bytes(s),
    }
}

/// One byte for a message status.
pub open spec fn sp_enc_status(s: MessageStatus) -> Seq<u8> {
    match s {
        MessageStatus::Sent => seq![0u8],
        MessageStatus::Delivered => seq![1u8],
        MessageStatus::Read => seq![2u8],
    }
}

/// A list of 32-byte identifiers, back to back without separators.
pub open spec fn sp_enc_ids(ids: Seq<Seq<u8>>) -> Seq<u8>
    decreases ids.len(),
{
    if ids.len() == 0 {
        Seq::empty()
    } else {
        ids.first() + sp_enc_ids(ids.drop_first())
    }
}

/// The byte image of a message record.
pub open spec fn sp_enc_message(m: MessageV) -> Seq<u8>
    recommends
        m.wf(),
{
    sp_enc_bool(m.is_initialized) + m.sender + m.recipient + sp_enc_bytes(m.content)
        + spec_u64_to_le_bytes(m.timestamp) + sp_enc_bool(m.is_encrypted)
        + sp_enc_status(m.status) + sp_enc_opt_bytes(m.group_id)
}

/// The byte image of a group record.
pub open spec fn sp_enc_group(g: GroupV) -> Seq<u8>
    recommends
        g.wf(),
{
    sp_enc_bool(g.is_initialized) + sp_enc_bytes(g.id) + sp_enc_bytes(g.name)
        + spec_u32_to_le_bytes(g.participants.len() as u32) + sp_enc_ids(g.participants)
        + spec_u64_to_le_bytes(g.created_at) + g.creator
}

// ---------------------------------------------------------------------------
// Specification-level readers: a cursor into the buffer, each reader returns
// the decoded value and the position after it, or nothing on malformed input.
// ---------------------------------------------------------------------------

/// Reads one boolean byte; bytes other than 0 and 1 are malformed.
pub open spec fn sp_rd_bool(b: Seq<u8>, i: int) -> Option<(bool, int)> {
    if 0 <= i && i + 1 <= b.len() {
        if b[i] == 0u8 {
            Some((false, i + 1))
        } else if b[i] == 1u8 {
            Some((true, i + 1))
        } else {
            None
        }
    } else {
        None
    }
}

/// Reads a fixed run of `n` bytes.
pub open spec fn sp_rd_fixed(b: Seq<u8>, i: int, n: int) -> Option<(Seq<u8>, int)> {
    if 0 <= i && 0 <= n && i + n <= b.len() {
        Some((b.subrange(i, i + n), i + n))
    } else {
        None
    }
}

/// Reads a 32-bit little-endian integer.
pub open spec fn sp_rd_u32(b: Seq<u8>, i: int) -> Option<(u32, int)> {
    if 0 <= i && i + 4 <= b.len() {
        Some((spec_u32_from_le_bytes(b.subrange(i, i + 4)), i + 4))
    } else {
        None
    }
}

/// Reads a 64-bit little-endian integer.
pub open spec fn sp_rd_u64(b: Seq<u8>, i: int) -> Option<(u64, int)> {
    if 0 <= i && i + 8 <= b.len() {
        Some((spec_u64_from_le_bytes(b.subrange(i, i + 8)), i + 8))
    } else {
        None
    }
}

/// Reads a length-prefixed byte field.
pub open spec fn sp_rd_bytes(b: Seq<u8>, i: int) -> Option<(Seq<u8>, int)> {
    match sp_rd_u32(b, i) {
        None => None,
        Some((n, j)) => sp_rd_fixed(b, j, n as int),
    }
}

/// Reads an optional length-prefixed byte field.
pub open spec fn sp_rd_opt_bytes(b: Seq<u8>, i: int) -> Option<(Option<Seq<u8>>, int)> {
    if 0 <= i && i + 1 <= b.len() {
        if b[i] == 0u8 {
            Some((None, i + 1))
        } else if b[i] == 1u8 {
            match sp_rd_bytes(b, i + 1) {
                None => None,
                Some((s, j)) => Some((Some(s), j)),
            }
        } else {
            None
        }
    } else {
        None
    }
}

/// Reads one status byte; tags other than 0, 1 and 2 are malformed.
pub open spec fn sp_rd_status(b: Seq<u8>, i: int) -> Option<(MessageStatus, int)> {
    if 0 <= i && i + 1 <= b.len() {
        if b[i] == 0u8 {
            Some((MessageStatus::Sent, i + 1))
        } else if b[i] == 1u8 {
            Some((MessageStatus::Delivered, i + 1))
        } else if b[i] == 2u8 {
            Some((MessageStatus::Read, i + 1))
        } else {
            None
        }
    } else {
        None
    }
}

/// Reads `n` identifiers of 32 bytes each.
pub open spec fn sp_rd_ids(b: Seq<u8>, i: int, n: int) -> Option<(Seq<Seq<u8>>, int)>
    decreases n,
{
    if n <= 0 {
        Some((Seq::empty(), i))
    } else {
        match sp_rd_fixed(b, i, 32) {
            None => None,
            Some((id, j)) => match sp_rd_ids(b, j, n - 1) {
                None => None,
                Some((rest, k)) => Some((seq![id] + rest, k)),
            },
        }
    }
}

/// Decodes a message record; the whole buffer must be consumed.
pub open spec fn sp_dec_message(b: Seq<u8>) -> Option<MessageV> {
    match sp_rd_bool(b, 0) {
        None => None,
        Some((is_initialized, i1)) => match sp_rd_fixed(b, i1, 32) {
            None => None,
            Some((sender, i2)) => match sp_rd_fixed(b, i2, 32) {
                None => None,
                Some((recipient, i3)) => match sp_rd_bytes(b, i3) {
                    None => None,
                    Some((content, i4)) => match sp_rd_u64(b, i4) {
                        None => None,
                        Some((timestamp, i5)) => match sp_rd_bool(b, i5) {
                            None => None,
                            Some((is_encrypted, i6)) => match sp_rd_status(b, i6) {
                                None => None,
                                Some((status, i7)) => match sp_rd_opt_bytes(b, i7) {
                                    None => None,
                                    Some((group_id, i8)) => if i8 == b.len() {
                                        Some(MessageV {
                                            is_initialized,
                                            sender,
                                            recipient,
                                            content,
                                            timestamp,
                                            is_encrypted,
                                            status,
                                            group_id,
                                        })
                                    } else {
                                        None
                                    },
                                },
                            },
                        },
                    },
                },
            },
        },
    }
}

/// Decodes a group record; the whole buffer must be consumed.
pub open spec fn sp_dec_group(b: Seq<u8>) -> Option<GroupV> {
    match sp_rd_bool(b, 0) {
        None => None,
        Some((is_initialized, i1)) => match sp_rd_bytes(b, i1) {
            None => None,
            Some((id, i2)) => match sp_rd_bytes(b, i2) {
                None => None,
                Some((name, i3)) => match sp_rd_u32(b, i3) {
                    None => None,
                    Some((count, i4)) => match sp_rd_ids(b, i4, count as int) {
                        None => None,
                        Some((participants, i5)) => match sp_rd_u64(b, i5) {
                            None => None,
                            Some((created_at, i6)) => match sp_rd_fixed(b, i6, 32) {
                                None => None,
                                Some((creator, i7)) => if i7 == b.len() {
                                    Some(GroupV {
                                        is_initialized,
                                        id,
                                        name,
                                        participants,
                                        created_at,
                                        creator,
                                    })
                                } else {
                                    None
                                },
                            },
                        },
                    },
                },
            },
        },
    }
}

// ---------------------------------------------------------------------------
// Facts about the encoders and readers
// ---------------------------------------------------------------------------

/// Every identifier list of 32-byte identifiers encodes to 32 bytes each.
pub proof fn lemma_enc_ids_len(ids: Seq<Seq<u8>>)
    requires
        forall|k: int| 0 <= k < ids.len() ==> #[trigger] ids[k].len() == 32,
    ensures
        sp_enc_ids(ids).len() == 32 * ids.len(),
    decreases ids.len(),
{
    if ids.len() > 0 {
        assert(ids.first().len() == 32);
        assert(forall|k: int|
            0 <= k < ids.drop_first().len() ==> #[trigger] ids.drop_first()[k].len() == 32);
        lemma_enc_ids_len(ids.drop_first());
    }
}

/// Reading a boolean where one was written yields it back.
pub(crate) proof fn lemma_rd_bool_at(b: Seq<u8>, i: int, v: bool)
    requires
        0 <= i,
        i + 1 <= b.len(),
        b.subrange(i, i + 1) == sp_enc_bool(v),
    ensures
        sp_rd_bool(b, i) == Some((v, i + 1)),
{
    assert(b[i] == sp_enc_bool(v)[0]);
}

/// Reading a status where one was written yields it back.
proof fn lemma_rd_status_at(b: Seq<u8>, i: int, v: MessageStatus)
    requires
        0 <= i,
        i + 1 <= b.len(),
        b.subrange(i, i + 1) == sp_enc_status(v),
    ensures
        sp_rd_status(b, i) == Some((v, i + 1)),
{
    assert(b[i] == sp_enc_status(v)[0]);
}

/// Reading a 32-bit integer where one was written yields it back.
pub(crate) proof fn lemma_rd_u32_at(b: Seq<u8>, i: int, v: u32)
    requires
        0 <= i,
        i + 4 <= b.len(),
        b.subrange(i, i + 4) == spec_u32_to_le_bytes(v),
    ensures
        sp_rd_u32(b, i) == Some((v, i + 4)),
{
    lemma_auto_spec_u32_to_from_le_bytes();
    assert(spec_u32_to_le_bytes(v).len() == 4);
    assert(spec_u32_from_le_bytes(b.subrange(i, i + 4)) == v);
}

/// Reading a 64-bit integer where one was written yields it back.
pub(crate) proof fn lemma_rd_u64_at(b: Seq<u8>, i: int, v: u64)
    requires
        0 <= i,
        i + 8 <= b.len(),
        b.subrange(i, i + 8) == spec_u64_to_le_bytes(v),
    ensures
        sp_rd_u64(b, i) == Some((v, i + 8)),
{
    lemma_auto_spec_u64_to_from_le_bytes();
    assert(spec_u64_to_le_bytes(v).len() == 8);
    assert(spec_u64_from_le_bytes(b.subrange(i, i + 8)) == v);
}

/// Reading a length-prefixed field where one was written yields it back.
pub(crate) proof fn lemma_rd_bytes_at(b: Seq<u8>, i: int, s: Seq<u8>)
    requires
        0 <= i,
        s.len() <= MAX_FIELD_LENGTH,
        i + 4 + s.len() <= b.len(),
        b.subrange(i, i + 4 + s.len()) == sp_enc_bytes(s),
    ensures
        sp_rd_bytes(b, i) == Some((s, i + 4 + s.len())),
{
    lemma_auto_spec_u32_to_from_le_bytes();
    let whole = b.subrange(i, i + 4 + s.len());
    assert(b.subrange(i, i + 4) =~= whole.subrange(0, 4));
    assert(whole.subrange(0, 4) =~= spec_u32_to_le_bytes(s.len() as u32));
    lemma_rd_u32_at(b, i, s.len() as u32);
    let slen = s.len() as int;
    assert(b.subrange(i + 4, i + 4 + slen) =~= whole.subrange(4, 4 + slen));
    assert(whole.subrange(4, 4 + slen) =~= s);
}

/// Reading an optional field where one was written yields it back.
pub(crate) proof fn lemma_rd_opt_bytes_at(b: Seq<u8>, i: int, o: Option<Seq<u8>>)
    requires
        0 <= i,
        match o {
            Some(s) => s.len() <= MAX_FIELD_LENGTH,
            None => true,
        },
        i + sp_enc_opt_bytes(o).len() <= b.len(),
        b.subrange(i, i + sp_enc_opt_bytes(o).len()) == sp_enc_opt_bytes(o),
    ensures
        sp_rd_opt_bytes(b, i) == Some((o, i + sp_enc_opt_bytes(o).len())),
{
    lemma_auto_spec_u32_to_from_le_bytes();
    let e = sp_enc_opt_bytes(o);
    assert(b[i] == e[0]);
    match o {
        None => {
        },
        Some(s) => {
            assert(b.subrange(i + 1, i + 1 + 4 + s.len()) =~= e.subrange(1, e.len() as int));
            assert(e.subrange(1, e.len() as int) =~= sp_enc_bytes(s));
            lemma_rd_bytes_at(b, i + 1, s);
        },
    }
}

/// Reading an identifier list where one was written yields it back.
pub(crate) proof fn lemma_rd_ids_at(b: Seq<u8>, i: int, ids: Seq<Seq<u8>>)
    requires
        0 <= i,
        forall|k: int| 0 <= k < ids.len() ==> #[trigger] ids[k].len() == 32,
        i + 32 * ids.len() <= b.len(),
        b.subrange(i, i + 32 * ids.len()) == sp_enc_ids(ids),
    ensures
        sp_rd_ids(b, i, ids.len() as int) == Some((ids, i + 32 * ids.len())),
    decreases ids.len(),
{
    lemma_enc_ids_len(ids);
    if ids.len() == 0 {
        assert(sp_rd_ids(b, i, 0) == Some((Seq::<Seq<u8>>::empty(), i)));
        assert(ids =~= Seq::<Seq<u8>>::empty());
    } else {
        let e = sp_enc_ids(ids);
        let rest = ids.drop_first();
        assert(forall|k: int| 0 <= k < rest.len() ==> #[trigger] rest[k].len() == 32);
        lemma_enc_ids_len(rest);
        assert(e == ids.first() + sp_enc_ids(rest));
        assert(b.subrange(i, i + 32) =~= e.subrange(0, 32));
        assert(e.subrange(0, 32) =~= ids.first());
        assert(sp_rd_fixed(b, i, 32) == Some((ids.first(), i + 32)));
        let rlen = rest.len() as int;
        assert(b.subrange(i + 32, i + 32 + 32 * rlen) =~= e.subrange(32, 32 + 32 * rlen));
        assert(e.subrange(32, 32 + 32 * rlen) =~= sp_enc_ids(rest));
        lemma_rd_ids_at(b, i + 32, rest);
        assert(seq![ids.first()] + rest =~= ids);
    }
}

/// Round-trip law for message records: decoding the byte image of any
/// well-formed message record yields a record equal to the original in
/// every field.
pub proof fn lemma_message_round_trip(m: MessageV)
    requires
        m.wf(),
    ensures
        sp_dec_message(sp_enc_message(m)) == Some(m),
{
    lemma_auto_spec_u32_to_from_le_bytes();
    lemma_auto_spec_u64_to_from_le_bytes();
    let b = sp_enc_message(m);
    let p1 = sp_enc_bool(m.is_initialized);
    let p4 = sp_enc_bytes(m.content);
    let p5 = spec_u64_to_le_bytes(m.timestamp);
    let p6 = sp_enc_bool(m.is_encrypted);
    let p7 = sp_enc_status(m.status);
    let p8 = sp_enc_opt_bytes(m.group_id);
    let i1 = 1int;
    let i2 = i1 + 32;
    let i3 = i2 + 32;
    let i4 = i3 + 4 + m.content.len();
    let i5 = i4 + 8;
    let i6 = i5 + 1;
    let i7 = i6 + 1;
    let i8 = i7 + p8.len();
    assert(b.len() == i8);
    assert(b.subrange(0, i1) =~= p1);
    lemma_rd_bool_at(b, 0, m.is_initialized);
    assert(b.subrange(i1, i2) =~= m.sender);
    assert(b.subrange(i2, i3) =~= m.recipient);
    assert(b.subrange(i3, i4) =~= p4);
    lemma_rd_bytes_at(b, i3, m.content);
    assert(b.subrange(i4, i5) =~= p5);
    lemma_rd_u64_at(b, i4, m.timestamp);
    assert(b.subrange(i5, i6) =~= p6);
    lemma_rd_bool_at(b, i5, m.is_encrypted);
    assert(b.subrange(i6, i7) =~= p7);
    lemma_rd_status_at(b, i6, m.status);
    assert(b.subrange(i7, i8) =~= p8);
    lemma_rd_opt_bytes_at(b, i7, m.group_id);
}

/// Round-trip law for group records: decoding the byte image of any
/// well-formed group record yields a record equal to the original in
/// every field.
pub proof fn lemma_group_round_trip(g: GroupV)
    requires
        g.wf(),
    ensures
        sp_dec_group(sp_enc_group(g)) == Some(g),
{
    lemma_auto_spec_u32_to_from_le_bytes();
    lemma_auto_spec_u64_to_from_le_bytes();
    lemma_enc_ids_len(g.participants);
    let b = sp_enc_group(g);
    let p1 = sp_enc_bool(g.is_initialized);
    let p2 = sp_enc_bytes(g.id);
    let p3 = sp_enc_bytes(g.name);
    let p4 = spec_u32_to_le_bytes(g.participants.len() as u32);
    let p5 = sp_enc_ids(g.participants);
    let p6 = spec_u64_to_le_bytes(g.created_at);
    let i1 = 1int;
    let i2 = i1 + 4 + g.id.len();
    let i3 = i2 + 4 + g.name.len();
    let i4 = i3 + 4;
    let i5 = i4 + 32 * g.participants.len();
    let i6 = i5 + 8;
    let i7 = i6 + 32;
    assert(b.len() == i7);
    assert(b.subrange(0, i1) =~= p1);
    lemma_rd_bool_at(b, 0, g.is_initialized);
    assert(b.subrange(i1, i2) =~= p2);
    lemma_rd_bytes_at(b, i1, g.id);
    assert(b.subrange(i2, i3) =~= p3);
    lemma_rd_bytes_at(b, i2, g.name);
    assert(b.subrange(i3, i4) =~= p4);
    lemma_rd_u32_at(b, i3, g.participants.len() as u32);
    assert(b.subrange(i4, i5) =~= p5);
    lemma_rd_ids_at(b, i4, g.participants);
    assert(b.subrange(i5, i6) =~= p6);
    lemma_rd_u64_at(b, i5, g.created_at);
    assert(b.subrange(i6, i7) =~= g.creator);
}

/// A decoded message record is well formed: its identifiers are 32-byte
/// keys and its variable fields fit their length prefixes.
pub proof fn lemma_dec_message_wf(b: Seq<u8>)
    ensures
        match sp_dec_message(b) {
            Some(m) => m.wf(),
            None => true,
        },
{
}

/// Appending one identifier to a list appends its bytes to the encoding.
pub(crate) proof fn lemma_enc_ids_push(ids: Seq<Seq<u8>>, x: Seq<u8>)
    ensures
        sp_enc_ids(ids.push(x)) == sp_enc_ids(ids) + x,
    decreases ids.len(),
{
    if ids.len() == 0 {
        let s = ids.push(x);
        assert(s.first() == x);
        assert(s.drop_first() =~= Seq::<Seq<u8>>::empty());
        assert(sp_enc_ids(s.drop_first()) =~= Seq::<u8>::empty());
        assert(sp_enc_ids(s) =~= x + Seq::<u8>::empty());
        assert(sp_enc_ids(ids) =~= Seq::<u8>::empty());
        assert(sp_enc_ids(s) =~= sp_enc_ids(ids) + x);
    } else {
        assert(ids.push(x).first() == ids.first());
        assert(ids.push(x).drop_first() =~= ids.drop_first().push(x));
        lemma_enc_ids_push(ids.drop_first(), x);
        assert(ids.first() + (sp_enc_ids(ids.drop_first()) + x) =~= (ids.first() + sp_enc_ids(
            ids.drop_first(),
        )) + x);
    }
}

// ---------------------------------------------------------------------------
// Executable encoders
// ---------------------------------------------------------------------------

/// Appends the contents of `src` to `out`.
pub fn push_seq(out: &mut Vec<u8>, src: &Vec<u8>)
    ensures
        final(out)@ == old(out)@ + src@,
{
    let n = src.len();
    let mut i: usize = 0;
    while i < n
        invariant
            n == src@.len(),
            i <= n,
            out@ == old(out)@ + src@.subrange(0, i as int),
        decreases n - i,
    {
        out.push(src[i]);
        proof {
            assert(old(out)@ + src@.subrange(0, i + 1 as int) =~= (old(out)@ + src@.subrange(
                0,
                i as int,
            )).push(src@[i as int]));
        }
        i = i + 1;
    }
    proof { assert(old(out)@ + src@.subrange(0, n as int) =~= old(out)@ + src@); }
}

/// Appends one boolean byte.
fn push_bool(out: &mut Vec<u8>, b: bool)
    ensures
        final(out)@ == old(out)@ + sp_enc_bool(b),
{
    out.push(if b { 1u8 } else { 0u8 });
    proof { assert(out@ =~= old(out)@ + sp_enc_bool(b)); }
}

/// Appends a 32-bit little-endian integer.
fn push_u32(out: &mut Vec<u8>, v: u32)
    ensures
        final(out)@ == old(out)@ + spec_u32_to_le_bytes(v),
{
    let b = u32_to_le_bytes(v);
    push_seq(out, &b);
}

/// Appends a 64-bit little-endian integer.
fn push_u64(out: &mut Vec<u8>, v: u64)
    ensures
        final(out)@ == old(out)@ + spec_u64_to_le_bytes(v),
{
    let b = u64_to_le_bytes(v);
    push_seq(out, &b);
}

/// Appends a length-prefixed byte field.
pub fn push_bytes_field(out: &mut Vec<u8>, src: &Vec<u8>)
    requires
        src@.len() <= MAX_FIELD_LENGTH,
    ensures
        final(out)@ == old(out)@ + sp_enc_bytes(src@),
{
    push_u32(out, src.len() as u32);
    push_seq(out, src);
    proof {
        assert(out@ =~= old(out)@ + sp_enc_bytes(src@));
    }
}

/// Appends an optional length-prefixed byte field.
pub fn push_opt_bytes_field(out: &mut Vec<u8>, src: &Option<Vec<u8>>)
    requires
        match src {
            Some(s) => s@.len() <= MAX_FIELD_LENGTH,
            None => true,
        },
    ensures
        match src {
            Some(s) => final(out)@ == old(out)@ + sp_enc_opt_bytes(Some(s@)),
            None => final(out)@ == old(out)@ + sp_enc_opt_bytes(None),
        },
{
    match src {
        None => {
            out.push(0u8);
            proof { assert(out@ =~= old(out)@ + sp_enc_opt_bytes(None)); }
        },
        Some(s) => {
            out.push(1u8);
            push_bytes_field(out, s);
            proof {
                assert(out@ =~= old(out)@ + sp_enc_opt_bytes(Some(s@)));
            }
        },
    }
}

/// Appends one status byte.
fn push_status(out: &mut Vec<u8>, s: MessageStatus)
    ensures
        final(out)@ == old(out)@ + sp_enc_status(s),
{
    match s {
        MessageStatus::Sent => out.push(0u8),
        MessageStatus::Delivered => out.push(1u8),
        MessageStatus::Read => out.push(2u8),
    }
    proof { assert(out@ =~= old(out)@ + sp_enc_status(s)); }
}

/// Serializes a message record into its byte image.
pub fn encode_message(m: &MessageAccount) -> (r: Vec<u8>)
    requires
        m@.wf(),
    ensures
        r@ == sp_enc_message(m@),
{
    let mut out: Vec<u8> = Vec::new();
    push_bool(&mut out, m.is_initialized);
    push_seq(&mut out, &m.sender);
    push_seq(&mut out, &m.recipient);
    push_bytes_field(&mut out, &m.content);
    push_u64(&mut out, m.timestamp);
    push_bool(&mut out, m.is_encrypted);
    push_status(&mut out, m.status);
    push_opt_bytes_field(&mut out, &m.group_id);
    proof {
        assert(out@ =~= sp_enc_message(m@));
    }
    out
}

/// Serializes a group record into its byte image.
pub fn encode_group(g: &GroupAccount) -> (r: Vec<u8>)
    requires
        g@.wf(),
    ensures
        r@ == sp_enc_group(g@),
{
    let mut out: Vec<u8> = Vec::new();
    push_bool(&mut out, g.is_initialized);
    push_bytes_field(&mut out, &g.id);
    push_bytes_field(&mut out, &g.name);
    push_u32(&mut out, g.participants.len() as u32);
    let ghost pre = out@;
    let n = g.participants.len();
    let mut k: usize = 0;
    while k < n
        invariant
            n == g.participants@.len(),
            k <= n,
            out@ == pre + sp_enc_ids(g.participants.deep_view().take(k as int)),
        decreases n - k,
    {
        push_seq(&mut out, &g.participants[k]);
        proof {
            let dv = g.participants.deep_view();
            assert(dv.take(k + 1 as int) =~= dv.take(k as int).push(dv[k as int]));
            lemma_enc_ids_push(dv.take(k as int), dv[k as int]);
            assert(dv[k as int] == g.participants@[k as int]@);
            assert(out@ =~= pre + sp_enc_ids(dv.take(k + 1 as int)));
        }
        k = k + 1;
    }
    proof {
        assert(g.participants.deep_view().take(n as int) =~= g.participants.deep_view());
    }
    push_u64(&mut out, g.created_at);
    push_seq(&mut out, &g.creator);
    proof {
        assert(out@ =~= sp_enc_group(g@));
    }
    out
}

// ---------------------------------------------------------------------------
// Executable decoders
// ---------------------------------------------------------------------------

/// Reads one boolean byte at the cursor.
pub(crate) fn read_bool(b: &Vec<u8>, i: usize) -> (r: Option<(bool, usize)>)
    ensures
        match r {
            Some(p) => sp_rd_bool(b@, i as int) == Some((p.0, p.1 as int)),
            None => sp_rd_bool(b@, i as int) is None,
        },
{
    if i < b.len() {
        let x = b[i];
        if x == 0u8 {
            Some((false, i + 1))
        } else if x == 1u8 {
            Some((true, i + 1))
        } else {
            None
        }
    } else {
        None
    }
}

/// Reads one status byte at the cursor.
fn read_status(b: &Vec<u8>, i: usize) -> (r: Option<(MessageStatus, usize)>)
    ensures
        match r {
            Some(p) => sp_rd_status(b@, i as int) == Some((p.0, p.1 as int)),
            None => sp_rd_status(b@, i as int) is None,
        },
{
    if i < b.len() {
        let x = b[i];
        if x == 0u8 {
            Some((MessageStatus::Sent, i + 1))
        } else if x == 1u8 {
            Some((MessageStatus::Delivered, i + 1))
        } else if x == 2u8 {
            Some((MessageStatus::Read, i + 1))
        } else {
            None
        }
    } else {
        None
    }
}

/// Reads a fixed run of `n` bytes at the cursor.
fn read_fixed(b: &Vec<u8>, i: usize, n: usize) -> (r: Option<(Vec<u8>, usize)>)
    ensures
        match r {
            Some(p) => sp_rd_fixed(b@, i as int, n as int) == Some((p.0@, p.1 as int)),
            None => sp_rd_fixed(b@, i as int, n as int) is None,
        },
{
    if n <= b.len() && i <= b.len() - n {
        let s = slice_to_vec(slice_subrange(b.as_slice(), i, i + n));
        Some((s, i + n))
    } else {
        None
    }
}

/// Reads a 32-bit little-endian integer at the cursor.
pub(crate) fn read_u32(b: &Vec<u8>, i: usize) -> (r: Option<(u32, usize)>)
    ensures
        match r {
            Some(p) => sp_rd_u32(b@, i as int) == Some((p.0, p.1 as int)),
            None => sp_rd_u32(b@, i as int) is None,
        },
{
    if 4 <= b.len() && i <= b.len() - 4 {
        let x = u32_from_le_bytes(slice_subrange(b.as_slice(), i, i + 4));
        Some((x, i + 4))
    } else {
        None
    }
}

/// Reads a 64-bit little-endian integer at the cursor.
pub(crate) fn read_u64(b: &Vec<u8>, i: usize) -> (r: Option<(u64, usize)>)
    ensures
        match r {
            Some(p) => sp_rd_u64(b@, i as int) == Some((p.0, p.1 as int)),
            None => sp_rd_u64(b@, i as int) is None,
        },
{
    if 8 <= b.len() && i <= b.len() - 8 {
        let x = u64_from_le_bytes(slice_subrange(b.as_slice(), i, i + 8));
        Some((x, i + 8))
    } else {
        None
    }
}

/// Reads a length-prefixed byte field at the cursor.
pub(crate) fn read_bytes_field(b: &Vec<u8>, i: usize) -> (r: Option<(Vec<u8>, usize)>)
    ensures
        match r {
            Some(p) => sp_rd_bytes(b@, i as int) == Some((p.0@, p.1 as int)),
            None => sp_rd_bytes(b@, i as int) is None,
        },
{
    match read_u32(b, i) {
        None => None,
        Some((n, j)) => read_fixed(b, j, n as usize),
    }
}

/// Reads an optional length-prefixed byte field at the cursor.
pub(crate) fn read_opt_bytes_field(b: &Vec<u8>, i: usize) -> (r: Option<(Option<Vec<u8>>, usize)>)
    ensures
        match r {
            Some(p) => (match p.0 {
                Some(s) => sp_rd_opt_bytes(b@, i as int) == Some((Some(s@), p.1 as int)),
                None => sp_rd_opt_bytes(b@, i as int) == Some((
                    None::<Seq<u8>>,
                    p.1 as int,
                )),
            }),
            None => sp_rd_opt_bytes(b@, i as int) is None,
        },
{
    if i < b.len() {
        let x = b[i];
        if x == 0u8 {
            Some((None, i + 1))
        } else if x == 1u8 {
            match read_bytes_field(b, i + 1) {
                None => None,
                Some((s, j)) => Some((Some(s), j)),
            }
        } else {
            None
        }
    } else {
        None
    }
}

/// Deserializes a message record from its byte image; fails cleanly on
/// malformed or truncated buffers.
pub fn decode_message(b: &Vec<u8>) -> (r: Option<MessageAccount>)
    ensures
        match r {
            Some(m) => sp_dec_message(b@) == Some(m@) && m@.wf(),
            None => sp_dec_message(b@) is None,
        },
{
    proof { lemma_dec_message_wf(b@); }
    let (is_initialized, i1) = match read_bool(b, 0) {
        Some(p) => p,
        None => { return None; },
    };
    let (sender, i2) = match read_fixed(b, i1, 32) {
        Some(p) => p,
        None => { return None; },
    };
    let (recipient, i3) = match read_fixed(b, i2, 32) {
        Some(p) => p,
        None => { return None; },
    };
    let (content, i4) = match read_bytes_field(b, i3) {
        Some(p) => p,
        None => { return None; },
    };
    let (timestamp, i5) = match read_u64(b, i4) {
        Some(p) => p,
        None => { return None; },
    };
    let (is_encrypted, i6) = match read_bool(b, i5) {
        Some(p) => p,
        None => { return None; },
    };
    let (status, i7) = match read_status(b, i6) {
        Some(p) => p,
        None => { return None; },
    };
    let (group_id, i8) = match read_opt_bytes_field(b, i7) {
        Some(p) => p,
        None => { return None; },
    };
    if i8 != b.len() {
        return None;
    }
    Some(MessageAccount { is_initialized, sender, recipient, content, timestamp, is_encrypted, status, group_id })
}

/// Deserializes a group record from its byte image; fails cleanly on
/// malformed or truncated buffers.
pub fn decode_group(b: &Vec<u8>) -> (r: Option<GroupAccount>)
    ensures
        match r {
            Some(g) => sp_dec_group(b@) == Some(g@),
            None => sp_dec_group(b@) is None,
        },
{
    let (is_initialized, i1) = match read_bool(b, 0) {
        Some(p) => p,
        None => { return None; },
    };
    let (id, i2) = match read_bytes_field(b, i1) {
        Some(p) => p,
        None => { return None; },
    };
    let (name, i3) = match read_bytes_field(b, i2) {
        Some(p) => p,
        None => { return None; },
    };
    let (count, i4) = match read_u32(b, i3) {
        Some(p) => p,
        None => { return None; },
    };
    let (participants, i5) = match read_id_list(b, i4, count) {
        Some(p) => p,
        None => { return None; },
    };
    let (created_at, i6) = match read_u64(b, i5) {
        Some(p) => p,
        None => { return None; },
    };
    let (creator, i7) = match read_fixed(b, i6, 32) {
        Some(p) => p,
        None => { return None; },
    };
    if i7 != b.len() {
        return None;
    }
    Some(GroupAccount { is_initialized, id, name, participants, created_at, creator })
}

/// Reads `count` identifiers of 32 bytes each at the cursor.
pub(crate) fn read_id_list(b: &Vec<u8>, i: usize, count: u32) -> (r: Option<(Vec<Vec<u8>>, usize)>)
    ensures
        match r {
            Some(p) => sp_rd_ids(b@, i as int, count as int) == Some((p.0.deep_view(), p.1 as int)),
            None => sp_rd_ids(b@, i as int, count as int) is None,
        },
{
    let mut parts: Vec<Vec<u8>> = Vec::new();
    let mut cur: usize = i;
    let mut k: u32 = 0;
    while k < count
        invariant
            k <= count,
            sp_rd_ids(b@, i as int, count as int) == (match sp_rd_ids(
                b@,
                cur as int,
                count - k,
            ) {
                Some(p) => Some::<(Seq<Seq<u8>>, int)>((parts.deep_view() + p.0, p.1)),
                None => None::<(Seq<Seq<u8>>, int)>,
            }),
        decreases count - k,
    {
        let (id, j) = match read_fixed(b, cur, 32) {
            Some(p) => p,
            None => {
                proof {
                    assert(sp_rd_ids(b@, cur as int, count - k) is None);
                }
                return None;
            },
        };
        proof {
            let dv = parts.deep_view();
            let tail = sp_rd_ids(b@, j as int, count - k - 1);
            match tail {
                Some(p) => {
                    assert(sp_rd_ids(b@, cur as int, count - k) == Some::<(Seq<Seq<u8>>, int)>((
                        seq![id@] + p.0,
                        p.1,
                    )));
                    assert(dv + (seq![id@] + p.0) =~= dv.push(id@) + p.0);
                },
                None => {
                    assert(sp_rd_ids(b@, cur as int, count - k) is None);
                },
            }
        }
        let ghost old_parts = parts.deep_view();
        parts.push(id);
        proof {
            assert(parts.deep_view() =~~= old_parts.push(id@));
        }
        cur = j;
        k = k + 1;
    }
    proof {
        assert(sp_rd_ids(b@, cur as int, 0) == Some::<(Seq<Seq<u8>>, int)>((
            Seq::<Seq<u8>>::empty(),
            cur as int,
        )));
        assert(parts.deep_view() + Seq::<Seq<u8>>::empty() =~= parts.deep_view());
    }
    Some((parts, cur))
}

} // verus!
