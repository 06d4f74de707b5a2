//! Deterministic address derivation: an ordered list of byte-sequence seeds
//! plus a 32-byte namespace identifier maps to a derived, non-signable
//! storage address and a disambiguation nonce. Callers cannot forge a
//! record's address without replaying the exact seed sequence.

use vstd::prelude::*;
use vstd::bytes::{spec_u64_to_le_bytes, u64_to_le_bytes};
use crate::state::clone_bytes;

verus! {

/// The address and nonce that the derivation returns for the given ordered
/// seeds and namespace. The derivation is a pure function of its arguments:
/// identical inputs always name the identical pair.
pub uninterp spec fn pda_of(seeds: Seq<Seq<u8>>, program_id: Seq<u8>) -> (Seq<u8>, u8);

/// The base58 text of a 32-byte value, one ASCII byte per character.
pub uninterp spec fn base58_of(bytes: Seq<u8>) -> Seq<u8>;

/// Relies on Pubkey::find_program_address: a deterministic search over nonce
/// values, from 255 downward, for an address that is off the ed25519 curve;
/// the result is a pure function of the seeds and the namespace identifier
/// and the returned address is 32 bytes. The function demands at most 15
/// seeds of at most 32 bytes each (it appends the nonce as one more seed).
#[verifier::external_body]
pub(crate) fn find_program_address(seeds: &Vec<Vec<u8>>, program_id: &Vec<u8>) -> (r: (Vec<u8>, u8))
    requires
        seeds@.len() < 16,
        forall|k: int| 0 <= k < seeds@.len() ==> #[trigger] seeds@[k]@.len() <= 32,
        program_id@.len() == 32,
    ensures
        (r.0@, r.1) == pda_of(seeds.deep_view(), program_id@),
        r.0@.len() == 32,
{
    let refs: Vec<&[u8]> = seeds.iter().map(|s| s.as_slice()).collect();
    let mut pid = [0u8; 32];
    pid.copy_from_slice(program_id.as_slice());
    let (address, nonce) = solana_program::pubkey::Pubkey::find_program_address(
        &refs,
        &solana_program::pubkey::Pubkey::new_from_array(pid),
    );
    (address.to_bytes().to_vec(), nonce)
}

/// Relies on Pubkey's Display impl: the base58 text of the 32-byte value,
/// a function of the bytes alone, in ASCII.
#[verifier::external_body]
pub(crate) fn base58_text(bytes: &Vec<u8>) -> (r: Vec<u8>)
    requires
        bytes@.len() == 32,
    ensures
        r@ == base58_of(bytes@),
{
    let mut arr = [0u8; 32];
    arr.copy_from_slice(bytes.as_slice());
    solana_program::pubkey::Pubkey::new_from_array(arr).to_string().into_bytes()
}

/// The bytes of the text "message".
pub open spec fn lit_message() -> Seq<u8> {
    seq![109u8, 101u8, 115u8, 115u8, 97u8, 103u8, 101u8]
}

/// The bytes of the text "group".
pub open spec fn lit_group() -> Seq<u8> {
    seq![103u8, 114u8, 111u8, 117u8, 112u8]
}

/// The bytes of the text "group_".
pub open spec fn lit_group_prefix() -> Seq<u8> {
    seq![103u8, 114u8, 111u8, 117u8, 112u8, 95u8]
}

/// The seed tuple for a message record: the literal "message", the sender,
/// the recipient, and the timestamp as 8 little-endian bytes.
pub open spec fn message_seeds(sender: Seq<u8>, recipient: Seq<u8>, timestamp: u64) -> Seq<
    Seq<u8>,
> {
    seq![lit_message(), sender, recipient, spec_u64_to_le_bytes(timestamp)]
}

/// The seed tuple for a group record: the literal "group" and the group
/// identifier.
pub open spec fn group_seeds(group_id: Seq<u8>) -> Seq<Seq<u8>> {
    seq![lit_group(), group_id]
}

/// The derived address of a message record.
pub open spec fn sp_message_address(
    program_id: Seq<u8>,
    sender: Seq<u8>,
    recipient: Seq<u8>,
    timestamp: u64,
) -> Seq<u8> {
    pda_of(message_seeds(sender, recipient, timestamp), program_id).0
}

/// The derived address of a group record.
pub open spec fn sp_group_address(program_id: Seq<u8>, group_id: Seq<u8>) -> Seq<u8> {
    pda_of(group_seeds(group_id), program_id).0
}

/// Derives the storage address and nonce for a message record sent by
/// `sender` to `recipient` at `timestamp`.
pub fn message_address(
    program_id: &Vec<u8>,
    sender: &Vec<u8>,
    recipient: &Vec<u8>,
    timestamp: u64,
) -> (r: (Vec<u8>, u8))
    requires
        program_id@.len() == 32,
        sender@.len() == 32,
        recipient@.len() == 32,
    ensures
        (r.0@, r.1) == pda_of(message_seeds(sender@, recipient@, timestamp), program_id@),
        r.0@ == sp_message_address(program_id@, sender@, recipient@, timestamp),
        r.0@.len() == 32,
{
    let mut seeds: Vec<Vec<u8>> = Vec::new();
    let lit = vec![109u8, 101u8, 115u8, 115u8, 97u8, 103u8, 101u8];
    proof { assert(lit@ =~= lit_message()); }
    seeds.push(lit);
    seeds.push(clone_bytes(sender));
    seeds.push(clone_bytes(recipient));
    seeds.push(u64_to_le_bytes(timestamp));
    proof {
        assert(seeds.deep_view() =~~= message_seeds(sender@, recipient@, timestamp));
    }
    find_program_address(&seeds, program_id)
}

/// Derives the storage address and nonce for a group record with the given
/// identifier. The identifier must fit in one 32-byte seed.
pub fn group_address(program_id: &Vec<u8>, group_id: &Vec<u8>) -> (r: (Vec<u8>, u8))
    requires
        program_id@.len() == 32,
        group_id@.len() <= 32,
    ensures
        (r.0@, r.1) == pda_of(group_seeds(group_id@), program_id@),
        r.0@ == sp_group_address(program_id@, group_id@),
        r.0@.len() == 32,
{
    let mut seeds: Vec<Vec<u8>> = Vec::new();
    let lit = vec![103u8, 114u8, 111u8, 117u8, 112u8];
    proof { assert(lit@ =~= lit_group()); }
    seeds.push(lit);
    seeds.push(clone_bytes(group_id));
    proof {
        assert(seeds.deep_view() =~~= group_seeds(group_id@));
    }
    find_program_address(&seeds, program_id)
}

/// The decimal ASCII text of an unsigned number.
pub open spec fn sp_decimal(n: u64) -> Seq<u8>
    decreases n,
{
    if n < 10 {
        seq![(48 + n) as u8]
    } else {
        sp_decimal(n / 10) + seq![(48 + n % 10) as u8]
    }
}

/// Writes an unsigned number as decimal ASCII text.
pub fn decimal_text(n: u64) -> (r: Vec<u8>)
    ensures
        r@ == sp_decimal(n),
    decreases n,
{
    if n < 10 {
        let mut r: Vec<u8> = Vec::new();
        r.push(48 + n as u8);
        proof { assert(r@ =~= sp_decimal(n)); }
        r
    } else {
        let mut r = decimal_text(n / 10);
        r.push(48 + (n % 10) as u8);
        proof { assert(r@ =~= sp_decimal(n)); }
        r
    }
}

/// The first `n` bytes of a text, or all of it when it is shorter.
pub open spec fn sp_take_at_most(s: Seq<u8>, n: int) -> Seq<u8> {
    if s.len() <= n {
        s
    } else {
        s.take(n)
    }
}

/// The group identifier generated for a creation at ledger time `now` by
/// `creator`: the text "group_", the time in decimal, an underscore, and
/// the first 8 characters of the creator's base58 identifier.
pub open spec fn sp_group_id(now: u64, creator: Seq<u8>) -> Seq<u8> {
    lit_group_prefix() + sp_decimal(now) + seq![95u8] + sp_take_at_most(base58_of(creator), 8)
}

/// Generates the deterministic group identifier for a creation at ledger
/// time `now` by `creator`. The identifier depends on the ledger time, not
/// purely on caller inputs.
pub fn generate_group_id(now: u64, creator: &Vec<u8>) -> (r: Vec<u8>)
    requires
        creator@.len() == 32,
    ensures
        r@ == sp_group_id(now, creator@),
{
    let mut r = vec![103u8, 114u8, 111u8, 117u8, 112u8, 95u8];
    proof { assert(r@ =~= lit_group_prefix()); }
    let digits = decimal_text(now);
    crate::codec::push_seq(&mut r, &digits);
    r.push(95u8);
    let b58 = base58_text(creator);
    let take = if b58.len() <= 8 { b58.len() } else { 8 };
    let mut k: usize = 0;
    let ghost pre = r@;
    while k < take
        invariant
            take <= b58@.len(),
            k <= take,
            r@ == pre + b58@.subrange(0, k as int),
        decreases take - k,
    {
        r.push(b58[k]);
        proof {
            assert(pre + b58@.subrange(0, k + 1 as int) =~= (pre + b58@.subrange(0, k as int)).push(
                b58@[k as int],
            ));
        }
        k = k + 1;
    }
    proof {
        assert(b58@.subrange(0, take as int) =~= sp_take_at_most(base58_of(creator@), 8));
        assert(r@ =~= sp_group_id(now, creator@));
    }
    r
}

/// Determinism of the address deriver: repeated derivations with identical
/// seed tuples and namespace yield the identical address and nonce pair.
pub proof fn lemma_derive_deterministic(
    seeds1: Seq<Seq<u8>>,
    program_id1: Seq<u8>,
    seeds2: Seq<Seq<u8>>,
    program_id2: Seq<u8>,
)
    requires
        seeds1 == seeds2,
        program_id1 == program_id2,
    ensures
        pda_of(seeds1, program_id1) == pda_of(seeds2, program_id2),
{
}

} // verus!
