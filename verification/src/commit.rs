//! Commitments: a peer binds itself to its next action by sending the hash
//! of a fresh nonce and the action, and reveals both one tick later.

use crate::little_endian::{
    le_bytes, lemma_byte_capacity_values, lemma_le_bytes_len, lemma_le_value_of_bytes,
    push_le_bytes,
};
use crate::packets::{item_change_byte, Item, PlayerActions};
use crate::trusted::{blake3_digest, blake3_hash};
use vstd::prelude::*;

verus! {

/// The bytes that are hashed: the 16 bytes of the nonce, least significant
/// first, and the bytes of the action.
pub open spec fn commitment_input(nonce: u128, actions: PlayerActions) -> Seq<u8> {
    le_bytes(nonce as nat, 16) + actions.spec_bytes()
}

/// The commitment to `actions` under `nonce`.
pub open spec fn commitment(nonce: u128, actions: PlayerActions) -> Seq<u8> {
    blake3_hash(commitment_input(nonce, actions))
}

/// Computes the commitment to `actions` under `nonce`. The result depends
/// on nothing but the two.
pub fn commit(nonce: u128, actions: &PlayerActions) -> (hash: [u8; 32])
    ensures
        hash@ == commitment(nonce, *actions),
{
    let mut input: Vec<u8> = Vec::new();
    push_le_bytes(&mut input, nonce, 16);
    let mut bytes = actions.as_bytes();
    input.append(&mut bytes);
    blake3_digest(input.as_slice())
}

/// Whether two hashes are the same.
pub fn same_hash(a: &[u8; 32], b: &[u8; 32]) -> (same: bool)
    ensures
        same == (a@ == b@),
{
    let mut i: usize = 0;
    while i < 32
        invariant
            i <= 32,
            forall|j: int| 0 <= j < i ==> a@[j] == b@[j],
        decreases 32 - i,
    {
        if a[i] != b[i] {
            return false;
        }
        i += 1;
    }
    assert(a@ =~= b@);
    true
}

/// Whether `nonce` and `actions` are what `hash` committed to.
pub fn opens(hash: &[u8; 32], nonce: u128, actions: &PlayerActions) -> (valid: bool)
    ensures
        valid == (hash@ == commitment(nonce, *actions)),
{
    let revealed = commit(nonce, actions);
    same_hash(&revealed, hash)
}

/// The item byte tells the item change.
pub proof fn lemma_item_change_byte_injective(a: Option<Item>, b: Option<Item>)
    ensures
        item_change_byte(a) == item_change_byte(b) <==> a == b,
{
}

/// The bytes of an action tell the action: different actions have
/// different bytes.
pub proof fn lemma_action_bytes_injective(a: PlayerActions, b: PlayerActions)
    ensures
        a.spec_bytes().len() == 11,
        a.spec_bytes() == b.spec_bytes() <==> a == b,
{
    lemma_byte_capacity_values();
    lemma_le_bytes_len(a.bits as nat, 2);
    lemma_le_bytes_len(a.rotation.yaw as nat, 4);
    lemma_le_bytes_len(a.rotation.pitch as nat, 4);
    lemma_le_bytes_len(b.bits as nat, 2);
    lemma_le_bytes_len(b.rotation.yaw as nat, 4);
    lemma_le_bytes_len(b.rotation.pitch as nat, 4);
    let sa = a.spec_bytes();
    let sb = b.spec_bytes();
    if sa == sb {
        assert(sa.subrange(0, 2) =~= le_bytes(a.bits as nat, 2));
        assert(sb.subrange(0, 2) =~= le_bytes(b.bits as nat, 2));
        assert(sa.subrange(2, 6) =~= le_bytes(a.rotation.yaw as nat, 4));
        assert(sb.subrange(2, 6) =~= le_bytes(b.rotation.yaw as nat, 4));
        assert(sa.subrange(6, 10) =~= le_bytes(a.rotation.pitch as nat, 4));
        assert(sb.subrange(6, 10) =~= le_bytes(b.rotation.pitch as nat, 4));
        assert(sa[10] == item_change_byte(a.item_change));
        assert(sb[10] == item_change_byte(b.item_change));
        lemma_le_value_of_bytes(a.bits as nat, 2);
        lemma_le_value_of_bytes(b.bits as nat, 2);
        lemma_le_value_of_bytes(a.rotation.yaw as nat, 4);
        lemma_le_value_of_bytes(b.rotation.yaw as nat, 4);
        lemma_le_value_of_bytes(a.rotation.pitch as nat, 4);
        lemma_le_value_of_bytes(b.rotation.pitch as nat, 4);
        lemma_item_change_byte_injective(a.item_change, b.item_change);
    }
}

/// What is hashed tells the nonce and the action: a commitment is the hash
/// of an input that no other nonce and no other action has.
pub proof fn lemma_commitment_input_injective(
    nonce_a: u128,
    a: PlayerActions,
    nonce_b: u128,
    b: PlayerActions,
)
    ensures
        commitment_input(nonce_a, a) == commitment_input(nonce_b, b) <==> nonce_a == nonce_b && a
            == b,
{
    lemma_byte_capacity_values();
    lemma_le_bytes_len(nonce_a as nat, 16);
    lemma_le_bytes_len(nonce_b as nat, 16);
    lemma_action_bytes_injective(a, b);
    lemma_action_bytes_injective(b, a);
    let ia = commitment_input(nonce_a, a);
    let ib = commitment_input(nonce_b, b);
    if ia == ib {
        assert(ia.subrange(0, 16) =~= le_bytes(nonce_a as nat, 16));
        assert(ib.subrange(0, 16) =~= le_bytes(nonce_b as nat, 16));
        assert(ia.subrange(16, 27) =~= a.spec_bytes());
        assert(ib.subrange(16, 27) =~= b.spec_bytes());
        lemma_le_value_of_bytes(nonce_a as nat, 16);
        lemma_le_value_of_bytes(nonce_b as nat, 16);
    }
}

} // verus!
