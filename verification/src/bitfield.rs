//! Packed bit-set over piece indices.
//!
//! Piece `i` lives in byte `i / 8`, at bit `7 - (i % 8)` (most-significant
//! bit first within each byte). Out-of-range indices read as absent and are
//! ignored by `bitfield_set_piece`.

use vstd::prelude::*;

verus! {

/// Whether bit `offset` (counted most-significant first) is set in `b`.
pub open spec fn spec_bit_at(b: u8, offset: nat) -> bool
    recommends
        offset < 8,
{
    (b >> ((7 - offset) as u8)) & 1 == 1
}

/// Whether the packed bitfield `bits` contains piece `index`.
pub open spec fn spec_has_piece(bits: Seq<u8>, index: nat) -> bool {
    index / 8 < bits.len() && spec_bit_at(bits[(index / 8) as int], index % 8)
}

proof fn lemma_set_bit(b: u8, i: u8, j: u8)
    by (bit_vector)
    requires
        i < 8,
        j < 8,
    ensures
        ((b | (1u8 << ((7 - i) as u8))) >> ((7 - j) as u8)) & 1 == 1 <==> ((b >> ((7 - j) as u8))
            & 1 == 1 || i == j),
{
}

pub fn bitfield_has_piece(bitfield: &Vec<u8>, index: usize) -> (r: bool)
    ensures
        r == spec_has_piece(bitfield@, index as nat),
{
    let byte_index = index / 8;
    let offset = index % 8;

    if byte_index >= bitfield.len() {
        return false;
    }

    let b = bitfield[byte_index];
    let sh: u8 = (7 - offset) as u8;
    proof {
        assert(((b >> sh) & 1 != 0) == ((b >> sh) & 1 == 1)) by (bit_vector);
    }
    (b >> sh) & 1 != 0
}

pub fn bitfield_set_piece(bitfield: &mut Vec<u8>, index: usize)
    ensures
        final(bitfield)@.len() == old(bitfield)@.len(),
        forall|j: nat|
            #[trigger] spec_has_piece(final(bitfield)@, j) == (spec_has_piece(old(bitfield)@, j)
                || (j == index && index / 8 < old(bitfield)@.len())),
{
    let byte_index = index / 8;
    let offset = index % 8;

    if byte_index >= bitfield.len() {
        return ;
    }

    bitfield[byte_index] = bitfield[byte_index] | (1u8 << ((7 - offset) as u8));

    proof {
        let new_bits = bitfield@;
        let old_bits = old(bitfield)@;
        assert forall|j: nat|
            #[trigger] spec_has_piece(new_bits, j) == (spec_has_piece(old_bits, j) || (j == index
                && index / 8 < old_bits.len())) by {
            if j / 8 < new_bits.len() {
                if j / 8 == byte_index {
                    lemma_set_bit(old_bits[(j / 8) as int], offset as u8, (j % 8) as u8);
                    assert(j == index <==> (j / 8 == index / 8 && j % 8 == index % 8));
                } else {
                    assert(new_bits[(j / 8) as int] == old_bits[(j / 8) as int]);
                }
            }
        }
    }
}

/// After `bitfield_set_piece(bits, i)` the bit for `i` reads back as set,
/// and every other index reads exactly as it did before.
pub proof fn lemma_bitfield_layout(old_bits: Seq<u8>, new_bits: Seq<u8>, i: nat)
    requires
        i < 8 * old_bits.len(),
        new_bits.len() == old_bits.len(),
        forall|j: nat|
            #[trigger] spec_has_piece(new_bits, j) == (spec_has_piece(old_bits, j) || (j == i && i
                / 8 < old_bits.len())),
    ensures
        spec_has_piece(new_bits, i),
        forall|j: nat|
            j != i && !spec_has_piece(old_bits, j) ==> !#[trigger] spec_has_piece(new_bits, j),
{
    assert(i / 8 < old_bits.len()) by {
        assert(i < 8 * old_bits.len() ==> i / 8 < old_bits.len()) by (nonlinear_arith);
    }
}

} // verus!
