use vstd::prelude::*;
use bitvec::prelude::Lsb0;
use bitvec::view::BitView;

verus! {

/// Bit `index` of `bytes` read as a least-significant-bit-first bit slice:
/// the bit lives in byte `index / 8`, at position `index % 8` from the low end.
pub open spec fn bit_at(bytes: Seq<u8>, index: int) -> bool {
    (bytes[index / 8] >> ((index % 8) as u8)) & 1u8 == 1u8
}

/// `bytes` with bit `index` (least-significant-bit-first) replaced by `value`.
pub open spec fn with_bit(bytes: Seq<u8>, index: int, value: bool) -> Seq<u8> {
    let byte = bytes[index / 8];
    let mask = 1u8 << ((index % 8) as u8);
    bytes.update(index / 8, if value { byte | mask } else { byte & !mask })
}

/// The number of bits that `bytes` holds.
pub open spec fn bit_len(bytes: Seq<u8>) -> int {
    (bytes.len() * 8) as int
}

/// The largest byte slice that the bit-slice view accepts on every platform.
pub open spec fn viewable(bytes: Seq<u8>) -> bool {
    bytes.len() * 64 <= usize::MAX
}

/// Reads one bit of `voted` through `bitvec`'s `BitView::view_bits::<Lsb0>` and
/// bit-slice indexing. The contract claims that `bitvec` orders the bits of each
/// byte from the least significant one (`Lsb0`), byte by byte. Both calls panic
/// past their limits, which `requires` leaves out: a slice of
/// `BitSlice::MAX_ELTS` bytes or more, and an index at or past the bit length.
#[verifier::external_body]
fn bitvec_get(voted: &Vec<u8>, index: usize) -> (bit: bool)
    requires
        viewable(voted@),
        index < bit_len(voted@),
    ensures
        bit == bit_at(voted@, index as int),
{
    voted.as_slice().view_bits::<Lsb0>()[index]
}

/// Writes one bit of `voted` through `bitvec`'s `BitView::view_bits_mut::<Lsb0>`
/// and `BitSlice::set`. The contract claims that exactly that bit changes, at the
/// `Lsb0` position, and that the length stays. Limits as for `bitvec_get`.
#[verifier::external_body]
fn bitvec_set(voted: &mut Vec<u8>, index: usize, value: bool)
    requires
        viewable(old(voted)@),
        index < bit_len(old(voted)@),
    ensures
        final(voted)@ == with_bit(old(voted)@, index as int, value),
{
    voted.as_mut_slice().view_bits_mut::<Lsb0>().set(index, value);
}

/// Whether bit `index` of `voted` is set.
pub fn get_bit(voted: &Vec<u8>, index: usize) -> (bit: bool)
    requires
        viewable(voted@),
        index < bit_len(voted@),
    ensures
        bit == bit_at(voted@, index as int),
{
    bitvec_get(voted, index)
}

/// Sets bit `index` of `voted` to `value`.
pub fn set_bit(voted: &mut Vec<u8>, index: usize, value: bool)
    requires
        viewable(old(voted)@),
        index < bit_len(old(voted)@),
    ensures
        final(voted)@ == with_bit(old(voted)@, index as int, value),
        final(voted)@.len() == old(voted)@.len(),
        bit_at(final(voted)@, index as int) == value,
        forall|j: int|
            0 <= j < bit_len(old(voted)@) && j != index ==> bit_at(final(voted)@, j) == bit_at(
                old(voted)@,
                j,
            ),
{
    bitvec_set(voted, index, value);
    proof {
        lemma_with_bit(old(voted)@, index as int, value);
    }
}

/// The number of set bits among the first `n` bits of `bytes`.
pub open spec fn count_set_below(bytes: Seq<u8>, n: int) -> nat
    decreases n,
{
    if n <= 0 {
        0
    } else {
        count_set_below(bytes, n - 1) + if bit_at(bytes, n - 1) {
            1nat
        } else {
            0nat
        }
    }
}

/// The number of set bits of `bytes`.
pub open spec fn count_set_bits(bytes: Seq<u8>) -> nat {
    count_set_below(bytes, bit_len(bytes))
}

proof fn lemma_count_below_after_set(bytes: Seq<u8>, index: int, n: int)
    requires
        0 <= index < bit_len(bytes),
        !bit_at(bytes, index),
        0 <= n <= bit_len(bytes),
    ensures
        count_set_below(with_bit(bytes, index, true), n) == count_set_below(bytes, n) + if index
            < n {
            1nat
        } else {
            0nat
        },
    decreases n,
{
    lemma_with_bit(bytes, index, true);
    if n > 0 {
        lemma_count_below_after_set(bytes, index, n - 1);
    }
}

/// Setting a clear bit adds one to the number of set bits.
pub proof fn lemma_count_after_set(bytes: Seq<u8>, index: int)
    requires
        0 <= index < bit_len(bytes),
        !bit_at(bytes, index),
    ensures
        count_set_bits(with_bit(bytes, index, true)) == count_set_bits(bytes) + 1,
{
    lemma_with_bit(bytes, index, true);
    lemma_count_below_after_set(bytes, index, bit_len(bytes));
}

proof fn lemma_byte_set_bit(b: u8, p: u8, q: u8)
    requires
        p < 8,
        q < 8,
    ensures
        ((b | (1u8 << p)) >> p) & 1u8 == 1u8,
        ((b & !(1u8 << p)) >> p) & 1u8 == 0u8,
        p != q ==> ((b | (1u8 << p)) >> q) & 1u8 == (b >> q) & 1u8,
        p != q ==> ((b & !(1u8 << p)) >> q) & 1u8 == (b >> q) & 1u8,
{
    assert(((b | (1u8 << p)) >> p) & 1u8 == 1u8) by (bit_vector)
        requires
            p < 8,
    ;
    assert(((b & !(1u8 << p)) >> p) & 1u8 == 0u8) by (bit_vector)
        requires
            p < 8,
    ;
    assert(p != q ==> ((b | (1u8 << p)) >> q) & 1u8 == (b >> q) & 1u8) by (bit_vector)
        requires
            p < 8,
            q < 8,
    ;
    assert(p != q ==> ((b & !(1u8 << p)) >> q) & 1u8 == (b >> q) & 1u8) by (bit_vector)
        requires
            p < 8,
            q < 8,
    ;
}

/// Writing a bit changes that bit to the value written and no other bit, and
/// keeps the number of bytes.
pub proof fn lemma_with_bit(bytes: Seq<u8>, index: int, value: bool)
    requires
        0 <= index < bit_len(bytes),
    ensures
        with_bit(bytes, index, value).len() == bytes.len(),
        bit_at(with_bit(bytes, index, value), index) == value,
        forall|j: int|
            0 <= j < bit_len(bytes) && j != index ==> bit_at(with_bit(bytes, index, value), j)
                == bit_at(bytes, j),
{
    let nb = with_bit(bytes, index, value);
    let p = (index % 8) as u8;
    lemma_byte_set_bit(bytes[index / 8], p, p);
    assert forall|j: int| 0 <= j < bit_len(bytes) && j != index implies bit_at(nb, j) == bit_at(
        bytes,
        j,
    ) by {
        if j / 8 == index / 8 {
            lemma_byte_set_bit(bytes[index / 8], p, (j % 8) as u8);
        }
    }
}

} // verus!
