//! The storage form of an embedding: each component is an IEEE-754
//! single-precision value, kept as its 32-bit pattern and written as four
//! little-endian bytes, components in order.
use vstd::prelude::*;

verus! {

/// Byte `k` (0 = least significant) of a 32-bit word.
pub open spec fn byte_of(w: u32, k: int) -> u8 {
    if k == 0 {
        (w & 0xff) as u8
    } else if k == 1 {
        ((w >> 8u32) & 0xff) as u8
    } else if k == 2 {
        ((w >> 16u32) & 0xff) as u8
    } else {
        ((w >> 24u32) & 0xff) as u8
    }
}

/// The word whose little-endian bytes are `b0, b1, b2, b3`.
pub open spec fn word_of(b0: u8, b1: u8, b2: u8, b3: u8) -> u32 {
    (b0 as u32) | ((b1 as u32) << 8u32) | ((b2 as u32) << 16u32) | ((b3 as u32) << 24u32)
}

/// The concatenated little-endian bytes of `v`, four per word.
pub open spec fn le_bytes(v: Seq<u32>) -> Seq<u8> {
    Seq::new(4 * v.len(), |i: int| byte_of(v[i / 4], i % 4))
}

/// The words read back from `b`, four bytes each; a trailing partial word is
/// not read.
pub open spec fn le_words(b: Seq<u8>) -> Seq<u32> {
    Seq::new(b.len() / 4, |i: int| word_of(b[4 * i], b[4 * i + 1], b[4 * i + 2], b[4 * i + 3]))
}

/// A single-precision vector, as bit patterns, with the text it was computed
/// from.
pub struct Embedding {
    pub document: String,
    pub vec: Vec<u32>,
}

proof fn lemma_word_bytes(w: u32)
    ensures
        word_of(byte_of(w, 0), byte_of(w, 1), byte_of(w, 2), byte_of(w, 3)) == w,
{
    assert(((w & 0xff) as u8 as u32) | ((((w >> 8u32) & 0xff) as u8 as u32) << 8u32) | ((((w
        >> 16u32) & 0xff) as u8 as u32) << 16u32) | ((((w >> 24u32) & 0xff) as u8 as u32)
        << 24u32) == w) by (bit_vector);
}

proof fn lemma_bytes_word(b0: u8, b1: u8, b2: u8, b3: u8)
    ensures
        byte_of(word_of(b0, b1, b2, b3), 0) == b0,
        byte_of(word_of(b0, b1, b2, b3), 1) == b1,
        byte_of(word_of(b0, b1, b2, b3), 2) == b2,
        byte_of(word_of(b0, b1, b2, b3), 3) == b3,
{
    let w = word_of(b0, b1, b2, b3);
    assert(w == (b0 as u32) | ((b1 as u32) << 8u32) | ((b2 as u32) << 16u32) | ((b3 as u32)
        << 24u32));
    assert(((((b0 as u32) | ((b1 as u32) << 8u32) | ((b2 as u32) << 16u32) | ((b3 as u32)
        << 24u32)) & 0xff) as u8) == b0) by (bit_vector);
    assert((((((b0 as u32) | ((b1 as u32) << 8u32) | ((b2 as u32) << 16u32) | ((b3 as u32)
        << 24u32)) >> 8u32) & 0xff) as u8) == b1) by (bit_vector);
    assert((((((b0 as u32) | ((b1 as u32) << 8u32) | ((b2 as u32) << 16u32) | ((b3 as u32)
        << 24u32)) >> 16u32) & 0xff) as u8) == b2) by (bit_vector);
    assert((((((b0 as u32) | ((b1 as u32) << 8u32) | ((b2 as u32) << 16u32) | ((b3 as u32)
        << 24u32)) >> 24u32) & 0xff) as u8) == b3) by (bit_vector);
}

/// Reading back the bytes of a vector gives the same vector, bit for bit.
pub proof fn lemma_decode_encode(v: Seq<u32>)
    ensures
        le_words(le_bytes(v)) == v,
{
    let b = le_bytes(v);
    assert forall|i: int| 0 <= i < v.len() implies #[trigger] le_words(b)[i] == v[i] by {
        assert(b[4 * i] == byte_of(v[i], 0));
        assert(b[4 * i + 1] == byte_of(v[i], 1));
        assert(b[4 * i + 2] == byte_of(v[i], 2));
        assert(b[4 * i + 3] == byte_of(v[i], 3));
        lemma_word_bytes(v[i]);
    }
    assert(le_words(b) =~= v);
}

/// Writing out the words read from a whole number of words gives the same
/// bytes.
pub proof fn lemma_encode_decode(b: Seq<u8>)
    requires
        b.len() % 4 == 0,
    ensures
        le_bytes(le_words(b)) == b,
{
    let w = le_words(b);
    assert forall|i: int| 0 <= i < b.len() implies #[trigger] le_bytes(w)[i] == b[i] by {
        let j = i / 4;
        let k = i % 4;
        assert(4 * j + k == i);
        lemma_bytes_word(b[4 * j], b[4 * j + 1], b[4 * j + 2], b[4 * j + 3]);
    }
    assert(le_bytes(w) =~= b);
}

/// The byte form of an embedding vector.
pub fn serialize_embedding(v: &Vec<u32>) -> (r: Vec<u8>)
    requires
        4 * v@.len() <= usize::MAX,
    ensures
        r@ == le_bytes(v@),
{
    let mut r: Vec<u8> = Vec::new();
    let mut i: usize = 0;
    while i < v.len()
        invariant
            4 * v@.len() <= usize::MAX,
            i <= v@.len(),
            r@.len() == 4 * i,
            forall|j: int| 0 <= j < 4 * i ==> #[trigger] r@[j] == byte_of(v@[j / 4], j % 4),
        decreases v@.len() - i,
    {
        let w = v[i];
        r.push((w & 0xff) as u8);
        r.push(((w >> 8u32) & 0xff) as u8);
        r.push(((w >> 16u32) & 0xff) as u8);
        r.push(((w >> 24u32) & 0xff) as u8);
        assert forall|j: int| 0 <= j < 4 * (i + 1) implies #[trigger] r@[j] == byte_of(
            v@[j / 4],
            j % 4,
        ) by {
            if j >= 4 * i {
                assert(j / 4 == i as int);
            }
        }
        i = i + 1;
    }
    assert(r@ =~= le_bytes(v@));
    r
}

/// The vector stored in `b`, or `None` where `b` is not a whole number of
/// words.
pub fn deserialize_embedding(b: &Vec<u8>) -> (r: Option<Vec<u32>>)
    ensures
        r is Some <==> b@.len() % 4 == 0,
        r matches Some(v) ==> v@ == le_words(b@),
{
    if b.len() % 4 != 0 {
        return None;
    }
    let blen = b.len();
    let n = blen / 4;
    let mut v: Vec<u32> = Vec::new();
    let mut i: usize = 0;
    while i < n
        invariant
            blen == b@.len(),
            n == b@.len() / 4,
            i <= n,
            v@ == le_words(b@).subrange(0, i as int),
        decreases n - i,
    {
        assert(4 * i + 3 < b@.len()) by (nonlinear_arith)
            requires
                i < n,
                n == blen / 4,
                blen == b@.len(),
        ;
        let k = 4 * i;
        let w = (b[k] as u32) | ((b[k + 1] as u32) << 8u32) | ((b[k + 2] as u32) << 16u32) | ((
        b[k + 3] as u32) << 24u32);
        v.push(w);
        i = i + 1;
        assert(v@ =~= le_words(b@).subrange(0, i as int));
    }
    assert(v@ =~= le_words(b@));
    Some(v)
}

} // verus!
