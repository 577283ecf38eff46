//! Why comparing two strings byte by byte, as Rust does, orders them by
//! their characters: UTF-8 keeps the order of the code points.

use crate::order::chars_le;
use vstd::prelude::*;
use vstd::utf8::{
    char_is_scalar, char_u32_cast, encode_scalar, encode_utf8, has_width_1_encoding,
    has_width_2_encoding, has_width_3_encoding, has_width_4_encoding, is_scalar,
    last_continuation_byte, leading_byte_width_1, leading_byte_width_2, leading_byte_width_3,
    leading_byte_width_4, second_last_continuation_byte, third_last_continuation_byte,
};

verus! {

/// Lexicographic order on byte strings: `a` is a prefix of `b`, or `a`
/// holds the smaller byte where the two first differ.
pub open spec fn bytes_le(a: Seq<u8>, b: Seq<u8>) -> bool
    decreases a.len(),
{
    if a.len() == 0 {
        true
    } else if b.len() == 0 {
        false
    } else if a[0] == b[0] {
        bytes_le(a.drop_first(), b.drop_first())
    } else {
        a[0] < b[0]
    }
}

/// Whether `k` is the first position at which `a` and `b` hold different
/// bytes.
pub open spec fn is_first_difference(a: Seq<u8>, b: Seq<u8>, k: int) -> bool {
    &&& 0 <= k < a.len()
    &&& k < b.len()
    &&& a[k] != b[k]
    &&& forall|j: int| 0 <= j < k ==> a[j] == b[j]
}

/// Where two byte strings differ, the first difference decides their order.
pub proof fn lemma_bytes_le_decided_at(a: Seq<u8>, b: Seq<u8>, k: int)
    requires
        is_first_difference(a, b, k),
    ensures
        bytes_le(a, b) == (a[k] < b[k]),
    decreases k,
{
    if k > 0 {
        assert(a[0] == b[0]);
        assert forall|j: int| 0 <= j < k - 1 implies a.drop_first()[j] == b.drop_first()[j] by {
            assert(a[j + 1] == b[j + 1]);
        }
        lemma_bytes_le_decided_at(a.drop_first(), b.drop_first(), k - 1);
    }
}

/// A common start does not change the order of what follows it.
pub proof fn lemma_bytes_le_after_common_start(start: Seq<u8>, a: Seq<u8>, b: Seq<u8>)
    ensures
        bytes_le(start + a, start + b) == bytes_le(a, b),
    decreases start.len(),
{
    if start.len() == 0 {
        assert(start + a =~= a && start + b =~= b);
    } else {
        assert((start + a).drop_first() =~= start.drop_first() + a);
        assert((start + b).drop_first() =~= start.drop_first() + b);
        lemma_bytes_le_after_common_start(start.drop_first(), a, b);
    }
}

/// The first byte of an encoding tells its width, and encodings of greater
/// width start with greater bytes.
proof fn lemma_leading_bytes(s: u32)
    by (bit_vector)
    ensures
        has_width_1_encoding(s) ==> leading_byte_width_1(s) <= 0x7f,
        has_width_2_encoding(s) ==> 0xc0 <= leading_byte_width_2(s) <= 0xdf,
        has_width_3_encoding(s) ==> 0xe0 <= leading_byte_width_3(s) <= 0xef,
        has_width_4_encoding(s) ==> 0xf0 <= leading_byte_width_4(s) <= 0xf7,
{
}

/// Among scalars of one byte, the smaller has the smaller byte.
proof fn lemma_order_in_width_1(s: u32, t: u32)
    by (bit_vector)
    requires
        has_width_1_encoding(s),
        has_width_1_encoding(t),
        s < t,
    ensures
        leading_byte_width_1(s) < leading_byte_width_1(t),
{
}

/// Among scalars of two bytes, the smaller has the smaller byte where the
/// encodings first differ.
proof fn lemma_order_in_width_2(s: u32, t: u32)
    by (bit_vector)
    requires
        has_width_2_encoding(s),
        has_width_2_encoding(t),
        s < t,
    ensures
        leading_byte_width_2(s) < leading_byte_width_2(t) || (leading_byte_width_2(s)
            == leading_byte_width_2(t) && last_continuation_byte(s) < last_continuation_byte(t)),
{
}

/// Among scalars of three bytes, the smaller has the smaller byte where the
/// encodings first differ.
proof fn lemma_order_in_width_3(s: u32, t: u32)
    by (bit_vector)
    requires
        has_width_3_encoding(s),
        has_width_3_encoding(t),
        s < t,
    ensures
        leading_byte_width_3(s) < leading_byte_width_3(t) || (leading_byte_width_3(s)
            == leading_byte_width_3(t) && (second_last_continuation_byte(s)
            < second_last_continuation_byte(t) || (second_last_continuation_byte(s)
            == second_last_continuation_byte(t) && last_continuation_byte(s)
            < last_continuation_byte(t)))),
{
}

/// Among scalars of four bytes, the smaller has the smaller byte where the
/// encodings first differ.
proof fn lemma_order_in_width_4(s: u32, t: u32)
    by (bit_vector)
    requires
        has_width_4_encoding(s),
        has_width_4_encoding(t),
        s < t,
    ensures
        leading_byte_width_4(s) < leading_byte_width_4(t) || (leading_byte_width_4(s)
            == leading_byte_width_4(t) && (third_last_continuation_byte(s)
            < third_last_continuation_byte(t) || (third_last_continuation_byte(s)
            == third_last_continuation_byte(t) && (second_last_continuation_byte(s)
            < second_last_continuation_byte(t) || (second_last_continuation_byte(s)
            == second_last_continuation_byte(t) && last_continuation_byte(s)
            < last_continuation_byte(t)))))),
{
}

/// The encodings of two scalars differ at a position that both have, and
/// the smaller scalar holds the smaller byte there.
pub proof fn lemma_scalar_order(s: u32, t: u32) -> (k: int)
    requires
        is_scalar(s),
        is_scalar(t),
        s < t,
    ensures
        is_first_difference(encode_scalar(s), encode_scalar(t), k),
        encode_scalar(s)[k] < encode_scalar(t)[k],
{
    lemma_leading_bytes(s);
    lemma_leading_bytes(t);
    let x = encode_scalar(s);
    let y = encode_scalar(t);
    if has_width_1_encoding(s) && has_width_1_encoding(t) {
        lemma_order_in_width_1(s, t);
        0
    } else if has_width_2_encoding(s) && has_width_2_encoding(t) {
        lemma_order_in_width_2(s, t);
        if x[0] == y[0] { 1 } else { 0 }
    } else if has_width_3_encoding(s) && has_width_3_encoding(t) {
        lemma_order_in_width_3(s, t);
        if x[0] != y[0] { 0 } else if x[1] != y[1] { 1 } else { 2 }
    } else if has_width_4_encoding(s) && has_width_4_encoding(t) {
        lemma_order_in_width_4(s, t);
        if x[0] != y[0] { 0 } else if x[1] != y[1] { 1 } else if x[2] != y[2] { 2 } else { 3 }
    } else {
        0
    }
}

/// UTF-8 keeps the order: the encodings of two strings compare as the
/// strings do.
pub proof fn lemma_utf8_keeps_order(a: Seq<char>, b: Seq<char>)
    ensures
        bytes_le(encode_utf8(a), encode_utf8(b)) == chars_le(a, b),
    decreases a.len(),
{
    if a.len() > 0 && b.len() > 0 {
        let s: u32 = a[0] as u32;
        let t: u32 = b[0] as u32;
        let x = encode_scalar(s);
        let y = encode_scalar(t);
        let rest_a = encode_utf8(a.drop_first());
        let rest_b = encode_utf8(b.drop_first());
        char_is_scalar(a[0]);
        char_is_scalar(b[0]);
        if a[0] == b[0] {
            lemma_bytes_le_after_common_start(x, rest_a, rest_b);
            lemma_utf8_keeps_order(a.drop_first(), b.drop_first());
        } else if s < t {
            let k: int = lemma_scalar_order(s, t);
            assert(is_first_difference(x + rest_a, y + rest_b, k));
            lemma_bytes_le_decided_at(x + rest_a, y + rest_b, k);
        } else {
            char_u32_cast(a[0], s);
            char_u32_cast(b[0], t);
            let k: int = lemma_scalar_order(t, s);
            assert(is_first_difference(x + rest_a, y + rest_b, k));
            lemma_bytes_le_decided_at(x + rest_a, y + rest_b, k);
        }
    }
}

} // verus!
