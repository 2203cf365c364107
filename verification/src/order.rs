//! The order in which parameter names are enumerated for signing:
//! lexicographic by the bytes of their UTF-8 encoding, which is the order
//! that `str` has. It is the same as the lexicographic order by code
//! points ([`lemma_name_order_is_code_point_order`]). No locale takes part
//! in it.

use vstd::prelude::*;
use vstd::string::StringSliceAdditionalSpecFns;
use vstd::utf8::char_is_scalar;
use vstd::utf8::char_u32_cast;
use vstd::utf8::encode_scalar;
use vstd::utf8::encode_utf8;
use vstd::utf8::encode_utf8_decode_utf8;
use vstd::utf8::has_width_1_encoding;
use vstd::utf8::has_width_2_encoding;
use vstd::utf8::has_width_3_encoding;
use vstd::utf8::has_width_4_encoding;
use vstd::utf8::is_scalar;

verus! {

/// `a` and `b` hold the same byte at every index below `n`.
pub open spec fn agree_below(a: Seq<u8>, b: Seq<u8>, n: int) -> bool {
    &&& 0 <= n <= a.len()
    &&& n <= b.len()
    &&& forall|i: int| 0 <= i < n ==> a[i] == b[i]
}

/// Index `n` shows that `a` sorts before `b`: the two agree below `n`, and
/// there either `a` has ended while `b` goes on, or `a` has the smaller byte.
pub open spec fn precedes_at(a: Seq<u8>, b: Seq<u8>, n: int) -> bool {
    &&& agree_below(a, b, n)
    &&& n < b.len()
    &&& (n == a.len() || a[n] < b[n])
}

/// Strict lexicographic order on byte strings.
pub open spec fn bytes_lt(a: Seq<u8>, b: Seq<u8>) -> bool {
    exists|n: int| #[trigger] precedes_at(a, b, n)
}

/// Strict order on parameter names: the lexicographic order of their UTF-8
/// encodings.
pub open spec fn name_lt(a: Seq<char>, b: Seq<char>) -> bool {
    bytes_lt(encode_utf8(a), encode_utf8(b))
}

/// No byte string sorts before itself.
pub proof fn lemma_bytes_lt_irreflexive(a: Seq<u8>)
    ensures
        !bytes_lt(a, a),
{
}

/// The order on byte strings is transitive.
pub proof fn lemma_bytes_lt_transitive(a: Seq<u8>, b: Seq<u8>, c: Seq<u8>)
    requires
        bytes_lt(a, b),
        bytes_lt(b, c),
    ensures
        bytes_lt(a, c),
{
    let n1 = choose|n: int| #[trigger] precedes_at(a, b, n);
    let n2 = choose|n: int| #[trigger] precedes_at(b, c, n);
    let n = if n1 <= n2 { n1 } else { n2 };
    assert(precedes_at(a, c, n));
}

/// From a common prefix of length `n` onwards, one of the two sorts first
/// or the two are the same.
proof fn lemma_bytes_compare_from(a: Seq<u8>, b: Seq<u8>, n: int)
    requires
        agree_below(a, b, n),
    ensures
        bytes_lt(a, b) || a == b || bytes_lt(b, a),
    decreases a.len() - n,
{
    if n == a.len() {
        if n == b.len() {
            assert(a =~= b);
        } else {
            assert(precedes_at(a, b, n));
        }
    } else if n == b.len() {
        assert(precedes_at(b, a, n));
    } else if a[n] < b[n] {
        assert(precedes_at(a, b, n));
    } else if b[n] < a[n] {
        assert(precedes_at(b, a, n));
    } else {
        lemma_bytes_compare_from(a, b, n + 1);
    }
}

/// Of two different byte strings one sorts before the other.
pub proof fn lemma_bytes_lt_total(a: Seq<u8>, b: Seq<u8>)
    ensures
        bytes_lt(a, b) || a == b || bytes_lt(b, a),
{
    lemma_bytes_compare_from(a, b, 0);
}

/// Two names with the same UTF-8 encoding are the same name.
pub proof fn lemma_encoding_injective(a: Seq<char>, b: Seq<char>)
    requires
        encode_utf8(a) == encode_utf8(b),
    ensures
        a == b,
{
    encode_utf8_decode_utf8(a);
    encode_utf8_decode_utf8(b);
}

/// No name sorts before itself.
pub proof fn lemma_name_lt_irreflexive(a: Seq<char>)
    ensures
        !name_lt(a, a),
{
    lemma_bytes_lt_irreflexive(encode_utf8(a));
}

/// The order on names is transitive.
pub proof fn lemma_name_lt_transitive(a: Seq<char>, b: Seq<char>, c: Seq<char>)
    requires
        name_lt(a, b),
        name_lt(b, c),
    ensures
        name_lt(a, c),
{
    lemma_bytes_lt_transitive(encode_utf8(a), encode_utf8(b), encode_utf8(c));
}

/// No two names sort before each other.
pub proof fn lemma_name_lt_asymmetric(a: Seq<char>, b: Seq<char>)
    requires
        name_lt(a, b),
    ensures
        !name_lt(b, a),
{
    if name_lt(b, a) {
        lemma_name_lt_transitive(a, b, a);
        lemma_name_lt_irreflexive(a);
    }
}

/// Of two different names one sorts before the other.
pub proof fn lemma_name_lt_total(a: Seq<char>, b: Seq<char>)
    ensures
        name_lt(a, b) || a == b || name_lt(b, a),
{
    lemma_bytes_lt_total(encode_utf8(a), encode_utf8(b));
    if encode_utf8(a) == encode_utf8(b) {
        lemma_encoding_injective(a, b);
    }
}

/// Index `n` shows that `a` sorts before `b` by code points: the two hold
/// the same characters below `n`, and there either `a` has ended while `b`
/// goes on, or `a` has the character with the smaller code point.
pub open spec fn precedes_by_code_point_at(a: Seq<char>, b: Seq<char>, n: int) -> bool {
    &&& 0 <= n <= a.len()
    &&& n < b.len()
    &&& forall|i: int| 0 <= i < n ==> a[i] == b[i]
    &&& (n == a.len() || (a[n] as u32) < (b[n] as u32))
}

/// Strict lexicographic order on texts by the code points of their
/// characters.
pub open spec fn code_points_lt(a: Seq<char>, b: Seq<char>) -> bool {
    exists|n: int| #[trigger] precedes_by_code_point_at(a, b, n)
}

proof fn lemma_width_1_order(c: u32, d: u32)
    by (bit_vector)
    requires
        c < d,
        d <= 0x7F,
    ensures
        ((c & 0x7F) as u8) < ((d & 0x7F) as u8),
{
}

proof fn lemma_width_2_order(c: u32, d: u32)
    by (bit_vector)
    requires
        0x80 <= c,
        c < d,
        d <= 0x7FF,
    ensures
        ({
            let c1 = 0xC0u8 | ((c >> 6) & 0x1F) as u8;
            let d1 = 0xC0u8 | ((d >> 6) & 0x1F) as u8;
            let c2 = 0x80u8 | (c & 0x3F) as u8;
            let d2 = 0x80u8 | (d & 0x3F) as u8;
            c1 < d1 || (c1 == d1 && c2 < d2)
        }),
{
}

proof fn lemma_width_3_order(c: u32, d: u32)
    by (bit_vector)
    requires
        0x800 <= c,
        c < d,
        d <= 0xFFFF,
    ensures
        ({
            let c1 = 0xE0u8 | ((c >> 12) & 0x0F) as u8;
            let d1 = 0xE0u8 | ((d >> 12) & 0x0F) as u8;
            let c2 = 0x80u8 | ((c >> 6) & 0x3F) as u8;
            let d2 = 0x80u8 | ((d >> 6) & 0x3F) as u8;
            let c3 = 0x80u8 | (c & 0x3F) as u8;
            let d3 = 0x80u8 | (d & 0x3F) as u8;
            c1 < d1 || (c1 == d1 && (c2 < d2 || (c2 == d2 && c3 < d3)))
        }),
{
}

proof fn lemma_width_4_order(c: u32, d: u32)
    by (bit_vector)
    requires
        0x10000 <= c,
        c < d,
        d <= 0x10FFFF,
    ensures
        ({
            let c1 = 0xF0u8 | ((c >> 18) & 0x7) as u8;
            let d1 = 0xF0u8 | ((d >> 18) & 0x7) as u8;
            let c2 = 0x80u8 | ((c >> 12) & 0x3F) as u8;
            let d2 = 0x80u8 | ((d >> 12) & 0x3F) as u8;
            let c3 = 0x80u8 | ((c >> 6) & 0x3F) as u8;
            let d3 = 0x80u8 | ((d >> 6) & 0x3F) as u8;
            let c4 = 0x80u8 | (c & 0x3F) as u8;
            let d4 = 0x80u8 | (d & 0x3F) as u8;
            c1 < d1 || (c1 == d1 && (c2 < d2 || (c2 == d2 && (c3 < d3 || (c3 == d3 && c4
                < d4)))))
        }),
{
}

/// The first byte of an encoding tells how many bytes the encoding has: the
/// first bytes of longer encodings are greater.
proof fn lemma_leading_byte_ranges(c: u32)
    by (bit_vector)
    ensures
        ((c & 0x7F) as u8) <= 0x7F,
        0xC0 <= (0xC0u8 | ((c >> 6) & 0x1F) as u8) <= 0xDF,
        0xE0 <= (0xE0u8 | ((c >> 12) & 0x0F) as u8) <= 0xEF,
        0xF0 <= (0xF0u8 | ((c >> 18) & 0x7) as u8) <= 0xF7,
{
}

/// The encoding of the scalar with the smaller value sorts before the
/// encoding of the other, and is no beginning of it.
proof fn lemma_scalar_order(c: u32, d: u32) -> (j: int)
    requires
        is_scalar(c),
        is_scalar(d),
        c < d,
    ensures
        0 <= j < encode_scalar(c).len(),
        j < encode_scalar(d).len(),
        forall|i: int| 0 <= i < j ==> encode_scalar(c)[i] == encode_scalar(d)[i],
        encode_scalar(c)[j] < encode_scalar(d)[j],
{
    lemma_leading_byte_ranges(c);
    lemma_leading_byte_ranges(d);
    let x = encode_scalar(c);
    let y = encode_scalar(d);
    if has_width_1_encoding(d) {
        lemma_width_1_order(c, d);
        0
    } else if has_width_2_encoding(d) {
        if has_width_2_encoding(c) {
            lemma_width_2_order(c, d);
            if x[0] < y[0] {
                0
            } else {
                1
            }
        } else {
            0
        }
    } else if has_width_3_encoding(d) {
        if has_width_3_encoding(c) {
            lemma_width_3_order(c, d);
            if x[0] < y[0] {
                0
            } else if x[1] < y[1] {
                1
            } else {
                2
            }
        } else {
            0
        }
    } else {
        if has_width_4_encoding(c) {
            lemma_width_4_order(c, d);
            if x[0] < y[0] {
                0
            } else if x[1] < y[1] {
                1
            } else if x[2] < y[2] {
                2
            } else {
                3
            }
        } else {
            0
        }
    }
}

/// The encoding of two texts joined is the encoding of the first followed
/// by the encoding of the second.
proof fn lemma_encoding_of_joined(a: Seq<char>, b: Seq<char>)
    ensures
        encode_utf8(a + b) == encode_utf8(a) + encode_utf8(b),
    decreases a.len(),
{
    if a.len() == 0 {
        assert(a + b =~= b);
        assert(encode_utf8(a) + encode_utf8(b) =~= encode_utf8(b));
    } else {
        lemma_encoding_of_joined(a.drop_first(), b);
        assert((a + b).drop_first() =~= a.drop_first() + b);
        assert(encode_utf8(a + b) =~= encode_utf8(a) + encode_utf8(b));
    }
}

/// A text that sorts before another by code points sorts before it by the
/// bytes of the encodings.
proof fn lemma_code_point_order_gives_name_order(a: Seq<char>, b: Seq<char>, n: int)
    requires
        precedes_by_code_point_at(a, b, n),
    ensures
        name_lt(a, b),
{
    let head = a.take(n);
    assert(head =~= b.take(n));
    assert(a =~= head + a.skip(n));
    assert(b =~= head + b.skip(n));
    lemma_encoding_of_joined(head, a.skip(n));
    lemma_encoding_of_joined(head, b.skip(n));
    let p = encode_utf8(head);
    let x = encode_utf8(a.skip(n));
    let y = encode_utf8(b.skip(n));
    let rest_b = b.skip(n).drop_first();
    let d = b[n] as u32;
    char_is_scalar(b[n]);
    assert(b.skip(n)[0] == b[n]);
    assert(y == encode_scalar(d) + encode_utf8(rest_b));
    if n == a.len() {
        assert(x =~= Seq::<u8>::empty());
        assert(encode_scalar(d).len() > 0);
        assert(precedes_at(p + x, p + y, p.len() as int));
    } else {
        let rest_a = a.skip(n).drop_first();
        let c = a[n] as u32;
        char_is_scalar(a[n]);
        assert(a.skip(n)[0] == a[n]);
        assert(x == encode_scalar(c) + encode_utf8(rest_a));
        let j = lemma_scalar_order(c, d);
        assert(precedes_at(p + x, p + y, p.len() + j));
    }
}

/// From a common beginning of `n` characters onwards, one of two texts
/// sorts before the other by code points or the two are the same.
proof fn lemma_code_points_compare_from(a: Seq<char>, b: Seq<char>, n: int)
    requires
        0 <= n <= a.len(),
        n <= b.len(),
        forall|i: int| 0 <= i < n ==> a[i] == b[i],
    ensures
        code_points_lt(a, b) || a == b || code_points_lt(b, a),
    decreases a.len() - n,
{
    if n == a.len() {
        if n == b.len() {
            assert(a =~= b);
        } else {
            assert(precedes_by_code_point_at(a, b, n));
        }
    } else if n == b.len() {
        assert(precedes_by_code_point_at(b, a, n));
    } else if (a[n] as u32) < (b[n] as u32) {
        assert(precedes_by_code_point_at(a, b, n));
    } else if (b[n] as u32) < (a[n] as u32) {
        assert(precedes_by_code_point_at(b, a, n));
    } else {
        char_u32_cast(a[n], a[n] as u32);
        char_u32_cast(b[n], b[n] as u32);
        lemma_code_points_compare_from(a, b, n + 1);
    }
}

/// The signing order is the order of code points: one name sorts before
/// another by the bytes of their UTF-8 encodings exactly if it does so by
/// the code points of their characters.
pub proof fn lemma_name_order_is_code_point_order(a: Seq<char>, b: Seq<char>)
    ensures
        name_lt(a, b) <==> code_points_lt(a, b),
{
    if code_points_lt(a, b) {
        let n = choose|n: int| #[trigger] precedes_by_code_point_at(a, b, n);
        lemma_code_point_order_gives_name_order(a, b, n);
    }
    if name_lt(a, b) {
        lemma_code_points_compare_from(a, b, 0);
        if a == b {
            lemma_name_lt_irreflexive(a);
        }
        if code_points_lt(b, a) {
            let n = choose|n: int| #[trigger] precedes_by_code_point_at(b, a, n);
            lemma_code_point_order_gives_name_order(b, a, n);
            lemma_name_lt_asymmetric(a, b);
        }
    }
}

/// How one parameter name stands to another in the signing order.
#[derive(Clone, Copy, Debug, PartialEq, Eq)]
pub enum NameOrder {
    Before,
    Same,
    After,
}

/// Compares two parameter names byte by byte.
pub fn compare_names(a: &str, b: &str) -> (order: NameOrder)
    ensures
        order is Before <==> name_lt(a@, b@),
        order is Same <==> a@ == b@,
        order is After <==> name_lt(b@, a@),
{
    proof {
        lemma_name_lt_irreflexive(a@);
        if name_lt(a@, b@) {
            lemma_name_lt_asymmetric(a@, b@);
        }
    }
    let x = a.as_bytes();
    let y = b.as_bytes();
    let mut i: usize = 0;
    while i < x.len() && i < y.len()
        invariant
            x@ == encode_utf8(a@),
            y@ == encode_utf8(b@),
            agree_below(x@, y@, i as int),
        decreases x.len() - i,
    {
        if x[i] < y[i] {
            assert(precedes_at(x@, y@, i as int));
            return NameOrder::Before;
        }
        if y[i] < x[i] {
            assert(precedes_at(y@, x@, i as int));
            return NameOrder::After;
        }
        i += 1;
    }
    if i < y.len() {
        assert(precedes_at(x@, y@, i as int));
        NameOrder::Before
    } else if i < x.len() {
        assert(precedes_at(y@, x@, i as int));
        NameOrder::After
    } else {
        proof {
            assert(x@ =~= y@);
            lemma_encoding_injective(a@, b@);
        }
        NameOrder::Same
    }
}

} // verus!
