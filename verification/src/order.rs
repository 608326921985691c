//! The order of names: by the scalar values of their characters, which is how
//! `str` orders itself, and, as is proved here, the order of their UTF-8
//! encodings byte by byte.

use vstd::prelude::*;
use vstd::string::StringSliceAdditionalSpecFns;
use vstd::utf8::encode_scalar;
use vstd::utf8::encode_utf8;
use vstd::utf8::encode_utf8_decode_utf8;
use vstd::utf8::has_width_1_encoding;
use vstd::utf8::has_width_2_encoding;
use vstd::utf8::has_width_3_encoding;
use vstd::utf8::has_width_4_encoding;
use vstd::utf8::is_scalar;
use vstd::utf8::last_continuation_byte;
use vstd::utf8::leading_byte_width_1;
use vstd::utf8::leading_byte_width_2;
use vstd::utf8::leading_byte_width_3;
use vstd::utf8::leading_byte_width_4;
use vstd::utf8::second_last_continuation_byte;
use vstd::utf8::third_last_continuation_byte;

verus! {

/// How one value stands to another in a total order.
#[derive(Debug, Clone, Copy, PartialEq, Eq, Structural)]
pub enum Rank {
    Before,
    Same,
    After,
}

/// `a` and `b` hold the same bytes at every index below `k`.
pub open spec fn agree_below(a: Seq<u8>, b: Seq<u8>, k: int) -> bool {
    &&& 0 <= k <= a.len()
    &&& k <= b.len()
    &&& forall|i: int| 0 <= i < k ==> a[i] == b[i]
}

/// `k` is where `a` first falls short of `b`: up to there the two agree, and
/// at `k` either `a` has ended while `b` goes on, or `a` holds the smaller
/// byte.
pub open spec fn parts_below_at(a: Seq<u8>, b: Seq<u8>, k: int) -> bool {
    &&& agree_below(a, b, k)
    &&& k < b.len()
    &&& (k == a.len() || a[k] < b[k])
}

/// `a` comes strictly before `b` in lexicographic order.
pub open spec fn lex_less(a: Seq<u8>, b: Seq<u8>) -> bool {
    exists|k: int| parts_below_at(a, b, k)
}

/// `k` is where the name `a` first falls short of the name `b`: up to there
/// the two agree, and at `k` either `a` has ended while `b` goes on, or `a`
/// holds the character with the smaller scalar value.
pub open spec fn names_part_at(a: Seq<char>, b: Seq<char>, k: int) -> bool {
    &&& 0 <= k <= a.len()
    &&& k < b.len()
    &&& forall|i: int| 0 <= i < k ==> a[i] == b[i]
    &&& (k == a.len() || (a[k] as u32) < (b[k] as u32))
}

/// The name `a` comes strictly before the name `b`.
pub open spec fn name_less(a: Seq<char>, b: Seq<char>) -> bool {
    exists|k: int| names_part_at(a, b, k)
}

/// No sequence comes before itself, and of two sequences at most one comes
/// before the other.
pub proof fn lemma_lex_less_asymmetric(a: Seq<u8>, b: Seq<u8>)
    requires
        lex_less(a, b),
    ensures
        !lex_less(b, a),
        a != b,
{
    let k = choose|k: int| parts_below_at(a, b, k);
    if lex_less(b, a) {
        let j = choose|j: int| parts_below_at(b, a, j);
        if k < j {
            assert(b[k] == a[k]);
        } else if j < k {
            assert(a[j] == b[j]);
        }
    }
}

/// Lexicographic order is transitive.
pub proof fn lemma_lex_less_transitive(a: Seq<u8>, b: Seq<u8>, c: Seq<u8>)
    requires
        lex_less(a, b),
        lex_less(b, c),
    ensures
        lex_less(a, c),
{
    let k = choose|k: int| parts_below_at(a, b, k);
    let j = choose|j: int| parts_below_at(b, c, j);
    let m = if k <= j { k } else { j };
    assert forall|i: int| 0 <= i < m implies a[i] == c[i] by {
        assert(a[i] == b[i]);
        assert(b[i] == c[i]);
    }
    if k < j {
        assert(b[k] == c[k]);
    } else if j < k {
        assert(a[j] == b[j]);
    }
    assert(parts_below_at(a, c, m));
}

/// Of two names that differ, one comes before the other.
pub proof fn lemma_names_comparable(a: Seq<char>, b: Seq<char>)
    ensures
        a == b || name_less(a, b) || name_less(b, a),
    decreases a.len(),
{
    if a.len() == 0 {
        if b.len() == 0 {
            assert(a =~= b);
        } else {
            assert(names_part_at(a, b, 0));
        }
    } else if b.len() == 0 {
        assert(names_part_at(b, a, 0));
    } else if a[0] != b[0] {
        if (a[0] as u32) < (b[0] as u32) {
            assert(names_part_at(a, b, 0));
        } else {
            vstd::utf8::char_u32_cast(a[0], a[0] as u32);
            vstd::utf8::char_u32_cast(b[0], b[0] as u32);
            assert(names_part_at(b, a, 0));
        }
    } else {
        let x = a.drop_first();
        let y = b.drop_first();
        lemma_names_comparable(x, y);
        if x == y {
            assert(a =~= seq![a[0]] + x);
            assert(b =~= seq![b[0]] + y);
        } else if name_less(x, y) {
            let k = choose|k: int| names_part_at(x, y, k);
            assert forall|i: int| 0 <= i < k + 1 implies a[i] == b[i] by {
                if i > 0 {
                    assert(x[i - 1] == y[i - 1]);
                }
            }
            if k < x.len() {
                assert(x[k] == a[k + 1] && y[k] == b[k + 1]);
            }
            assert(names_part_at(a, b, k + 1));
        } else {
            let k = choose|k: int| names_part_at(y, x, k);
            assert forall|i: int| 0 <= i < k + 1 implies b[i] == a[i] by {
                if i > 0 {
                    assert(y[i - 1] == x[i - 1]);
                }
            }
            if k < y.len() {
                assert(y[k] == b[k + 1] && x[k] == a[k + 1]);
            }
            assert(names_part_at(b, a, k + 1));
        }
    }
}

/// The smaller of two scalars with a one-byte encoding has the smaller byte.
proof fn lemma_order_in_one_byte(x: u32, y: u32)
    by (bit_vector)
    requires
        has_width_1_encoding(x),
        has_width_1_encoding(y),
        x < y,
    ensures
        leading_byte_width_1(x) < leading_byte_width_1(y),
{
}

/// The smaller of two scalars with a two-byte encoding has the smaller byte
/// where the two encodings first differ.
proof fn lemma_order_in_two_bytes(x: u32, y: u32)
    by (bit_vector)
    requires
        has_width_2_encoding(x),
        has_width_2_encoding(y),
        x < y,
    ensures
        leading_byte_width_2(x) < leading_byte_width_2(y) || (leading_byte_width_2(x)
            == leading_byte_width_2(y) && last_continuation_byte(x) < last_continuation_byte(y)),
{
}

/// The smaller of two scalars with a three-byte encoding has the smaller byte
/// where the two encodings first differ.
proof fn lemma_order_in_three_bytes(x: u32, y: u32)
    by (bit_vector)
    requires
        has_width_3_encoding(x),
        has_width_3_encoding(y),
        x < y,
    ensures
        leading_byte_width_3(x) < leading_byte_width_3(y) || (leading_byte_width_3(x)
            == leading_byte_width_3(y) && (second_last_continuation_byte(x)
            < second_last_continuation_byte(y) || (second_last_continuation_byte(x)
            == second_last_continuation_byte(y) && last_continuation_byte(x)
            < last_continuation_byte(y)))),
{
}

/// The smaller of two scalars with a four-byte encoding has the smaller byte
/// where the two encodings first differ.
proof fn lemma_order_in_four_bytes(x: u32, y: u32)
    by (bit_vector)
    requires
        has_width_4_encoding(x),
        has_width_4_encoding(y),
        x < y,
    ensures
        leading_byte_width_4(x) < leading_byte_width_4(y) || (leading_byte_width_4(x)
            == leading_byte_width_4(y) && (third_last_continuation_byte(x)
            < third_last_continuation_byte(y) || (third_last_continuation_byte(x)
            == third_last_continuation_byte(y) && (second_last_continuation_byte(x)
            < second_last_continuation_byte(y) || (second_last_continuation_byte(x)
            == second_last_continuation_byte(y) && last_continuation_byte(x)
            < last_continuation_byte(y)))))),
{
}

/// A longer encoding starts with a greater byte than a shorter one.
proof fn lemma_leading_bytes_by_width(x: u32)
    by (bit_vector)
    ensures
        has_width_1_encoding(x) ==> leading_byte_width_1(x) <= 0x7F,
        has_width_2_encoding(x) ==> 0xC0 <= leading_byte_width_2(x) <= 0xDF,
        has_width_3_encoding(x) ==> 0xE0 <= leading_byte_width_3(x) <= 0xEF,
        has_width_4_encoding(x) ==> 0xF0 <= leading_byte_width_4(x),
{
}

/// Of two scalars, the smaller has the encoding that comes first: the two
/// encodings differ at a byte that both have, and there the smaller scalar
/// has the smaller byte.
proof fn lemma_scalar_order_in_bytes(x: u32, y: u32) -> (at: int)
    requires
        is_scalar(x),
        is_scalar(y),
        x < y,
    ensures
        0 <= at < encode_scalar(x).len(),
        at < encode_scalar(y).len(),
        forall|i: int| 0 <= i < at ==> encode_scalar(x)[i] == encode_scalar(y)[i],
        encode_scalar(x)[at] < encode_scalar(y)[at],
{
    lemma_leading_bytes_by_width(x);
    lemma_leading_bytes_by_width(y);
    let ex = encode_scalar(x);
    let ey = encode_scalar(y);
    if has_width_1_encoding(y) {
        lemma_order_in_one_byte(x, y);
        0
    } else if has_width_2_encoding(y) {
        if has_width_2_encoding(x) {
            lemma_order_in_two_bytes(x, y);
            if ex[0] < ey[0] {
                0
            } else {
                1
            }
        } else {
            0
        }
    } else if has_width_3_encoding(y) {
        if has_width_3_encoding(x) {
            lemma_order_in_three_bytes(x, y);
            if ex[0] < ey[0] {
                0
            } else if ex[1] < ey[1] {
                1
            } else {
                2
            }
        } else {
            0
        }
    } else {
        if has_width_4_encoding(x) {
            lemma_order_in_four_bytes(x, y);
            if ex[0] < ey[0] {
                0
            } else if ex[1] < ey[1] {
                1
            } else if ex[2] < ey[2] {
                2
            } else {
                3
            }
        } else {
            0
        }
    }
}

/// The encoding of two names, one after the other, is the encoding of the
/// first followed by that of the second.
proof fn lemma_encoding_of_concat(a: Seq<char>, b: Seq<char>)
    ensures
        encode_utf8(a + b) == encode_utf8(a) + encode_utf8(b),
    decreases a.len(),
{
    if a.len() == 0 {
        assert(a + b =~= b);
        assert(encode_utf8(a) + encode_utf8(b) =~= encode_utf8(b));
    } else {
        lemma_encoding_of_concat(a.drop_first(), b);
        assert((a + b).drop_first() =~= a.drop_first() + b);
        assert(encode_utf8(a + b) =~= encode_utf8(a) + encode_utf8(b));
    }
}

/// A name that comes before another has the encoding that comes first.
proof fn lemma_name_less_in_bytes(a: Seq<char>, b: Seq<char>)
    requires
        name_less(a, b),
    ensures
        lex_less(encode_utf8(a), encode_utf8(b)),
{
    let k = choose|k: int| names_part_at(a, b, k);
    let shared = a.take(k);
    let rest_a = a.skip(k);
    let rest_b = b.skip(k);
    assert(shared =~= b.take(k));
    assert(a =~= shared + rest_a);
    assert(b =~= shared + rest_b);
    lemma_encoding_of_concat(shared, rest_a);
    lemma_encoding_of_concat(shared, rest_b);
    let head = encode_utf8(shared);
    let ea = encode_utf8(a);
    let eb = encode_utf8(b);
    let y = rest_b[0] as u32;
    vstd::utf8::char_is_scalar(rest_b[0]);
    assert(encode_utf8(rest_b) == encode_scalar(y) + encode_utf8(rest_b.drop_first()));
    assert(encode_scalar(y).len() >= 1);
    if k == a.len() {
        assert(rest_a =~= Seq::<char>::empty());
        assert(ea =~= head);
        assert(parts_below_at(ea, eb, head.len() as int));
    } else {
        let x = rest_a[0] as u32;
        vstd::utf8::char_is_scalar(rest_a[0]);
        assert(encode_utf8(rest_a) == encode_scalar(x) + encode_utf8(rest_a.drop_first()));
        let at = lemma_scalar_order_in_bytes(x, y);
        let split = head.len() + at;
        assert forall|i: int| 0 <= i < split implies ea[i] == eb[i] by {
            if i >= head.len() {
                assert(ea[i] == encode_scalar(x)[i - head.len()]);
                assert(eb[i] == encode_scalar(y)[i - head.len()]);
            }
        }
        assert(ea[split] == encode_scalar(x)[at]);
        assert(eb[split] == encode_scalar(y)[at]);
        assert(parts_below_at(ea, eb, split));
    }
}

/// The order of names is the lexicographic order of their UTF-8 encodings.
pub proof fn lemma_name_order_is_byte_order(a: Seq<char>, b: Seq<char>)
    ensures
        name_less(a, b) <==> lex_less(encode_utf8(a), encode_utf8(b)),
{
    if name_less(a, b) {
        lemma_name_less_in_bytes(a, b);
    }
    if lex_less(encode_utf8(a), encode_utf8(b)) {
        lemma_lex_less_asymmetric(encode_utf8(a), encode_utf8(b));
        lemma_names_comparable(a, b);
        if name_less(b, a) {
            lemma_name_less_in_bytes(b, a);
        }
    }
}

/// The order of names is transitive.
pub proof fn lemma_name_less_transitive(a: Seq<char>, b: Seq<char>, c: Seq<char>)
    requires
        name_less(a, b),
        name_less(b, c),
    ensures
        name_less(a, c),
{
    lemma_name_order_is_byte_order(a, b);
    lemma_name_order_is_byte_order(b, c);
    lemma_name_order_is_byte_order(a, c);
    lemma_lex_less_transitive(encode_utf8(a), encode_utf8(b), encode_utf8(c));
}

/// A name never comes before itself, nor two names before each other.
pub proof fn lemma_name_less_asymmetric(a: Seq<char>, b: Seq<char>)
    requires
        name_less(a, b),
    ensures
        !name_less(b, a),
        a != b,
{
    lemma_name_order_is_byte_order(a, b);
    lemma_name_order_is_byte_order(b, a);
    lemma_lex_less_asymmetric(encode_utf8(a), encode_utf8(b));
}

/// Ranks `a` against `b` in lexicographic order.
pub fn rank_bytes(a: &[u8], b: &[u8]) -> (r: Rank)
    ensures
        r is Before <==> lex_less(a@, b@),
        r is Same <==> a@ == b@,
        r is After <==> lex_less(b@, a@),
{
    let mut i: usize = 0;
    while i < a.len() && i < b.len()
        invariant
            agree_below(a@, b@, i as int),
        decreases a.len() - i,
    {
        if a[i] < b[i] {
            proof {
                assert(parts_below_at(a@, b@, i as int));
                lemma_lex_less_asymmetric(a@, b@);
            }
            return Rank::Before;
        }
        if b[i] < a[i] {
            proof {
                assert(agree_below(b@, a@, i as int));
                assert(parts_below_at(b@, a@, i as int));
                lemma_lex_less_asymmetric(b@, a@);
            }
            return Rank::After;
        }
        i += 1;
    }
    if a.len() < b.len() {
        proof {
            assert(parts_below_at(a@, b@, i as int));
            lemma_lex_less_asymmetric(a@, b@);
        }
        Rank::Before
    } else if b.len() < a.len() {
        proof {
            assert(agree_below(b@, a@, i as int));
            assert(parts_below_at(b@, a@, i as int));
            lemma_lex_less_asymmetric(b@, a@);
        }
        Rank::After
    } else {
        proof {
            assert(a@ =~= b@);
            if lex_less(a@, b@) {
                lemma_lex_less_asymmetric(a@, b@);
            }
        }
        Rank::Same
    }
}

/// Ranks the name `a` against the name `b`, as `str` orders them.
pub fn rank_names(a: &str, b: &str) -> (r: Rank)
    ensures
        r is Before <==> name_less(a@, b@),
        r is Same <==> a@ == b@,
        r is After <==> name_less(b@, a@),
{
    proof {
        encode_utf8_decode_utf8(a@);
        encode_utf8_decode_utf8(b@);
        lemma_name_order_is_byte_order(a@, b@);
        lemma_name_order_is_byte_order(b@, a@);
    }
    rank_bytes(a.as_bytes(), b.as_bytes())
}

} // verus!
