//! Sync tokens: a random version-4 UUID written as 32 lower-case hex digits.

use vstd::prelude::*;
use vstd::arithmetic::div_mod::{lemma_div_denominator, lemma_fundamental_div_mod};

verus! {

/// The lower-case hex digits, in order.
pub open spec fn hex_chars() -> Seq<char> {
    seq!['0', '1', '2', '3', '4', '5', '6', '7', '8', '9', 'a', 'b', 'c', 'd', 'e', 'f']
}

/// `c` is a lower-case hex digit.
pub open spec fn is_lower_hex(c: char) -> bool {
    exists|i: int| 0 <= i < 16 && #[trigger] hex_chars()[i] == c
}

/// 16 to the power `n`.
pub open spec fn pow16(n: nat) -> int
    decreases n,
{
    if n == 0 {
        1
    } else {
        16 * pow16((n - 1) as nat)
    }
}

/// The `k`-th hex digit (0 is the most significant) of the 128-bit value `v`.
pub open spec fn nibble(v: u128, k: int) -> int {
    (v as int / pow16((31 - k) as nat)) % 16
}

/// `v` as 32 lower-case hex digits, most significant first.
pub open spec fn simple_hex(v: u128) -> Seq<char> {
    Seq::new(32, |k: int| hex_chars()[nibble(v, k)])
}

/// `v` in the hyphenated form of a UUID: groups of 8, 4, 4, 4 and 12 lower-case hex
/// digits joined by `-`.
pub open spec fn hyphenated_hex(v: u128) -> Seq<char> {
    let s = simple_hex(v);
    s.subrange(0, 8) + seq!['-'] + s.subrange(8, 12) + seq!['-'] + s.subrange(12, 16) + seq!['-']
        + s.subrange(16, 20) + seq!['-'] + s.subrange(20, 32)
}

/// The version-4 marks that `uuid::Uuid::new_v4` sets: version nibble 4 and the RFC 4122
/// variant bits `10`.
pub open spec fn is_v4_bits(v: u128) -> bool {
    v & 0x0000_0000_0000_F000_C000_0000_0000_0000u128 == 0x0000_0000_0000_4000_8000_0000_0000_0000u128
}

/// `s` with every `c` taken out.
pub open spec fn without_char(s: Seq<char>, c: char) -> Seq<char>
    decreases s.len(),
{
    if s.len() == 0 {
        s
    } else if s.last() == c {
        without_char(s.drop_last(), c)
    } else {
        without_char(s.drop_last(), c).push(s.last())
    }
}

/// Calls `uuid::Uuid::new_v4` and reads the value with `as_u128`. The value is random;
/// the contract claims only the version and variant bits that `new_v4` sets.
#[verifier::external_body]
fn random_v4() -> (v: u128)
    ensures
        is_v4_bits(v),
{
    uuid::Uuid::new_v4().as_u128()
}

/// Calls `uuid::Uuid::from_u128` and formats the UUID with `to_string`, whose `Display`
/// writes the hyphenated lower-case form. The contract claims that form, digit by digit.
#[verifier::external_body]
fn uuid_text(v: u128) -> (s: String)
    ensures
        s@ == hyphenated_hex(v),
{
    uuid::Uuid::from_u128(v).to_string()
}

proof fn lemma_without_char_append(a: Seq<char>, b: Seq<char>, c: char)
    ensures
        without_char(a + b, c) == without_char(a, c) + without_char(b, c),
    decreases b.len(),
{
    if b.len() == 0 {
        assert(a + b =~= a);
        assert(without_char(a, c) + without_char(b, c) =~= without_char(a, c));
    } else {
        assert((a + b).drop_last() =~= a + b.drop_last());
        lemma_without_char_append(a, b.drop_last(), c);
        if b.last() != c {
            assert(without_char(a, c) + without_char(b.drop_last(), c).push(b.last()) =~= (
            without_char(a, c) + without_char(b.drop_last(), c)).push(b.last()));
        }
    }
}

proof fn lemma_without_absent_char(s: Seq<char>, c: char)
    requires
        forall|i: int| 0 <= i < s.len() ==> s[i] != c,
    ensures
        without_char(s, c) == s,
    decreases s.len(),
{
    if s.len() > 0 {
        lemma_without_absent_char(s.drop_last(), c);
        assert(s.drop_last().push(s.last()) =~= s);
    }
}

proof fn lemma_hex_chars()
    ensures
        forall|i: int| 0 <= i < 16 ==> #[trigger] hex_chars()[i] != '-',
{
    let h = hex_chars();
    assert(h[0] == '0' && h[1] == '1' && h[2] == '2' && h[3] == '3');
    assert(h[4] == '4' && h[5] == '5' && h[6] == '6' && h[7] == '7');
    assert(h[8] == '8' && h[9] == '9' && h[10] == 'a' && h[11] == 'b');
    assert(h[12] == 'c' && h[13] == 'd' && h[14] == 'e' && h[15] == 'f');
}

proof fn lemma_hex_chars_distinct()
    ensures
        forall|a: int, b: int|
            0 <= a < 16 && 0 <= b < 16 && #[trigger] hex_chars()[a] == #[trigger] hex_chars()[b]
                ==> a == b,
{
    let h = hex_chars();
    assert(h[0] == '0' && h[1] == '1' && h[2] == '2' && h[3] == '3');
    assert(h[4] == '4' && h[5] == '5' && h[6] == '6' && h[7] == '7');
    assert(h[8] == '8' && h[9] == '9' && h[10] == 'a' && h[11] == 'b');
    assert(h[12] == 'c' && h[13] == 'd' && h[14] == 'e' && h[15] == 'f');
    assert forall|a: int, b: int|
        0 <= a < 16 && 0 <= b < 16 && #[trigger] h[a] == #[trigger] h[b] implies a == b by {
        assert(a == 0 || a == 1 || a == 2 || a == 3 || a == 4 || a == 5 || a == 6 || a == 7 || a
            == 8 || a == 9 || a == 10 || a == 11 || a == 12 || a == 13 || a == 14 || a == 15);
        assert(b == 0 || b == 1 || b == 2 || b == 3 || b == 4 || b == 5 || b == 6 || b == 7 || b
            == 8 || b == 9 || b == 10 || b == 11 || b == 12 || b == 13 || b == 14 || b == 15);
    }
}

proof fn lemma_pow16_positive(n: nat)
    ensures
        pow16(n) > 0,
    decreases n,
{
    if n > 0 {
        lemma_pow16_positive((n - 1) as nat);
    }
}

/// Two numbers below `16^n` with the same `n` low hex digits are equal.
proof fn lemma_digits_determine(x: int, y: int, n: nat)
    requires
        0 <= x < pow16(n),
        0 <= y < pow16(n),
        forall|k: nat| k < n ==> (x / #[trigger] pow16(k)) % 16 == (y / pow16(k)) % 16,
    ensures
        x == y,
    decreases n,
{
    if n > 0 {
        let m = (n - 1) as nat;
        lemma_pow16_positive(m);
        assert(pow16(0) == 1);
        assert((x / pow16(0)) % 16 == (y / pow16(0)) % 16);
        let (qx, qy) = (x / 16, y / 16);
        lemma_fundamental_div_mod(x, 16);
        lemma_fundamental_div_mod(y, 16);
        assert(qx < pow16(m)) by (nonlinear_arith)
            requires
                x == 16 * qx + x % 16,
                0 <= x % 16 < 16,
                x < 16 * pow16(m),
        ;
        assert(qy < pow16(m)) by (nonlinear_arith)
            requires
                y == 16 * qy + y % 16,
                0 <= y % 16 < 16,
                y < 16 * pow16(m),
        ;
        assert(qx >= 0 && qy >= 0);
        assert forall|k: nat| k < m implies (qx / #[trigger] pow16(k)) % 16 == (qy / pow16(k))
            % 16 by {
            lemma_pow16_positive(k);
            lemma_div_denominator(x, 16, pow16(k));
            lemma_div_denominator(y, 16, pow16(k));
            assert(pow16(k + 1) == 16 * pow16(k));
            assert((x / pow16(k + 1)) % 16 == (y / pow16(k + 1)) % 16);
        }
        lemma_digits_determine(qx, qy, m);
    }
}

proof fn lemma_pow16_32()
    ensures
        pow16(32) == 0x1_0000_0000_0000_0000_0000_0000_0000_0000,
{
    reveal_with_fuel(pow16, 33);
}

/// Distinct UUID values give distinct tokens: the token text is one-to-one in the value,
/// so tokens drawn from different random values differ.
pub proof fn law_tokens_distinct(v1: u128, v2: u128)
    requires
        v1 != v2,
    ensures
        simple_hex(v1) != simple_hex(v2),
{
    if simple_hex(v1) == simple_hex(v2) {
        lemma_hex_chars_distinct();
        lemma_pow16_32();
        assert forall|k: nat| k < 32 implies (v1 as int / #[trigger] pow16(k)) % 16 == (v2 as int
            / pow16(k)) % 16 by {
            let j = 31 - k;
            assert(simple_hex(v1)[j] == simple_hex(v2)[j]);
            assert(0 <= nibble(v1, j) < 16);
            assert(0 <= nibble(v2, j) < 16);
            assert((31 - j) as nat == k);
        }
        lemma_digits_determine(v1 as int, v2 as int, 32);
    }
}

proof fn lemma_hyphens_removed(v: u128)
    ensures
        without_char(hyphenated_hex(v), '-') == simple_hex(v),
{
    let s = simple_hex(v);
    let d = seq!['-'];
    lemma_hex_chars();
    assert forall|i: int| 0 <= i < s.len() implies s[i] != '-' by {
        assert(0 <= nibble(v, i) < 16);
    }
    let g1 = s.subrange(0, 8);
    let g2 = s.subrange(8, 12);
    let g3 = s.subrange(12, 16);
    let g4 = s.subrange(16, 20);
    let g5 = s.subrange(20, 32);
    lemma_without_absent_char(g1, '-');
    lemma_without_absent_char(g2, '-');
    lemma_without_absent_char(g3, '-');
    lemma_without_absent_char(g4, '-');
    lemma_without_absent_char(g5, '-');
    assert(without_char(d, '-') =~= Seq::<char>::empty()) by {
        assert(d.len() == 1);
        assert(d.last() == '-');
        assert(d.drop_last() =~= Seq::<char>::empty());
        assert(without_char(d.drop_last(), '-') =~= Seq::<char>::empty());
    }
    lemma_without_char_append(g1, d, '-');
    lemma_without_char_append(g1 + d, g2, '-');
    lemma_without_char_append(g1 + d + g2, d, '-');
    lemma_without_char_append(g1 + d + g2 + d, g3, '-');
    lemma_without_char_append(g1 + d + g2 + d + g3, d, '-');
    lemma_without_char_append(g1 + d + g2 + d + g3 + d, g4, '-');
    lemma_without_char_append(g1 + d + g2 + d + g3 + d + g4, d, '-');
    lemma_without_char_append(g1 + d + g2 + d + g3 + d + g4 + d, g5, '-');
    assert(g1 + g2 + g3 + g4 + g5 =~= s);
}

/// `s.replace("-", "")`: `s` with every hyphen taken out.
pub fn remove_hyphens(s: &str) -> (r: String)
    ensures
        r@ == without_char(s@, '-'),
{
    let n = s.unicode_len();
    let mut out = String::new();
    let mut i: usize = 0;
    assert(s@.subrange(0, 0) =~= Seq::<char>::empty());
    while i < n
        invariant
            i <= n,
            n == s@.len(),
            out@ == without_char(s@.subrange(0, i as int), '-'),
        decreases n - i,
    {
        assert(s@.subrange(0, i + 1).drop_last() =~= s@.subrange(0, i as int));
        let c = s.get_char(i);
        if c != '-' {
            let piece = s.substring_char(i, i + 1);
            out.append(piece);
            assert(piece@ =~= seq![c]);
        }
        i = i + 1;
    }
    assert(s@.subrange(0, n as int) =~= s@);
    out
}

/// The token text of the UUID value `v`: its 32 hex digits, without hyphens.
pub fn token_from_uuid(v: u128) -> (t: String)
    ensures
        t@ == simple_hex(v),
{
    let text = uuid_text(v);
    proof {
        lemma_hyphens_removed(v);
    }
    remove_hyphens(text.as_str())
}

/// A fresh sync token: a random version-4 UUID as 32 lower-case hex digits.
pub fn generate_token() -> (t: String)
    ensures
        exists|v: u128| is_v4_bits(v) && t@ == simple_hex(v),
        t@.len() == 32,
        forall|i: int| 0 <= i < 32 ==> is_lower_hex(#[trigger] t@[i]),
{
    let v = random_v4();
    let t = token_from_uuid(v);
    proof {
        assert forall|i: int| 0 <= i < 32 implies is_lower_hex(#[trigger] t@[i]) by {
            let n = nibble(v, i);
            assert(0 <= n < 16);
            assert(hex_chars()[n] == t@[i]);
        }
    }
    t
}

} // verus!
