//! Decimal rendering of integers with thousands-separator grouping: digits
//! are grouped in threes from the right with `,`, independent of sign.

use vstd::prelude::*;
use vstd::string::StringExecFns;

verus! {

/// The decimal digit character for `d` in 0..=9.
pub open spec fn spec_digit_char(d: int) -> char {
    if d == 0 {
        '0'
    } else if d == 1 {
        '1'
    } else if d == 2 {
        '2'
    } else if d == 3 {
        '3'
    } else if d == 4 {
        '4'
    } else if d == 5 {
        '5'
    } else if d == 6 {
        '6'
    } else if d == 7 {
        '7'
    } else if d == 8 {
        '8'
    } else {
        '9'
    }
}

/// The decimal representation of `n`, most significant digit first, with no
/// leading zeros (a single `'0'` for zero).
pub open spec fn spec_dec_rep(n: nat) -> Seq<char>
    decreases n,
{
    if n < 10 {
        seq![spec_digit_char(n as int)]
    } else {
        spec_dec_rep(n / 10).push(spec_digit_char((n % 10) as int))
    }
}

/// Exactly three decimal digits for `n < 1000`, zero-padded on the left.
pub open spec fn spec_pad3(n: nat) -> Seq<char> {
    seq![
        spec_digit_char((n / 100) as int),
        spec_digit_char(((n / 10) % 10) as int),
        spec_digit_char((n % 10) as int),
    ]
}

/// The decimal representation of `n` with a `,` between every group of three
/// digits, counted from the right.
pub open spec fn spec_grouped(n: nat) -> Seq<char>
    decreases n,
{
    if n < 1000 {
        spec_dec_rep(n)
    } else {
        spec_grouped(n / 1000).push(',') + spec_pad3(n % 1000)
    }
}

/// Comma-grouped decimal representation of a signed value: a leading `'-'`
/// for negatives, then the grouped magnitude.
pub open spec fn spec_grouped_signed(n: int) -> Seq<char> {
    if n < 0 {
        seq!['-'] + spec_grouped((-n) as nat)
    } else {
        spec_grouped(n as nat)
    }
}

/// `s` with every `','` removed.
pub open spec fn spec_strip_commas(s: Seq<char>) -> Seq<char>
    decreases s.len(),
{
    if s.len() == 0 {
        s
    } else if s[0] == ',' {
        spec_strip_commas(s.drop_first())
    } else {
        seq![s[0]] + spec_strip_commas(s.drop_first())
    }
}

proof fn lemma_strip_concat(a: Seq<char>, b: Seq<char>)
    ensures
        spec_strip_commas(a + b) == spec_strip_commas(a) + spec_strip_commas(b),
    decreases a.len(),
{
    if a.len() == 0 {
        assert(a + b =~= b);
        assert(spec_strip_commas(a) + spec_strip_commas(b) =~= spec_strip_commas(b));
    } else {
        assert((a + b).drop_first() =~= a.drop_first() + b);
        assert((a + b)[0] == a[0]);
        lemma_strip_concat(a.drop_first(), b);
        if a[0] != ',' {
            assert(seq![a[0]] + (spec_strip_commas(a.drop_first()) + spec_strip_commas(b)) =~= (
            seq![a[0]] + spec_strip_commas(a.drop_first())) + spec_strip_commas(b));
        }
    }
}

proof fn lemma_strip_comma_free(s: Seq<char>)
    requires
        forall|i: int| 0 <= i < s.len() ==> s[i] != ',',
    ensures
        spec_strip_commas(s) == s,
    decreases s.len(),
{
    if s.len() > 0 {
        lemma_strip_comma_free(s.drop_first());
        assert(seq![s[0]] + s.drop_first() =~= s);
    }
}

proof fn lemma_dec_rep_comma_free(n: nat)
    ensures
        forall|i: int| 0 <= i < spec_dec_rep(n).len() ==> spec_dec_rep(n)[i] != ',',
    decreases n,
{
    if n < 10 {
        assert(spec_dec_rep(n) == seq![spec_digit_char(n as int)]);
    } else {
        lemma_dec_rep_comma_free(n / 10);
        let head = spec_dec_rep(n / 10);
        assert forall|i: int| 0 <= i < spec_dec_rep(n).len() implies spec_dec_rep(n)[i] != ','
        by {
            if i < head.len() {
                assert(spec_dec_rep(n)[i] == head[i]);
            } else {
                assert(spec_dec_rep(n)[i] == spec_digit_char((n % 10) as int));
            }
        }
    }
}

/// A number of at least four digits splits as its leading digits followed by
/// its three final digits, zero-padded.
proof fn lemma_dec_rep_split(n: nat)
    requires
        n >= 1000,
    ensures
        spec_dec_rep(n) == spec_dec_rep(n / 1000) + spec_pad3(n % 1000),
{
    let ni = n as int;
    let q = ni / 1000;
    let r = ni % 1000;
    vstd::arithmetic::div_mod::lemma_fundamental_div_mod(ni, 1000);
    vstd::arithmetic::div_mod::lemma_mod_division_less_than_divisor(ni, 1000);
    vstd::arithmetic::div_mod::lemma_div_pos_is_pos(ni, 1000);
    vstd::arithmetic::div_mod::lemma_fundamental_div_mod(r, 10);
    vstd::arithmetic::div_mod::lemma_mod_division_less_than_divisor(r, 10);
    vstd::arithmetic::div_mod::lemma_div_pos_is_pos(r, 10);
    // ni / 10 == 100 * q + r / 10, and ni % 10 == r % 10.
    assert(ni == 10 * (100 * q + r / 10) + r % 10);
    vstd::arithmetic::div_mod::lemma_div_multiples_vanish_fancy(100 * q + r / 10, r % 10, 10);
    assert(ni / 10 == 100 * q + r / 10);
    vstd::arithmetic::div_mod::lemma_mod_multiples_vanish(100 * q + r / 10, r % 10, 10);
    vstd::arithmetic::div_mod::lemma_small_mod((r % 10) as nat, 10);
    assert(ni % 10 == r % 10);
    // ni / 100 == 10 * q + r / 100, and (ni / 10) % 10 == (r / 10) % 10.
    vstd::arithmetic::div_mod::lemma_mod_multiples_vanish(10 * q, r / 10, 10);
    assert((ni / 10) % 10 == (r / 10) % 10);
    vstd::arithmetic::div_mod::lemma_fundamental_div_mod(r / 10, 10);
    vstd::arithmetic::div_mod::lemma_mod_division_less_than_divisor(r / 10, 10);
    vstd::arithmetic::div_mod::lemma_div_pos_is_pos(r / 10, 10);
    assert(ni / 10 == 10 * (10 * q + (r / 10) / 10) + (r / 10) % 10);
    vstd::arithmetic::div_mod::lemma_div_multiples_vanish_fancy(
        10 * q + (r / 10) / 10,
        (r / 10) % 10,
        10,
    );
    assert((ni / 10) / 10 == 10 * q + (r / 10) / 10);
    vstd::arithmetic::div_mod::lemma_div_denominator(ni, 10, 10);
    assert(ni / 100 == 10 * q + (r / 10) / 10);
    vstd::arithmetic::div_mod::lemma_div_denominator(r, 10, 10);
    assert(ni / 100 == 10 * q + r / 100);
    vstd::arithmetic::div_mod::lemma_mod_multiples_vanish(10 * q, r / 100, 10);
    vstd::arithmetic::div_mod::lemma_small_mod((r / 100) as nat, 10);
    assert((ni / 100) % 10 == r / 100);
    // (ni / 100) / 10 == ni / 1000 == q.
    vstd::arithmetic::div_mod::lemma_div_denominator(ni, 100, 10);
    assert(ni / 1000 == (ni / 100) / 10);
    // The three final digits of the representation are pad3 of the remainder.
    assert(n / 10 >= 100) by {
        vstd::arithmetic::div_mod::lemma_div_is_ordered(1000, ni, 10);
    }
    assert(n / 100 >= 10) by {
        vstd::arithmetic::div_mod::lemma_div_is_ordered(1000, ni, 100);
    }
    assert(spec_dec_rep(n) == spec_dec_rep(n / 10).push(spec_digit_char((n % 10) as int)));
    assert(spec_dec_rep(n / 10) == spec_dec_rep(n / 100).push(
        spec_digit_char(((n / 10) % 10) as int),
    ));
    assert(spec_dec_rep(n / 100) == spec_dec_rep(n / 1000).push(
        spec_digit_char(((n / 100) % 10) as int),
    ));
    assert((n / 10) as int == ni / 10);
    assert((n / 100) as int == (ni / 10) / 10);
    assert((n / 1000) as int == ni / 1000);
    assert((n % 1000) as int == r);
    assert(spec_dec_rep(n) =~= spec_dec_rep(n / 1000) + spec_pad3(n % 1000));
}

/// Removing the grouping commas from the grouped representation leaves
/// exactly the plain decimal representation: grouping inserts separators and
/// neither loses, adds nor reorders digits.
pub proof fn lemma_grouped_strips_to_decimal(n: nat)
    ensures
        spec_strip_commas(spec_grouped(n)) == spec_dec_rep(n),
    decreases n,
{
    if n < 1000 {
        lemma_dec_rep_comma_free(n);
        lemma_strip_comma_free(spec_dec_rep(n));
    } else {
        lemma_grouped_strips_to_decimal(n / 1000);
        lemma_dec_rep_split(n);
        let g = spec_grouped(n / 1000);
        let p = spec_pad3(n % 1000);
        assert(spec_grouped(n) =~= (g + seq![',']) + p);
        lemma_strip_concat(g + seq![','], p);
        lemma_strip_concat(g, seq![',']);
        let comma = seq![','];
        assert(comma.drop_first() =~= Seq::<char>::empty());
        assert(spec_strip_commas(Seq::<char>::empty()) =~= Seq::<char>::empty());
        assert(spec_strip_commas(comma) =~= Seq::<char>::empty());
        assert forall|i: int| 0 <= i < p.len() implies p[i] != ',' by {}
        lemma_strip_comma_free(p);
        assert(spec_strip_commas(g) + Seq::<char>::empty() =~= spec_strip_commas(g));
        assert(spec_strip_commas(spec_grouped(n)) =~= spec_dec_rep(n));
    }
}

/// A single decimal digit as a string slice.
fn digit_str(d: u64) -> (r: &'static str)
    requires
        d < 10,
    ensures
        r@ == seq![spec_digit_char(d as int)],
{
    proof {
        reveal_strlit("0");
        reveal_strlit("1");
        reveal_strlit("2");
        reveal_strlit("3");
        reveal_strlit("4");
        reveal_strlit("5");
        reveal_strlit("6");
        reveal_strlit("7");
        reveal_strlit("8");
        reveal_strlit("9");
    }
    let r: &'static str = match d {
        0 => "0",
        1 => "1",
        2 => "2",
        3 => "3",
        4 => "4",
        5 => "5",
        6 => "6",
        7 => "7",
        8 => "8",
        _ => "9",
    };
    proof {
        assert(r@ =~= seq![spec_digit_char(d as int)]);
    }
    r
}

/// Plain decimal rendering of an unsigned value, no grouping.
pub fn u64_to_dec(n: u64) -> (s: String)
    ensures
        s@ == spec_dec_rep(n as nat),
    decreases n,
{
    if n < 10 {
        String::from_str(digit_str(n))
    } else {
        let mut s = u64_to_dec(n / 10);
        s.append(digit_str(n % 10));
        proof {
            assert(s@ =~= spec_dec_rep(n as nat));
        }
        s
    }
}

/// Comma-grouped decimal rendering of an unsigned value.
pub fn u64_to_grouped(n: u64) -> (s: String)
    ensures
        s@ == spec_grouped(n as nat),
    decreases n,
{
    if n < 1000 {
        u64_to_dec(n)
    } else {
        let mut s = u64_to_grouped(n / 1000);
        s.append(",");
        let r = n % 1000;
        s.append(digit_str(r / 100));
        s.append(digit_str((r / 10) % 10));
        s.append(digit_str(r % 10));
        proof {
            reveal_strlit(",");
            assert(s@ =~= spec_grouped(n as nat));
        }
        s
    }
}

/// Magnitude of a signed value as a `u64`, total over the whole `i64` range.
pub fn abs_u64(n: i64) -> (r: u64)
    ensures
        r as int == if n < 0 {
            -(n as int)
        } else {
            n as int
        },
{
    if n >= 0 {
        n as u64
    } else if n == i64::MIN {
        9223372036854775808u64
    } else {
        (-n) as u64
    }
}

/// Comma-grouped decimal rendering of a signed value.
pub fn i64_to_grouped(n: i64) -> (s: String)
    ensures
        s@ == spec_grouped_signed(n as int),
{
    if n < 0 {
        let mut s = String::from_str("-");
        let mag = u64_to_grouped(abs_u64(n));
        s.append(mag.as_str());
        proof {
            reveal_strlit("-");
            assert(s@ =~= spec_grouped_signed(n as int));
        }
        s
    } else {
        u64_to_grouped(n as u64)
    }
}

/// Wraps a signed integer to render it with thousands-separator grouping.
pub struct CommaWrapper(pub i64);

impl CommaWrapper {
    pub fn new(inner: i64) -> (r: CommaWrapper)
        ensures
            r.0 == inner,
    {
        CommaWrapper(inner)
    }

    /// The wrapped value rendered with `,` between every three digits.
    pub fn comma_string(&self) -> (s: String)
        ensures
            s@ == spec_grouped_signed(self.0 as int),
    {
        i64_to_grouped(self.0)
    }
}

} // verus!
