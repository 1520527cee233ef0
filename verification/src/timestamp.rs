//! Causal timestamps: wall-clock nanoseconds plus a logical counter,
//! ordered lexicographically, with a verified decimal rendering.

use vstd::prelude::*;

verus! {

/// A causally ordered timestamp: the wall-clock reading in nanoseconds
/// and a logical counter that breaks ties when the wall clock stalls or
/// steps backwards.
#[derive(Clone, Copy, PartialEq, Eq, Structural, Debug)]
pub struct CausalTimestamp {
    pub wall: u64,
    pub count: u32,
}

/// Strict order on timestamps: wall time first, counter second.
pub open spec fn ts_lt(a: CausalTimestamp, b: CausalTimestamp) -> bool {
    a.wall < b.wall || (a.wall == b.wall && a.count < b.count)
}

/// Non-strict order on timestamps.
pub open spec fn ts_le(a: CausalTimestamp, b: CausalTimestamp) -> bool {
    ts_lt(a, b) || a == b
}

/// In a strictly increasing sequence of timestamps no two are equal:
/// strict order in emission order gives pairwise uniqueness.
pub proof fn lemma_strictly_increasing_all_distinct(s: Seq<CausalTimestamp>)
    requires
        forall|i: int, j: int| 0 <= i < j < s.len() ==> ts_lt(s[i], s[j]),
    ensures
        forall|i: int, j: int|
            0 <= i < s.len() && 0 <= j < s.len() && i != j ==> s[i] != s[j],
{
    assert forall|i: int, j: int|
        0 <= i < s.len() && 0 <= j < s.len() && i != j implies s[i] != s[j] by {
        if i < j {
            assert(ts_lt(s[i], s[j]));
        } else {
            assert(ts_lt(s[j], s[i]));
        }
    }
}

/// The character for one decimal digit.
pub open spec fn digit_char(d: nat) -> char {
    if d == 0 {
        '0'
    } else if d == 1 {
        '1'
    } else if d == 2 {
        '2'
    } else if d == 3 {
        '3'
    } else if d == 4 {
        '4'
    } else if d == 5 {
        '5'
    } else if d == 6 {
        '6'
    } else if d == 7 {
        '7'
    } else if d == 8 {
        '8'
    } else {
        '9'
    }
}

/// The decimal representation of a natural number, most significant
/// digit first, with no leading zeros.
pub open spec fn dec_rep(n: nat) -> Seq<char>
    decreases n,
{
    if n < 10 {
        seq![digit_char(n)]
    } else {
        dec_rep(n / 10).push(digit_char(n % 10))
    }
}

fn digit_str(d: u64) -> (r: &'static str)
    requires
        d < 10,
    ensures
        r@ == seq![digit_char(d as nat)],
{
    proof {
        reveal_strlit("0");
        reveal_strlit("1");
        reveal_strlit("2");
        reveal_strlit("3");
        reveal_strlit("4");
        reveal_strlit("5");
        reveal_strlit("6");
        reveal_strlit("7");
        reveal_strlit("8");
        reveal_strlit("9");
    }
    let r: &'static str = if d == 0 {
        "0"
    } else if d == 1 {
        "1"
    } else if d == 2 {
        "2"
    } else if d == 3 {
        "3"
    } else if d == 4 {
        "4"
    } else if d == 5 {
        "5"
    } else if d == 6 {
        "6"
    } else if d == 7 {
        "7"
    } else if d == 8 {
        "8"
    } else {
        "9"
    };
    proof {
        assert(r@ =~= seq![digit_char(d as nat)]);
    }
    r
}

/// Renders a `u64` in decimal.
pub fn u64_to_dec(n: u64) -> (r: String)
    ensures
        r@ == dec_rep(n as nat),
    decreases n,
{
    if n < 10 {
        let s = digit_str(n).to_owned();
        proof {
            assert(s@ =~= dec_rep(n as nat));
        }
        s
    } else {
        let mut s = u64_to_dec(n / 10);
        s.append(digit_str(n % 10));
        proof {
            assert(s@ =~= dec_rep(n as nat));
        }
        s
    }
}

/// Whether a character is a decimal digit.
pub open spec fn is_dec_digit(c: char) -> bool {
    c == '0' || c == '1' || c == '2' || c == '3' || c == '4' || c == '5' || c == '6' || c == '7'
        || c == '8' || c == '9'
}

/// Every character of a decimal representation is a digit.
pub proof fn lemma_dec_rep_digits(n: nat)
    ensures
        forall|i: int| 0 <= i < dec_rep(n).len() ==> is_dec_digit(#[trigger] dec_rep(n)[i]),
    decreases n,
{
    if n < 10 {
        assert(is_dec_digit(digit_char(n)));
        assert(dec_rep(n)[0] == digit_char(n));
    } else {
        lemma_dec_rep_digits(n / 10);
        assert forall|i: int| 0 <= i < dec_rep(n).len() implies is_dec_digit(
            #[trigger] dec_rep(n)[i],
        ) by {
            if i < dec_rep(n / 10).len() {
                assert(dec_rep(n)[i] == dec_rep(n / 10)[i]);
            } else {
                assert(dec_rep(n)[i] == digit_char(n % 10));
                assert(is_dec_digit(digit_char(n % 10)));
            }
        }
    }
}

/// The textual form of a timestamp: `<wall>.<count>`.
pub open spec fn render_ts(t: CausalTimestamp) -> Seq<char> {
    dec_rep(t.wall as nat) + seq!['.'] + dec_rep(t.count as nat)
}

/// The position of the first occurrence of `c` in `w` (the length of `w`
/// if there is none).
pub open spec fn first_pos(w: Seq<char>, c: char) -> int
    decreases w.len(),
{
    if w.len() == 0 {
        0
    } else if w[0] == c {
        0
    } else {
        1 + first_pos(w.drop_first(), c)
    }
}

/// In `prefix + [c] + rest`, where the prefix is free of `c`, the first
/// occurrence of `c` is right after the prefix.
pub proof fn lemma_first_pos_of_concat(prefix: Seq<char>, c: char, rest: Seq<char>)
    requires
        forall|i: int| 0 <= i < prefix.len() ==> #[trigger] prefix[i] != c,
    ensures
        first_pos(prefix + seq![c] + rest, c) == prefix.len(),
    decreases prefix.len(),
{
    let w = prefix + seq![c] + rest;
    if prefix.len() == 0 {
        assert(w[0] == c);
    } else {
        assert(w[0] == prefix[0]);
        lemma_first_pos_of_concat(prefix.drop_first(), c, rest);
        assert(w.drop_first() =~= prefix.drop_first() + seq![c] + rest);
    }
}

/// A decimal representation is never empty, and one of a value of ten or
/// more has at least two digits.
proof fn lemma_dec_rep_len(n: nat)
    ensures
        dec_rep(n).len() >= 1,
        n >= 10 ==> dec_rep(n).len() >= 2,
    decreases n,
{
    if n >= 10 {
        lemma_dec_rep_len(n / 10);
    }
}

/// Decimal rendering is injective: distinct values render distinctly.
/// There are no leading zeros, so the representation is canonical.
pub proof fn lemma_dec_rep_injective(a: nat, b: nat)
    requires
        dec_rep(a) == dec_rep(b),
    ensures
        a == b,
    decreases a,
{
    lemma_dec_rep_len(a);
    lemma_dec_rep_len(b);
    if a < 10 && b < 10 {
        assert(dec_rep(a)[0] == digit_char(a));
        assert(dec_rep(b)[0] == digit_char(b));
    } else if a < 10 || b < 10 {
        assert(dec_rep(a).len() == dec_rep(b).len());
        assert(false);
    } else {
        assert(dec_rep(a).drop_last() =~= dec_rep(a / 10));
        assert(dec_rep(b).drop_last() =~= dec_rep(b / 10));
        assert(dec_rep(a).last() == digit_char(a % 10));
        assert(dec_rep(b).last() == digit_char(b % 10));
        assert(a % 10 == b % 10);
        lemma_dec_rep_injective(a / 10, b / 10);
        vstd::arithmetic::div_mod::lemma_fundamental_div_mod(a as int, 10);
        vstd::arithmetic::div_mod::lemma_fundamental_div_mod(b as int, 10);
    }
}

/// The rendered timestamp holds only digits and one dot, never a comma,
/// so the first comma of a wire-form record ends the timestamp field.
pub proof fn lemma_render_ts_no_comma(t: CausalTimestamp)
    ensures
        forall|i: int| 0 <= i < render_ts(t).len() ==> #[trigger] render_ts(t)[i] != ',',
{
    lemma_dec_rep_digits(t.wall as nat);
    lemma_dec_rep_digits(t.count as nat);
    let a = dec_rep(t.wall as nat);
    let b = dec_rep(t.count as nat);
    assert forall|i: int| 0 <= i < render_ts(t).len() implies #[trigger] render_ts(t)[i]
        != ',' by {
        if i < a.len() {
            assert(render_ts(t)[i] == a[i]);
            assert(is_dec_digit(a[i]));
        } else if i == a.len() {
            assert(render_ts(t)[i] == '.');
        } else {
            assert(render_ts(t)[i] == b[i - a.len() - 1]);
            assert(is_dec_digit(b[i - a.len() - 1]));
        }
    }
}

/// Timestamp rendering is injective: distinct timestamps render
/// distinctly. The wall part holds no dot, so the first dot separates the
/// two decimal fields, and each decimal field is canonical.
pub proof fn lemma_render_ts_injective(t1: CausalTimestamp, t2: CausalTimestamp)
    requires
        render_ts(t1) == render_ts(t2),
    ensures
        t1 == t2,
{
    lemma_dec_rep_digits(t1.wall as nat);
    lemma_dec_rep_digits(t2.wall as nat);
    let a1 = dec_rep(t1.wall as nat);
    let b1 = dec_rep(t1.count as nat);
    let a2 = dec_rep(t2.wall as nat);
    let b2 = dec_rep(t2.count as nat);
    assert forall|i: int| 0 <= i < a1.len() implies #[trigger] a1[i] != '.' by {
        assert(is_dec_digit(a1[i]));
    }
    assert forall|i: int| 0 <= i < a2.len() implies #[trigger] a2[i] != '.' by {
        assert(is_dec_digit(a2[i]));
    }
    lemma_first_pos_of_concat(a1, '.', b1);
    lemma_first_pos_of_concat(a2, '.', b2);
    assert(render_ts(t1) =~= a1 + seq!['.'] + b1);
    assert(render_ts(t2) =~= a2 + seq!['.'] + b2);
    assert(a1.len() == a2.len());
    assert(a1 =~= render_ts(t1).subrange(0, a1.len() as int));
    assert(a2 =~= render_ts(t2).subrange(0, a2.len() as int));
    lemma_dec_rep_injective(t1.wall as nat, t2.wall as nat);
    assert(b1 =~= render_ts(t1).subrange(a1.len() as int + 1, render_ts(t1).len() as int));
    assert(b2 =~= render_ts(t2).subrange(a2.len() as int + 1, render_ts(t2).len() as int));
    lemma_dec_rep_injective(t1.count as nat, t2.count as nat);
}

impl CausalTimestamp {
    /// Renders the timestamp as `<wall>.<count>`.
    pub fn render(&self) -> (r: String)
        ensures
            r@ == render_ts(*self),
    {
        let mut s = u64_to_dec(self.wall);
        s.append(".");
        let c = u64_to_dec(self.count as u64);
        s.append(c.as_str());
        proof {
            reveal_strlit(".");
            assert(s@ =~= render_ts(*self));
        }
        s
    }
}

} // verus!
