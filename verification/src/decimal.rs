//! Decimal rendering of lengths for error messages.

use vstd::prelude::*;

verus! {

use vstd::string::StringExecFns;

/// The decimal digit character for `d`.
pub open spec fn spec_digit(d: int) -> char {
    if d == 0 {
        '0'
    } else if d == 1 {
        '1'
    } else if d == 2 {
        '2'
    } else if d == 3 {
        '3'
    } else if d == 4 {
        '4'
    } else if d == 5 {
        '5'
    } else if d == 6 {
        '6'
    } else if d == 7 {
        '7'
    } else if d == 8 {
        '8'
    } else {
        '9'
    }
}

/// The usual decimal rendering of `n`: most significant digit first, no
/// leading zeroes (a single zero for zero).
pub open spec fn spec_decimal(n: nat) -> Seq<char>
    decreases n,
{
    if n < 10 {
        seq![spec_digit(n as int)]
    } else {
        spec_decimal(n / 10).push(spec_digit((n % 10) as int))
    }
}

/// The one-character string for digit `d`.
fn digit_str(d: usize) -> (r: &'static str)
    requires
        d < 10,
    ensures
        r@ == seq![spec_digit(d as int)],
{
    let r: &'static str = match d {
        0 => "0",
        1 => "1",
        2 => "2",
        3 => "3",
        4 => "4",
        5 => "5",
        6 => "6",
        7 => "7",
        8 => "8",
        _ => "9",
    };
    proof {
        reveal_strlit("0");
        reveal_strlit("1");
        reveal_strlit("2");
        reveal_strlit("3");
        reveal_strlit("4");
        reveal_strlit("5");
        reveal_strlit("6");
        reveal_strlit("7");
        reveal_strlit("8");
        reveal_strlit("9");
        assert(r@ =~= seq![spec_digit(d as int)]);
    }
    r
}

/// The digit strings of `parts`, concatenated in reverse order (`parts` holds
/// the least significant digit first).
spec fn rev_concat(parts: Seq<&str>) -> Seq<char>
    decreases parts.len(),
{
    if parts.len() == 0 {
        Seq::empty()
    } else {
        rev_concat(parts.drop_first()) + parts[0]@
    }
}

/// Appending one more (less significant) digit part prepends its characters
/// to the reversed concatenation.
proof fn lemma_rev_concat_push(parts: Seq<&str>, p: &str)
    ensures
        rev_concat(parts.push(p)) == p@ + rev_concat(parts),
    decreases parts.len(),
{
    if parts.len() == 0 {
        assert(parts.push(p).drop_first() =~= Seq::<&str>::empty());
        assert(parts.push(p)[0] == p);
        assert(rev_concat(parts.push(p)) == rev_concat(parts.push(p).drop_first()) + parts.push(
            p,
        )[0]@);
        assert(rev_concat(Seq::<&str>::empty()) == Seq::<char>::empty());
        assert(rev_concat(parts.push(p)) =~= p@ + rev_concat(parts));
    } else {
        assert(parts.push(p).drop_first() =~= parts.drop_first().push(p));
        lemma_rev_concat_push(parts.drop_first(), p);
        assert((p@ + rev_concat(parts.drop_first())) + parts[0]@ =~= p@ + (rev_concat(
            parts.drop_first(),
        ) + parts[0]@));
        assert(rev_concat(parts.push(p)) =~= p@ + rev_concat(parts));
    }
}

/// Render `n` in decimal.
pub fn decimal_string(n: usize) -> (r: String)
    ensures
        r@ == spec_decimal(n as nat),
{
    let mut parts: Vec<&'static str> = Vec::new();
    let mut m: usize = n;
    let p0 = digit_str(m % 10);
    proof {
        lemma_rev_concat_push(parts@, p0);
        if m >= 10 {
            assert(spec_decimal(m as nat) =~= spec_decimal((m / 10) as nat) + p0@);
        } else {
            assert(spec_decimal(m as nat) =~= Seq::<char>::empty() + p0@);
        }
    }
    parts.push(p0);
    m = m / 10;
    while m > 0
        invariant
            m > 0 ==> spec_decimal(n as nat) == spec_decimal(m as nat) + rev_concat(parts@),
            m == 0 ==> spec_decimal(n as nat) == rev_concat(parts@),
        decreases m,
    {
        let p = digit_str(m % 10);
        proof {
            lemma_rev_concat_push(parts@, p);
            if m >= 10 {
                assert(spec_decimal(m as nat) =~= spec_decimal((m / 10) as nat) + p@);
                assert(spec_decimal((m / 10) as nat) + (p@ + rev_concat(parts@))
                    =~= spec_decimal((m / 10) as nat) + p@ + rev_concat(parts@));
            } else {
                assert(spec_decimal(m as nat) =~= Seq::<char>::empty() + p@);
                assert(Seq::<char>::empty() + p@ + rev_concat(parts@) =~= p@ + rev_concat(
                    parts@,
                ));
            }
        }
        parts.push(p);
        m = m / 10;
    }
    let mut out = String::new();
    let mut j: usize = parts.len();
    while j > 0
        invariant
            j <= parts@.len(),
            out@ == rev_concat(parts@.subrange(j as int, parts@.len() as int)),
        decreases j,
    {
        j = j - 1;
        out.append(parts[j]);
        proof {
            let tail = parts@.subrange(j as int, parts@.len() as int);
            assert(tail.drop_first() =~= parts@.subrange(j as int + 1, parts@.len() as int));
            assert(out@ == rev_concat(tail));
        }
    }
    proof {
        assert(parts@.subrange(0, parts@.len() as int) =~= parts@);
    }
    out
}

} // verus!
