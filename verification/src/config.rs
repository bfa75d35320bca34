use vstd::prelude::*;
use vstd::string::*;

verus! {

/// An ASCII decimal digit.
pub open spec fn is_digit(c: char) -> bool {
    48 <= (c as u32) && (c as u32) <= 57
}

/// The numeric value of an ASCII decimal digit.
pub open spec fn digit_val(c: char) -> int {
    (c as u32) - 48
}

/// The digits of a limit value: everything after one optional leading plus
/// sign.
pub open spec fn digits_of(s: Seq<char>) -> Seq<char> {
    if s.len() > 0 && s[0] == '+' {
        s.drop_first()
    } else {
        s
    }
}

/// The number the digit string `ds` denotes in decimal.
pub open spec fn digits_value(ds: Seq<char>) -> int
    decreases ds.len(),
{
    if ds.len() == 0 {
        0
    } else {
        10 * digits_value(ds.drop_last()) + digit_val(ds.last())
    }
}

/// A well-formed size limit: at least one digit after the optional sign,
/// nothing but digits, and a value that fits the machine's word.
pub open spec fn is_valid_limit(s: Seq<char>) -> bool {
    &&& digits_of(s).len() > 0
    &&& (forall|j: int| 0 <= j < digits_of(s).len() ==> is_digit(#[trigger] digits_of(s)[j]))
    &&& digits_value(digits_of(s)) <= usize::MAX as int
}

/// A digit string denotes a non-negative number.
proof fn lemma_digits_value_nonneg(ds: Seq<char>)
    requires
        forall|j: int| 0 <= j < ds.len() ==> is_digit(#[trigger] ds[j]),
    ensures
        digits_value(ds) >= 0,
    decreases ds.len(),
{
    if ds.len() > 0 {
        assert(forall|j: int| 0 <= j < ds.drop_last().len() ==> is_digit(#[trigger] ds.drop_last()[j]));
        lemma_digits_value_nonneg(ds.drop_last());
        assert(ds.last() == ds[ds.len() - 1]);
        assert(is_digit(ds[ds.len() - 1]));
    }
}

/// Reading more digits never makes the denoted number smaller.
proof fn lemma_digits_value_prefix(ds: Seq<char>, m: int)
    requires
        0 <= m <= ds.len(),
        forall|j: int| 0 <= j < ds.len() ==> is_digit(#[trigger] ds[j]),
    ensures
        digits_value(ds.take(m)) <= digits_value(ds),
    decreases ds.len() - m,
{
    if m == ds.len() {
        assert(ds.take(m) =~= ds);
    } else {
        assert(ds.take(m + 1).drop_last() =~= ds.take(m));
        assert(ds.take(m + 1).last() == ds[m]);
        assert(forall|j: int| 0 <= j < ds.take(m).len() ==> is_digit(#[trigger] ds.take(m)[j]));
        lemma_digits_value_nonneg(ds.take(m));
        assert(is_digit(ds[m]));
        assert(digits_value(ds.take(m)) <= digits_value(ds.take(m + 1)));
        lemma_digits_value_prefix(ds, m + 1);
    }
}

/// Parse the configured body-size limit, as reading an unsigned machine
/// word from decimal text does: an optional leading plus sign, then one or
/// more digits, rejected when empty, when any other character occurs, or
/// when the value does not fit.
pub fn parse_limit(s: &str) -> (r: Option<usize>)
    ensures
        match r {
            Some(v) => is_valid_limit(s@) && v as int == digits_value(digits_of(s@)),
            None => !is_valid_limit(s@),
        },
{
    let n = s.unicode_len();
    let mut i: usize = 0;
    if n > 0 {
        if s.get_char(0) == '+' {
            i = 1;
        }
    }
    let ghost off = i as int;
    let ghost ds = digits_of(s@);
    proof {
        if off == 1 {
            assert(ds =~= s@.skip(1));
        } else {
            assert(ds =~= s@);
        }
    }
    if i == n {
        return None;
    }
    let mut val: usize = 0;
    while i < n
        invariant
            n == s@.len(),
            off <= i <= n,
            off == 0 || off == 1,
            ds == digits_of(s@),
            ds.len() == n - off,
            forall|j: int| 0 <= j < ds.len() ==> ds[j] == s@[j + off],
            forall|j: int| 0 <= j < i - off ==> is_digit(#[trigger] ds[j]),
            val as int == digits_value(ds.take(i - off)),
        decreases n - i,
    {
        let c = s.get_char(i);
        let u = c as u32;
        if u < 48 || u > 57 {
            proof {
                assert(ds[i - off] == s@[i as int]);
                assert(!is_digit(ds[i - off]));
            }
            return None;
        }
        let d = (u - 48) as usize;
        if val > (usize::MAX - d) / 10 {
            proof {
                assert(forall|j: int| 0 <= j < i + 1 - off ==> is_digit(#[trigger] ds[j]));
                assert(ds.take(i + 1 - off).drop_last() =~= ds.take(i - off));
                assert(ds.take(i + 1 - off).last() == ds[i - off]);
                assert(digit_val(ds[i - off]) == d as int);
                assert(digits_value(ds.take(i + 1 - off)) == 10 * (val as int) + digit_val(ds[i
                    - off]));
                assert(10 * (val as int) + d > usize::MAX as int) by (nonlinear_arith)
                    requires
                        val as int > (usize::MAX as int - d as int) / 10,
                        0 <= d <= 9,
                ;
                if is_valid_limit(s@) {
                    lemma_digits_value_prefix(ds, i + 1 - off);
                }
            }
            return None;
        }
        proof {
            assert(10 * (val as int) + d <= usize::MAX as int) by (nonlinear_arith)
                requires
                    val as int <= (usize::MAX as int - d as int) / 10,
                    0 <= d <= 9,
            ;
            assert(digit_val(ds[i - off]) == d as int);
            assert(ds.take(i + 1 - off).drop_last() =~= ds.take(i - off));
            assert(ds.take(i + 1 - off).last() == ds[i - off]);
        }
        val = val * 10 + d;
        i += 1;
    }
    proof {
        assert(ds.take(i - off) =~= ds);
    }
    Some(val)
}

} // verus!
