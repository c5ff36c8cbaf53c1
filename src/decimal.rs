//! Decimal integers as `str::parse::<i32>` reads them: an optional `+` or `-`,
//! then one or more ASCII digits, with a value that fits in an `i32`.
use vstd::prelude::*;
use vstd::string::StringSliceAdditionalSpecFns;

verus! {

pub open spec fn is_digit(b: u8) -> bool {
    48 <= b <= 57
}

pub open spec fn all_digits(d: Seq<u8>) -> bool {
    forall|i: int| 0 <= i < d.len() ==> is_digit(#[trigger] d[i])
}

/// The value of a run of decimal digits, most significant first.
pub open spec fn digits_value(d: Seq<u8>) -> int
    decreases d.len(),
{
    if d.len() == 0 {
        0
    } else {
        digits_value(d.drop_last()) * 10 + (d.last() - 48)
    }
}

/// The digits that follow an optional sign.
pub open spec fn unsigned_part(b: Seq<u8>) -> Seq<u8> {
    if b.len() > 0 && (b[0] == 45 || b[0] == 43) {
        b.drop_first()
    } else {
        b
    }
}

pub open spec fn is_negative(b: Seq<u8>) -> bool {
    b.len() > 0 && b[0] == 45
}

/// What the bytes `b` denote as an `i32`, or `None` where they are no such number.
pub open spec fn decimal_i32(b: Seq<u8>) -> Option<i32> {
    let d = unsigned_part(b);
    let v = if is_negative(b) { -digits_value(d) } else { digits_value(d) };
    if d.len() > 0 && all_digits(d) && i32::MIN <= v <= i32::MAX {
        Some(v as i32)
    } else {
        None
    }
}

proof fn lemma_digits_value_nonneg(d: Seq<u8>)
    requires
        all_digits(d),
    ensures
        digits_value(d) >= 0,
    decreases d.len(),
{
    if d.len() > 0 {
        assert(all_digits(d.drop_last())) by {
            assert forall|i: int| 0 <= i < d.drop_last().len() implies is_digit(
                #[trigger] d.drop_last()[i],
            ) by {
                assert(d.drop_last()[i] == d[i]);
            }
        }
        lemma_digits_value_nonneg(d.drop_last());
        assert(is_digit(d[d.len() - 1]));
    }
}

/// A longer run of digits is worth at least as much as any of its prefixes.
proof fn lemma_digits_value_prefix(d: Seq<u8>, i: int)
    requires
        all_digits(d),
        0 <= i <= d.len(),
    ensures
        digits_value(d.take(i)) <= digits_value(d),
    decreases d.len() - i,
{
    if i < d.len() {
        lemma_digits_value_prefix(d, i + 1);
        let p = d.take(i + 1);
        assert(p.drop_last() =~= d.take(i));
        assert(is_digit(d[i]));
        assert(all_digits(d.take(i))) by {
            assert forall|k: int| 0 <= k < d.take(i).len() implies is_digit(
                #[trigger] d.take(i)[k],
            ) by {
                assert(d.take(i)[k] == d[k]);
            }
        }
        lemma_digits_value_nonneg(d.take(i));
    } else {
        assert(d.take(i) =~= d);
    }
}

/// Parses `s` as `str::parse::<i32>` does.
pub fn parse_i32(s: &str) -> (r: Option<i32>)
    ensures
        r == decimal_i32(s.spec_bytes()),
{
    let b = s.as_bytes();
    let n = b.len();
    let ghost bs = s.spec_bytes();
    let mut start: usize = 0;
    let mut negative = false;
    if n > 0 && (b[0] == 45u8 || b[0] == 43u8) {
        start = 1;
        negative = b[0] == 45u8;
    }
    let ghost d = unsigned_part(bs);
    assert(d =~= bs.subrange(start as int, n as int));
    assert(negative == is_negative(bs));
    if start >= n {
        return None;
    }
    let mut acc: i64 = 0;
    let mut i: usize = start;
    while i < n
        invariant
            b@ == bs,
            n == bs.len(),
            start <= i <= n,
            d == bs.subrange(start as int, n as int),
            d == unsigned_part(bs),
            bs == s.spec_bytes(),
            negative == is_negative(bs),
            0 <= acc <= 2147483648,
            acc == digits_value(d.take(i - start)),
            all_digits(d.take(i - start)),
        decreases n - i,
    {
        let c = b[i];
        if c < 48u8 || c > 57u8 {
            assert(d[i - start] == c);
            return None;
        }
        let next = acc * 10 + (c - 48u8) as i64;
        proof {
            let p = d.take(i - start + 1);
            assert(p.drop_last() =~= d.take(i - start));
            assert(p.last() == c);
            assert(all_digits(p)) by {
                assert forall|k: int| 0 <= k < p.len() implies is_digit(#[trigger] p[k]) by {
                    if k < p.len() - 1 {
                        assert(p[k] == d.take(i - start)[k]);
                    }
                }
            }
        }
        if next > 2147483648 {
            proof {
                if all_digits(d) {
                    lemma_digits_value_prefix(d, i - start + 1);
                }
            }
            return None;
        }
        acc = next;
        i = i + 1;
    }
    assert(d.take(n - start) =~= d);
    let v: i64 = if negative { -acc } else { acc };
    if v > 2147483647 {
        None
    } else {
        Some(v as i32)
    }
}

} // verus!
