//! Decimal timestamps: parsing the `t=` value of the signature header and
//! rendering a timestamp into the signed payload.
//!
//! Parsing accepts exactly what Rust's integer parsing accepts: an optional
//! leading sign, then one or more decimal digits, with the value in range.

use vstd::prelude::*;

verus! {

pub open spec fn is_digit(c: char) -> bool {
    48 <= c as u32 <= 57
}

/// The numeric value of a digit character.
pub open spec fn digit_val(c: char) -> int {
    c as u32 - 48
}

/// The digit character for a value in `0 ..= 9`.
pub open spec fn digit_char(d: int) -> char {
    if d == 0 {
        '0'
    } else if d == 1 {
        '1'
    } else if d == 2 {
        '2'
    } else if d == 3 {
        '3'
    } else if d == 4 {
        '4'
    } else if d == 5 {
        '5'
    } else if d == 6 {
        '6'
    } else if d == 7 {
        '7'
    } else if d == 8 {
        '8'
    } else {
        '9'
    }
}

pub open spec fn all_digits(s: Seq<char>) -> bool {
    forall|i: int| 0 <= i < s.len() ==> is_digit(s[i])
}

/// The value of a digit string, most significant digit first.
pub open spec fn digits_val(s: Seq<char>) -> int
    decreases s.len(),
{
    if s.len() == 0 {
        0
    } else {
        digits_val(s.drop_last()) * 10 + digit_val(s.last())
    }
}

/// What Rust's `str::parse::<i64>` accepts and returns.
pub open spec fn spec_parse_i64(s: Seq<char>) -> Option<i64> {
    if s.len() == 0 {
        None
    } else {
        let neg = s[0] == '-';
        let ds = if s[0] == '-' || s[0] == '+' {
            s.skip(1)
        } else {
            s
        };
        if ds.len() == 0 || !all_digits(ds) {
            None
        } else {
            let v = if neg {
                -digits_val(ds)
            } else {
                digits_val(ds)
            };
            if i64::MIN <= v <= i64::MAX {
                Some(v as i64)
            } else {
                None
            }
        }
    }
}

/// The decimal digits of a nonnegative value.
pub open spec fn dec_nat_chars(v: int) -> Seq<char>
    decreases v,
{
    if v < 10 {
        seq![digit_char(v)]
    } else {
        dec_nat_chars(v / 10).push(digit_char(v % 10))
    }
}

/// The decimal rendering of a signed value, as `{v}` formatting writes it.
pub open spec fn dec_i64_chars(v: int) -> Seq<char> {
    if v < 0 {
        seq!['-'] + dec_nat_chars(-v)
    } else {
        dec_nat_chars(v)
    }
}

/// ASCII characters reread as bytes, for the signed payload.
pub open spec fn chars_to_bytes(s: Seq<char>) -> Seq<u8> {
    Seq::new(s.len(), |i: int| s[i] as u8)
}

pub open spec fn dec_i64_bytes(v: int) -> Seq<u8> {
    chars_to_bytes(dec_i64_chars(v))
}

pub proof fn lemma_digits_val_nonneg(s: Seq<char>)
    requires
        all_digits(s),
    ensures
        digits_val(s) >= 0,
    decreases s.len(),
{
    if s.len() > 0 {
        assert(all_digits(s.drop_last())) by {
            assert(forall|i: int|
                0 <= i < s.len() - 1 ==> s.drop_last()[i] == s[i] && is_digit(s[i]));
        }
        lemma_digits_val_nonneg(s.drop_last());
        assert(is_digit(s.last()));
    }
}

/// Reading more digits can only grow the value.
pub proof fn lemma_digits_val_prefix(s: Seq<char>, j: int)
    requires
        all_digits(s),
        0 <= j <= s.len(),
    ensures
        digits_val(s.take(j)) <= digits_val(s),
    decreases s.len(),
{
    if j == s.len() {
        assert(s.take(j) =~= s);
    } else {
        assert(all_digits(s.drop_last())) by {
            assert(forall|i: int|
                0 <= i < s.len() - 1 ==> s.drop_last()[i] == s[i] && is_digit(s[i]));
        }
        assert(s.take(j) =~= s.drop_last().take(j));
        lemma_digits_val_prefix(s.drop_last(), j);
        lemma_digits_val_nonneg(s.drop_last());
        assert(is_digit(s.last()));
        assert(digits_val(s.drop_last()) * 10 >= digits_val(s.drop_last()));
    }
}

/// Rendering a nonnegative value yields digits that read back as the value.
pub proof fn lemma_dec_nat_chars(v: int)
    requires
        v >= 0,
    ensures
        dec_nat_chars(v).len() >= 1,
        all_digits(dec_nat_chars(v)),
        digits_val(dec_nat_chars(v)) == v,
    decreases v,
{
    if v < 10 {
        let s = dec_nat_chars(v);
        assert(s == seq![digit_char(v)]);
        assert(is_digit(digit_char(v)));
        assert(s.drop_last() =~= Seq::<char>::empty());
        assert(digits_val(Seq::<char>::empty()) == 0);
        assert(s.last() == digit_char(v));
        assert(digit_val(digit_char(v)) == v);
        assert(digits_val(s) == digits_val(s.drop_last()) * 10 + digit_val(s.last()));
    } else {
        lemma_dec_nat_chars(v / 10);
        let p = dec_nat_chars(v / 10);
        let s = dec_nat_chars(v);
        assert(s == p.push(digit_char(v % 10)));
        assert(s.drop_last() =~= p);
        assert(s.last() == digit_char(v % 10));
        assert(is_digit(digit_char(v % 10)));
        assert(forall|i: int| 0 <= i < s.len() ==> is_digit(s[i])) by {
            assert(forall|i: int| 0 <= i < p.len() ==> s[i] == p[i]);
        }
        assert(digit_val(digit_char(v % 10)) == v % 10);
        assert(digits_val(s) == (v / 10) * 10 + v % 10);
        assert((v / 10) * 10 + v % 10 == v) by (nonlinear_arith);
    }
}

/// Rendering then parsing gives the value back.
pub proof fn lemma_parse_of_rendered(t: i64)
    ensures
        spec_parse_i64(dec_i64_chars(t as int)) == Some(t),
{
    if t >= 0 {
        let s = dec_nat_chars(t as int);
        lemma_dec_nat_chars(t as int);
        assert(is_digit(s[0]));
        assert(s[0] != '-' && s[0] != '+');
        assert(spec_parse_i64(s) == Some(t));
    } else {
        let m = -(t as int);
        lemma_dec_nat_chars(m);
        let s = dec_i64_chars(t as int);
        assert(s[0] == '-');
        assert(s.skip(1) =~= dec_nat_chars(m));
        assert(spec_parse_i64(s) == Some(t));
    }
}

/// Parses a decimal integer exactly as `str::parse::<i64>` does: optional
/// sign, one or more digits, nothing else, value within the `i64` range.
pub fn parse_i64_str(s: &str) -> (r: Option<i64>)
    ensures
        r == spec_parse_i64(s@),
{
    let len = s.unicode_len();
    if len == 0 {
        return None;
    }
    let c0 = s.get_char(0);
    let neg = c0 == '-';
    let start: usize = if c0 == '-' || c0 == '+' {
        1
    } else {
        0
    };
    let ghost ds: Seq<char> = if c0 == '-' || c0 == '+' {
        s@.skip(1)
    } else {
        s@
    };
    proof {
        assert(ds.len() == len - start);
        assert(forall|k: int| 0 <= k < ds.len() ==> ds[k] == s@[k + start]);
    }
    if start == len {
        return None;
    }
    let mut i: usize = start;
    while i < len
        invariant
            start <= i <= len,
            0 < len == s@.len(),
            start < len,
            ds == (if s@[0] == '-' || s@[0] == '+' {
                s@.skip(1)
            } else {
                s@
            }),
            start == (if s@[0] == '-' || s@[0] == '+' {
                1usize
            } else {
                0usize
            }),
            ds.len() == len - start,
            forall|k: int| 0 <= k < ds.len() ==> ds[k] == s@[k + start],
            forall|k: int| 0 <= k < i - start ==> is_digit(ds[k]),
        decreases len - i,
    {
        let c = s.get_char(i);
        let cu = c as u32;
        if cu < 48 || cu > 57 {
            proof {
                assert(ds[i - start] == s@[i as int]);
                assert(!is_digit(ds[i - start]));
                assert(!all_digits(ds));
                assert(spec_parse_i64(s@) is None);
            }
            return None;
        }
        i = i + 1;
    }
    proof {
        assert(all_digits(ds));
    }
    let limit: u64 = if neg {
        9223372036854775808
    } else {
        9223372036854775807
    };
    let mut mag: u64 = 0;
    let mut j: usize = start;
    proof {
        assert(ds.take(0) =~= Seq::<char>::empty());
    }
    while j < len
        invariant
            start <= j <= len,
            0 < len == s@.len(),
            start < len,
            ds == (if s@[0] == '-' || s@[0] == '+' {
                s@.skip(1)
            } else {
                s@
            }),
            start == (if s@[0] == '-' || s@[0] == '+' {
                1usize
            } else {
                0usize
            }),
            neg == (s@[0] == '-'),
            ds.len() == len - start,
            forall|k: int| 0 <= k < ds.len() ==> ds[k] == s@[k + start],
            all_digits(ds),
            limit == if neg {
                9223372036854775808u64
            } else {
                9223372036854775807u64
            },
            mag == digits_val(ds.take(j - start)),
            mag <= limit,
        decreases len - j,
    {
        let c = s.get_char(j);
        proof {
            assert(ds[j - start] == s@[j as int]);
            assert(is_digit(ds[j - start]));
        }
        let d: u64 = (c as u32 - 48) as u64;
        proof {
            assert(d == digit_val(ds[j - start]));
            assert(ds.take(j - start + 1).drop_last() =~= ds.take(j - start));
            assert(ds.take(j - start + 1).last() == ds[j - start]);
            assert(digits_val(ds.take(j - start + 1)) == mag * 10 + d);
            assert((limit - d) == ((limit - d) / 10) * 10 + (limit - d) % 10) by (nonlinear_arith);
            assert(0 <= (limit - d) % 10 < 10) by (nonlinear_arith);
        }
        if mag > (limit - d) / 10 {
            proof {
                assert(mag * 10 + d > limit);
                lemma_digits_val_prefix(ds, j - start + 1);
                assert(digits_val(ds) > limit);
            }
            return None;
        }
        proof {
            assert(mag * 10 + d <= limit);
        }
        mag = mag * 10 + d;
        j = j + 1;
    }
    proof {
        assert(ds.take(len - start) =~= ds);
        lemma_digits_val_nonneg(ds);
    }
    if neg {
        if mag == 9223372036854775808 {
            Some(i64::MIN)
        } else {
            Some(-(mag as i64))
        }
    } else {
        Some(mag as i64)
    }
}

/// Renders the decimal digits of a value, most significant first.
fn format_u64_digits(v: u64) -> (r: Vec<u8>)
    ensures
        r@ == chars_to_bytes(dec_nat_chars(v as int)),
    decreases v,
{
    if v < 10 {
        let mut r: Vec<u8> = Vec::new();
        r.push(48 + v as u8);
        proof {
            assert(r@ =~= chars_to_bytes(dec_nat_chars(v as int)));
        }
        r
    } else {
        let mut r = format_u64_digits(v / 10);
        r.push(48 + (v % 10) as u8);
        proof {
            assert(dec_nat_chars(v as int).drop_last() =~= dec_nat_chars(v as int / 10));
            assert(r@ =~= chars_to_bytes(dec_nat_chars(v as int)));
        }
        r
    }
}

/// Renders a timestamp exactly as `{v}` formatting would, as bytes.
pub fn format_i64(v: i64) -> (r: Vec<u8>)
    ensures
        r@ == dec_i64_bytes(v as int),
{
    if v >= 0 {
        let r = format_u64_digits(v as u64);
        proof {
            assert(r@ == dec_i64_bytes(v as int));
        }
        r
    } else {
        let mag: u64 = (-(v as i128)) as u64;
        proof {
            assert(mag as int == -(v as int));
        }
        let mut r: Vec<u8> = Vec::new();
        r.push(45);
        let mut digits = format_u64_digits(mag);
        r.append(&mut digits);
        proof {
            assert('-' as u8 == 45u8);
            assert(r@ =~= chars_to_bytes(seq!['-'] + dec_nat_chars(mag as int)));
        }
        r
    }
}

/// No digit is a separator of the header format or the payload dot.
pub proof fn lemma_digits_not_separators(s: Seq<char>)
    requires
        all_digits(s),
    ensures
        forall|i: int| 0 <= i < s.len() ==> s[i] != ',' && s[i] != '=',
{
    assert(forall|i: int| 0 <= i < s.len() ==> is_digit(s[i]) && s[i] != ',' && s[i] != '=');
}

} // verus!
