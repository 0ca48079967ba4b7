//! Decimal parsing and printing for the rating field.
//!
//! The rating text is parsed with the same outcome as Rust's integer
//! parse for `i32`: an optional sign followed by at least one decimal
//! digit, rejecting anything else and rejecting values outside the
//! `i32` range. A parsed rating is re-rendered in canonical decimal
//! form.

use vstd::prelude::*;

verus! {

/// The byte is a decimal digit.
pub open spec fn is_digit(b: u8) -> bool {
    48 <= b && b <= 57
}

/// All bytes of `s` are decimal digits.
pub open spec fn all_digits(s: Seq<u8>) -> bool {
    forall|i: int| 0 <= i < s.len() ==> is_digit(#[trigger] s[i])
}

/// Value of a digit string read left to right on top of `acc`.
pub open spec fn digits_val_acc(s: Seq<u8>, acc: int) -> int
    decreases s.len(),
{
    if s.len() == 0 {
        acc
    } else {
        digits_val_acc(s.drop_first(), acc * 10 + (s[0] - 48))
    }
}

/// Value of a digit string.
pub open spec fn digits_val(s: Seq<u8>) -> int {
    digits_val_acc(s, 0)
}

/// Reading further digits never decreases a nonnegative accumulator.
pub proof fn lemma_digits_val_acc_grows(s: Seq<u8>, acc: int)
    requires
        all_digits(s),
        acc >= 0,
    ensures
        digits_val_acc(s, acc) >= acc,
    decreases s.len(),
{
    if s.len() > 0 {
        assert(is_digit(s[0]));
        assert(all_digits(s.drop_first())) by {
            assert(forall|i: int|
                0 <= i < s.drop_first().len() ==> s.drop_first()[i] == s[i + 1]);
        }
        lemma_digits_val_acc_grows(s.drop_first(), acc * 10 + (s[0] - 48));
    }
}

/// The outcome of parsing `s` as an `i32`: an optional `+` or `-`
/// sign, then one or more digits, with the value in range.
pub open spec fn parse_i32_spec(s: Seq<u8>) -> Option<i32> {
    let (neg, ds) = if s.len() > 0 && (s[0] == 43 || s[0] == 45) {
        (s[0] == 45, s.drop_first())
    } else {
        (false, s)
    };
    if ds.len() == 0 || !all_digits(ds) {
        None
    } else {
        let v = digits_val(ds);
        if neg {
            if v <= 0x8000_0000 {
                Some((-v) as i32)
            } else {
                None
            }
        } else {
            if v <= 0x7fff_ffff {
                Some(v as i32)
            } else {
                None
            }
        }
    }
}

/// Parse the digit part of `s` from index `start`, returning its value
/// when it is a nonempty all-digit string with value at most 2^31.
fn parse_digits(s: &Vec<u8>, start: usize) -> (r: Option<u64>)
    requires
        start <= s@.len(),
    ensures
        ({
            let ds = s@.subrange(start as int, s@.len() as int);
            match r {
                Some(v) => ds.len() > 0 && all_digits(ds) && v == digits_val(ds) && v
                    <= 0x8000_0000,
                None => ds.len() == 0 || !all_digits(ds) || digits_val(ds) > 0x8000_0000,
            }
        }),
{
    let ghost ds = s@.subrange(start as int, s@.len() as int);
    if start == s.len() {
        return None;
    }
    let mut acc: u64 = 0;
    let mut i: usize = start;
    while i < s.len()
        invariant
            start <= i <= s@.len(),
            ds == s@.subrange(start as int, s@.len() as int),
            acc <= 0x8000_0000,
            all_digits(s@.subrange(start as int, i as int)),
            digits_val_acc(ds, 0) == digits_val_acc(
                s@.subrange(i as int, s@.len() as int),
                acc as int,
            ),
        decreases s@.len() - i,
    {
        let b = s[i];
        if !(48 <= b && b <= 57) {
            proof {
                assert(!is_digit(ds[i - start]));
            }
            return None;
        }
        proof {
            assert(s@.subrange(i as int, s@.len() as int).drop_first() =~= s@.subrange(
                i + 1,
                s@.len() as int,
            ));
            assert(s@.subrange(i as int, s@.len() as int)[0] == b);
            assert(s@.subrange(start as int, i + 1) =~= s@.subrange(start as int, i as int).push(
                b,
            ));
        }
        let next: u64 = acc * 10 + ((b - 48) as u64);
        if next > 0x8000_0000 {
            proof {
                if all_digits(ds) {
                    assert(all_digits(s@.subrange(i + 1, s@.len() as int))) by {
                        assert(forall|k: int|
                            0 <= k < s@.len() - i - 1 ==> #[trigger] s@.subrange(
                                i + 1,
                                s@.len() as int,
                            )[k] == ds[k + (i + 1 - start)]);
                    }
                    lemma_digits_val_acc_grows(
                        s@.subrange(i + 1, s@.len() as int),
                        next as int,
                    );
                }
            }
            return None;
        }
        acc = next;
        i += 1;
    }
    proof {
        assert(s@.subrange(i as int, s@.len() as int).len() == 0);
        assert(s@.subrange(start as int, i as int) =~= ds);
    }
    Some(acc)
}

/// Parse `s` as an `i32`, with the outcome of [`parse_i32_spec`].
pub fn parse_i32(s: &Vec<u8>) -> (r: Option<i32>)
    ensures
        r == parse_i32_spec(s@),
{
    if s.len() == 0 {
        return None;
    }
    let first = s[0];
    let (neg, start): (bool, usize) = if first == 43 || first == 45 {
        (first == 45, 1)
    } else {
        (false, 0)
    };
    proof {
        if start == 1 {
            assert(s@.subrange(1, s@.len() as int) =~= s@.drop_first());
        } else {
            assert(s@.subrange(0, s@.len() as int) =~= s@);
        }
    }
    match parse_digits(s, start) {
        None => None,
        Some(v) => {
            if neg {
                if v == 0x8000_0000 {
                    Some(i32::MIN)
                } else {
                    Some(-(v as i32))
                }
            } else {
                if v <= 0x7fff_ffff {
                    Some(v as i32)
                } else {
                    None
                }
            }
        },
    }
}

/// Decimal digits of a nonnegative integer, without sign.
pub open spec fn dec_digits(n: int) -> Seq<u8>
    decreases n,
{
    if n < 10 {
        seq![(48 + if n >= 0 { n } else { 0 }) as u8]
    } else {
        dec_digits(n / 10) + seq![(48 + n % 10) as u8]
    }
}

/// Canonical decimal rendering of an `i32`.
pub open spec fn dec_i32(v: i32) -> Seq<u8> {
    if v < 0 {
        seq![45u8] + dec_digits(-(v as int))
    } else {
        dec_digits(v as int)
    }
}

/// Append the decimal digits of `n` to `out`.
fn push_dec_digits(out: &mut Vec<u8>, n: u32)
    ensures
        final(out)@ == old(out)@ + dec_digits(n as int),
    decreases n,
{
    if n < 10 {
        out.push((48 + n) as u8);
        proof {
            assert(out@ =~= old(out)@ + dec_digits(n as int));
        }
    } else {
        push_dec_digits(out, n / 10);
        out.push((48 + (n % 10)) as u8);
        proof {
            assert(out@ =~= old(out)@ + dec_digits(n as int));
        }
    }
}

/// Canonical decimal rendering of `v`.
pub fn i32_to_dec(v: i32) -> (r: Vec<u8>)
    ensures
        r@ == dec_i32(v),
{
    let mut out: Vec<u8> = Vec::new();
    if v < 0 {
        out.push(45u8);
        let m: u32 = if v == i32::MIN {
            0x8000_0000u32
        } else {
            (-v) as u32
        };
        proof {
            assert(m as int == -(v as int));
        }
        push_dec_digits(&mut out, m);
        proof {
            assert(out@ =~= seq![45u8] + dec_digits(-(v as int)));
        }
    } else {
        push_dec_digits(&mut out, v as u32);
        proof {
            assert(out@ =~= dec_digits(v as int));
        }
    }
    out
}

/// The canonical rating text for a raw rating field: the parsed value
/// re-rendered in decimal, or empty when the text does not parse.
pub open spec fn canonical_rating(raw: Seq<u8>) -> Seq<u8> {
    match parse_i32_spec(crate::text::trim_spec(raw)) {
        Some(v) => dec_i32(v),
        None => Seq::empty(),
    }
}

/// Normalise a raw rating text as [`canonical_rating`] describes.
pub fn normalize_rating(raw: &Vec<u8>) -> (r: Vec<u8>)
    ensures
        r@ == canonical_rating(raw@),
{
    let trimmed = crate::text::trim_bytes(raw);
    match parse_i32(&trimmed) {
        Some(v) => i32_to_dec(v),
        None => Vec::new(),
    }
}

/// An unparsable rating text canonicalises to the empty field; it is
/// never an error.
pub proof fn lemma_unparsable_rating_empty(raw: Seq<u8>)
    requires
        parse_i32_spec(crate::text::trim_spec(raw)) is None,
    ensures
        canonical_rating(raw) == Seq::<u8>::empty(),
{
}

} // verus!
