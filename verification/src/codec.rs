//! The persisted high score as text: an unsigned integer written as plain
//! decimal digits, read back leniently — a missing value or anything that is
//! not a decimal number within `u32` loads as zero.

use vstd::prelude::*;

verus! {

/// ASCII decimal digit.
pub open spec fn is_digit(c: u8) -> bool {
    48 <= c <= 57
}

/// Numeric value of an ASCII digit.
pub open spec fn digit_val(c: u8) -> int {
    c - 48
}

/// Every byte of `s` is an ASCII decimal digit.
pub open spec fn all_digits(s: Seq<u8>) -> bool {
    forall|i: int| 0 <= i < s.len() ==> is_digit(s[i])
}

/// Value of a digit string read as a decimal number, most significant digit
/// first.
pub open spec fn dec_val(s: Seq<u8>) -> int
    decreases s.len(),
{
    if s.len() == 0 {
        0
    } else {
        dec_val(s.drop_last()) * 10 + digit_val(s.last())
    }
}

/// The decimal digits of a nonnegative number, without sign or padding:
/// `0` is `"0"`, and no other representation starts with `'0'`.
pub open spec fn dec_rep(n: int) -> Seq<u8>
    decreases n,
{
    if n < 0 {
        Seq::empty()
    } else if n < 10 {
        seq![(n + 48) as u8]
    } else {
        dec_rep(n / 10).push((n % 10 + 48) as u8)
    }
}

/// What a stored value loads as: absent, or anything but decimal digits
/// within `u32`, counts as zero.
pub open spec fn loaded_score(stored: Option<Seq<u8>>) -> int {
    match stored {
        Option::None => 0,
        Option::Some(s) => {
            if s.len() > 0 && all_digits(s) && dec_val(s) <= u32::MAX {
                dec_val(s)
            } else {
                0
            }
        },
    }
}

/// The decimal digits of `n`, ready to be stored.
pub fn format_score(n: u32) -> (r: Vec<u8>)
    ensures
        r@ == dec_rep(n as int),
    decreases n,
{
    if n < 10 {
        let mut v: Vec<u8> = Vec::new();
        v.push((n + 48) as u8);
        proof {
            assert(v@ =~= dec_rep(n as int));
        }
        v
    } else {
        let mut v: Vec<u8> = format_score(n / 10);
        v.push((n % 10 + 48) as u8);
        v
    }
}

/// A digit string never reads as a negative number.
proof fn lemma_dec_val_nonneg(s: Seq<u8>)
    requires
        all_digits(s),
    ensures
        0 <= dec_val(s),
    decreases s.len(),
{
    if s.len() > 0 {
        assert(all_digits(s.drop_last()));
        lemma_dec_val_nonneg(s.drop_last());
        assert(0 <= dec_val(s.drop_last()) * 10) by (nonlinear_arith)
            requires
                0 <= dec_val(s.drop_last()),
        ;
    }
}

/// On a digit string, the value can only grow as more digits are read.
proof fn lemma_dec_val_grows(s: Seq<u8>, i: int, j: int)
    requires
        0 <= i <= j <= s.len(),
        all_digits(s),
    ensures
        dec_val(s.take(i)) <= dec_val(s.take(j)),
    decreases j - i,
{
    assert(all_digits(s.take(i)));
    lemma_dec_val_nonneg(s.take(i));
    if i < j {
        lemma_dec_val_grows(s, i + 1, j);
        assert(s.take(i + 1).drop_last() =~= s.take(i));
        assert(dec_val(s.take(i)) <= dec_val(s.take(i + 1))) by (nonlinear_arith)
            requires
                0 <= dec_val(s.take(i)),
                dec_val(s.take(i + 1)) == dec_val(s.take(i)) * 10 + digit_val(s.take(i + 1).last()),
                0 <= digit_val(s.take(i + 1).last()),
        ;
    }
}

/// The decimal number a stored string holds: `Some` exactly on a nonempty
/// string of digits whose value fits `u32`, as `u32::from_str` would accept
/// for such input.
pub fn parse_score(s: &Vec<u8>) -> (r: Option<u32>)
    ensures
        r is Some <==> s@.len() > 0 && all_digits(s@) && dec_val(s@) <= u32::MAX,
        r matches Some(v) ==> v == dec_val(s@),
{
    let mut acc: u32 = 0;
    let mut i: usize = 0;
    while i < s.len()
        invariant
            0 <= i <= s@.len(),
            all_digits(s@.take(i as int)),
            acc == dec_val(s@.take(i as int)),
        decreases s@.len() - i,
    {
        let c: u8 = s[i];
        if c < 48 || c > 57 {
            assert(!is_digit(s@[i as int]));
            return None;
        }
        let wide: u64 = (acc as u64) * 10 + ((c - 48) as u64);
        proof {
            assert(s@.take(i as int + 1).drop_last() =~= s@.take(i as int));
            assert(s@.take(i as int + 1).last() == s@[i as int]);
        }
        if wide > 0xffff_ffff {
            proof {
                if all_digits(s@) {
                    lemma_dec_val_grows(s@, i as int + 1, s@.len() as int);
                    assert(s@.take(s@.len() as int) =~= s@);
                }
            }
            return None;
        }
        acc = wide as u32;
        i = i + 1;
    }
    proof {
        assert(s@.take(s@.len() as int) =~= s@);
    }
    if s.len() == 0 {
        None
    } else {
        Some(acc)
    }
}

/// A stored value read back: a missing or unreadable value loads as zero.
pub fn load_score(stored: &Option<Vec<u8>>) -> (r: u32)
    ensures
        r == loaded_score(match *stored {
            Option::None => Option::None,
            Option::Some(ref v) => Option::Some(v@),
        }),
{
    match stored {
        None => 0,
        Some(v) => match parse_score(v) {
            Some(n) => n,
            None => 0,
        },
    }
}

/// Law: storing a score and reading it back yields the same score — the
/// digits of `n` are a nonempty digit string whose decimal value is `n`, so
/// `parse_score` returns `Some(n)` on what `format_score` wrote.
pub proof fn lemma_score_round_trip(n: u32)
    ensures
        dec_rep(n as int).len() > 0,
        all_digits(dec_rep(n as int)),
        dec_val(dec_rep(n as int)) == n as int,
{
    lemma_dec_rep_val(n as int);
}

/// The digits of a nonnegative `n` read back as `n`.
proof fn lemma_dec_rep_val(n: int)
    requires
        0 <= n,
    ensures
        dec_rep(n).len() > 0,
        all_digits(dec_rep(n)),
        dec_val(dec_rep(n)) == n,
    decreases n,
{
    vstd::arithmetic::div_mod::lemma_fundamental_div_mod(n, 10);
    if n < 10 {
        let s = dec_rep(n);
        assert(s.drop_last() =~= Seq::<u8>::empty());
        assert(dec_val(Seq::<u8>::empty()) == 0);
        assert(dec_val(s) == dec_val(s.drop_last()) * 10 + digit_val(s.last()));
    } else {
        lemma_dec_rep_val(n / 10);
        let s = dec_rep(n);
        assert(s.drop_last() =~= dec_rep(n / 10));
        assert forall|i: int| 0 <= i < s.len() implies is_digit(s[i]) by {
            if i < s.len() - 1 {
                assert(s[i] == dec_rep(n / 10)[i]);
            }
        }
    }
}

} // verus!
