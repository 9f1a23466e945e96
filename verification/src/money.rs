//! Money as integer cents.
//!
//! Amounts travel on the wire and in workload files as decimal strings such
//! as `63511.53`. The engine works in whole cents, so this module gives the
//! decimal grammar a spec — an integer part of at most sixteen digits,
//! optionally followed by a dot and one or two fraction digits — and parses
//! and prints against it.

use vstd::prelude::*;
use vstd::seq_lib::*;
use vstd::string::StrSliceExecFns;
use vstd::string::StringExecFns;

verus! {

/// A decimal digit.
pub open spec fn is_digit(c: char) -> bool {
    '0' as u32 <= c as u32 && c as u32 <= '9' as u32
}

/// The value of one decimal digit.
pub open spec fn digit_val(c: char) -> nat {
    (c as u32 - '0' as u32) as nat
}

/// The character of one decimal digit value.
pub open spec fn digit_char(d: nat) -> char {
    if d == 0 {
        '0'
    } else if d == 1 {
        '1'
    } else if d == 2 {
        '2'
    } else if d == 3 {
        '3'
    } else if d == 4 {
        '4'
    } else if d == 5 {
        '5'
    } else if d == 6 {
        '6'
    } else if d == 7 {
        '7'
    } else if d == 8 {
        '8'
    } else {
        '9'
    }
}

pub open spec fn all_digits(s: Seq<char>) -> bool {
    forall|i: int| 0 <= i < s.len() ==> is_digit(#[trigger] s[i])
}

/// The number a digit string denotes, most significant digit first.
pub open spec fn digits_value(s: Seq<char>) -> nat
    decreases s.len(),
{
    if s.len() == 0 {
        0
    } else {
        digits_value(s.drop_last()) * 10 + digit_val(s.last())
    }
}

/// The canonical digit string of a number, without leading zeros.
pub open spec fn spec_digits_of(n: nat) -> Seq<char>
    decreases n,
{
    if n < 10 {
        seq![digit_char(n)]
    } else {
        spec_digits_of(n / 10).push(digit_char(n % 10))
    }
}

pub open spec fn pow10(n: nat) -> nat
    decreases n,
{
    if n == 0 {
        1
    } else {
        10 * pow10((n - 1) as nat)
    }
}

/// A digit string of length `l` denotes a number below ten to the `l`.
pub proof fn lemma_digits_value_bound(s: Seq<char>)
    requires
        all_digits(s),
    ensures
        digits_value(s) < pow10(s.len()),
    decreases s.len(),
{
    if s.len() > 0 {
        assert(all_digits(s.drop_last())) by {
            assert forall|i: int| 0 <= i < s.len() - 1 implies is_digit(#[trigger] s.drop_last()[i]) by {
                assert(s.drop_last()[i] == s[i]);
            }
        }
        lemma_digits_value_bound(s.drop_last());
        assert(is_digit(s.last()));
        assert(digit_val(s.last()) <= 9);
    }
}

/// Ten to the sixteenth, spelled out step by step.
pub proof fn lemma_pow10_16()
    ensures
        pow10(16) == 10000000000000000,
{
    assert(pow10(0) == 1);
    assert(pow10(1) == 10);
    assert(pow10(2) == 100);
    assert(pow10(3) == 1000);
    assert(pow10(4) == 10000);
    assert(pow10(5) == 100000);
    assert(pow10(6) == 1000000);
    assert(pow10(7) == 10000000);
    assert(pow10(8) == 100000000);
    assert(pow10(9) == 1000000000);
    assert(pow10(10) == 10000000000);
    assert(pow10(11) == 100000000000);
    assert(pow10(12) == 1000000000000);
    assert(pow10(13) == 10000000000000);
    assert(pow10(14) == 100000000000000);
    assert(pow10(15) == 1000000000000000);
    assert(pow10(16) == 10000000000000000);
}

/// Ten to the power is monotone in the exponent.
pub proof fn lemma_pow10_mono(a: nat, b: nat)
    requires
        a <= b,
    ensures
        pow10(a) <= pow10(b),
    decreases b,
{
    if a < b {
        lemma_pow10_mono(a, (b - 1) as nat);
        assert(pow10(b) == 10 * pow10((b - 1) as nat));
    }
}

/// The cents a decimal string denotes: `d+` means whole dollars, `d+.d`
/// tenths, `d+.dd` cents; anything else — in particular an integer part
/// longer than sixteen digits — is rejected.
pub open spec fn spec_parse_cents(s: Seq<char>) -> Option<u64> {
    match s.index_of_first('.') {
        None => if 1 <= s.len() <= 16 && all_digits(s) {
            Some((digits_value(s) * 100) as u64)
        } else {
            None
        },
        Some(d) => {
            let int_part = s.take(d);
            let frac = s.skip(d + 1);
            if 1 <= int_part.len() <= 16 && all_digits(int_part) && 1 <= frac.len() <= 2
                && all_digits(frac) {
                Some(
                    (digits_value(int_part) * 100 + digits_value(frac) * (if frac.len() == 1 {
                        10nat
                    } else {
                        1nat
                    })) as u64,
                )
            } else {
                None
            }
        },
    }
}

/// Parse a decimal money string into cents.
pub fn parse_cents(s: &str) -> (r: Option<u64>)
    ensures
        r == spec_parse_cents(s@),
{
    proof {
        s@.index_of_first_ensures('.');
        lemma_pow10_16();
    }
    let n = s.unicode_len();
    let mut i: usize = 0;
    let mut acc: u64 = 0;
    while i < n
        invariant_except_break
            n == s@.len(),
            i <= n,
            i <= 16,
            forall|j: int| 0 <= j < i ==> #[trigger] s@[j] != '.' && is_digit(s@[j]),
            acc == digits_value(s@.take(i as int)),
            acc < pow10(i as nat),
            pow10(16) == 10000000000000000,
        ensures
            n == s@.len(),
            i <= n,
            i <= 16,
            forall|j: int| 0 <= j < i ==> #[trigger] s@[j] != '.' && is_digit(s@[j]),
            acc == digits_value(s@.take(i as int)),
            acc < pow10(i as nat),
            pow10(16) == 10000000000000000,
            i == n || s@[i as int] == '.',
        decreases n - i,
    {
        let c = s.get_char(i);
        if c == '.' {
            break ;
        }
        let cu = c as u32;
        if cu < 48 || cu > 57 {
            proof {
                s@.index_of_first_ensures('.');
                assert(!is_digit(s@[i as int]));
                match s@.index_of_first('.') {
                    None => {
                        assert(!all_digits(s@));
                    },
                    Some(d) => {
                        assert(d > i);
                        assert(s@.take(d)[i as int] == s@[i as int]);
                        assert(!all_digits(s@.take(d)));
                    },
                }
            }
            return None;
        }
        if i == 16 {
            proof {
                s@.index_of_first_ensures('.');
                match s@.index_of_first('.') {
                    None => {
                        assert(s@.len() > 16);
                    },
                    Some(d) => {
                        assert(d > 16);
                        assert(s@.take(d).len() > 16);
                    },
                }
            }
            return None;
        }
        proof {
            assert(pow10((i + 1) as nat) == 10 * pow10(i as nat));
            lemma_pow10_mono((i + 1) as nat, 16);
            assert(s@.take(i as int + 1).drop_last() =~= s@.take(i as int));
            assert(s@.take(i as int + 1).last() == s@[i as int]);
            assert(is_digit(s@[i as int]));
        }
        acc = acc * 10 + (cu - 48) as u64;
        i += 1;
    }
    if i == 0 {
        return None;
    }
    proof {
        s@.index_of_first_ensures('.');
        lemma_digits_value_bound(s@.take(i as int));
        lemma_pow10_mono(i as nat, 16);
    }
    if i == n {
        proof {
            assert(s@.index_of_first('.') is None) by {
                if s@.contains('.') {
                    let d = s@.index_of_first('.')->Some_0;
                    assert(s@[d] == '.');
                }
            }
            assert(s@.take(n as int) =~= s@);
        }
        return Some(acc * 100);
    }
    // the first dot sits at `i`
    proof {
        assert(s@.index_of_first('.') == Some(i as int)) by {
            assert(s@.contains('.')) by {
                assert(s@[i as int] == '.');
            }
            let d = s@.index_of_first('.')->Some_0;
            assert(s@[d] == '.');
            assert(d >= i);
        }
        assert(s@.take(i as int).len() == i);
    }
    let frac_len = n - i - 1;
    if frac_len < 1 || frac_len > 2 {
        return None;
    }
    let ghost frac = s@.skip(i as int + 1);
    proof {
        assert(frac.len() == frac_len);
    }
    let c1 = s.get_char(i + 1);
    let cu1 = c1 as u32;
    if cu1 < 48 || cu1 > 57 {
        proof {
            assert(frac[0] == s@[i as int + 1]);
            assert(!all_digits(frac));
        }
        return None;
    }
    let d1 = (cu1 - 48) as u64;
    if frac_len == 2 {
        let c2 = s.get_char(i + 2);
        let cu2 = c2 as u32;
        if cu2 < 48 || cu2 > 57 {
            proof {
                assert(frac[1] == s@[i as int + 2]);
                assert(!all_digits(frac));
            }
            return None;
        }
        let d2 = (cu2 - 48) as u64;
        proof {
            assert(frac[0] == s@[i as int + 1] && frac[1] == s@[i as int + 2]);
            assert(all_digits(frac)) by {
                assert forall|k: int| 0 <= k < 2 implies is_digit(#[trigger] frac[k]) by {
                    if k == 0 {
                        assert(frac[0] == s@[i as int + 1]);
                    } else {
                        assert(frac[1] == s@[i as int + 2]);
                    }
                }
            }
            assert(frac.drop_last() =~= seq![s@[i as int + 1]]);
            let fd = frac.drop_last();
            assert(fd.drop_last() =~= Seq::<char>::empty());
            assert(digits_value(fd.drop_last()) == 0);
            assert(fd.last() == frac[0]);
            assert(digits_value(fd) == digit_val(frac[0]));
            assert(frac.last() == frac[1]);
            assert(digits_value(frac) == digit_val(frac[0]) * 10 + digit_val(frac[1]));
        }
        Some(acc * 100 + (d1 * 10 + d2))
    } else {
        proof {
            assert(frac[0] == s@[i as int + 1]);
            assert(all_digits(frac)) by {
                assert forall|k: int| 0 <= k < 1 implies is_digit(#[trigger] frac[k]) by {
                    assert(frac[0] == s@[i as int + 1]);
                }
            }
            assert(frac.drop_last() =~= Seq::<char>::empty());
            assert(digits_value(frac.drop_last()) == 0);
            assert(frac.last() == frac[0]);
            assert(digits_value(frac) == digit_val(frac[0]));
        }
        Some(acc * 100 + d1 * 10)
    }
}


/// The number a pure digit string denotes: one to sixteen digits, nothing
/// else.
pub open spec fn spec_parse_u64(s: Seq<char>) -> Option<u64> {
    if 1 <= s.len() <= 16 && all_digits(s) {
        Some(digits_value(s) as u64)
    } else {
        None
    }
}

/// Parse a pure digit string.
pub fn parse_u64(s: &str) -> (r: Option<u64>)
    ensures
        r == spec_parse_u64(s@),
{
    proof {
        lemma_pow10_16();
    }
    let n = s.unicode_len();
    if n == 0 || n > 16 {
        return None;
    }
    let mut i: usize = 0;
    let mut acc: u64 = 0;
    while i < n
        invariant
            n == s@.len(),
            1 <= n <= 16,
            i <= n,
            forall|j: int| 0 <= j < i ==> is_digit(#[trigger] s@[j]),
            acc == digits_value(s@.take(i as int)),
            acc < pow10(i as nat),
            pow10(16) == 10000000000000000,
        decreases n - i,
    {
        let c = s.get_char(i);
        let cu = c as u32;
        if cu < 48 || cu > 57 {
            proof {
                assert(!is_digit(s@[i as int]));
            }
            return None;
        }
        proof {
            assert(pow10((i + 1) as nat) == 10 * pow10(i as nat));
            lemma_pow10_mono((i + 1) as nat, 16);
            assert(s@.take(i as int + 1).drop_last() =~= s@.take(i as int));
            assert(s@.take(i as int + 1).last() == s@[i as int]);
            assert(is_digit(s@[i as int]));
        }
        acc = acc * 10 + (cu - 48) as u64;
        i += 1;
    }
    proof {
        assert(s@.take(n as int) =~= s@);
    }
    Some(acc)
}

/// One digit as a string slice.
fn digit_str(d: u64) -> (r: &'static str)
    requires
        d < 10,
    ensures
        r@ =~= seq![digit_char(d as nat)],
{
    proof {
        reveal_strlit("0");
        reveal_strlit("1");
        reveal_strlit("2");
        reveal_strlit("3");
        reveal_strlit("4");
        reveal_strlit("5");
        reveal_strlit("6");
        reveal_strlit("7");
        reveal_strlit("8");
        reveal_strlit("9");
    }
    if d == 0 {
        "0"
    } else if d == 1 {
        "1"
    } else if d == 2 {
        "2"
    } else if d == 3 {
        "3"
    } else if d == 4 {
        "4"
    } else if d == 5 {
        "5"
    } else if d == 6 {
        "6"
    } else if d == 7 {
        "7"
    } else if d == 8 {
        "8"
    } else {
        "9"
    }
}

/// Print a number as its canonical digit string.
pub fn u64_to_string(n: u64) -> (r: String)
    ensures
        r@ == spec_digits_of(n as nat),
    decreases n,
{
    if n < 10 {
        digit_str(n).to_owned()
    } else {
        let mut s = u64_to_string(n / 10);
        s.append(digit_str(n % 10));
        proof {
            assert(s@ =~= spec_digits_of((n / 10) as nat).push(digit_char((n % 10) as nat)));
        }
        s
    }
}

/// Printing then parsing a whole-dollar amount gives back the amount in
/// cents, for any amount whose digit string the parser admits.
pub proof fn lemma_money_round_trip(n: u64)
    requires
        n < 10000000000000000,
    ensures
        spec_parse_cents(spec_digits_of(n as nat)) == Some((n * 100) as u64),
{
    lemma_digits_of_digits(n as nat);
    lemma_digits_of_len(n as nat);
    let s = spec_digits_of(n as nat);
    lemma_pow10_16();
    lemma_digits_of_value(n as nat);
    assert(s.index_of_first('.') is None) by {
        s.index_of_first_ensures('.');
        if s.contains('.') {
            let d = s.index_of_first('.')->Some_0;
            assert(s[d] == '.');
            assert(is_digit(s[d]));
        }
    }
    assert(1 <= s.len() && s.len() <= 16);
}

/// Every character of a canonical digit string is a digit.
pub proof fn lemma_digits_of_digits(n: nat)
    ensures
        all_digits(spec_digits_of(n)),
    decreases n,
{
    let s = spec_digits_of(n);
    if n < 10 {
        assert(is_digit(digit_char(n)));
        assert forall|i: int| 0 <= i < s.len() implies is_digit(#[trigger] s[i]) by {
            assert(s[i] == digit_char(n));
        }
    } else {
        lemma_digits_of_digits(n / 10);
        let p = spec_digits_of(n / 10);
        assert(is_digit(digit_char(n % 10)));
        assert forall|i: int| 0 <= i < s.len() implies is_digit(#[trigger] s[i]) by {
            if i < p.len() {
                assert(s[i] == p[i]);
            } else {
                assert(s[i] == digit_char(n % 10));
            }
        }
    }
}

/// A canonical digit string denotes the number it was printed from.
pub proof fn lemma_digits_of_value(n: nat)
    ensures
        digits_value(spec_digits_of(n)) == n,
    decreases n,
{
    if n < 10 {
        let s = spec_digits_of(n);
        assert(s.len() == 1);
        assert(s.last() == digit_char(n));
        assert(s.drop_last() =~= Seq::<char>::empty());
        assert(digits_value(s.drop_last()) == 0);
        assert(digit_val(digit_char(n)) == n);
        assert(digits_value(s) == digit_val(digit_char(n)));
    } else {
        lemma_digits_of_value(n / 10);
        let p = spec_digits_of(n / 10);
        let s = spec_digits_of(n);
        assert(s == p.push(digit_char(n % 10)));
        assert(s.drop_last() =~= p);
        assert(s.last() == digit_char(n % 10));
        assert(digits_value(s) == digits_value(s.drop_last()) * 10 + digit_val(s.last()));
        assert(digits_value(s.drop_last()) == n / 10);
        assert(digit_val(digit_char(n % 10)) == n % 10);
        assert(digits_value(s) == (n / 10) * 10 + n % 10);
        vstd::arithmetic::div_mod::lemma_fundamental_div_mod(n as int, 10);
        assert((n / 10) * 10 + n % 10 == n);
    }
}

/// A number below ten to the `k` prints in at most `k` digits.
pub proof fn lemma_digits_of_len(n: nat)
    ensures
        n < 10 ==> spec_digits_of(n).len() == 1,
        spec_digits_of(n).len() >= 1,
        n < 10000000000000000 ==> spec_digits_of(n).len() <= 16,
    decreases n,
{
    lemma_pow10_16();
    if n < 10 {
        assert(spec_digits_of(n).len() == 1);
        lemma_digits_of_len_helper(n);
    } else {
        lemma_digits_of_len(n / 10);
        assert(spec_digits_of(n).len() == spec_digits_of(n / 10).len() + 1);
        lemma_digits_of_len_helper(n);
    }
}

proof fn lemma_digits_of_len_helper(n: nat)
    ensures
        n < pow10(16) ==> spec_digits_of(n).len() <= 16,
    decreases n,
{
    lemma_pow10_16();
    lemma_digits_of_len_pow(n, 16);
}

/// A number below ten to the `k` prints in at most `k` digits (general).
proof fn lemma_digits_of_len_pow(n: nat, k: nat)
    requires
        k >= 1,
    ensures
        n < pow10(k) ==> spec_digits_of(n).len() <= k,
    decreases n,
{
    if n < 10 {
    } else if n < pow10(k) {
        assert(pow10(k) == 10 * pow10((k - 1) as nat));
        assert(n / 10 < pow10((k - 1) as nat)) by {
            vstd::arithmetic::div_mod::lemma_fundamental_div_mod(n as int, 10);
        }
        assert(k - 1 >= 1) by {
            assert(pow10(0) == 1);
            assert(pow10(1) == 10);
            if k == 1 {
                assert(n < 10);
            }
        }
        lemma_digits_of_len_pow(n / 10, (k - 1) as nat);
    }
}

} // verus!
