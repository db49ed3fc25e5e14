//! Small verified text utilities shared by the lexer, the parser, the
//! environment and the evaluator: character-wise string equality, the value
//! of a run of decimal digits, and decimal rendering of integers.

use vstd::prelude::*;

verus! {

/// Character-wise equality of two string slices, proved against the views.
pub fn str_eq(a: &str, b: &str) -> (r: bool)
    ensures
        r == (a@ == b@),
{
    let na = a.unicode_len();
    let nb = b.unicode_len();
    if na != nb {
        return false;
    }
    let mut k: usize = 0;
    while k < na
        invariant
            na == a@.len(),
            na == b@.len(),
            k <= na,
            forall|j: int| 0 <= j < k ==> a@[j] == b@[j],
        decreases na - k,
    {
        if a.get_char(k) != b.get_char(k) {
            return false;
        }
        k += 1;
    }
    proof {
        assert(a@ =~= b@);
    }
    true
}

/// Whether `c` is a decimal digit.
pub open spec fn is_digit(c: char) -> bool {
    ('0' as u32) <= (c as u32) && (c as u32) <= ('9' as u32)
}

/// Whether every character of `s` is a decimal digit.
pub open spec fn all_digits(s: Seq<char>) -> bool {
    forall|i: int| 0 <= i < s.len() ==> is_digit(#[trigger] s[i])
}

/// Decides `all_digits` by scanning the characters.
pub fn all_digits_exec(s: &str) -> (r: bool)
    ensures
        r == all_digits(s@),
{
    let n = s.unicode_len();
    let mut k: usize = 0;
    while k < n
        invariant
            n == s@.len(),
            k <= n,
            forall|j: int| 0 <= j < k ==> is_digit(#[trigger] s@[j]),
        decreases n - k,
    {
        let c = s.get_char(k);
        if !(('0' as u32) <= (c as u32) && (c as u32) <= ('9' as u32)) {
            return false;
        }
        k += 1;
    }
    true
}

/// The numeric value of a digit character.
pub open spec fn digit_val(c: char) -> nat {
    ((c as u32) - ('0' as u32)) as nat
}

/// The value of a run of decimal digits, most significant first.
pub open spec fn digits_val(s: Seq<char>) -> nat
    decreases s,
{
    if s.len() == 0 {
        0
    } else {
        digits_val(s.drop_last()) * 10 + digit_val(s.last())
    }
}

proof fn lemma_digits_val_monotone(s: Seq<char>, j: int)
    requires
        0 <= j <= s.len(),
    ensures
        digits_val(s.subrange(0, j)) <= digits_val(s),
    decreases s.len() - j,
{
    if j == s.len() {
        assert(s.subrange(0, j) =~= s);
    } else {
        lemma_digits_val_monotone(s, j + 1);
        let t = s.subrange(0, j + 1);
        assert(t.drop_last() =~= s.subrange(0, j));
        assert(digits_val(t) == digits_val(s.subrange(0, j)) * 10 + digit_val(t.last()));
    }
}

/// Parses a run of decimal digits as an `i64`; `None` exactly when the value
/// does not fit.
pub fn parse_digits(s: &str) -> (r: Option<i64>)
    requires
        all_digits(s@),
    ensures
        match r {
            Option::Some(v) => v >= 0 && v as nat == digits_val(s@),
            Option::None => digits_val(s@) > i64::MAX,
        },
{
    let n = s.unicode_len();
    let mut acc: i64 = 0;
    let mut k: usize = 0;
    while k < n
        invariant
            n == s@.len(),
            all_digits(s@),
            k <= n,
            acc >= 0,
            acc as nat == digits_val(s@.subrange(0, k as int)),
        decreases n - k,
    {
        let c = s.get_char(k);
        let d: i64 = ((c as u32) - 48) as i64;
        proof {
            assert(is_digit(s@[k as int]));
            assert(d == digit_val(c));
        }
        let m = match acc.checked_mul(10) {
            Option::Some(m) => m,
            Option::None => {
                proof {
                    let t = s@.subrange(0, k as int + 1);
                    assert(t.drop_last() =~= s@.subrange(0, k as int));
                    assert(digits_val(t) > i64::MAX);
                    lemma_digits_val_monotone(s@, k as int + 1);
                }
                return Option::None;
            },
        };
        let a = match m.checked_add(d) {
            Option::Some(a) => a,
            Option::None => {
                proof {
                    let t = s@.subrange(0, k as int + 1);
                    assert(t.drop_last() =~= s@.subrange(0, k as int));
                    lemma_digits_val_monotone(s@, k as int + 1);
                }
                return Option::None;
            },
        };
        acc = a;
        k += 1;
        proof {
            let t = s@.subrange(0, k as int);
            assert(t.drop_last() =~= s@.subrange(0, k as int - 1));
        }
    }
    proof {
        assert(s@.subrange(0, n as int) =~= s@);
    }
    Option::Some(acc)
}

/// The decimal digits of a natural number, most significant first.
pub open spec fn nat_digits(n: nat) -> Seq<char>
    decreases n,
{
    if n < 10 {
        seq!["0123456789"@[n as int]]
    } else {
        nat_digits(n / 10) + seq!["0123456789"@[(n % 10) as int]]
    }
}

/// The decimal rendering of an integer: a minus sign for negatives, then the
/// digits of the magnitude.
pub open spec fn int_str(n: int) -> Seq<char> {
    if n < 0 {
        seq!['-'] + nat_digits((-n) as nat)
    } else {
        nat_digits(n as nat)
    }
}

fn nat_to_string(n: u64) -> (s: String)
    ensures
        s@ == nat_digits(n as nat),
    decreases n,
{
    let digits = "0123456789";
    proof {
        reveal_strlit("0123456789");
    }
    if n < 10 {
        let d = digits.substring_char(n as usize, n as usize + 1);
        proof {
            assert(d@ =~= nat_digits(n as nat));
        }
        d.to_owned()
    } else {
        let mut s = nat_to_string(n / 10);
        let d = digits.substring_char((n % 10) as usize, (n % 10) as usize + 1);
        s.append(d);
        proof {
            assert(s@ =~= nat_digits(n as nat));
        }
        s
    }
}

/// Renders an `i64` in decimal, proved against `int_str`.
pub fn int_to_string(v: i64) -> (s: String)
    ensures
        s@ == int_str(v as int),
{
    if v >= 0 {
        nat_to_string(v as u64)
    } else {
        let mag: u64 = if v == i64::MIN {
            9223372036854775808u64
        } else {
            (-v) as u64
        };
        let mut s = "-".to_owned();
        let rest = nat_to_string(mag);
        s.append(rest.as_str());
        proof {
            reveal_strlit("-");
            assert(s@ =~= int_str(v as int));
        }
        s
    }
}

} // verus!
