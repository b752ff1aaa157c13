//! Decimal strings: the correspondence between a non-negative integer and its
//! base-ten digit string, an exec renderer and an exec parser proved against
//! it.  Token amounts travel as decimal strings (transaction fees arrive that
//! way, balances are reported that way), so both directions are needed.

use vstd::prelude::*;

verus! {

/// Whether `c` is a base-ten digit.
pub open spec fn is_digit(c: char) -> bool {
    '0' <= c && c <= '9'
}

/// Numeric value of a digit character.
pub open spec fn digit_val(c: char) -> nat {
    (c as nat - '0' as nat) as nat
}

/// The digit character for a value below ten.
pub open spec fn digit_char(d: nat) -> char {
    if d == 0 {
        '0'
    } else if d == 1 {
        '1'
    } else if d == 2 {
        '2'
    } else if d == 3 {
        '3'
    } else if d == 4 {
        '4'
    } else if d == 5 {
        '5'
    } else if d == 6 {
        '6'
    } else if d == 7 {
        '7'
    } else if d == 8 {
        '8'
    } else {
        '9'
    }
}

/// Every character of `s` is a digit.
pub open spec fn all_digits(s: Seq<char>) -> bool {
    forall|i: int| 0 <= i < s.len() ==> is_digit(#[trigger] s[i])
}

/// The integer a digit string denotes, most significant digit first.
pub open spec fn str_to_nat(s: Seq<char>) -> nat
    decreases s.len(),
{
    if s.len() == 0 {
        0
    } else {
        str_to_nat(s.drop_last()) * 10 + digit_val(s.last())
    }
}

/// The canonical digit string of `n`: no sign, no leading zero except for
/// the single digit of zero itself.
pub open spec fn dec_str(n: nat) -> Seq<char>
    decreases n,
{
    if n < 10 {
        seq![digit_char(n)]
    } else {
        dec_str(n / 10).push(digit_char(n % 10))
    }
}

/// A string is canonical exactly when it is what some integer renders to.
pub open spec fn is_canonical_dec(s: Seq<char>) -> bool {
    &&& s.len() >= 1
    &&& all_digits(s)
    &&& (s.len() > 1 ==> s[0] != '0')
}

pub proof fn lemma_digit_char_val(d: nat)
    requires
        d < 10,
    ensures
        is_digit(digit_char(d)),
        digit_val(digit_char(d)) == d,
{
}

/// `dec_str` produces canonical strings and inverts to the rendered value.
pub proof fn lemma_dec_str_canonical(n: nat)
    ensures
        is_canonical_dec(dec_str(n)),
        str_to_nat(dec_str(n)) == n,
    decreases n,
{
    if n < 10 {
        lemma_digit_char_val(n);
        let s = dec_str(n);
        assert(s =~= seq![digit_char(n)]);
        assert(s.drop_last() =~= Seq::<char>::empty());
        assert(s.last() == digit_char(n));
        assert(str_to_nat(s) == str_to_nat(Seq::<char>::empty()) * 10 + digit_val(digit_char(n)));
        assert(str_to_nat(s) == n);
        assert forall|i: int| 0 <= i < s.len() implies is_digit(#[trigger] s[i]) by {
            assert(s[i] == digit_char(n));
        }
    } else {
        lemma_dec_str_canonical(n / 10);
        lemma_digit_char_val(n % 10);
        let s = dec_str(n);
        let p = dec_str(n / 10);
        assert(s == p.push(digit_char(n % 10)));
        assert(s.drop_last() =~= p);
        assert(s.last() == digit_char(n % 10));
        assert(str_to_nat(s) == (n / 10) * 10 + n % 10);
        assert((n / 10) * 10 + n % 10 == n) by (nonlinear_arith);
        assert forall|i: int| 0 <= i < s.len() implies is_digit(#[trigger] s[i]) by {
            if i < p.len() {
                assert(s[i] == p[i]);
            } else {
                assert(s[i] == digit_char(n % 10));
            }
        }
        // The leading digit is the leading digit of the quotient's string,
        // which cannot be '0' because the quotient is positive.
        assert(s[0] == p[0]);
        if p.len() == 1 {
            assert(p[0] == p.last());
            assert(str_to_nat(p.drop_last()) == 0);
            assert(digit_val(p[0]) == n / 10);
            assert(n / 10 >= 1);
            assert(p[0] != '0');
        }
    }
}

/// Extending a digit string never shrinks the denoted value.
pub proof fn lemma_str_to_nat_prefix_le(s: Seq<char>, j: int)
    requires
        0 <= j <= s.len(),
    ensures
        str_to_nat(s.take(j)) <= str_to_nat(s),
    decreases s.len() - j,
{
    if j < s.len() {
        lemma_str_to_nat_prefix_le(s, j + 1);
        let t = s.take(j + 1);
        assert(t.drop_last() =~= s.take(j));
        assert(str_to_nat(s.take(j)) * 10 + digit_val(t.last()) == str_to_nat(t));
        assert(str_to_nat(s.take(j)) <= str_to_nat(s.take(j)) * 10 + digit_val(t.last()))
            by (nonlinear_arith);
    } else {
        assert(s.take(j) =~= s);
    }
}

/// Character-wise equality of two string slices.
pub fn str_eq(a: &str, b: &str) -> (r: bool)
    ensures
        r == (a@ == b@),
{
    let na = a.unicode_len();
    let nb = b.unicode_len();
    if na != nb {
        return false;
    }
    let mut i: usize = 0;
    while i < na
        invariant
            0 <= i <= na,
            na == a@.len(),
            na == b@.len(),
            forall|j: int| 0 <= j < i ==> a@[j] == b@[j],
        decreases na - i,
    {
        if a.get_char(i) != b.get_char(i) {
            return false;
        }
        i = i + 1;
    }
    proof {
        assert(a@ =~= b@);
    }
    true
}

/// The digit character of a value below ten, as a one-character string slice.
fn digit_str(d: u128) -> (r: &'static str)
    requires
        d < 10,
    ensures
        r@ =~= seq![digit_char(d as nat)],
{
    proof {
        reveal_strlit("0");
        reveal_strlit("1");
        reveal_strlit("2");
        reveal_strlit("3");
        reveal_strlit("4");
        reveal_strlit("5");
        reveal_strlit("6");
        reveal_strlit("7");
        reveal_strlit("8");
        reveal_strlit("9");
    }
    if d == 0 {
        "0"
    } else if d == 1 {
        "1"
    } else if d == 2 {
        "2"
    } else if d == 3 {
        "3"
    } else if d == 4 {
        "4"
    } else if d == 5 {
        "5"
    } else if d == 6 {
        "6"
    } else if d == 7 {
        "7"
    } else if d == 8 {
        "8"
    } else {
        "9"
    }
}

/// Renders `n` as its canonical decimal string.
pub fn amount_to_string(n: u128) -> (r: String)
    ensures
        r@ == dec_str(n as nat),
    decreases n,
{
    if n < 10 {
        String::from_str(digit_str(n))
    } else {
        let mut s = amount_to_string(n / 10);
        s.append(digit_str(n % 10));
        proof {
            assert(s@ =~= dec_str(n as nat));
        }
        s
    }
}

/// Parses a decimal string into a balance.  Returns the denoted value exactly
/// when the string is non-empty, all digits, and the value fits in a `u128`;
/// returns `None` on every other input.
pub fn parse_u128(s: &str) -> (r: Option<u128>)
    ensures
        match r {
            Some(v) => s@.len() >= 1 && all_digits(s@) && v as nat == str_to_nat(s@),
            None => s@.len() == 0 || !all_digits(s@) || str_to_nat(s@) > u128::MAX,
        },
{
    let n = s.unicode_len();
    if n == 0 {
        return None;
    }
    let mut acc: u128 = 0;
    let mut i: usize = 0;
    while i < n
        invariant
            0 <= i <= n,
            n == s@.len(),
            forall|j: int| 0 <= j < i ==> is_digit(#[trigger] s@[j]),
            acc as nat == str_to_nat(s@.take(i as int)),
        decreases n - i,
    {
        let c = s.get_char(i);
        if c < '0' || c > '9' {
            assert(!all_digits(s@));
            return None;
        }
        let d: u128 = (c as u32 as u128) - ('0' as u32 as u128);
        assert(d == digit_val(c));
        assert(str_to_nat(s@.take(i + 1)) == acc as nat * 10 + d) by {
            assert(s@.take(i + 1).drop_last() =~= s@.take(i as int));
            assert(s@.take(i + 1).last() == s@[i as int]);
        }
        if acc > (u128::MAX - d) / 10 {
            proof {
                assert(acc as nat * 10 + d > u128::MAX) by (nonlinear_arith)
                    requires
                        acc as nat > (u128::MAX - d) / 10,
                        d < 10,
                ;
                lemma_str_to_nat_prefix_le(s@, i + 1);
            }
            return None;
        }
        assert(acc as nat * 10 + d <= u128::MAX) by (nonlinear_arith)
            requires
                acc as nat <= (u128::MAX - d) / 10,
                d < 10,
        ;
        acc = acc * 10 + d;
        i = i + 1;
    }
    proof {
        assert(s@.take(n as int) =~= s@);
    }
    Some(acc)
}

} // verus!
