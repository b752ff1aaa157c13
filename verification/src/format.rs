//! Human-legible balances: an integer amount and a decimal-precision count
//! become a decimal string with the point placed `decimals` digits from the
//! right, padded with leading zeros as needed, and with trailing zeros and a
//! trailing point removed.

use vstd::prelude::*;

use crate::strings::{dec_str, is_canonical_dec, lemma_dec_str_canonical};
use crate::types::Balance;

verus! {

/// `s` with every trailing `c` removed.
pub open spec fn trim_trailing(s: Seq<char>, c: char) -> Seq<char>
    decreases s.len(),
{
    if s.len() > 0 && s.last() == c {
        trim_trailing(s.drop_last(), c)
    } else {
        s
    }
}

/// What formatting an amount string means: zero stays "0"; any other amount
/// is left-padded to at least `d + 1` digits, a point is inserted before the
/// last `d` of them, and trailing zeros and a then-trailing point are
/// trimmed away.
pub open spec fn format_balance_spec(s: Seq<char>, d: nat) -> Seq<char> {
    if s == seq!['0'] {
        s
    } else {
        let padded = if s.len() <= d {
            Seq::new((d + 1 - s.len()) as nat, |i: int| '0') + s
        } else {
            s
        };
        let cut = padded.len() - d;
        let joined = padded.take(cut as int) + seq!['.'] + padded.skip(cut as int);
        trim_trailing(trim_trailing(joined, '0'), '.')
    }
}

/// When everything from position `k` on is `c` and position `k - 1` is not,
/// trimming trailing `c`s keeps exactly the first `k` characters.
proof fn lemma_trim_to(s: Seq<char>, k: int, c: char)
    requires
        0 <= k <= s.len(),
        forall|j: int| k <= j < s.len() ==> s[j] == c,
        k > 0 ==> s[k - 1] != c,
    ensures
        trim_trailing(s, c) == s.take(k),
    decreases s.len(),
{
    if s.len() > 0 && s.last() == c {
        assert(k < s.len());
        lemma_trim_to(s.drop_last(), k, c);
        assert(s.drop_last().take(k) =~= s.take(k));
    } else {
        assert(s.take(k) =~= s);
    }
}

/// Renders `balance` — the canonical decimal string of an amount — with a
/// decimal point placed `decimals` digits from the right.
pub fn formatted_balance(balance: &str, decimals: usize) -> (r: String)
    requires
        is_canonical_dec(balance@),
    ensures
        r@ == format_balance_spec(balance@, decimals as nat),
{
    proof {
        reveal_strlit("0");
        reveal_strlit(".");
        reveal_strlit("0.");
    }
    let n = balance.unicode_len();
    if n == 1 && balance.get_char(0) == '0' {
        proof {
            assert(balance@ =~= seq!['0']);
        }
        return "0".to_owned();
    }
    proof {
        if balance@ == seq!['0'] {
            assert(balance@[0] == '0');
            assert(false);
        }
    }
    // Length of `balance` once its trailing zeros are dropped.  The leading
    // digit of a canonical non-zero string is never '0', so k >= 1.
    let mut k: usize = n;
    while k > 0 && balance.get_char(k - 1) == '0'
        invariant
            0 <= k <= n,
            n == balance@.len(),
            is_canonical_dec(balance@),
            balance@ != seq!['0'],
            forall|j: int| k <= j < n ==> balance@[j] == '0',
        decreases k,
    {
        k = k - 1;
    }
    proof {
        if k == 0 {
            if n == 1 {
                assert(balance@ =~= seq!['0']);
            }
            assert(balance@[0] != '0');
            assert(false);
        }
    }
    let ghost s = balance@;
    let ghost d = decimals as nat;
    if n <= decimals {
        // All digits land behind the point: 0.<zeros><digits>.
        let mut out = String::new();
        out.append("0.");
        let zeros = decimals - n;
        let mut i: usize = 0;
        while i < zeros
            invariant
                0 <= i <= zeros,
                out@ =~= seq!['0', '.'] + Seq::new(i as nat, |j: int| '0'),
            decreases zeros - i,
        {
            out.append("0");
            proof {
                reveal_strlit("0");
                assert(out@ =~= seq!['0', '.'] + Seq::new((i + 1) as nat, |j: int| '0'));
            }
            i = i + 1;
        }
        out.append(balance.substring_char(0, k));
        proof {
            let padded = Seq::new((d + 1 - s.len()) as nat, |i: int| '0') + s;
            let cut = padded.len() - d;
            assert(cut == 1);
            let joined = padded.take(cut as int) + seq!['.'] + padded.skip(cut as int);
            let frac = padded.skip(1);
            assert(frac =~= Seq::new((d - s.len()) as nat, |i: int| '0') + s);
            let keep = 2 + (d - s.len()) + k;
            assert(forall|j: int| keep <= j < joined.len() ==> joined[j] == '0');
            assert(joined[keep - 1] == s[k - 1]);
            lemma_trim_to(joined, keep as int, '0');
            let trimmed = joined.take(keep as int);
            assert(trimmed[keep - 1] == s[k - 1]);
            lemma_trim_to(trimmed, keep as int, '.');
            assert(trimmed.take(keep as int) =~= trimmed);
            assert(out@ =~= trimmed);
        }
        out
    } else {
        let cut = n - decimals;
        if k <= cut {
            // The fractional part is all zeros: the integer digits alone.
            let out = balance.substring_char(0, cut).to_owned();
            proof {
                let joined = s.take(cut as int) + seq!['.'] + s.skip(cut as int);
                assert(forall|j: int| cut + 1 <= j < joined.len() ==> joined[j] == '0');
                assert(joined[cut as int] == '.');
                lemma_trim_to(joined, cut + 1, '0');
                let trimmed = joined.take(cut + 1);
                assert(trimmed[cut as int] == '.');
                assert(forall|j: int| cut <= j < trimmed.len() ==> trimmed[j] == '.');
                assert(cut > 0 ==> trimmed[cut - 1] == s[cut - 1]);
                lemma_trim_to(trimmed, cut as int, '.');
                assert(trimmed.take(cut as int) =~= s.take(cut as int));
                assert(out@ == format_balance_spec(s, d));
            }
            out
        } else {
            // Integer digits, the point, then the fraction with its
            // trailing zeros dropped.
            let mut out = balance.substring_char(0, cut).to_owned();
            out.append(".");
            out.append(balance.substring_char(cut, k));
            proof {
                let joined = s.take(cut as int) + seq!['.'] + s.skip(cut as int);
                let keep = cut + 1 + (k - cut);
                assert(forall|j: int| keep <= j < joined.len() ==> joined[j] == '0');
                assert(joined[keep - 1] == s[k - 1]);
                lemma_trim_to(joined, keep as int, '0');
                let trimmed = joined.take(keep as int);
                assert(trimmed[keep - 1] == s[k - 1]);
                lemma_trim_to(trimmed, keep as int, '.');
                assert(trimmed.take(keep as int) =~= trimmed);
                assert(out@ =~= trimmed);
            }
            out
        }
    }
}

/// The line logged when a tip is received or paid out: with a reference,
/// `<sender> tipped <amount> <symbol> to <reference>`; without one,
/// `<receiver> received <amount> <symbol>`, the amount human-legible.
pub open spec fn tip_log_spec(
    who: Seq<char>,
    amount: int,
    symbol: Seq<char>,
    decimals: nat,
    reference: Option<Seq<char>>,
) -> Seq<char> {
    let formatted = format_balance_spec(dec_str(amount as nat), decimals);
    match reference {
        Some(r) => who + " tipped "@ + formatted + " "@ + symbol + " to "@ + r,
        None => who + " received "@ + formatted + " "@ + symbol,
    }
}

/// Builds the tip log line.
pub fn tip_log_message(
    who: &str,
    amount: Balance,
    symbol: &str,
    decimals: usize,
    reference: Option<&str>,
) -> (r: String)
    ensures
        r@ == tip_log_spec(who@, amount as int, symbol@, decimals as nat, match reference {
            Some(s) => Some(s@),
            None => None,
        }),
{
    proof {
        lemma_dec_str_canonical(amount as nat);
    }
    let amount_str = crate::strings::amount_to_string(amount);
    let formatted = formatted_balance(amount_str.as_str(), decimals);
    match reference {
        Some(r) => {
            let mut out = who.to_owned();
            out.append(" tipped ");
            out.append(formatted.as_str());
            out.append(" ");
            out.append(symbol);
            out.append(" to ");
            out.append(r);
            out
        },
        None => {
            let mut out = who.to_owned();
            out.append(" received ");
            out.append(formatted.as_str());
            out.append(" ");
            out.append(symbol);
            out
        },
    }
}

/// The line logged when a reference has been reassigned.
pub open spec fn claim_reference_log_spec(
    reference_type: Seq<char>,
    reference_id: Seq<char>,
) -> Seq<char> {
    reference_type + "/"@ + reference_id + " has been claimed"@
}

/// Builds the reassignment log line.
pub fn claim_reference_log_message(reference_type: &str, reference_id: &str) -> (r: String)
    ensures
        r@ == claim_reference_log_spec(reference_type@, reference_id@),
{
    let mut out = reference_type.to_owned();
    out.append("/");
    out.append(reference_id);
    out.append(" has been claimed");
    out
}

} // verus!
