//! The ledger store as a mathematical object: a sequence of entries with
//! pairwise-distinct keys, read through a first-match lookup.  The generic
//! part works for any element type with a key projection; the balance- and
//! registry-specific operations and their lemmas build on it.

use vstd::prelude::*;

use crate::types::{FtIdentifierInfoView, TipsBalanceInfoView, TipsBalanceKeyView, TipsBalanceView};

verus! {

/// Index of the first element of `s` whose key under `f` is `k`; -1 if none.
pub open spec fn key_index_by<T, K>(s: Seq<T>, f: spec_fn(T) -> K, k: K) -> int
    decreases s.len(),
{
    if s.len() == 0 {
        -1
    } else if f(s[0]) == k {
        0
    } else {
        let r = key_index_by(s.drop_first(), f, k);
        if r < 0 {
            -1
        } else {
            r + 1
        }
    }
}

/// The first element of `s` whose key under `f` is `k`, if any.
pub open spec fn lookup_by<T, K>(s: Seq<T>, f: spec_fn(T) -> K, k: K) -> Option<T> {
    let i = key_index_by(s, f, k);
    if i >= 0 {
        Some(s[i])
    } else {
        None
    }
}

/// No two elements of `s` share a key under `f`.
pub open spec fn distinct_keys<T, K>(s: Seq<T>, f: spec_fn(T) -> K) -> bool {
    forall|i: int, j: int| 0 <= i < j < s.len() ==> f(#[trigger] s[i]) != f(#[trigger] s[j])
}

/// `s` written at key `f(b)`: replaces the entry with that key, or appends
/// one if the key is absent.
pub open spec fn put_by<T, K>(s: Seq<T>, f: spec_fn(T) -> K, b: T) -> Seq<T> {
    let i = key_index_by(s, f, f(b));
    if i >= 0 {
        s.update(i, b)
    } else {
        s.push(b)
    }
}

/// What `key_index_by` finds: a well-placed first match, or no match at all.
pub proof fn lemma_key_index_by<T, K>(s: Seq<T>, f: spec_fn(T) -> K, k: K)
    ensures
        key_index_by(s, f, k) == -1 ==> forall|i: int| 0 <= i < s.len() ==> f(#[trigger] s[i]) != k,
        key_index_by(s, f, k) >= 0 ==> {
            let r = key_index_by(s, f, k);
            &&& r < s.len()
            &&& f(s[r]) == k
            &&& forall|i: int| 0 <= i < r ==> f(#[trigger] s[i]) != k
        },
    decreases s.len(),
{
    if s.len() > 0 && f(s[0]) != k {
        let d = s.drop_first();
        lemma_key_index_by(d, f, k);
        assert(forall|i: int| 0 <= i < d.len() ==> #[trigger] d[i] == s[i + 1]);
        let rd = key_index_by(d, f, k);
        if rd < 0 {
            assert forall|i: int| 0 <= i < s.len() implies f(#[trigger] s[i]) != k by {
                if i > 0 {
                    assert(d[i - 1] == s[i]);
                    assert(f(d[i - 1]) != k);
                }
            }
        } else {
            let r = rd + 1;
            assert(key_index_by(s, f, k) == r);
            assert(d[rd] == s[r]);
            assert forall|i: int| 0 <= i < r implies f(#[trigger] s[i]) != k by {
                if i > 0 {
                    assert(d[i - 1] == s[i]);
                    assert(f(d[i - 1]) != k);
                }
            }
        }
    }
}

/// The first match determines the index: if `s[i]` has key `k` and nothing
/// before it does, the lookup lands on `i`.
pub proof fn lemma_key_index_by_first_match<T, K>(s: Seq<T>, f: spec_fn(T) -> K, k: K, i: int)
    requires
        0 <= i < s.len(),
        f(s[i]) == k,
        forall|j: int| 0 <= j < i ==> f(#[trigger] s[j]) != k,
    ensures
        key_index_by(s, f, k) == i,
{
    lemma_key_index_by(s, f, k);
    let r = key_index_by(s, f, k);
    if r == -1 {
        assert(f(s[i]) != k);
    } else if r < i {
        assert(f(s[r]) != k);
    } else if r > i {
        assert(f(s[i]) != k);
    }
}

/// Lookups depend only on the keys: two sequences with pointwise-equal keys
/// index identically.
pub proof fn lemma_key_index_by_same_keys<T, K>(s1: Seq<T>, s2: Seq<T>, f: spec_fn(T) -> K, k: K)
    requires
        s1.len() == s2.len(),
        forall|i: int| 0 <= i < s1.len() ==> f(#[trigger] s1[i]) == f(#[trigger] s2[i]),
    ensures
        key_index_by(s1, f, k) == key_index_by(s2, f, k),
    decreases s1.len(),
{
    if s1.len() > 0 {
        assert(forall|i: int|
            0 <= i < s1.drop_first().len() ==> #[trigger] s1.drop_first()[i] == s1[i + 1]);
        assert(forall|i: int|
            0 <= i < s2.drop_first().len() ==> #[trigger] s2.drop_first()[i] == s2[i + 1]);
        lemma_key_index_by_same_keys(s1.drop_first(), s2.drop_first(), f, k);
    }
}

/// What `put_by` does to every lookup: the written key now holds `b`, every
/// other key reads as before, and key-distinctness is preserved.
pub proof fn lemma_put_by<T, K>(s: Seq<T>, f: spec_fn(T) -> K, b: T)
    requires
        distinct_keys(s, f),
    ensures
        distinct_keys(put_by(s, f, b), f),
        lookup_by(put_by(s, f, b), f, f(b)) == Some(b),
        forall|k: K| k != f(b) ==> #[trigger] lookup_by(put_by(s, f, b), f, k) == lookup_by(s, f, k),
        s.len() <= put_by(s, f, b).len() <= s.len() + 1,
{
    lemma_key_index_by(s, f, f(b));
    let i = key_index_by(s, f, f(b));
    let s2 = put_by(s, f, b);
    if i >= 0 {
        // In-place replacement: keys are pointwise unchanged.
        assert(forall|j: int| 0 <= j < s.len() ==> f(#[trigger] s[j]) == f(#[trigger] s2[j]));
        assert forall|k: K| true implies #[trigger] key_index_by(s2, f, k) == key_index_by(
            s,
            f,
            k,
        ) by {
            lemma_key_index_by_same_keys(s, s2, f, k);
        }
        assert(distinct_keys(s2, f));
        assert(lookup_by(s2, f, f(b)) == Some(b));
        assert forall|k: K| k != f(b) implies #[trigger] lookup_by(s2, f, k) == lookup_by(
            s,
            f,
            k,
        ) by {
            lemma_key_index_by(s, f, k);
            let r = key_index_by(s, f, k);
            if r >= 0 {
                assert(r != i);
                assert(s2[r] == s[r]);
            }
        }
    } else {
        // Appended: nothing before the new entry has its key.
        assert(forall|j: int| 0 <= j < s.len() ==> #[trigger] s2[j] == s[j]);
        assert(s2[s.len() as int] == b);
        lemma_key_index_by_first_match(s2, f, f(b), s.len() as int);
        assert(distinct_keys(s2, f));
        assert forall|k: K| k != f(b) implies #[trigger] lookup_by(s2, f, k) == lookup_by(
            s,
            f,
            k,
        ) by {
            lemma_key_index_by(s, f, k);
            let r = key_index_by(s, f, k);
            if r >= 0 {
                lemma_key_index_by_first_match(s2, f, k, r);
            } else {
                lemma_key_index_by(s2, f, k);
                let r2 = key_index_by(s2, f, k);
                if r2 >= 0 {
                    if r2 < s.len() {
                        assert(f(s[r2]) != k);
                        assert(false);
                    } else {
                        assert(f(s2[r2]) == f(b));
                        assert(false);
                    }
                }
            }
        }
    }
}

// ------------------------------------------------------------------
// The two concrete stores: balances keyed by their composite key, the
// token registry keyed by the token identifier.
// ------------------------------------------------------------------
/// Key projection of a stored balance.
pub open spec fn balance_key_fn() -> spec_fn(TipsBalanceView) -> TipsBalanceKeyView {
    |b: TipsBalanceView| b.key()
}

/// Key projection of a registry entry.
pub open spec fn ft_key_fn() -> spec_fn(FtIdentifierInfoView) -> Seq<char> {
    |f: FtIdentifierInfoView| f.ft_identifier
}

pub open spec fn lookup_balance(s: Seq<TipsBalanceView>, k: TipsBalanceKeyView) -> Option<
    TipsBalanceView,
> {
    lookup_by(s, balance_key_fn(), k)
}

/// The amount stored under `k`; an absent bucket reads as zero.
pub open spec fn amount_at(s: Seq<TipsBalanceView>, k: TipsBalanceKeyView) -> int {
    match lookup_balance(s, k) {
        Some(b) => b.amount,
        None => 0,
    }
}

pub open spec fn wf_balances(s: Seq<TipsBalanceView>) -> bool {
    &&& distinct_keys(s, balance_key_fn())
    &&& forall|i: int| 0 <= i < s.len() ==> 0 <= #[trigger] s[i].amount <= u128::MAX
}

pub open spec fn lookup_ft(s: Seq<FtIdentifierInfoView>, id: Seq<char>) -> Option<
    FtIdentifierInfoView,
> {
    lookup_by(s, ft_key_fn(), id)
}

pub open spec fn wf_registry(s: Seq<FtIdentifierInfoView>) -> bool {
    distinct_keys(s, ft_key_fn())
}

pub open spec fn put_balance(s: Seq<TipsBalanceView>, b: TipsBalanceView) -> Seq<TipsBalanceView> {
    put_by(s, balance_key_fn(), b)
}

/// The accumulate operation: add to the bucket at `info`'s key, creating it
/// with no payee if absent.
pub open spec fn spec_accumulate(
    s: Seq<TipsBalanceView>,
    info: TipsBalanceInfoView,
    amount: int,
) -> Seq<TipsBalanceView> {
    match lookup_balance(s, info.key()) {
        Some(b) => put_balance(s, b.with_amount(b.amount + amount)),
        None => put_balance(s, TipsBalanceView::fresh(info, amount)),
    }
}

/// The zero-out operation: rewrite the bucket at `k` to amount zero,
/// preserving description and payee; a missing or already-zero bucket is
/// left alone.
pub open spec fn spec_zero_at(s: Seq<TipsBalanceView>, k: TipsBalanceKeyView) -> Seq<
    TipsBalanceView,
> {
    match lookup_balance(s, k) {
        Some(b) => if b.amount != 0 {
            put_balance(s, b.with_amount(0))
        } else {
            s
        },
        None => s,
    }
}

/// Zero-out applied over a batch of keys, leftmost first.
pub open spec fn spec_zero_all(s: Seq<TipsBalanceView>, keys: Seq<TipsBalanceKeyView>) -> Seq<
    TipsBalanceView,
>
    decreases keys.len(),
{
    if keys.len() == 0 {
        s
    } else {
        spec_zero_all(spec_zero_at(s, keys[0]), keys.drop_first())
    }
}

/// Writes applied over a batch of balances, leftmost first.
pub open spec fn spec_put_all(s: Seq<TipsBalanceView>, bs: Seq<TipsBalanceView>) -> Seq<
    TipsBalanceView,
>
    decreases bs.len(),
{
    if bs.len() == 0 {
        s
    } else {
        spec_put_all(put_balance(s, bs[0]), bs.drop_first())
    }
}

/// Zeroing a batch one key longer is zeroing the batch, then the last key.
pub proof fn lemma_zero_all_push(
    s: Seq<TipsBalanceView>,
    keys: Seq<TipsBalanceKeyView>,
    k: TipsBalanceKeyView,
)
    ensures
        spec_zero_all(s, keys.push(k)) == spec_zero_at(spec_zero_all(s, keys), k),
    decreases keys.len(),
{
    let p = keys.push(k);
    assert(p.len() == keys.len() + 1);
    assert(spec_zero_all(s, p) == spec_zero_all(spec_zero_at(s, p[0]), p.drop_first()));
    if keys.len() == 0 {
        assert(p[0] == k);
        assert(p.drop_first() =~= Seq::<TipsBalanceKeyView>::empty());
        assert(spec_zero_all(spec_zero_at(s, k), p.drop_first()) == spec_zero_at(s, k));
        assert(spec_zero_all(s, keys) == s);
    } else {
        assert(p[0] == keys[0]);
        assert(p.drop_first() =~= keys.drop_first().push(k));
        lemma_zero_all_push(spec_zero_at(s, keys[0]), keys.drop_first(), k);
        assert(spec_zero_all(s, keys) == spec_zero_all(spec_zero_at(s, keys[0]), keys.drop_first()));
    }
}

/// Writing a batch one record longer is writing the batch, then the last.
pub proof fn lemma_put_all_push(
    s: Seq<TipsBalanceView>,
    bs: Seq<TipsBalanceView>,
    b: TipsBalanceView,
)
    ensures
        spec_put_all(s, bs.push(b)) == put_balance(spec_put_all(s, bs), b),
    decreases bs.len(),
{
    let p = bs.push(b);
    assert(p.len() == bs.len() + 1);
    assert(spec_put_all(s, p) == spec_put_all(put_balance(s, p[0]), p.drop_first()));
    if bs.len() == 0 {
        assert(p[0] == b);
        assert(p.drop_first() =~= Seq::<TipsBalanceView>::empty());
        assert(spec_put_all(put_balance(s, b), p.drop_first()) == put_balance(s, b));
        assert(spec_put_all(s, bs) == s);
    } else {
        assert(p[0] == bs[0]);
        assert(p.drop_first() =~= bs.drop_first().push(b));
        lemma_put_all_push(put_balance(s, bs[0]), bs.drop_first(), b);
        assert(spec_put_all(s, bs) == spec_put_all(put_balance(s, bs[0]), bs.drop_first()));
    }
}

/// Zeroing a batch of keys keeps the ledger well-formed and leaves every
/// key outside the batch reading as before.
pub proof fn lemma_zero_all_lookup(
    s: Seq<TipsBalanceView>,
    keys: Seq<TipsBalanceKeyView>,
    k: TipsBalanceKeyView,
)
    requires
        wf_balances(s),
    ensures
        wf_balances(spec_zero_all(s, keys)),
        (forall|j: int| 0 <= j < keys.len() ==> keys[j] != k) ==> lookup_balance(
            spec_zero_all(s, keys),
            k,
        ) == lookup_balance(s, k),
    decreases keys.len(),
{
    if keys.len() > 0 {
        lemma_zero_at(s, keys[0]);
        let d = keys.drop_first();
        assert(forall|j: int| 0 <= j < d.len() ==> #[trigger] d[j] == keys[j + 1]);
        lemma_zero_all_lookup(spec_zero_at(s, keys[0]), d, k);
        if forall|j: int| 0 <= j < keys.len() ==> keys[j] != k {
            assert(keys[0] != k);
            assert(forall|j: int| 0 <= j < d.len() ==> d[j] != k);
        }
    }
}

/// Writing a batch of records keeps the ledger well-formed and leaves every
/// key none of them carries reading as before.
pub proof fn lemma_put_all_lookup(
    s: Seq<TipsBalanceView>,
    bs: Seq<TipsBalanceView>,
    k: TipsBalanceKeyView,
)
    requires
        wf_balances(s),
        forall|j: int| 0 <= j < bs.len() ==> 0 <= (#[trigger] bs[j]).amount <= u128::MAX,
    ensures
        wf_balances(spec_put_all(s, bs)),
        (forall|j: int| 0 <= j < bs.len() ==> (#[trigger] bs[j]).key() != k) ==> lookup_balance(
            spec_put_all(s, bs),
            k,
        ) == lookup_balance(s, k),
    decreases bs.len(),
{
    if bs.len() > 0 {
        lemma_wf_put(s, bs[0]);
        let d = bs.drop_first();
        assert(forall|j: int| 0 <= j < d.len() ==> #[trigger] d[j] == bs[j + 1]);
        lemma_put_all_lookup(put_balance(s, bs[0]), d, k);
        if forall|j: int| 0 <= j < bs.len() ==> (#[trigger] bs[j]).key() != k {
            assert(bs[0].key() != k);
            assert(forall|j: int| 0 <= j < d.len() ==> (#[trigger] d[j]).key() != k);
        }
    }
}

/// A bucket already reading zero keeps reading zero through any zero-out.
pub proof fn lemma_zero_at_keeps_zero(
    s: Seq<TipsBalanceView>,
    k2: TipsBalanceKeyView,
    k: TipsBalanceKeyView,
)
    requires
        wf_balances(s),
        amount_at(s, k) == 0,
    ensures
        amount_at(spec_zero_at(s, k2), k) == 0,
{
    lemma_zero_at(s, k2);
    if k2 == k {
    } else {
        assert(lookup_balance(spec_zero_at(s, k2), k) == lookup_balance(s, k));
    }
}

/// A bucket already reading zero keeps reading zero through a whole batch of
/// zero-outs.
pub proof fn lemma_zero_all_keeps_zero(
    s: Seq<TipsBalanceView>,
    keys: Seq<TipsBalanceKeyView>,
    k: TipsBalanceKeyView,
)
    requires
        wf_balances(s),
        amount_at(s, k) == 0,
    ensures
        amount_at(spec_zero_all(s, keys), k) == 0,
    decreases keys.len(),
{
    if keys.len() > 0 {
        lemma_zero_at(s, keys[0]);
        lemma_zero_at_keeps_zero(s, keys[0], k);
        lemma_zero_all_keeps_zero(spec_zero_at(s, keys[0]), keys.drop_first(), k);
    }
}

/// After a batch of zero-outs, every listed key reads zero.
pub proof fn lemma_zero_all_zeroes(s: Seq<TipsBalanceView>, keys: Seq<TipsBalanceKeyView>)
    requires
        wf_balances(s),
    ensures
        forall|j: int| 0 <= j < keys.len() ==> amount_at(spec_zero_all(s, keys), #[trigger] keys[j])
            == 0,
    decreases keys.len(),
{
    if keys.len() > 0 {
        lemma_zero_at(s, keys[0]);
        let s1 = spec_zero_at(s, keys[0]);
        lemma_zero_all_zeroes(s1, keys.drop_first());
        lemma_zero_all_keeps_zero(s1, keys.drop_first(), keys[0]);
        assert(amount_at(s1, keys[0]) == 0);
        assert(forall|j: int|
            0 <= j < keys.drop_first().len() ==> #[trigger] keys.drop_first()[j] == keys[j + 1]);
        assert forall|j: int| 0 <= j < keys.len() implies amount_at(
            spec_zero_all(s, keys),
            #[trigger] keys[j],
        ) == 0 by {
            if j > 0 {
                assert(keys.drop_first()[j - 1] == keys[j]);
                assert(amount_at(spec_zero_all(s1, keys.drop_first()), keys.drop_first()[j - 1])
                    == 0);
            }
        }
    }
}

/// After a batch of writes, a key written exactly once — no later record in
/// the batch shares it — reads as that record.
pub proof fn lemma_put_all_at(s: Seq<TipsBalanceView>, bs: Seq<TipsBalanceView>, i: int)
    requires
        wf_balances(s),
        forall|j: int| 0 <= j < bs.len() ==> 0 <= (#[trigger] bs[j]).amount <= u128::MAX,
        0 <= i < bs.len(),
        forall|j: int| i < j < bs.len() ==> (#[trigger] bs[j]).key() != bs[i].key(),
    ensures
        lookup_balance(spec_put_all(s, bs), bs[i].key()) == Some(bs[i]),
    decreases bs.len(),
{
    lemma_wf_put(s, bs[0]);
    let d = bs.drop_first();
    assert(forall|j: int| 0 <= j < d.len() ==> #[trigger] d[j] == bs[j + 1]);
    if i == 0 {
        lemma_put_all_lookup(put_balance(s, bs[0]), d, bs[0].key());
        assert(forall|j: int| 0 <= j < d.len() ==> (#[trigger] d[j]).key() != bs[0].key());
    } else {
        lemma_put_all_at(put_balance(s, bs[0]), d, i - 1);
    }
}

/// What accumulate does to every read: the bucket at the key gains exactly
/// `amount` and keeps (or newly lacks) its payee; every other key reads as
/// before.
pub proof fn lemma_accumulate(s: Seq<TipsBalanceView>, info: TipsBalanceInfoView, amount: int)
    requires
        wf_balances(s),
        0 <= amount,
        amount_at(s, info.key()) + amount <= u128::MAX,
    ensures
        ({
            let s2 = spec_accumulate(s, info, amount);
            &&& wf_balances(s2)
            &&& amount_at(s2, info.key()) == amount_at(s, info.key()) + amount
            &&& lookup_balance(s2, info.key()) == Some(
                match lookup_balance(s, info.key()) {
                    Some(b) => b.with_amount(b.amount + amount),
                    None => TipsBalanceView::fresh(info, amount),
                },
            )
            &&& forall|k: TipsBalanceKeyView|
                k != info.key() ==> #[trigger] lookup_balance(s2, k) == lookup_balance(s, k)
        }),
{
    let f = balance_key_fn();
    lemma_key_index_by(s, f, info.key());
    match lookup_balance(s, info.key()) {
        Some(b) => {
            assert(b.key() == info.key());
            lemma_put_by(s, f, b.with_amount(b.amount + amount));
            lemma_wf_put(s, b.with_amount(b.amount + amount));
        },
        None => {
            lemma_put_by(s, f, TipsBalanceView::fresh(info, amount));
            lemma_wf_put(s, TipsBalanceView::fresh(info, amount));
        },
    }
}

/// `put_balance` keeps amounts within machine range when the written entry's
/// amount is in range.
pub proof fn lemma_wf_put(s: Seq<TipsBalanceView>, b: TipsBalanceView)
    requires
        wf_balances(s),
        0 <= b.amount <= u128::MAX,
    ensures
        wf_balances(put_balance(s, b)),
        lookup_balance(put_balance(s, b), b.key()) == Some(b),
        forall|k: TipsBalanceKeyView|
            k != b.key() ==> #[trigger] lookup_balance(put_balance(s, b), k) == lookup_balance(
                s,
                k,
            ),
        s.len() <= put_balance(s, b).len() <= s.len() + 1,
{
    let f = balance_key_fn();
    lemma_put_by(s, f, b);
    let s2 = put_balance(s, b);
    lemma_key_index_by(s, f, b.key());
    let i = key_index_by(s, f, b.key());
    assert forall|j: int| 0 <= j < s2.len() implies 0 <= #[trigger] s2[j].amount <= u128::MAX by {
        if i >= 0 {
            if j != i {
                assert(s2[j] == s[j]);
            }
        } else {
            if j < s.len() {
                assert(s2[j] == s[j]);
            }
        }
    }
}

/// Every read of a well-formed ledger yields a machine balance.
pub proof fn lemma_amount_at_bounds(s: Seq<TipsBalanceView>, k: TipsBalanceKeyView)
    requires
        wf_balances(s),
    ensures
        0 <= amount_at(s, k) <= u128::MAX,
        lookup_balance(s, k) matches Some(b) ==> 0 <= b.amount <= u128::MAX,
{
    lemma_key_index_by(s, balance_key_fn(), k);
}

/// What zero-out does to every read: the bucket at `k`, if present, keeps
/// its description and payee at amount zero; every other key reads as
/// before.
pub proof fn lemma_zero_at(s: Seq<TipsBalanceView>, k: TipsBalanceKeyView)
    requires
        wf_balances(s),
    ensures
        ({
            let s2 = spec_zero_at(s, k);
            &&& wf_balances(s2)
            &&& lookup_balance(s2, k) == (match lookup_balance(s, k) {
                Some(b) => Some(b.with_amount(0)),
                None => None,
            })
            &&& forall|k2: TipsBalanceKeyView|
                k2 != k ==> #[trigger] lookup_balance(s2, k2) == lookup_balance(s, k2)
            &&& s2.len() == s.len()
        }),
{
    let f = balance_key_fn();
    lemma_key_index_by(s, f, k);
    match lookup_balance(s, k) {
        Some(b) => {
            assert(b.key() == k);
            if b.amount != 0 {
                lemma_wf_put(s, b.with_amount(0));
            } else {
                assert(b.with_amount(0) == b);
            }
        },
        None => {},
    }
}

} // verus!
