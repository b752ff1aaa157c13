//! The ledger's governing laws, stated over the same spec functions the
//! operations' contracts use and proved from them alone.

use vstd::prelude::*;

use crate::contract::{
    lemma_batch_keys_shape, lemma_collected_nonneg, spec_batch_keys, spec_batch_mains, spec_bucket_key, spec_calculate_tips, spec_claim_reference_plan,
    spec_claim_tip, spec_clamped_fee, spec_collected_amount, spec_commit_claim_reference,
    spec_native_key,
};
use crate::store::{
    amount_at, balance_key_fn, lemma_accumulate, lemma_amount_at_bounds, lemma_key_index_by,
    lemma_put_all_at, lemma_put_all_lookup, lemma_wf_put, lemma_zero_all_lookup,
    lemma_zero_all_zeroes, lemma_zero_at, lookup_balance, put_balance, spec_accumulate,
    spec_put_all, spec_zero_all, spec_zero_at, wf_balances, wf_registry,
};
use crate::types::{FtIdentifierInfoView, TipsBalanceInfoView, TipsBalanceKeyView, TipsBalanceView};
use crate::TippingError;

verus! {

/// Accumulation adds up: two accumulations into one bucket followed by a
/// read yield exactly the sum of both amounts on top of what the bucket held
/// before, and touch no other bucket.
pub proof fn lemma_accumulate_then_read(
    s: Seq<TipsBalanceView>,
    info: TipsBalanceInfoView,
    first_amount: int,
    second_amount: int,
)
    requires
        wf_balances(s),
        0 <= first_amount,
        0 <= second_amount,
        amount_at(s, info.key()) + first_amount + second_amount <= u128::MAX,
    ensures
        ({
            let s1 = spec_accumulate(s, info, first_amount);
            let s2 = spec_accumulate(s1, info, second_amount);
            &&& wf_balances(s2)
            &&& amount_at(s2, info.key()) == amount_at(s, info.key()) + first_amount
                + second_amount
            &&& forall|k: TipsBalanceKeyView|
                k != info.key() ==> #[trigger] lookup_balance(s2, k) == lookup_balance(s, k)
        }),
{
    lemma_accumulate(s, info, first_amount);
    lemma_accumulate(spec_accumulate(s, info, first_amount), info, second_amount);
}

/// A claim is single-shot: once a claim of a bucket has succeeded, any
/// further claim of the same bucket is rejected — the bucket reads as having
/// nothing to claim, whoever calls — so the amount is never handed out
/// twice.
pub proof fn lemma_claim_tip_single_shot(
    s: Seq<TipsBalanceView>,
    k: TipsBalanceKeyView,
    caller: Seq<char>,
    later_caller: Seq<char>,
)
    requires
        wf_balances(s),
        spec_claim_tip(s, k, caller) is Ok,
    ensures
        ({
            let (s2, zeroed, amt) = spec_claim_tip(s, k, caller)->Ok_0;
            &&& wf_balances(s2)
            &&& amount_at(s2, k) == 0
            &&& spec_claim_tip(s2, k, later_caller) == Err::<
                (Seq<TipsBalanceView>, TipsBalanceView, int),
                TippingError,
            >(TippingError::NothingToClaimed)
        }),
{
    lemma_key_index_by(s, balance_key_fn(), k);
    let b = lookup_balance(s, k)->0;
    assert(b.key() == k);
    lemma_wf_put(s, b.with_amount(0));
}

/// Reference reassignment conserves value modulo the fee.  For a source
/// reference distinct from the target one: once the staged reassignment
/// commits, the main bucket holds what it held before plus everything the
/// source bucket held, less the fee exactly when the moved token is the
/// native currency; for any other token the fee comes out of the native
/// record instead.  The fee taken is the requested one when the native
/// bucket at the target reference covers it, and nothing otherwise.
pub proof fn lemma_claim_reference_conserves_value(
    s: Seq<TipsBalanceView>,
    info: TipsBalanceInfoView,
    reference_type: Seq<char>,
    reference_id: Seq<char>,
    account_id: Seq<char>,
    requested_fee: int,
)
    requires
        wf_balances(s),
        0 <= requested_fee,
        info.key() != info.key().with_reference(reference_type, reference_id),
        amount_at(s, info.key().with_reference(reference_type, reference_id)) + amount_at(
            s,
            info.key(),
        ) <= u128::MAX,
    ensures
        ({
            let src_k = info.key();
            let tgt_k = src_k.with_reference(reference_type, reference_id);
            let native_k = spec_native_key(info.server_id, reference_type, reference_id);
            let fee = spec_clamped_fee(requested_fee, amount_at(s, native_k));
            let plan = spec_claim_reference_plan(
                s,
                info,
                reference_type,
                reference_id,
                account_id,
                requested_fee,
            );
            let s2 = spec_commit_claim_reference(s, plan);
            &&& plan.tx_fee == fee
            &&& fee <= amount_at(s, native_k)
            &&& amount_at(s2, tgt_k) == amount_at(s, tgt_k) + amount_at(s, src_k) - (
            if info.ft_identifier == "native"@ {
                fee
            } else {
                0
            })
            &&& amount_at(s2, src_k) == 0
            &&& info.ft_identifier != "native"@ ==> amount_at(s2, native_k) == amount_at(
                s,
                native_k,
            ) - fee
        }),
{
    let src_k = info.key();
    let tgt_k = src_k.with_reference(reference_type, reference_id);
    let native_k = spec_native_key(info.server_id, reference_type, reference_id);
    let fee = spec_clamped_fee(requested_fee, amount_at(s, native_k));
    let plan = spec_claim_reference_plan(
        s,
        info,
        reference_type,
        reference_id,
        account_id,
        requested_fee,
    );
    let main0 = spec_calculate_tips(s, info, reference_type, reference_id);
    lemma_key_index_by(s, balance_key_fn(), src_k);
    lemma_key_index_by(s, balance_key_fn(), tgt_k);
    lemma_key_index_by(s, balance_key_fn(), native_k);
    lemma_amount_at_bounds(s, src_k);
    lemma_amount_at_bounds(s, tgt_k);
    lemma_amount_at_bounds(s, native_k);
    assert(main0.key() == tgt_k);
    assert(main0.amount == amount_at(s, tgt_k) + amount_at(s, src_k));
    // The target key equals the native key exactly when the moved token is
    // the native currency.
    assert(tgt_k == native_k <==> info.ft_identifier == "native"@);
    if info.ft_identifier == "native"@ {
        let s1 = spec_zero_at(s, src_k);
        lemma_zero_at(s, src_k);
        lemma_wf_put(s1, plan.main_balance);
        assert(amount_at(s1, tgt_k) == amount_at(s, tgt_k));
    } else {
        let nb = plan.native_balance->0;
        let s1 = put_balance(s, nb);
        lemma_wf_put(s, nb);
        assert(nb.key() == native_k);
        let s2z = spec_zero_at(s1, src_k);
        lemma_zero_at(s1, src_k);
        lemma_wf_put(s2z, plan.main_balance);
        assert(src_k != native_k);
        assert(tgt_k != native_k);
        assert(amount_at(s1, src_k) == amount_at(s, src_k));
        assert(amount_at(s1, tgt_k) == amount_at(s, tgt_k));
        assert(amount_at(s2z, native_k) == amount_at(s1, native_k));
    }
}

/// Batch reference reassignment conserves value per token: once the staged
/// batch commits, each token's main bucket holds what it held before plus
/// everything collected from the source references for that token, less the
/// fee exactly for the native currency; and every swept source bucket —
/// the main reference not being among the sources — reads zero.  The fee
/// taken is the requested one when the native main bucket covers it, and
/// nothing otherwise.
pub proof fn lemma_batch_claim_references_conserve_value(
    s: Seq<TipsBalanceView>,
    registry: Seq<FtIdentifierInfoView>,
    server_id: Seq<char>,
    reference_type: Seq<char>,
    reference_ids: Seq<Seq<char>>,
    main_ref_type: Seq<char>,
    main_ref_id: Seq<char>,
    account_id: Seq<char>,
    requested_fee: int,
)
    requires
        wf_balances(s),
        wf_registry(registry),
        0 <= requested_fee,
        !(reference_type == main_ref_type && reference_ids.contains(main_ref_id)),
        forall|i: int|
            0 <= i < registry.len() ==> #[trigger] spec_collected_amount(
                s,
                server_id,
                reference_type,
                reference_ids,
                registry[i].ft_identifier,
            ) + amount_at(
                s,
                spec_bucket_key(server_id, main_ref_type, main_ref_id, registry[i].ft_identifier),
            ) <= u128::MAX,
    ensures
        ({
            let fee = spec_clamped_fee(
                requested_fee,
                amount_at(s, spec_bucket_key(server_id, main_ref_type, main_ref_id, "native"@)),
            );
            let mains = spec_batch_mains(
                s,
                registry,
                server_id,
                reference_type,
                reference_ids,
                main_ref_type,
                main_ref_id,
                account_id,
                fee,
            );
            let keys = spec_batch_keys(s, registry, server_id, reference_type, reference_ids);
            let s2 = spec_put_all(spec_zero_all(s, keys), mains);
            &&& forall|i: int|
                0 <= i < registry.len() ==> #[trigger] amount_at(
                    s2,
                    spec_bucket_key(
                        server_id,
                        main_ref_type,
                        main_ref_id,
                        registry[i].ft_identifier,
                    ),
                ) == amount_at(
                    s,
                    spec_bucket_key(
                        server_id,
                        main_ref_type,
                        main_ref_id,
                        registry[i].ft_identifier,
                    ),
                ) + spec_collected_amount(
                    s,
                    server_id,
                    reference_type,
                    reference_ids,
                    registry[i].ft_identifier,
                ) - (if registry[i].ft_identifier == "native"@ {
                    fee
                } else {
                    0
                })
            &&& forall|j: int| 0 <= j < keys.len() ==> amount_at(s2, #[trigger] keys[j]) == 0
        }),
{
    let native_mk = spec_bucket_key(server_id, main_ref_type, main_ref_id, "native"@);
    let fee = spec_clamped_fee(requested_fee, amount_at(s, native_mk));
    let mains = spec_batch_mains(
        s,
        registry,
        server_id,
        reference_type,
        reference_ids,
        main_ref_type,
        main_ref_id,
        account_id,
        fee,
    );
    let keys = spec_batch_keys(s, registry, server_id, reference_type, reference_ids);
    let sz = spec_zero_all(s, keys);
    lemma_amount_at_bounds(s, native_mk);
    lemma_batch_keys_shape(s, registry, server_id, reference_type, reference_ids);
    // Each staged record sits at its token's main key, within machine range,
    // holding exactly the conserved amount.
    assert forall|i: int| 0 <= i < registry.len() implies {
        let ftv = registry[i].ft_identifier;
        let mk = spec_bucket_key(server_id, main_ref_type, main_ref_id, ftv);
        let collected = spec_collected_amount(s, server_id, reference_type, reference_ids, ftv);
        &&& (#[trigger] mains[i]).key() == mk
        &&& mains[i].amount == amount_at(s, mk) + collected - (if ftv == "native"@ {
            fee
        } else {
            0
        })
        &&& 0 <= mains[i].amount <= u128::MAX
    } by {
        let ftv = registry[i].ft_identifier;
        let mk = spec_bucket_key(server_id, main_ref_type, main_ref_id, ftv);
        lemma_key_index_by(s, balance_key_fn(), mk);
        lemma_amount_at_bounds(s, mk);
        lemma_collected_nonneg(s, server_id, reference_type, reference_ids, ftv);
        assert(spec_collected_amount(s, server_id, reference_type, reference_ids, ftv) + amount_at(
            s,
            mk,
        ) <= u128::MAX);
    }
    // Well-formedness survives the sweep, and the swept keys read zero.
    lemma_zero_all_lookup(s, keys, native_mk);
    lemma_zero_all_zeroes(s, keys);
    assert(forall|j: int| 0 <= j < mains.len() ==> 0 <= (#[trigger] mains[j]).amount <= u128::MAX);
    // No two staged records share a key: the registry's identifiers differ.
    assert forall|i: int, j: int| 0 <= i < j < mains.len() implies (#[trigger] mains[i]).key() != (
    #[trigger] mains[j]).key() by {
        assert(registry[i].ft_identifier != registry[j].ft_identifier);
    }
    // Each main key reads as its staged record after the writes.
    assert forall|i: int| 0 <= i < registry.len() implies #[trigger] amount_at(
        spec_put_all(sz, mains),
        spec_bucket_key(server_id, main_ref_type, main_ref_id, registry[i].ft_identifier),
    ) == mains[i].amount by {
        lemma_put_all_at(sz, mains, i);
    }
    // A swept key is no main key, so the writes leave its zero in place.
    assert forall|j: int| 0 <= j < keys.len() implies amount_at(
        spec_put_all(sz, mains),
        #[trigger] keys[j],
    ) == 0 by {
        assert forall|m: int| 0 <= m < mains.len() implies (#[trigger] mains[m]).key()
            != keys[j] by {
            assert(keys[j].reference_type == reference_type);
            assert(reference_ids.contains(keys[j].reference_id));
            if mains[m].key() == keys[j] {
                assert(main_ref_type == reference_type);
                assert(keys[j].reference_id == main_ref_id);
            }
        }
        lemma_put_all_lookup(sz, mains, keys[j]);
    }
}

} // verus!
