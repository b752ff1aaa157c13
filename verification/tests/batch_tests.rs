//! Batch claims and batch reference reassignment, including the fee clamp
//! and value conservation on concrete ledgers.

use tipping::contract::TippingContract;
use tipping::types::{Balance, FungibleTokenMetadata, TipsBalance, TipsBalanceInfo, TipsBalanceKey};
use tipping::TippingError;

fn dai_metadata() -> FungibleTokenMetadata {
    FungibleTokenMetadata {
        spec_version: String::from("ft-1.0.0"),
        name: String::from("Dai"),
        symbol: String::from("DAI"),
        icon: None,
        reference: None,
        reference_hash: None,
        decimals: 18,
    }
}

/// A contract with a second registered token, funded source buckets under
/// two references, and a designated payee on the main native bucket.
fn funded_contract() -> TippingContract {
    let mut contract = TippingContract::new(String::from("alice"));
    let dai = String::from("dai.token");
    contract.resolve_ft_identifier(&dai, Some(&dai_metadata()));

    let native_a = TipsBalanceInfo::new("myriad", "post", "p1", "native");
    let native_b = TipsBalanceInfo::new("myriad", "post", "p2", "native");
    let dai_a = TipsBalanceInfo::new("myriad", "post", "p1", "dai.token");
    contract.create_tips_balance(&native_a, &50);
    contract.create_tips_balance(&native_b, &70);
    contract.create_tips_balance(&dai_a, &40);
    contract
}

#[test]
fn batch_claim_references_clamps_and_conserves() {
    // Sources keyed under the signer: the batch variant keys every bucket by
    // the caller's own account.
    let mut contract = TippingContract::new(String::from("alice"));
    let main_native = TipsBalanceInfo::new("myriad", "user", "u1", "native");
    let src1 = TipsBalanceInfo::new("myriad", "post", "p1", "native");
    let src2 = TipsBalanceInfo::new("myriad", "post", "p2", "native");
    contract.create_tips_balance(&main_native, &100);
    contract.create_tips_balance(&src1, &50);
    contract.create_tips_balance(&src2, &70);

    let reference_ids = vec![String::from("p1"), String::from("p2")];
    let plan = contract
        .batch_claim_references(
            &String::from("post"),
            &reference_ids,
            &String::from("user"),
            &String::from("u1"),
            &String::from("eugene"),
            &String::from("30"),
            &String::from("myriad"),
        )
        .expect("batch_claim_references");
    assert_eq!(plan.tx_fee, 30);
    assert_eq!(plan.main_balances.len(), 1); // one registered token
    assert_eq!(plan.secondary_keys.len(), 2);

    contract
        .resolve_batch_claim_reference(&plan.secondary_keys, &plan.main_balances, true)
        .expect("resolve_batch_claim_reference");

    // mainAfter == mainBefore + sum(sources) - appliedFee
    let main_after = contract.get_tips_balance(main_native).unwrap();
    assert_eq!(main_after.tips_balance.get_amount(), 100 + 50 + 70 - 30);
    assert_eq!(
        main_after.tips_balance.get_account_id(),
        &Some(String::from("eugene"))
    );
    // Sources are swept to zero, not deleted.
    let src1_after = contract.get_tips_balance(src1).unwrap();
    assert_eq!(src1_after.tips_balance.get_amount(), 0);
    let src2_after = contract.get_tips_balance(src2).unwrap();
    assert_eq!(src2_after.tips_balance.get_amount(), 0);
}

#[test]
fn batch_claim_references_takes_no_fee_on_credit() {
    let mut contract = TippingContract::new(String::from("alice"));
    let src = TipsBalanceInfo::new("myriad", "post", "p1", "native");
    contract.create_tips_balance(&src, &40);

    let reference_ids = vec![String::from("p1")];
    // The native bucket at the main reference holds nothing, so the
    // requested fee cannot be covered and none is taken.
    let plan = contract
        .batch_claim_references(
            &String::from("post"),
            &reference_ids,
            &String::from("user"),
            &String::from("u1"),
            &String::from("eugene"),
            &String::from("30"),
            &String::from("myriad"),
        )
        .expect("batch_claim_references");
    assert_eq!(plan.tx_fee, 0);

    contract
        .resolve_batch_claim_reference(&plan.secondary_keys, &plan.main_balances, true)
        .expect("resolve");
    let main = TipsBalanceInfo::new("myriad", "user", "u1", "native");
    assert_eq!(
        contract.get_tips_balance(main).unwrap().tips_balance.get_amount(),
        40
    );
}

#[test]
fn batch_claim_references_rejects_self_designation() {
    let mut contract = TippingContract::new(String::from("alice"));
    let result = contract.batch_claim_references(
        &String::from("post"),
        &vec![String::from("p1")],
        &String::from("user"),
        &String::from("u1"),
        &String::from("myriad"),
        &String::from("0"),
        &String::from("myriad"),
    );
    assert!(matches!(result, Err(TippingError::Unauthorized)));
}

#[test]
fn failed_batch_reference_resolution_changes_nothing() {
    let mut contract = TippingContract::new(String::from("alice"));
    let src = TipsBalanceInfo::new("myriad", "post", "p1", "native");
    contract.create_tips_balance(&src, &40);

    let plan = contract
        .batch_claim_references(
            &String::from("post"),
            &vec![String::from("p1")],
            &String::from("user"),
            &String::from("u1"),
            &String::from("eugene"),
            &String::from("0"),
            &String::from("myriad"),
        )
        .expect("batch_claim_references");
    let result = contract.resolve_batch_claim_reference(&plan.secondary_keys, &plan.main_balances, false);
    assert_eq!(result, Err(TippingError::TokenNotFound));
    assert_eq!(
        contract.get_tips_balance(src).unwrap().tips_balance.get_amount(),
        40
    );
}

#[test]
fn batch_claim_tips_claims_every_designated_bucket() {
    let mut contract = funded_contract();

    // Designate a payee on the two buckets under post/p1 by reassigning the
    // reference onto itself through the commit step.
    let native_a = TipsBalanceInfo::new("myriad", "post", "p1", "native");
    let dai_a = TipsBalanceInfo::new("myriad", "post", "p1", "dai.token");
    let unused = TipsBalanceKey::new("myriad", "none", "none", "native");
    let designated_native = TipsBalance::new(&native_a)
        .set_balance(50)
        .set_account_id(&String::from("danny"));
    let designated_dai = TipsBalance::new(&dai_a)
        .set_balance(40)
        .set_account_id(&String::from("danny"));
    contract.claim_tips_balance(&unused, &designated_native);
    contract.claim_tips_balance(&unused, &designated_dai);

    // A stranger has nothing to claim there.
    assert_eq!(
        contract.batch_claim_tips(
            &String::from("myriad"),
            &String::from("post"),
            &String::from("p1"),
            &String::from("eugene"),
        ),
        Err(TippingError::NothingToClaimed)
    );

    let claimed = contract
        .batch_claim_tips(
            &String::from("myriad"),
            &String::from("post"),
            &String::from("p1"),
            &String::from("danny"),
        )
        .expect("batch_claim_tips");
    assert_eq!(claimed.len(), 2);
    assert_eq!(claimed[0].get_ft_identifier(), "native");
    assert_eq!(claimed[0].get_amount(), 50);
    assert_eq!(claimed[1].get_ft_identifier(), "dai.token");
    assert_eq!(claimed[1].get_amount(), 40);

    // Both buckets are zeroed at once; a second batch claim finds nothing.
    assert_eq!(
        contract.batch_claim_tips(
            &String::from("myriad"),
            &String::from("post"),
            &String::from("p1"),
            &String::from("danny"),
        ),
        Err(TippingError::NothingToClaimed)
    );

    // The resolution step re-persists the zeroed records; the count must
    // match the number of chained transfers.
    assert_eq!(
        contract.resolve_batch_claim_tip(&claimed, 1),
        Err(TippingError::ResultCountMismatch)
    );
    contract
        .resolve_batch_claim_tip(&claimed, 2)
        .expect("resolve_batch_claim_tip");
    assert_eq!(
        contract.get_tips_balance(native_a).unwrap().tips_balance.get_amount(),
        0
    );
}

#[test]
fn batch_calculate_tips_builds_one_record_per_token() {
    let contract = funded_contract();

    let reference_ids = vec![String::from("p1"), String::from("p2")];
    let (mains, keys) = contract.batch_calculate_tips(
        &String::from("myriad"),
        &String::from("post"),
        &reference_ids,
        &String::from("user"),
        &String::from("u1"),
        &String::from("eugene"),
        0,
    );

    // One staged record per registered token, in registry order.
    assert_eq!(mains.len(), 2);
    assert_eq!(mains[0].get_ft_identifier(), "native");
    assert_eq!(mains[0].get_amount(), 50 + 70);
    assert_eq!(mains[0].get_account_id(), &Some(String::from("eugene")));
    assert_eq!(mains[1].get_ft_identifier(), "dai.token");
    assert_eq!(mains[1].get_amount(), 40);

    // The keys of the non-empty source buckets, native ones first.
    assert_eq!(keys.len(), 3);
    assert_eq!(keys[0], TipsBalanceKey::new("myriad", "post", "p1", "native"));
    assert_eq!(keys[1], TipsBalanceKey::new("myriad", "post", "p2", "native"));
    assert_eq!(keys[2], TipsBalanceKey::new("myriad", "post", "p1", "dai.token"));
}
