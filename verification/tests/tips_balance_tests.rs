//! The send / claim / reassign lifecycle, driven from outside with plain
//! values in place of the host environment.

use tipping::contract::{TippingContract, TransferAction};
use tipping::types::{Balance, TipsBalance, TipsBalanceInfo, TipsBalanceWithFormattedBalance};
use tipping::TippingError;

const ONE_TENTH: Balance = 100000000000000000000000; // 0.1 of a 24-decimal token
const BIG_BALANCE: Balance = 100000000000000000000000000; // 100 of the same

fn account(i: usize) -> String {
    let names = ["alice", "bob", "charlie", "danny", "eugene", "fargo"];
    names[i].to_string()
}

#[test]
fn send_tip_works() {
    let mut contract = TippingContract::new(account(1));

    let tips_balance_info = TipsBalanceInfo::new("myriad", "user", "user_id", "native");
    let tip: Balance = ONE_TENTH;

    contract
        .send_tip(&tips_balance_info, tip, BIG_BALANCE)
        .expect("send_tip");

    let expected_tips_balance = TipsBalance::new(&tips_balance_info).set_balance(tip);
    let tips_balance = contract.get_tips_balance(tips_balance_info).unwrap();
    let formatted_tips_balance = TipsBalanceWithFormattedBalance {
        tips_balance: expected_tips_balance,
        symbol: String::from("NEAR"),
        formatted_amount: String::from("0.1"),
        unclaimed_reference_ids: Vec::new(),
    };

    assert_eq!(formatted_tips_balance, tips_balance);
}

#[test]
fn tests_send_tip_works() {
    let mut contract = TippingContract::new(account(1));

    let tips_balance_info = TipsBalanceInfo::new(&account(4), "user", "user_id", "native");
    let tip: Balance = ONE_TENTH;

    contract
        .send_tip(&tips_balance_info, tip, BIG_BALANCE)
        .expect("send_tip");

    let expected_tips_balance = TipsBalance::new(&tips_balance_info).set_balance(tip);
    let tips_balance = contract.get_tips_balance(tips_balance_info).unwrap();
    let formatted_tips_balance = TipsBalanceWithFormattedBalance {
        tips_balance: expected_tips_balance,
        symbol: String::from("NEAR"),
        formatted_amount: String::from("0.1"),
        unclaimed_reference_ids: Vec::new(),
    };

    assert_eq!(formatted_tips_balance, tips_balance);
}

#[test]
fn claim_reference_works() {
    let mut contract = TippingContract::new(account(0));

    let tips_balance_info_1 = TipsBalanceInfo::new("myriad", "people", "people_id", "native");
    let tip: Balance = ONE_TENTH;

    contract
        .send_tip(&tips_balance_info_1, tip, BIG_BALANCE)
        .expect("send_tip");

    let reference_type = String::from("user");
    let reference_id = String::from("user_id");
    let tips_balance_info_2 = TipsBalanceInfo::new("myriad", "user", "user_id", "native");

    let plan = contract
        .claim_reference(
            &tips_balance_info_1,
            &reference_type,
            &reference_id,
            &account(5),
            &String::from("0"),
            &String::from("myriad"),
        )
        .expect("claim_reference");
    contract
        .resolve_claim_reference(
            &plan.secondary_key,
            &plan.main_balance,
            plan.native_balance.as_ref(),
            true,
        )
        .expect("resolve_claim_reference");

    // The swept source bucket stays, at amount zero.
    let swept = contract.get_tips_balance(tips_balance_info_1.clone()).unwrap();
    assert_eq!(swept.tips_balance, TipsBalance::new(&tips_balance_info_1));
    assert_eq!(swept.formatted_amount, String::from("0"));

    let tips_balance = TipsBalance::new(&tips_balance_info_2).set_balance(tip);
    let expected_tips_balance = tips_balance.set_account_id(&account(5));
    let tips_balance = contract.get_tips_balance(tips_balance_info_2).unwrap();
    let formatted_tips_balance = TipsBalanceWithFormattedBalance {
        tips_balance: expected_tips_balance,
        symbol: String::from("NEAR"),
        formatted_amount: String::from("0.1"),
        unclaimed_reference_ids: Vec::new(),
    };

    assert_eq!(formatted_tips_balance, tips_balance);
}

#[test]
fn claim_tips_works() {
    let mut contract = TippingContract::new(account(0));

    let tips_balance_info_1 = TipsBalanceInfo::new("myriad", "people", "people_id", "native");
    let tip: Balance = ONE_TENTH;

    contract
        .send_tip(&tips_balance_info_1, tip, BIG_BALANCE)
        .expect("send_tip");

    let reference_type = String::from("user");
    let reference_id = String::from("user_id");
    let tips_balance_info_2 = TipsBalanceInfo::new("myriad", "user", "user_id", "native");

    let plan = contract
        .claim_reference(
            &tips_balance_info_1,
            &reference_type,
            &reference_id,
            &account(4),
            &String::from("0"),
            &String::from("myriad"),
        )
        .expect("claim_reference");
    contract
        .resolve_claim_reference(
            &plan.secondary_key,
            &plan.main_balance,
            plan.native_balance.as_ref(),
            true,
        )
        .expect("resolve_claim_reference");

    let (claimed, amount) = contract
        .claim_tip(&tips_balance_info_2, &account(4))
        .expect("claim_tip");
    assert_eq!(amount, tip);
    contract
        .resolve_claim_tip(&claimed, amount, true)
        .expect("resolve_claim_tip");

    // The swept source bucket stays, at amount zero.
    let swept = contract.get_tips_balance(tips_balance_info_1.clone()).unwrap();
    assert_eq!(swept.tips_balance, TipsBalance::new(&tips_balance_info_1));

    let tips_balance = TipsBalance::new(&tips_balance_info_2);
    let expected_tips_balance = tips_balance.set_account_id(&account(4));
    let tips_balance = contract.get_tips_balance(tips_balance_info_2).unwrap();
    let formatted_tips_balance = TipsBalanceWithFormattedBalance {
        tips_balance: expected_tips_balance,
        symbol: String::from("NEAR"),
        formatted_amount: String::from("0"),
        unclaimed_reference_ids: Vec::new(),
    };

    assert_eq!(formatted_tips_balance, tips_balance);
}

#[test]
fn cant_send_tip_when_tipping_with_fungible_token() {
    let mut contract = TippingContract::new(account(1));

    let tips_balance_info = TipsBalanceInfo::new("myriad", "user", "user_id", "fungible_token");

    let result = contract.send_tip(&tips_balance_info, 0, BIG_BALANCE);
    assert_eq!(result, Err(TippingError::OnlyForNear));
}

#[test]
fn tests_cant_send_tip_when_tipping_with_fungible_token() {
    let mut contract = TippingContract::new(account(1));

    let tips_balance_info = TipsBalanceInfo::new(&account(4), "user", "user_id", "fungible_token");

    let result = contract.send_tip(&tips_balance_info, 0, BIG_BALANCE);
    assert_eq!(result, Err(TippingError::OnlyForNear));
}

#[test]
fn cant_send_tip_when_tipping_amount_less_than_minimum() {
    let mut contract = TippingContract::new(account(1));

    let tips_balance_info = TipsBalanceInfo::new("myriad", "user", "user_id", "native");

    let result = contract.send_tip(&tips_balance_info, 0, BIG_BALANCE);
    assert_eq!(result, Err(TippingError::TipsMustMoreThanMinimum));
}

#[test]
fn cant_send_tip_when_insufficient_balance() {
    let mut contract = TippingContract::new(account(1));

    let tips_balance_info = TipsBalanceInfo::new("myriad", "user", "user_id", "native");

    let result = contract.send_tip(&tips_balance_info, 10, 0);
    assert_eq!(result, Err(TippingError::InsufficientBalance));
}

#[test]
fn tests_cant_send_tip_when_tipping_amount_less_than_minimum() {
    let mut contract = TippingContract::new(account(1));

    let tips_balance_info = TipsBalanceInfo::new(&account(4), "user", "user_id", "native");

    let result = contract.send_tip(&tips_balance_info, 0, BIG_BALANCE);
    assert_eq!(result, Err(TippingError::TipsMustMoreThanMinimum));
}

#[test]
fn tests_cant_send_tip_when_insufficient_balance() {
    let mut contract = TippingContract::new(account(1));

    let tips_balance_info = TipsBalanceInfo::new(&account(4), "user", "user_id", "native");

    let result = contract.send_tip(&tips_balance_info, 10, 0);
    assert_eq!(result, Err(TippingError::InsufficientBalance));
}

#[test]
fn cant_claim_tips_when_receiver_not_exists() {
    let mut contract = TippingContract::new(account(0));

    let tips_balance_info_1 = TipsBalanceInfo::new("myriad", "user", "user_id", "native");
    let tip: Balance = ONE_TENTH;

    contract
        .send_tip(&tips_balance_info_1, tip, BIG_BALANCE)
        .expect("send_tip");

    let result = contract.claim_tip(&tips_balance_info_1, &account(4));
    assert_eq!(result, Err(TippingError::ReceiverNotExists));
}

#[test]
fn tests_cant_claim_tips_when_receiver_not_exists() {
    let mut contract = TippingContract::new(account(0));

    let tips_balance_info_1 = TipsBalanceInfo::new(&account(4), "user", "user_id", "native");
    let tip: Balance = ONE_TENTH;

    contract
        .send_tip(&tips_balance_info_1, tip, BIG_BALANCE)
        .expect("send_tip");

    let result = contract.claim_tip(&tips_balance_info_1, &account(4));
    assert_eq!(result, Err(TippingError::ReceiverNotExists));
}

#[test]
fn cant_claim_tips_when_nothing_to_claimed() {
    let mut contract = TippingContract::new(account(0));

    let reference_type = String::from("user");
    let reference_id = String::from("user_id");
    let tips_balance_info = TipsBalanceInfo::new("myriad", "user", "user_id", "native");

    let plan = contract
        .claim_reference(
            &tips_balance_info,
            &reference_type,
            &reference_id,
            &account(4),
            &String::from("0"),
            &String::from("myriad"),
        )
        .expect("claim_reference");
    contract
        .resolve_claim_reference(
            &plan.secondary_key,
            &plan.main_balance,
            plan.native_balance.as_ref(),
            true,
        )
        .expect("resolve_claim_reference");

    let result = contract.claim_tip(&tips_balance_info, &account(4));
    assert_eq!(result, Err(TippingError::NothingToClaimed));
}

#[test]
fn cant_claim_tips_when_unauthorized() {
    let mut contract = TippingContract::new(account(0));

    let tips_balance_info = TipsBalanceInfo::new("myriad", "user", "user_id", "native");
    let tip: Balance = ONE_TENTH;

    contract
        .send_tip(&tips_balance_info, tip, BIG_BALANCE)
        .expect("send_tip");

    let reference_type = String::from("user");
    let reference_id = String::from("user_id");
    let plan = contract
        .claim_reference(
            &tips_balance_info,
            &reference_type,
            &reference_id,
            &account(4),
            &String::from("0"),
            &String::from("myriad"),
        )
        .expect("claim_reference");
    contract
        .resolve_claim_reference(
            &plan.secondary_key,
            &plan.main_balance,
            plan.native_balance.as_ref(),
            true,
        )
        .expect("resolve_claim_reference");

    let result = contract.claim_tip(&tips_balance_info, &account(5));
    assert_eq!(result, Err(TippingError::Unauthorized));
}

#[test]
fn cant_claim_tips_when_data_not_exists() {
    let mut contract = TippingContract::new(account(1));

    let tips_balance_info = TipsBalanceInfo::new("myriad", "user", "user_id", "native");

    let result = contract.claim_tip(&tips_balance_info, &account(5));
    assert_eq!(result, Err(TippingError::TipsBalanceNotExists));
}

#[test]
fn tests_cant_claim_tips_when_data_not_exists() {
    let mut contract = TippingContract::new(account(1));

    let tips_balance_info = TipsBalanceInfo::new(&account(4), "user", "user_id", "native");

    let result = contract.claim_tip(&tips_balance_info, &account(5));
    assert_eq!(result, Err(TippingError::TipsBalanceNotExists));
}

#[test]
fn cant_claim_reference_when_unauthorized() {
    let mut contract = TippingContract::new(account(1));

    let tips_balance_info = TipsBalanceInfo::new("myriad", "people", "people_id", "native");
    let reference_type = String::from("user");
    let reference_id = String::from("user_id");

    // The caller may not designate itself as the payee.
    let result = contract.claim_reference(
        &tips_balance_info,
        &reference_type,
        &reference_id,
        &account(3),
        &String::from("0"),
        &account(3),
    );
    assert!(matches!(result, Err(TippingError::Unauthorized)));
}

#[test]
fn cant_claim_reference_with_malformed_fee() {
    let mut contract = TippingContract::new(account(1));

    let tips_balance_info = TipsBalanceInfo::new("myriad", "people", "people_id", "native");
    let reference_type = String::from("user");
    let reference_id = String::from("user_id");

    for bad_fee in ["", "12a", "1.5", "-3"] {
        let result = contract.claim_reference(
            &tips_balance_info,
            &reference_type,
            &reference_id,
            &account(5),
            &String::from(bad_fee),
            &account(0),
        );
        assert!(matches!(result, Err(TippingError::FailedParseTxFee)));
    }
}

#[test]
fn claim_tip_is_single_shot() {
    // The scenario behind the lifecycle: a 0.1 native tip to user/u1 is
    // queried, may not be claimed by a stranger, is claimed once by the
    // designated payee, and may not be claimed again.
    let mut contract = TippingContract::new(account(0));

    let info = TipsBalanceInfo::new("myriad", "user", "u1", "native");
    contract.send_tip(&info, ONE_TENTH, BIG_BALANCE).expect("send_tip");

    let shown = contract.get_tips_balance(info.clone()).unwrap();
    assert_eq!(shown.tips_balance.get_amount(), ONE_TENTH);
    assert_eq!(shown.formatted_amount, String::from("0.1"));

    let plan = contract
        .claim_reference(
            &info,
            &String::from("user"),
            &String::from("u1"),
            &account(4),
            &String::from("0"),
            &String::from("myriad"),
        )
        .expect("claim_reference");
    contract
        .resolve_claim_reference(
            &plan.secondary_key,
            &plan.main_balance,
            plan.native_balance.as_ref(),
            true,
        )
        .expect("resolve_claim_reference");

    // A caller who is not the designated payee is turned away.
    assert_eq!(
        contract.claim_tip(&info, &account(5)),
        Err(TippingError::Unauthorized)
    );

    // The designated payee claims once; the bucket is zeroed at once.
    let (claimed, amount) = contract.claim_tip(&info, &account(4)).expect("claim_tip");
    assert_eq!(amount, ONE_TENTH);
    assert_eq!(claimed.get_amount(), 0);
    assert_eq!(
        contract.get_tips_balance(info.clone()).unwrap().tips_balance.get_amount(),
        0
    );

    // A second claim finds nothing, whoever calls.
    assert_eq!(
        contract.claim_tip(&info, &account(4)),
        Err(TippingError::NothingToClaimed)
    );
}

#[test]
fn ft_tip_without_resolution_leaves_no_ledger_entry() {
    // A tip in a token whose metadata never resolves must create no bucket
    // and must not disturb unrelated balances.
    let mut contract = TippingContract::new(account(0));

    let native_info = TipsBalanceInfo::new("myriad", "user", "user_id", "native");
    contract
        .send_tip(&native_info, ONE_TENTH, BIG_BALANCE)
        .expect("send_tip");

    let ft_info = TipsBalanceInfo::new("myriad", "user", "user_id", "dai.token");
    let token = contract
        .send_tip_by_ft(&ft_info, &account(3), 777)
        .expect("send_tip_by_ft");
    assert_eq!(token, String::from("dai.token"));

    // Staging alone creates nothing.
    assert_eq!(
        contract.claim_tip(&ft_info, &account(3)),
        Err(TippingError::TipsBalanceNotExists)
    );

    // A failed resolution refunds the amount and still creates nothing.
    let refund = contract.resolve_send_tip(&account(3), &ft_info, 777, None);
    assert_eq!(refund, 777);
    assert_eq!(
        contract.claim_tip(&ft_info, &account(3)),
        Err(TippingError::TipsBalanceNotExists)
    );

    // The unrelated native bucket is untouched.
    assert_eq!(
        contract.get_tips_balance(native_info).unwrap().tips_balance.get_amount(),
        ONE_TENTH
    );
}

#[test]
fn ft_tip_resolution_registers_token_and_credits_bucket() {
    let mut contract = TippingContract::new(account(0));

    let ft_info = TipsBalanceInfo::new("myriad", "user", "user_id", "dai.token");
    let metadata = tipping::types::FungibleTokenMetadata {
        spec_version: String::from("ft-1.0.0"),
        name: String::from("Dai"),
        symbol: String::from("DAI"),
        icon: None,
        reference: None,
        reference_hash: None,
        decimals: 18,
    };

    let refund = contract.resolve_send_tip(&account(3), &ft_info, 1500000000000000000, Some(&metadata));
    assert_eq!(refund, 0);

    let shown = contract.get_tips_balance(ft_info).unwrap();
    assert_eq!(shown.symbol, String::from("DAI"));
    assert_eq!(shown.formatted_amount, String::from("1.5"));
}

#[test]
fn send_tip_by_ft_rejects_invalid_token_account() {
    let mut contract = TippingContract::new(account(0));

    let ft_info = TipsBalanceInfo::new("myriad", "user", "user_id", "Not An Account!");
    assert_eq!(
        contract.send_tip_by_ft(&ft_info, &account(3), 5),
        Err(TippingError::NotAnAccountId)
    );
    assert_eq!(ft_info.get_ft_id(), None);

    let good = TipsBalanceInfo::new("myriad", "user", "user_id", "dai.token");
    assert_eq!(good.get_ft_id(), Some(String::from("dai.token")));
}

#[test]
fn transfer_shapes_the_payout() {
    let contract = TippingContract::new(account(0));

    let native = contract.transfer(&account(4), "native", 12).expect("native");
    assert!(matches!(
        native,
        TransferAction::Native { receiver, amount } if receiver == account(4) && amount == 12
    ));

    let ft = contract.transfer(&account(4), "dai.token", 7).expect("ft");
    assert!(matches!(
        ft,
        TransferAction::Ft { ft_identifier, receiver, amount }
            if ft_identifier == String::from("dai.token") && receiver == account(4) && amount == 7
    ));

    assert_eq!(
        contract.transfer(&account(4), "Bad Id!", 7),
        Err(TippingError::NotAnAccountId)
    );
}

#[test]
fn failed_transfer_resolution_is_fatal_and_leaves_state() {
    let mut contract = TippingContract::new(account(0));

    let info = TipsBalanceInfo::new("myriad", "user", "user_id", "native");
    contract.send_tip(&info, ONE_TENTH, BIG_BALANCE).expect("send_tip");

    let zeroed = TipsBalance::new(&info);
    let result = contract.resolve_claim_tip(&zeroed, ONE_TENTH, false);
    assert_eq!(result, Err(TippingError::TokenNotFound));
    // The optimistic state is not silently restored or altered.
    assert_eq!(
        contract.get_tips_balance(info).unwrap().tips_balance.get_amount(),
        ONE_TENTH
    );
}

#[test]
fn transfer_owner_key_requires_the_owner() {
    let mut contract = TippingContract::new(account(1));

    assert_eq!(
        contract.transfer_owner_key(&account(2), account(3)),
        Err(TippingError::UnauthorizedAdmin)
    );
    assert_eq!(contract.get_owner(), account(1));

    assert_eq!(
        contract.transfer_owner_key(&account(1), account(3)),
        Ok("OwnerTransferred")
    );
    assert_eq!(contract.get_owner(), account(3));
}

#[test]
fn accumulate_reads_back_the_sum() {
    let mut contract = TippingContract::new(account(0));
    let info = TipsBalanceInfo::new("myriad", "user", "u1", "native");
    let other = TipsBalanceInfo::new("myriad", "user", "u2", "native");

    contract.create_tips_balance(&other, &5);
    contract.create_tips_balance(&info, &30);
    contract.create_tips_balance(&info, &12);

    assert_eq!(
        contract.get_tips_balance(info).unwrap().tips_balance.get_amount(),
        42
    );
    // An unrelated bucket is untouched.
    assert_eq!(
        contract.get_tips_balance(other).unwrap().tips_balance.get_amount(),
        5
    );
}

#[test]
fn error_messages_match_their_variants() {
    assert_eq!(TippingError::OnlyForNear.message(), "OnlyForNear");
    assert_eq!(TippingError::InsufficientBalance.message(), "InsufficientBalance");
    assert_eq!(
        TippingError::TipsMustMoreThanMinimum.message(),
        "TipsMustMoreThanMinimum"
    );
    assert_eq!(TippingError::TipsBalanceNotExists.message(), "TipsBalanceNotExists");
    assert_eq!(TippingError::ReceiverNotExists.message(), "ReceiverNotExists");
    assert_eq!(TippingError::NothingToClaimed.message(), "NothingToClaimed");
    assert_eq!(TippingError::Unauthorized.message(), "Unauthorized");
    assert_eq!(TippingError::UnauthorizedAdmin.message(), "UnauthorizedAdmin");
    assert_eq!(TippingError::FailedParseTxFee.message(), "FailedParseTxFee");
    assert_eq!(TippingError::NotAnAccountId.message(), "NotAnAccountId");
    assert_eq!(TippingError::TokenNotFound.message(), "TokenNotFound");
    assert_eq!(TippingError::ResultCountMismatch.message(), "ResultCountMismatch");
}
