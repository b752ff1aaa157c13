//! Pagination metadata and the two paginated listings.

use tipping::contract::TippingContract;
use tipping::types::{FungibleTokenMetadata, Metadata, TipsBalanceInfo};

fn token_metadata(symbol: &str, decimals: u8) -> FungibleTokenMetadata {
    FungibleTokenMetadata {
        spec_version: String::from("ft-1.0.0"),
        name: String::from(symbol),
        symbol: String::from(symbol),
        icon: None,
        reference: None,
        reference_hash: None,
        decimals,
    }
}

#[test]
fn metadata_pages_twelve_items_by_five() {
    let contract = TippingContract::new(String::from("alice"));
    let meta = contract.metadata(12, Some(2), Some(5));
    assert_eq!(
        meta,
        Metadata {
            total_item_count: 12,
            total_page_count: 3,
            items_per_page: 5,
            current_page: Some(2),
            next_page: Some(3),
            previous_page: Some(1),
        }
    );
}

#[test]
fn metadata_defaults_page_and_limit() {
    let contract = TippingContract::new(String::from("alice"));
    // Absent or zero inputs default to the first page of five.
    let defaulted = contract.metadata(12, None, None);
    assert_eq!(defaulted, contract.metadata(12, Some(0), Some(0)));
    assert_eq!(defaulted.current_page, Some(1));
    assert_eq!(defaulted.previous_page, None);
    assert_eq!(defaulted.next_page, Some(2));
    assert_eq!(defaulted.items_per_page, 5);
}

#[test]
fn metadata_handles_edges() {
    let contract = TippingContract::new(String::from("alice"));

    // Nothing to page: no pages, no current page.
    let empty = contract.metadata(0, None, None);
    assert_eq!(empty.total_page_count, 0);
    assert_eq!(empty.current_page, None);

    // A limit above the item count is capped at the item count.
    let capped = contract.metadata(3, Some(1), Some(10));
    assert_eq!(capped.items_per_page, 3);
    assert_eq!(capped.total_page_count, 1);
    assert_eq!(capped.next_page, None);

    // A page past the end has no current page.
    let past = contract.metadata(12, Some(4), Some(5));
    assert_eq!(past.current_page, None);

    // The last page has a previous page but no next one.
    let last = contract.metadata(12, Some(3), Some(5));
    assert_eq!(last.current_page, Some(3));
    assert_eq!(last.previous_page, Some(2));
    assert_eq!(last.next_page, None);
}

#[test]
fn get_ft_identifiers_lists_registrations_in_order() {
    let mut contract = TippingContract::new(String::from("alice"));
    for (name, symbol) in [("dai.token", "DAI"), ("usdt.token", "USDT"), ("wbtc.token", "WBTC")] {
        let id = String::from(name);
        contract.resolve_ft_identifier(&id, Some(&token_metadata(symbol, 18)));
    }
    // A second registration of a known identifier changes nothing.
    let dai = String::from("dai.token");
    contract.resolve_ft_identifier(&dai, Some(&token_metadata("FAKE", 2)));
    // A failed registration changes nothing either.
    let ghost_token = String::from("ghost.token");
    contract.resolve_ft_identifier(&ghost_token, None);

    let page1 = contract.get_ft_identifiers(Some(1), Some(2));
    assert_eq!(page1.meta.total_item_count, 4); // native plus three tokens
    assert_eq!(page1.meta.total_page_count, 2);
    assert_eq!(page1.data.len(), 2);
    assert_eq!(page1.data[0].get_ft_identifier(), "native");
    assert_eq!(page1.data[0].get_symbol(), "NEAR");
    assert_eq!(page1.data[1].get_ft_identifier(), "dai.token");
    assert_eq!(page1.data[1].get_symbol(), "DAI");

    let page2 = contract.get_ft_identifiers(Some(2), Some(2));
    assert_eq!(page2.data.len(), 2);
    assert_eq!(page2.data[0].get_ft_identifier(), "usdt.token");
    assert_eq!(page2.data[1].get_ft_identifier(), "wbtc.token");

    let past = contract.get_ft_identifiers(Some(9), Some(2));
    assert_eq!(past.data.len(), 0);
}

#[test]
fn get_tips_balances_aggregates_per_token() {
    let mut contract = TippingContract::new(String::from("alice"));
    let dai = String::from("dai.token");
    contract.resolve_ft_identifier(&dai, Some(&token_metadata("DAI", 2)));

    contract.create_tips_balance(&TipsBalanceInfo::new("myriad", "post", "p1", "native"), &50);
    contract.create_tips_balance(&TipsBalanceInfo::new("myriad", "post", "p2", "native"), &70);
    contract.create_tips_balance(&TipsBalanceInfo::new("myriad", "post", "p3", "native"), &0);
    contract.create_tips_balance(&TipsBalanceInfo::new("myriad", "post", "p2", "dai.token"), &125);
    contract.create_tips_balance(&TipsBalanceInfo::new("myriad", "user", "u1", "native"), &1000);

    let listing = contract.get_tips_balances(
        String::from("myriad"),
        String::from("post"),
        vec![String::from("p1"), String::from("p2"), String::from("p3")],
        String::from("user"),
        String::from("u1"),
        None,
        None,
    );

    assert_eq!(listing.meta.total_item_count, 2);
    assert_eq!(listing.data.len(), 2);

    let native_row = &listing.data[0];
    assert_eq!(native_row.symbol, "NEAR");
    assert_eq!(native_row.tips_balance.get_amount(), 1000 + 50 + 70);
    assert_eq!(
        native_row.unclaimed_reference_ids,
        vec![String::from("p1"), String::from("p2")]
    );

    let dai_row = &listing.data[1];
    assert_eq!(dai_row.symbol, "DAI");
    assert_eq!(dai_row.tips_balance.get_amount(), 125);
    assert_eq!(dai_row.formatted_amount, "1.25");
    assert_eq!(dai_row.unclaimed_reference_ids, vec![String::from("p2")]);
}

#[test]
fn get_tips_balance_requires_bucket_and_registry_entry() {
    let mut contract = TippingContract::new(String::from("alice"));
    let info = TipsBalanceInfo::new("myriad", "user", "u1", "dai.token");
    contract.create_tips_balance(&info, &10);

    // The bucket exists, but its token was never registered.
    assert_eq!(contract.get_tips_balance(info.clone()), None);

    let dai = String::from("dai.token");
    contract.resolve_ft_identifier(&dai, Some(&token_metadata("DAI", 1)));
    let shown = contract.get_tips_balance(info).unwrap();
    assert_eq!(shown.formatted_amount, "1");

    // A never-funded bucket is absent, registered token or not.
    let missing = TipsBalanceInfo::new("myriad", "user", "u2", "native");
    assert_eq!(contract.get_tips_balance(missing), None);
}
