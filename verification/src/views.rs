//! The read-only query surface: one bucket dressed with its symbol and
//! formatted amount, and the two paginated listings.

use vstd::prelude::*;

use crate::contract::{
    lemma_collected_nonneg, lemma_collected_prefix, spec_bucket_key, spec_collected_amount,
    string_views, TippingContract,
};
use crate::format::{format_balance_spec, formatted_balance};
use crate::pagination::spec_metadata;
use crate::store::{
    amount_at, balance_key_fn, ft_key_fn, lemma_amount_at_bounds, lemma_key_index_by,
    lookup_balance, lookup_ft,
};
use crate::strings::{dec_str, lemma_dec_str_canonical};
use crate::types::{
    metadata_default, FtIdentifierInfo, FtIdentifierInfoView, FtIdentifierWithPagination,
    ReferenceId, ReferenceType, ServerId, TipsBalance, TipsBalanceInfo, TipsBalanceInfoView,
    TipsBalanceKey, TipsBalanceView, TipsBalanceWithFormattedBalance,
    TipsBalanceWithFormattedBalanceView, TipsBalanceWithPagination,
};

verus! {

/// The reference ids among `reference_ids` whose buckets still hold value
/// for the given token, in the order given.
pub open spec fn spec_unclaimed_ids(
    s: Seq<TipsBalanceView>,
    server_id: Seq<char>,
    reference_type: Seq<char>,
    reference_ids: Seq<Seq<char>>,
    ft: Seq<char>,
) -> Seq<Seq<char>>
    decreases reference_ids.len(),
{
    if reference_ids.len() == 0 {
        Seq::empty()
    } else {
        let prefix = spec_unclaimed_ids(
            s,
            server_id,
            reference_type,
            reference_ids.drop_last(),
            ft,
        );
        let k = spec_bucket_key(server_id, reference_type, reference_ids.last(), ft);
        if amount_at(s, k) > 0 {
            prefix.push(reference_ids.last())
        } else {
            prefix
        }
    }
}

/// One row of the balances listing for one registered token: the bucket at
/// the main reference credited with everything the source references still
/// hold, its symbol, its human-legible amount, and the source reference ids
/// not yet swept.
pub open spec fn spec_listing_entry(
    s: Seq<TipsBalanceView>,
    f: FtIdentifierInfoView,
    server_id: Seq<char>,
    reference_type: Seq<char>,
    reference_ids: Seq<Seq<char>>,
    main_ref_type: Seq<char>,
    main_ref_id: Seq<char>,
) -> TipsBalanceWithFormattedBalanceView {
    let total_tips = spec_collected_amount(s, server_id, reference_type, reference_ids, f.ft_identifier);
    let mk = spec_bucket_key(server_id, main_ref_type, main_ref_id, f.ft_identifier);
    let tb = match lookup_balance(s, mk) {
        Some(b) => b.with_amount(b.amount + total_tips),
        None => TipsBalanceView::fresh(
            TipsBalanceInfoView {
                server_id,
                reference_type: main_ref_type,
                reference_id: main_ref_id,
                ft_identifier: f.ft_identifier,
            },
            total_tips,
        ),
    };
    TipsBalanceWithFormattedBalanceView {
        tips_balance: tb,
        symbol: f.symbol,
        formatted_amount: format_balance_spec(dec_str(tb.amount as nat), f.decimals as nat),
        unclaimed_reference_ids: spec_unclaimed_ids(
            s,
            server_id,
            reference_type,
            reference_ids,
            f.ft_identifier,
        ),
    }
}

impl TippingContract {
    /// One bucket dressed for display: present exactly when both the bucket
    /// and its token's registry entry exist.
    pub fn get_tips_balance(&self, tips_balance_info: TipsBalanceInfo) -> (r: Option<
        TipsBalanceWithFormattedBalance,
    >)
        requires
            self.wf(),
        ensures
            ({
                let b = lookup_balance(self.balances(), tips_balance_info@.key());
                let f = lookup_ft(self.registry(), tips_balance_info@.ft_identifier);
                if b is None || f is None {
                    r is None
                } else {
                    r matches Some(x) && x@ == (TipsBalanceWithFormattedBalanceView {
                        tips_balance: b->0,
                        symbol: f->0.symbol,
                        formatted_amount: format_balance_spec(
                            dec_str(b->0.amount as nat),
                            f->0.decimals as nat,
                        ),
                        unclaimed_reference_ids: Seq::empty(),
                    })
                }
            }),
    {
        proof {
            lemma_key_index_by(self.balances(), balance_key_fn(), tips_balance_info@.key());
            lemma_key_index_by(self.registry(), ft_key_fn(), tips_balance_info@.ft_identifier);
        }
        let key = tips_balance_info.key();
        let found = self.find_balance(&key);
        let found_ft = self.find_ft(tips_balance_info.get_ft_identifier());
        match (found, found_ft) {
            (Some(i), Some(j)) => {
                let tips_balance = self.tips_balances[i].clone();
                let symbol = self.ft_identifiers[j].get_symbol();
                let decimals = self.ft_identifiers[j].get_decimals();
                let balance_str = tips_balance.get_amount_str();
                proof {
                    lemma_dec_str_canonical(tips_balance@.amount as nat);
                }
                let formatted = formatted_balance(balance_str.as_str(), decimals as usize);
                Some(
                    TipsBalanceWithFormattedBalance {
                        tips_balance,
                        symbol: symbol.to_owned(),
                        formatted_amount: formatted,
                        unclaimed_reference_ids: Vec::new(),
                    },
                )
            },
            _ => None,
        }
    }

    /// One page of the token registry, in registration order.
    pub fn get_ft_identifiers(&self, page_number: Option<u64>, page_limit: Option<u64>) -> (r:
        FtIdentifierWithPagination)
        requires
            self.wf(),
        ensures
            ({
                let total = self.registry().len();
                let meta = spec_metadata(total as u64, page_number, page_limit);
                if total == 0 {
                    r@.data.len() == 0 && r@.meta == metadata_default()
                } else {
                    match meta.current_page {
                        None => r@.data.len() == 0 && r@.meta == metadata_default(),
                        Some(page) => {
                            let from = (page - 1) * meta.items_per_page as int;
                            let end = if from + meta.items_per_page <= total {
                                from + meta.items_per_page as int
                            } else {
                                total as int
                            };
                            r@.meta == meta && r@.data == self.registry().subrange(from, end)
                        },
                    }
                }
            }),
    {
        if self.ft_identifiers.is_empty() {
            return FtIdentifierWithPagination::default();
        }
        let total_item = self.ft_identifiers.len() as u64;
        let meta = self.metadata(total_item, page_number, page_limit);
        let page: u64 = match meta.current_page {
            Some(p) => p,
            None => {
                return FtIdentifierWithPagination::default();
            },
        };
        let limit = meta.items_per_page;
        proof {
            crate::pagination::lemma_page_range(total_item as int, limit as int, page as int);
        }
        let from: u64 = (page - 1) * limit;
        let end: u64 = if total_item - from < limit {
            total_item
        } else {
            from + limit
        };
        let mut data: Vec<FtIdentifierInfo> = Vec::new();
        let mut idx: u64 = from;
        while idx < end
            invariant
                from <= idx <= end,
                end <= total_item,
                total_item == self.ft_identifiers.len(),
                data@.map_values(|f: FtIdentifierInfo| f@) == self.registry().subrange(
                    from as int,
                    idx as int,
                ),
            decreases end - idx,
        {
            let ghost before = data@.map_values(|f: FtIdentifierInfo| f@);
            data.push(self.ft_identifiers[idx as usize].clone());
            proof {
                assert(data@.map_values(|f: FtIdentifierInfo| f@) =~= before.push(
                    self.registry()[idx as int],
                ));
                assert(before.push(self.registry()[idx as int]) =~= self.registry().subrange(
                    from as int,
                    idx + 1,
                ));
            }
            idx = idx + 1;
        }
        FtIdentifierWithPagination { data, meta }
    }

    /// One page of the balances listing: per registered token, the main
    /// bucket as a reference reassignment of the given source references
    /// would leave it, with the sub-reference ids still unclaimed.
    pub fn get_tips_balances(
        &self,
        server_id: ServerId,
        reference_type: ReferenceType,
        reference_ids: Vec<ReferenceId>,
        main_ref_type: ReferenceType,
        main_ref_id: ReferenceId,
        page_number: Option<u64>,
        page_limit: Option<u64>,
    ) -> (r: TipsBalanceWithPagination)
        requires
            self.wf(),
            forall|i: int|
                0 <= i < self.registry().len() ==> #[trigger] spec_collected_amount(
                    self.balances(),
                    server_id@,
                    reference_type@,
                    string_views(reference_ids@),
                    self.registry()[i].ft_identifier,
                ) + amount_at(
                    self.balances(),
                    spec_bucket_key(
                        server_id@,
                        main_ref_type@,
                        main_ref_id@,
                        self.registry()[i].ft_identifier,
                    ),
                ) <= u128::MAX,
        ensures
            ({
                let total = self.registry().len();
                let meta = spec_metadata(total as u64, page_number, page_limit);
                if total == 0 {
                    r@.data.len() == 0 && r@.meta == metadata_default()
                } else {
                    match meta.current_page {
                        None => r@.data.len() == 0 && r@.meta == metadata_default(),
                        Some(page) => {
                            let from = (page - 1) * meta.items_per_page as int;
                            let end = if from + meta.items_per_page <= total {
                                from + meta.items_per_page as int
                            } else {
                                total as int
                            };
                            r@.meta == meta && r@.data == Seq::new(
                                (end - from) as nat,
                                |x: int|
                                    spec_listing_entry(
                                        self.balances(),
                                        self.registry()[from + x],
                                        server_id@,
                                        reference_type@,
                                        string_views(reference_ids@),
                                        main_ref_type@,
                                        main_ref_id@,
                                    ),
                            )
                        },
                    }
                }
            }),
    {
        let ghost s = self.balances();
        let ghost rids = string_views(reference_ids@);
        if self.ft_identifiers.is_empty() {
            return TipsBalanceWithPagination::default();
        }
        let total_item = self.ft_identifiers.len() as u64;
        let meta = self.metadata(total_item, page_number, page_limit);
        let page: u64 = match meta.current_page {
            Some(p) => p,
            None => {
                return TipsBalanceWithPagination::default();
            },
        };
        let limit = meta.items_per_page;
        proof {
            crate::pagination::lemma_page_range(total_item as int, limit as int, page as int);
        }
        let from: u64 = (page - 1) * limit;
        let end: u64 = if total_item - from < limit {
            total_item
        } else {
            from + limit
        };
        let n_ref = reference_ids.len();
        let mut data: Vec<TipsBalanceWithFormattedBalance> = Vec::new();
        let mut idx: u64 = from;
        while idx < end
            invariant
                from <= idx <= end,
                end <= total_item,
                total_item == self.ft_identifiers.len(),
                n_ref == reference_ids.len(),
                s == self.balances(),
                rids == string_views(reference_ids@),
                self.wf(),
                forall|i: int|
                    0 <= i < self.registry().len() ==> #[trigger] spec_collected_amount(
                        s,
                        server_id@,
                        reference_type@,
                        rids,
                        self.registry()[i].ft_identifier,
                    ) + amount_at(
                        s,
                        spec_bucket_key(
                            server_id@,
                            main_ref_type@,
                            main_ref_id@,
                            self.registry()[i].ft_identifier,
                        ),
                    ) <= u128::MAX,
                data@.map_values(|e: TipsBalanceWithFormattedBalance| e@) == Seq::new(
                    (idx - from) as nat,
                    |x: int|
                        spec_listing_entry(
                            s,
                            self.registry()[from + x],
                            server_id@,
                            reference_type@,
                            rids,
                            main_ref_type@,
                            main_ref_id@,
                        ),
                ),
            decreases end - idx,
        {
            let ft = self.ft_identifiers[idx as usize].get_ft_identifier();
            let ghost ftv = self.registry()[idx as int].ft_identifier;
            let mut total_tips: u128 = 0;
            let mut unclaimed: Vec<String> = Vec::new();
            let mut i: usize = 0;
            while i < n_ref
                invariant
                    0 <= i <= n_ref,
                    n_ref == reference_ids.len(),
                    s == self.balances(),
                    rids == string_views(reference_ids@),
                    self.wf(),
                    ft@ == ftv,
                    0 <= idx < self.registry().len(),
                    ftv == self.registry()[idx as int].ft_identifier,
                    spec_collected_amount(s, server_id@, reference_type@, rids, ftv) + amount_at(
                        s,
                        spec_bucket_key(server_id@, main_ref_type@, main_ref_id@, ftv),
                    ) <= u128::MAX,
                    total_tips as int == spec_collected_amount(
                        s,
                        server_id@,
                        reference_type@,
                        rids.take(i as int),
                        ftv,
                    ),
                    unclaimed@.map_values(|x: String| x@) == spec_unclaimed_ids(
                        s,
                        server_id@,
                        reference_type@,
                        rids.take(i as int),
                        ftv,
                    ),
                decreases n_ref - i,
            {
                let key = TipsBalanceKey::new(
                    server_id.as_str(),
                    reference_type.as_str(),
                    reference_ids[i].as_str(),
                    ft,
                );
                proof {
                    lemma_key_index_by(s, balance_key_fn(), key@);
                    lemma_amount_at_bounds(s, key@);
                    lemma_amount_at_bounds(
                        s,
                        spec_bucket_key(server_id@, main_ref_type@, main_ref_id@, ftv),
                    );
                    lemma_collected_prefix(s, server_id@, reference_type@, rids, ftv, i + 1);
                    assert(rids.take(i + 1).drop_last() =~= rids.take(i as int));
                    assert(rids.take(i + 1).last() == rids[i as int]);
                }
                let ghost unclaimed_before = unclaimed@.map_values(|x: String| x@);
                if let Some(bi) = self.find_balance(&key) {
                    let a = self.tips_balances[bi].get_amount();
                    if a > 0 {
                        total_tips = total_tips + a;
                        unclaimed.push(self.tips_balances[bi].get_reference_id().to_owned());
                        proof {
                            assert(unclaimed@.map_values(|x: String| x@) =~= unclaimed_before.push(
                                rids[i as int],
                            ));
                        }
                    }
                }
                i = i + 1;
            }
            proof {
                assert(rids.take(n_ref as int) =~= rids);
            }
            let main_key = TipsBalanceKey::new(
                server_id.as_str(),
                main_ref_type.as_str(),
                main_ref_id.as_str(),
                ft,
            );
            proof {
                lemma_key_index_by(s, balance_key_fn(), main_key@);
                lemma_amount_at_bounds(s, main_key@);
                lemma_collected_nonneg(s, server_id@, reference_type@, rids, ftv);
            }
            let tips_balance = match self.find_balance(&main_key) {
                Some(bi) => self.tips_balances[bi].clone().add_balance(total_tips),
                None => {
                    let info = TipsBalanceInfo::new(
                        server_id.as_str(),
                        main_ref_type.as_str(),
                        main_ref_id.as_str(),
                        ft,
                    );
                    TipsBalance::new(&info).set_balance(total_tips)
                },
            };
            let symbol = self.ft_identifiers[idx as usize].get_symbol().to_owned();
            let decimals = self.ft_identifiers[idx as usize].get_decimals();
            let balance_str = tips_balance.get_amount_str();
            proof {
                lemma_dec_str_canonical(tips_balance@.amount as nat);
            }
            let formatted = formatted_balance(balance_str.as_str(), decimals as usize);
            let ghost before = data@.map_values(|e: TipsBalanceWithFormattedBalance| e@);
            data.push(
                TipsBalanceWithFormattedBalance {
                    tips_balance,
                    symbol,
                    formatted_amount: formatted,
                    unclaimed_reference_ids: unclaimed,
                },
            );
            proof {
                assert(data@.map_values(|e: TipsBalanceWithFormattedBalance| e@) =~= before.push(
                    spec_listing_entry(
                        s,
                        self.registry()[idx as int],
                        server_id@,
                        reference_type@,
                        rids,
                        main_ref_type@,
                        main_ref_id@,
                    ),
                ));
                assert(before.push(
                    spec_listing_entry(
                        s,
                        self.registry()[idx as int],
                        server_id@,
                        reference_type@,
                        rids,
                        main_ref_type@,
                        main_ref_id@,
                    ),
                ) =~= Seq::new(
                    (idx + 1 - from) as nat,
                    |x: int|
                        spec_listing_entry(
                            s,
                            self.registry()[from + x],
                            server_id@,
                            reference_type@,
                            rids,
                            main_ref_type@,
                            main_ref_id@,
                        ),
                ));
            }
            idx = idx + 1;
        }
        TipsBalanceWithPagination { data, meta }
    }
}

} // verus!
