//! The contract state — the ledger store, the token registry and the owner —
//! and every operation on it.  Host-supplied facts (who signed, what deposit
//! was attached, how an external call resolved) arrive as arguments; each
//! operation's contract pins the returned value and the state change for
//! every such input.

use vstd::prelude::*;

use crate::strings::str_eq;
use crate::types::{
    AccountId, Balance, FtIdentifier, FtIdentifierInfo, FtIdentifierInfoView, ReferenceId,
    ReferenceType, ServerId, TipsBalance, TipsBalanceInfo, TipsBalanceInfoView, TipsBalanceKey,
    TipsBalanceKeyView, TipsBalanceView,
};
use crate::store::{
    amount_at, balance_key_fn, ft_key_fn, key_index_by, lemma_accumulate, lemma_amount_at_bounds,
    lemma_key_index_by, lemma_key_index_by_first_match, lemma_put_all_push, lemma_put_by,
    lemma_wf_put, lemma_zero_all_push, lemma_zero_at, lookup_balance, lookup_ft, put_balance,
    put_by, spec_accumulate, spec_put_all, spec_zero_all, spec_zero_at, wf_balances, wf_registry,
};
use crate::TippingError;
use crate::account::{is_valid_account_id, valid_account_id};
use crate::types::FungibleTokenMetadata;

verus! {

/// The views of a sequence of keys.
pub open spec fn key_views(s: Seq<TipsBalanceKey>) -> Seq<TipsBalanceKeyView> {
    s.map_values(|k: TipsBalanceKey| k@)
}

/// The views of a sequence of balance records.
pub open spec fn balance_views(s: Seq<TipsBalance>) -> Seq<TipsBalanceView> {
    s.map_values(|b: TipsBalance| b@)
}

/// Every record rewritten to amount zero.
pub open spec fn zeroed_views(s: Seq<TipsBalanceView>) -> Seq<TipsBalanceView> {
    s.map_values(|b: TipsBalanceView| b.with_amount(0))
}

/// The views of a sequence of strings.
pub open spec fn string_views(s: Seq<String>) -> Seq<Seq<char>> {
    s.map_values(|x: String| x@)
}

/// The bucket key for one reference and token under one server.
pub open spec fn spec_bucket_key(
    server_id: Seq<char>,
    reference_type: Seq<char>,
    reference_id: Seq<char>,
    ft_identifier: Seq<char>,
) -> TipsBalanceKeyView {
    TipsBalanceKeyView { server_id, reference_type, reference_id, ft_identifier }
}

/// The value a batch reassignment collects for one token: the sum over the
/// source reference ids of what their buckets hold.
pub open spec fn spec_collected_amount(
    s: Seq<TipsBalanceView>,
    server_id: Seq<char>,
    reference_type: Seq<char>,
    reference_ids: Seq<Seq<char>>,
    ft: Seq<char>,
) -> int
    decreases reference_ids.len(),
{
    if reference_ids.len() == 0 {
        0
    } else {
        spec_collected_amount(s, server_id, reference_type, reference_ids.drop_last(), ft)
            + amount_at(s, spec_bucket_key(server_id, reference_type, reference_ids.last(), ft))
    }
}

/// The source keys a batch reassignment sweeps for one token: those whose
/// buckets hold anything, in the order the reference ids were given.
pub open spec fn spec_collected_keys(
    s: Seq<TipsBalanceView>,
    server_id: Seq<char>,
    reference_type: Seq<char>,
    reference_ids: Seq<Seq<char>>,
    ft: Seq<char>,
) -> Seq<TipsBalanceKeyView>
    decreases reference_ids.len(),
{
    if reference_ids.len() == 0 {
        Seq::empty()
    } else {
        let prefix = spec_collected_keys(
            s,
            server_id,
            reference_type,
            reference_ids.drop_last(),
            ft,
        );
        let k = spec_bucket_key(server_id, reference_type, reference_ids.last(), ft);
        if amount_at(s, k) != 0 {
            prefix.push(k)
        } else {
            prefix
        }
    }
}

/// What a batch reassignment collects is never negative.
pub proof fn lemma_collected_nonneg(
    s: Seq<TipsBalanceView>,
    server_id: Seq<char>,
    reference_type: Seq<char>,
    reference_ids: Seq<Seq<char>>,
    ft: Seq<char>,
)
    requires
        wf_balances(s),
    ensures
        0 <= spec_collected_amount(s, server_id, reference_type, reference_ids, ft),
    decreases reference_ids.len(),
{
    if reference_ids.len() > 0 {
        lemma_collected_nonneg(s, server_id, reference_type, reference_ids.drop_last(), ft);
        lemma_amount_at_bounds(
            s,
            spec_bucket_key(server_id, reference_type, reference_ids.last(), ft),
        );
    }
}

/// Collecting over a prefix of the reference ids never exceeds collecting
/// over all of them.
pub proof fn lemma_collected_prefix(
    s: Seq<TipsBalanceView>,
    server_id: Seq<char>,
    reference_type: Seq<char>,
    reference_ids: Seq<Seq<char>>,
    ft: Seq<char>,
    j: int,
)
    requires
        wf_balances(s),
        0 <= j <= reference_ids.len(),
    ensures
        spec_collected_amount(s, server_id, reference_type, reference_ids.take(j), ft)
            <= spec_collected_amount(s, server_id, reference_type, reference_ids, ft),
    decreases reference_ids.len() - j,
{
    if j < reference_ids.len() {
        lemma_collected_prefix(s, server_id, reference_type, reference_ids, ft, j + 1);
        let t = reference_ids.take(j + 1);
        assert(t.drop_last() =~= reference_ids.take(j));
        lemma_amount_at_bounds(s, spec_bucket_key(server_id, reference_type, t.last(), ft));
    } else {
        assert(reference_ids.take(j) =~= reference_ids);
    }
}

/// Every key a batch reassignment sweeps points at one of the given source
/// references.
pub proof fn lemma_collected_keys_shape(
    s: Seq<TipsBalanceView>,
    server_id: Seq<char>,
    reference_type: Seq<char>,
    reference_ids: Seq<Seq<char>>,
    ft: Seq<char>,
)
    ensures
        ({
            let keys = spec_collected_keys(s, server_id, reference_type, reference_ids, ft);
            forall|j: int|
                0 <= j < keys.len() ==> (#[trigger] keys[j]).reference_type == reference_type
                    && reference_ids.contains(keys[j].reference_id)
        }),
    decreases reference_ids.len(),
{
    if reference_ids.len() > 0 {
        let d = reference_ids.drop_last();
        lemma_collected_keys_shape(s, server_id, reference_type, d, ft);
        let prefix = spec_collected_keys(s, server_id, reference_type, d, ft);
        assert forall|j: int| 0 <= j < prefix.len() implies reference_ids.contains(
            (#[trigger] prefix[j]).reference_id,
        ) by {
            let x = choose|x: int| 0 <= x < d.len() && d[x] == prefix[j].reference_id;
            assert(reference_ids[x] == prefix[j].reference_id);
        }
        assert(reference_ids[reference_ids.len() - 1] == reference_ids.last());
    }
}

/// Every key a batch reassignment sweeps, over the whole registry, points at
/// one of the given source references.
pub proof fn lemma_batch_keys_shape(
    s: Seq<TipsBalanceView>,
    registry: Seq<FtIdentifierInfoView>,
    server_id: Seq<char>,
    reference_type: Seq<char>,
    reference_ids: Seq<Seq<char>>,
)
    ensures
        ({
            let keys = spec_batch_keys(s, registry, server_id, reference_type, reference_ids);
            forall|j: int|
                0 <= j < keys.len() ==> (#[trigger] keys[j]).reference_type == reference_type
                    && reference_ids.contains(keys[j].reference_id)
        }),
    decreases registry.len(),
{
    if registry.len() > 0 {
        lemma_batch_keys_shape(s, registry.drop_last(), server_id, reference_type, reference_ids);
        lemma_collected_keys_shape(
            s,
            server_id,
            reference_type,
            reference_ids,
            registry.last().ft_identifier,
        );
        let prefix = spec_batch_keys(
            s,
            registry.drop_last(),
            server_id,
            reference_type,
            reference_ids,
        );
        let tail = spec_collected_keys(
            s,
            server_id,
            reference_type,
            reference_ids,
            registry.last().ft_identifier,
        );
        let keys = spec_batch_keys(s, registry, server_id, reference_type, reference_ids);
        assert(keys == prefix + tail);
        assert forall|j: int| 0 <= j < keys.len() implies (#[trigger] keys[j]).reference_type
            == reference_type && reference_ids.contains(keys[j].reference_id) by {
            if j < prefix.len() {
                assert(keys[j] == prefix[j]);
            } else {
                assert(keys[j] == tail[j - prefix.len()]);
            }
        }
    }
}

/// The record a batch reassignment stages for one token: the bucket at the
/// main reference credited with everything collected, the fee taken from
/// the native token's record, the payee designated.
pub open spec fn spec_batch_main(
    s: Seq<TipsBalanceView>,
    server_id: Seq<char>,
    main_ref_type: Seq<char>,
    main_ref_id: Seq<char>,
    ft: Seq<char>,
    collected: int,
    account_id: Seq<char>,
    tx_fee: int,
) -> TipsBalanceView {
    let mk = spec_bucket_key(server_id, main_ref_type, main_ref_id, ft);
    let base = match lookup_balance(s, mk) {
        Some(b) => b.with_amount(b.amount + collected),
        None => TipsBalanceView::fresh(
            TipsBalanceInfoView {
                server_id,
                reference_type: main_ref_type,
                reference_id: main_ref_id,
                ft_identifier: ft,
            },
            collected,
        ),
    };
    let adjusted = if ft == "native"@ {
        base.with_amount(base.amount - tx_fee)
    } else {
        base
    };
    adjusted.with_account(account_id)
}

/// The records a batch reassignment stages: one per registered token, in
/// registry order.
pub open spec fn spec_batch_mains(
    s: Seq<TipsBalanceView>,
    registry: Seq<FtIdentifierInfoView>,
    server_id: Seq<char>,
    reference_type: Seq<char>,
    reference_ids: Seq<Seq<char>>,
    main_ref_type: Seq<char>,
    main_ref_id: Seq<char>,
    account_id: Seq<char>,
    tx_fee: int,
) -> Seq<TipsBalanceView> {
    Seq::new(
        registry.len(),
        |i: int|
            spec_batch_main(
                s,
                server_id,
                main_ref_type,
                main_ref_id,
                registry[i].ft_identifier,
                spec_collected_amount(
                    s,
                    server_id,
                    reference_type,
                    reference_ids,
                    registry[i].ft_identifier,
                ),
                account_id,
                tx_fee,
            ),
    )
}

/// The source keys a batch reassignment sweeps: per registered token in
/// registry order, the non-empty buckets among the given reference ids.
pub open spec fn spec_batch_keys(
    s: Seq<TipsBalanceView>,
    registry: Seq<FtIdentifierInfoView>,
    server_id: Seq<char>,
    reference_type: Seq<char>,
    reference_ids: Seq<Seq<char>>,
) -> Seq<TipsBalanceKeyView>
    decreases registry.len(),
{
    if registry.len() == 0 {
        Seq::empty()
    } else {
        spec_batch_keys(s, registry.drop_last(), server_id, reference_type, reference_ids)
            + spec_collected_keys(
            s,
            server_id,
            reference_type,
            reference_ids,
            registry.last().ft_identifier,
        )
    }
}

/// The buckets one caller may claim under one reference: per registered
/// token in registry order, the bucket whose designated payee is the caller
/// and whose amount is positive.
pub open spec fn spec_claimable(
    s: Seq<TipsBalanceView>,
    registry: Seq<FtIdentifierInfoView>,
    server_id: Seq<char>,
    reference_type: Seq<char>,
    reference_id: Seq<char>,
    caller: Seq<char>,
) -> Seq<TipsBalanceView>
    decreases registry.len(),
{
    if registry.len() == 0 {
        Seq::empty()
    } else {
        let prefix = spec_claimable(
            s,
            registry.drop_last(),
            server_id,
            reference_type,
            reference_id,
            caller,
        );
        let k = spec_bucket_key(
            server_id,
            reference_type,
            reference_id,
            registry.last().ft_identifier,
        );
        match lookup_balance(s, k) {
            Some(b) => if b.amount != 0 && b.account_id == Some(caller) {
                prefix.push(b)
            } else {
                prefix
            },
            None => prefix,
        }
    }
}

/// Ghost view of a transfer the host is asked to dispatch.
pub ghost enum TransferActionView {
    Native { receiver: Seq<char>, amount: int },
    Ft { ft_identifier: Seq<char>, receiver: Seq<char>, amount: int },
}

/// A transfer the host is asked to dispatch: either the native currency to
/// an account, or a fungible-token transfer through the token's own
/// contract.
#[derive(Debug, PartialEq, Eq)]
pub enum TransferAction {
    Native { receiver: AccountId, amount: Balance },
    Ft { ft_identifier: AccountId, receiver: AccountId, amount: Balance },
}

impl View for TransferAction {
    type V = TransferActionView;

    open spec fn view(&self) -> TransferActionView {
        match self {
            TransferAction::Native { receiver, amount } => TransferActionView::Native {
                receiver: receiver@,
                amount: *amount as int,
            },
            TransferAction::Ft { ft_identifier, receiver, amount } => TransferActionView::Ft {
                ft_identifier: ft_identifier@,
                receiver: receiver@,
                amount: *amount as int,
            },
        }
    }
}

/// The transfer a claim dispatches: native currency directly, any other
/// token through its own contract.
pub open spec fn spec_transfer(receiver: Seq<char>, ft: Seq<char>, amount: int) -> TransferActionView {
    if ft == "native"@ {
        TransferActionView::Native { receiver, amount }
    } else {
        TransferActionView::Ft { ft_identifier: ft, receiver, amount }
    }
}

/// The claim-tip outcome on a ledger: either the rejection, or the new
/// ledger, the zeroed record to confirm later, and the amount to transfer.
pub open spec fn spec_claim_tip(
    s: Seq<TipsBalanceView>,
    k: TipsBalanceKeyView,
    caller: Seq<char>,
) -> Result<(Seq<TipsBalanceView>, TipsBalanceView, int), TippingError> {
    match lookup_balance(s, k) {
        None => Err(TippingError::TipsBalanceNotExists),
        Some(b) => {
            if b.account_id is None {
                Err(TippingError::ReceiverNotExists)
            } else if b.amount == 0 {
                Err(TippingError::NothingToClaimed)
            } else if b.account_id != Some(caller) {
                Err(TippingError::Unauthorized)
            } else {
                Ok((put_balance(s, b.with_amount(0)), b.with_amount(0), b.amount))
            }
        },
    }
}

/// The reference-migration computation: what the bucket at the new
/// reference will hold once the value accumulated at `info`'s own reference
/// is carried over.  Reassigning a reference onto itself merges with itself,
/// so nothing is counted twice.
pub open spec fn spec_calculate_tips(
    s: Seq<TipsBalanceView>,
    info: TipsBalanceInfoView,
    reference_type: Seq<char>,
    reference_id: Seq<char>,
) -> TipsBalanceView {
    let src_k = info.key();
    let tgt_k = src_k.with_reference(reference_type, reference_id);
    let collected: int = if src_k == tgt_k {
        0
    } else {
        amount_at(s, src_k)
    };
    match lookup_balance(s, tgt_k) {
        Some(b) => b.with_amount(b.amount + collected),
        None => TipsBalanceView::fresh(
            info.with_reference(reference_type, reference_id),
            collected,
        ),
    }
}

/// The fee actually taken: the requested fee when the native bucket can
/// cover it, nothing otherwise — a fee is never taken on credit.
pub open spec fn spec_clamped_fee(requested: int, available: int) -> int {
    if available >= requested {
        requested
    } else {
        0
    }
}

/// The registry after a registration: unchanged if the identifier is known,
/// extended by the reported symbol and precision otherwise.
pub open spec fn spec_register(
    s: Seq<FtIdentifierInfoView>,
    ft: Seq<char>,
    decimals: u8,
    symbol: Seq<char>,
) -> Seq<FtIdentifierInfoView> {
    match lookup_ft(s, ft) {
        Some(_) => s,
        None => s.push(FtIdentifierInfoView { ft_identifier: ft, decimals, symbol }),
    }
}

/// Ghost view of a staged reference reassignment.
pub ghost struct ClaimReferencePlanView {
    pub tx_fee: int,
    pub secondary_key: TipsBalanceKeyView,
    pub main_balance: TipsBalanceView,
    pub native_balance: Option<TipsBalanceView>,
}

/// A staged reference reassignment: the fee to pay the caller, the source
/// bucket to sweep, and the record(s) to persist once the fee transfer
/// resolves.  Nothing is persisted until then.
pub struct ClaimReferencePlan {
    pub tx_fee: Balance,
    pub secondary_key: TipsBalanceKey,
    pub main_balance: TipsBalance,
    pub native_balance: Option<TipsBalance>,
}

impl View for ClaimReferencePlan {
    type V = ClaimReferencePlanView;

    open spec fn view(&self) -> ClaimReferencePlanView {
        ClaimReferencePlanView {
            tx_fee: self.tx_fee as int,
            secondary_key: self.secondary_key@,
            main_balance: self.main_balance@,
            native_balance: match &self.native_balance {
                Some(b) => Some(b@),
                None => None,
            },
        }
    }
}

/// The native-currency key at the target reference of a reassignment.
pub open spec fn spec_native_key(
    server_id: Seq<char>,
    reference_type: Seq<char>,
    reference_id: Seq<char>,
) -> TipsBalanceKeyView {
    TipsBalanceKeyView { server_id, reference_type, reference_id, ft_identifier: "native"@ }
}

/// The staged outcome of a reference reassignment, before the external leg
/// resolves: the clamped fee, the swept source key, the fee-adjusted,
/// payee-designated record(s) to persist on success.
pub open spec fn spec_claim_reference_plan(
    s: Seq<TipsBalanceView>,
    info: TipsBalanceInfoView,
    reference_type: Seq<char>,
    reference_id: Seq<char>,
    account_id: Seq<char>,
    requested_fee: int,
) -> ClaimReferencePlanView {
    let native_k = spec_native_key(info.server_id, reference_type, reference_id);
    let total_tip = amount_at(s, native_k);
    let fee = spec_clamped_fee(requested_fee, total_tip);
    let main0 = spec_calculate_tips(s, info, reference_type, reference_id);
    if main0.key() == native_k {
        ClaimReferencePlanView {
            tx_fee: fee,
            secondary_key: info.key(),
            main_balance: main0.with_account(account_id).with_amount(main0.amount - fee),
            native_balance: None,
        }
    } else {
        let native_b = match lookup_balance(s, native_k) {
            Some(b) => b,
            None => TipsBalanceView::fresh(
                TipsBalanceInfoView {
                    server_id: info.server_id,
                    reference_type,
                    reference_id,
                    ft_identifier: "native"@,
                },
                0,
            ),
        };
        ClaimReferencePlanView {
            tx_fee: fee,
            secondary_key: info.key(),
            main_balance: main0.with_account(account_id),
            native_balance: Some(native_b.with_account(account_id).with_amount(total_tip - fee)),
        }
    }
}

/// The ledger once a reference reassignment's external leg succeeded: the
/// fee-adjusted native record persisted (when staged), the source bucket
/// swept to zero, the merged record persisted at the target key.
pub open spec fn spec_resolve_claim_reference(
    s: Seq<TipsBalanceView>,
    secondary_key: TipsBalanceKeyView,
    main_balance: TipsBalanceView,
    native_balance: Option<TipsBalanceView>,
) -> Seq<TipsBalanceView> {
    let s1 = match native_balance {
        Some(nb) => put_balance(s, nb),
        None => s,
    };
    put_balance(spec_zero_at(s1, secondary_key), main_balance)
}

/// The ledger once a staged reassignment is committed.
pub open spec fn spec_commit_claim_reference(
    s: Seq<TipsBalanceView>,
    plan: ClaimReferencePlanView,
) -> Seq<TipsBalanceView> {
    spec_resolve_claim_reference(s, plan.secondary_key, plan.main_balance, plan.native_balance)
}

/// The tip ledger: accumulation buckets, the token registry, and the account
/// allowed to administer the contract.
pub struct TippingContract {
    pub owner: AccountId,
    pub tips_balances: Vec<TipsBalance>,
    pub ft_identifiers: Vec<FtIdentifierInfo>,
}

impl TippingContract {
    /// The ledger store, as the sequence of stored balance views.
    pub open spec fn balances(self) -> Seq<TipsBalanceView> {
        self.tips_balances@.map_values(|b: TipsBalance| b@)
    }

    /// The token registry, as the sequence of registered token views.
    pub open spec fn registry(self) -> Seq<FtIdentifierInfoView> {
        self.ft_identifiers@.map_values(|f: FtIdentifierInfo| f@)
    }

    /// Well-formedness: bucket keys and registered token identifiers are
    /// unique, and every stored amount is a machine balance.
    pub open spec fn wf(self) -> bool {
        &&& wf_balances(self.balances())
        &&& wf_registry(self.registry())
    }

    /// A fresh contract: empty ledger, the native currency pre-registered
    /// with 24 decimals under the symbol NEAR, the given owner.
    pub fn new(owner: AccountId) -> (r: Self)
        ensures
            r.wf(),
            r.owner@ == owner@,
            r.balances() == Seq::<TipsBalanceView>::empty(),
            r.registry() == seq![
                FtIdentifierInfoView { ft_identifier: "native"@, decimals: 24, symbol: "NEAR"@ },
            ],
    {
        let mut ft_identifiers: Vec<FtIdentifierInfo> = Vec::new();
        ft_identifiers.push(FtIdentifierInfo::new("native", 24, "NEAR"));
        let r = TippingContract { owner, tips_balances: Vec::new(), ft_identifiers };
        proof {
            assert(r.balances() =~= Seq::<TipsBalanceView>::empty());
            assert(r.registry() =~= seq![
                FtIdentifierInfoView { ft_identifier: "native"@, decimals: 24, symbol: "NEAR"@ },
            ]);
        }
        r
    }

    pub fn get_owner(&self) -> (r: AccountId)
        ensures
            r@ == self.owner@,
    {
        self.owner.clone()
    }

    /// Hands the contract to a new administrator; only the current owner may.
    pub fn transfer_owner_key(&mut self, signer: &AccountId, new_owner: AccountId) -> (r: Result<
        &'static str,
        TippingError,
    >)
        requires
            old(self).wf(),
        ensures
            final(self).wf(),
            signer@ != old(self).owner@ ==> r == Err::<&'static str, TippingError>(
                TippingError::UnauthorizedAdmin,
            ) && *final(self) == *old(self),
            signer@ == old(self).owner@ ==> (r matches Ok(m) && m@ == "OwnerTransferred"@ && final(self).owner@ == new_owner@),
            final(self).balances() == old(self).balances(),
            final(self).registry() == old(self).registry(),
    {
        if !str_eq(signer.as_str(), self.owner.as_str()) {
            return Err(TippingError::UnauthorizedAdmin);
        }
        self.owner = new_owner;
        Ok("OwnerTransferred")
    }

    /// Index of the bucket stored under `key`, if any.
    pub(crate) fn find_balance(&self, key: &TipsBalanceKey) -> (r: Option<usize>)
        ensures
            match r {
                Some(i) => i < self.tips_balances.len() && key_index_by(
                    self.balances(),
                    balance_key_fn(),
                    key@,
                ) == i as int,
                None => key_index_by(self.balances(), balance_key_fn(), key@) == -1,
            },
    {
        let n = self.tips_balances.len();
        let mut i: usize = 0;
        while i < n
            invariant
                0 <= i <= n,
                n == self.tips_balances.len(),
                forall|j: int| 0 <= j < i ==> (#[trigger] self.balances()[j]).key() != key@,
            decreases n - i,
        {
            let entry_key = self.tips_balances[i].key();
            if key.eq_key(&entry_key) {
                proof {
                    lemma_key_index_by_first_match(
                        self.balances(),
                        balance_key_fn(),
                        key@,
                        i as int,
                    );
                }
                return Some(i);
            }
            i = i + 1;
        }
        proof {
            lemma_key_index_by(self.balances(), balance_key_fn(), key@);
            let r = key_index_by(self.balances(), balance_key_fn(), key@);
            if r >= 0 {
                assert(self.balances()[r].key() != key@);
            }
        }
        None
    }

    /// Index of the registry entry for `ft_identifier`, if any.
    pub(crate) fn find_ft(&self, ft_identifier: &str) -> (r: Option<usize>)
        ensures
            match r {
                Some(i) => i < self.ft_identifiers.len() && key_index_by(
                    self.registry(),
                    ft_key_fn(),
                    ft_identifier@,
                ) == i as int,
                None => key_index_by(self.registry(), ft_key_fn(), ft_identifier@) == -1,
            },
    {
        let n = self.ft_identifiers.len();
        let mut i: usize = 0;
        while i < n
            invariant
                0 <= i <= n,
                n == self.ft_identifiers.len(),
                forall|j: int|
                    0 <= j < i ==> (#[trigger] self.registry()[j]).ft_identifier
                        != ft_identifier@,
            decreases n - i,
        {
            if str_eq(self.ft_identifiers[i].get_ft_identifier(), ft_identifier) {
                proof {
                    lemma_key_index_by_first_match(
                        self.registry(),
                        ft_key_fn(),
                        ft_identifier@,
                        i as int,
                    );
                }
                return Some(i);
            }
            i = i + 1;
        }
        proof {
            lemma_key_index_by(self.registry(), ft_key_fn(), ft_identifier@);
            let r = key_index_by(self.registry(), ft_key_fn(), ft_identifier@);
            if r >= 0 {
                assert(self.registry()[r].ft_identifier != ft_identifier@);
            }
        }
        None
    }

    /// Registers a token on first sight: a later registration of the same
    /// identifier is a no-op, whatever symbol or precision it reports.
    pub fn create_ft_identifier(&mut self, ft_identifier: &FtIdentifier, symbol: &str, decimals: &u8)
        requires
            old(self).wf(),
        ensures
            final(self).wf(),
            final(self).registry() == (match lookup_ft(old(self).registry(), ft_identifier@) {
                Some(_) => old(self).registry(),
                None => old(self).registry().push(
                    FtIdentifierInfoView {
                        ft_identifier: ft_identifier@,
                        decimals: *decimals,
                        symbol: symbol@,
                    },
                ),
            }),
            lookup_ft(final(self).registry(), ft_identifier@) is Some,
            final(self).balances() == old(self).balances(),
            final(self).owner == old(self).owner,
    {
        let found = self.find_ft(ft_identifier.as_str());
        match found {
            Some(_) => {
                proof {
                    lemma_key_index_by(self.registry(), ft_key_fn(), ft_identifier@);
                }
            },
            None => {
                let info = FtIdentifierInfo::new(ft_identifier.as_str(), *decimals, symbol);
                proof {
                    lemma_put_by(self.registry(), ft_key_fn(), info@);
                    assert(put_by(self.registry(), ft_key_fn(), info@) =~= self.registry().push(
                        info@,
                    ));
                }
                self.ft_identifiers.push(info);
                proof {
                    assert(self.registry() =~= old(self).registry().push(
                        FtIdentifierInfoView {
                            ft_identifier: ft_identifier@,
                            decimals: *decimals,
                            symbol: symbol@,
                        },
                    ));
                }
            },
        }
    }

    /// Finalizes a token registration once its metadata resolution came
    /// back: a successful resolution registers the token, a failed or
    /// malformed one changes nothing.
    pub fn resolve_ft_identifier(
        &mut self,
        ft_identifier: &FtIdentifier,
        ft_metadata: Option<&FungibleTokenMetadata>,
    )
        requires
            old(self).wf(),
        ensures
            final(self).wf(),
            final(self).balances() == old(self).balances(),
            final(self).owner == old(self).owner,
            final(self).registry() == (match ft_metadata {
                Some(md) => spec_register(
                    old(self).registry(),
                    ft_identifier@,
                    md@.decimals,
                    md@.symbol,
                ),
                None => old(self).registry(),
            }),
    {
        if let Some(md) = ft_metadata {
            let decimals = *md.get_decimals();
            self.create_ft_identifier(ft_identifier, md.get_symbol(), &decimals);
        }
    }

    /// The accumulate operation: credits `amount` to the bucket described by
    /// `tips_balance_info`, creating the bucket (with no payee) on first
    /// accumulation, and returns the stored record.
    pub fn create_tips_balance(
        &mut self,
        tips_balance_info: &TipsBalanceInfo,
        amount: &Balance,
    ) -> (r: TipsBalance)
        requires
            old(self).wf(),
            amount_at(old(self).balances(), tips_balance_info@.key()) + *amount <= u128::MAX,
        ensures
            final(self).wf(),
            final(self).balances() == spec_accumulate(
                old(self).balances(),
                tips_balance_info@,
                *amount as int,
            ),
            lookup_balance(final(self).balances(), tips_balance_info@.key()) == Some(r@),
            amount_at(final(self).balances(), tips_balance_info@.key()) == amount_at(
                old(self).balances(),
                tips_balance_info@.key(),
            ) + *amount,
            final(self).registry() == old(self).registry(),
            final(self).owner == old(self).owner,
    {
        let key = tips_balance_info.key();
        proof {
            lemma_accumulate(self.balances(), tips_balance_info@, *amount as int);
            lemma_key_index_by(self.balances(), balance_key_fn(), key@);
        }
        let found = self.find_balance(&key);
        match found {
            Some(i) => {
                let updated = self.tips_balances[i].clone().add_balance(*amount);
                let result = updated.clone();
                self.tips_balances[i] = updated;
                proof {
                    let old_b = old(self).balances()[i as int];
                    assert(self.balances() =~= put_balance(
                        old(self).balances(),
                        old_b.with_amount(old_b.amount + *amount),
                    ));
                }
                result
            },
            None => {
                let created = TipsBalance::new(tips_balance_info).set_balance(*amount);
                let result = created.clone();
                self.tips_balances.push(created);
                proof {
                    assert(self.balances() =~= put_balance(
                        old(self).balances(),
                        TipsBalanceView::fresh(tips_balance_info@, *amount as int),
                    ));
                }
                result
            },
        }
    }

    /// Accepts a native-currency tip and credits it to the reference's
    /// bucket.  `tip_amount` is the attached deposit and `account_balance`
    /// the caller's balance after the deposit, both read by the host.
    pub fn send_tip(
        &mut self,
        tips_balance_info: &TipsBalanceInfo,
        tip_amount: Balance,
        account_balance: Balance,
    ) -> (r: Result<TipsBalance, TippingError>)
        requires
            old(self).wf(),
            (tips_balance_info@.ft_identifier == "native"@ && account_balance > tip_amount
                && tip_amount > 0) ==> amount_at(old(self).balances(), tips_balance_info@.key())
                + tip_amount <= u128::MAX,
        ensures
            final(self).wf(),
            final(self).registry() == old(self).registry(),
            final(self).owner == old(self).owner,
            ({
                let s = old(self).balances();
                let info = tips_balance_info@;
                if info.ft_identifier != "native"@ {
                    r == Err::<TipsBalance, TippingError>(TippingError::OnlyForNear) && final(self).balances() == s
                } else if account_balance <= tip_amount {
                    r == Err::<TipsBalance, TippingError>(TippingError::InsufficientBalance)
                        && final(self).balances() == s
                } else if tip_amount == 0 {
                    r == Err::<TipsBalance, TippingError>(TippingError::TipsMustMoreThanMinimum)
                        && final(self).balances() == s
                } else {
                    &&& final(self).balances() == spec_accumulate(s, info, tip_amount as int)
                    &&& r matches Ok(b) && Some(b@) == lookup_balance(
                        final(self).balances(),
                        info.key(),
                    )
                }
            }),
    {
        if !str_eq(tips_balance_info.get_ft_identifier(), "native") {
            return Err(TippingError::OnlyForNear);
        }
        if account_balance <= tip_amount {
            return Err(TippingError::InsufficientBalance);
        }
        if tip_amount == 0 {
            return Err(TippingError::TipsMustMoreThanMinimum);
        }
        let balance = self.create_tips_balance(tips_balance_info, &tip_amount);
        Ok(balance)
    }

    /// Claims the accumulated amount of one bucket for its designated payee:
    /// rejects an unknown bucket, an unset payee, an empty bucket or a
    /// foreign caller; otherwise zeroes the bucket at once and returns the
    /// zeroed record with the amount to transfer.
    pub fn claim_tip(&mut self, tips_balance_info: &TipsBalanceInfo, signer: &AccountId) -> (r:
        Result<(TipsBalance, Balance), TippingError>)
        requires
            old(self).wf(),
        ensures
            final(self).wf(),
            final(self).registry() == old(self).registry(),
            final(self).owner == old(self).owner,
            ({
                let out = spec_claim_tip(old(self).balances(), tips_balance_info@.key(), signer@);
                match out {
                    Err(e) => r == Err::<(TipsBalance, Balance), TippingError>(e) && final(self).balances() == old(self).balances(),
                    Ok((s2, zeroed, amt)) => {
                        &&& final(self).balances() == s2
                        &&& r matches Ok(p) && p.0@ == zeroed && p.1 as int == amt
                    },
                }
            }),
    {
        let key = tips_balance_info.key();
        proof {
            lemma_key_index_by(self.balances(), balance_key_fn(), key@);
        }
        let found = self.find_balance(&key);
        match found {
            None => Err(TippingError::TipsBalanceNotExists),
            Some(i) => {
                if self.tips_balances[i].account_id.is_none() {
                    return Err(TippingError::ReceiverNotExists);
                }
                let amount = self.tips_balances[i].get_amount();
                if amount == 0 {
                    return Err(TippingError::NothingToClaimed);
                }
                let authorized = match &self.tips_balances[i].account_id {
                    Some(acc) => str_eq(acc.as_str(), signer.as_str()),
                    None => false,
                };
                if !authorized {
                    return Err(TippingError::Unauthorized);
                }
                let zeroed = self.tips_balances[i].clone().set_balance(0);
                let result = zeroed.clone();
                proof {
                    let b = old(self).balances()[i as int];
                    lemma_wf_put(old(self).balances(), b.with_amount(0));
                }
                self.tips_balances[i] = zeroed;
                proof {
                    let b = old(self).balances()[i as int];
                    assert(self.balances() =~= put_balance(old(self).balances(), b.with_amount(0)));
                }
                Ok((result, amount))
            },
        }
    }

    /// Shapes the transfer a claim pays out with: the native currency goes
    /// directly, any other token through its own contract, which requires
    /// the identifier to be a valid external account.
    pub fn transfer(&self, receiver: &AccountId, ft_identifier: &str, amount: Balance) -> (r: Result<
        TransferAction,
        TippingError,
    >)
        ensures
            ({
                if ft_identifier@ != "native"@ && !valid_account_id(ft_identifier@) {
                    r == Err::<TransferAction, TippingError>(TippingError::NotAnAccountId)
                } else {
                    r matches Ok(a) && a@ == spec_transfer(receiver@, ft_identifier@, amount as int)
                }
            }),
    {
        if str_eq(ft_identifier, "native") {
            Ok(TransferAction::Native { receiver: receiver.clone(), amount })
        } else if is_valid_account_id(ft_identifier) {
            Ok(
                TransferAction::Ft {
                    ft_identifier: ft_identifier.to_owned(),
                    receiver: receiver.clone(),
                    amount,
                },
            )
        } else {
            Err(TippingError::NotAnAccountId)
        }
    }

    /// The reference-migration computation, with no mutation: what the
    /// bucket at the new reference will hold once the source bucket's value
    /// is carried over.
    pub fn calculate_tips(
        &self,
        tips_balance_info: &TipsBalanceInfo,
        reference_type: &ReferenceType,
        reference_id: &ReferenceId,
    ) -> (r: TipsBalance)
        requires
            self.wf(),
            amount_at(
                self.balances(),
                tips_balance_info@.key().with_reference(reference_type@, reference_id@),
            ) + amount_at(self.balances(), tips_balance_info@.key()) <= u128::MAX,
        ensures
            r@ == spec_calculate_tips(
                self.balances(),
                tips_balance_info@,
                reference_type@,
                reference_id@,
            ),
    {
        let src_key = tips_balance_info.key();
        let mut target_key = tips_balance_info.key();
        target_key.set_reference(reference_type.as_str(), reference_id.as_str());
        let same = src_key.eq_key(&target_key);
        let tip: Balance = if same {
            0
        } else {
            proof {
                lemma_key_index_by(self.balances(), balance_key_fn(), src_key@);
            }
            match self.find_balance(&src_key) {
                Some(i) => self.tips_balances[i].get_amount(),
                None => 0,
            }
        };
        proof {
            lemma_key_index_by(self.balances(), balance_key_fn(), target_key@);
        }
        match self.find_balance(&target_key) {
            Some(i) => self.tips_balances[i].clone().add_balance(tip),
            None => TipsBalance::new(tips_balance_info).set_balance(tip).set_reference(
                reference_type.as_str(),
                reference_id.as_str(),
            ),
        }
    }

    /// The commit step of a reference reassignment: sweeps the source bucket
    /// to zero (keeping its description and payee) and persists the merged
    /// record at its own key.
    pub fn claim_tips_balance(
        &mut self,
        secondary_key: &TipsBalanceKey,
        main_balance: &TipsBalance,
    ) -> (r: TipsBalance)
        requires
            old(self).wf(),
        ensures
            final(self).wf(),
            final(self).balances() == put_balance(
                spec_zero_at(old(self).balances(), secondary_key@),
                main_balance@,
            ),
            r@ == main_balance@,
            final(self).registry() == old(self).registry(),
            final(self).owner == old(self).owner,
    {
        self.zero_bucket(secondary_key);
        self.put_bucket(main_balance);
        main_balance.clone()
    }

    /// Rewrites the bucket at `key` to amount zero, if it exists and holds
    /// anything; its description and payee stay.
    fn zero_bucket(&mut self, key: &TipsBalanceKey)
        requires
            old(self).wf(),
        ensures
            final(self).wf(),
            final(self).balances() == spec_zero_at(old(self).balances(), key@),
            final(self).registry() == old(self).registry(),
            final(self).owner == old(self).owner,
    {
        proof {
            lemma_zero_at(self.balances(), key@);
            lemma_key_index_by(self.balances(), balance_key_fn(), key@);
        }
        let found = self.find_balance(key);
        if let Some(i) = found {
            if self.tips_balances[i].get_amount() != 0 {
                let zeroed = self.tips_balances[i].clone().set_balance(0);
                proof {
                    let b = old(self).balances()[i as int];
                    lemma_wf_put(old(self).balances(), b.with_amount(0));
                }
                self.tips_balances[i] = zeroed;
                proof {
                    let b = old(self).balances()[i as int];
                    assert(self.balances() =~= put_balance(
                        old(self).balances(),
                        b.with_amount(0),
                    ));
                }
            }
        }
    }

    /// Persists `balance` at its own key, replacing or creating the bucket.
    fn put_bucket(&mut self, balance: &TipsBalance)
        requires
            old(self).wf(),
        ensures
            final(self).wf(),
            final(self).balances() == put_balance(old(self).balances(), balance@),
            final(self).registry() == old(self).registry(),
            final(self).owner == old(self).owner,
    {
        proof {
            lemma_wf_put(self.balances(), balance@);
            lemma_key_index_by(self.balances(), balance_key_fn(), balance@.key());
        }
        let key = balance.key();
        let found = self.find_balance(&key);
        match found {
            Some(i) => {
                self.tips_balances[i] = balance.clone();
                proof {
                    assert(self.balances() =~= put_balance(old(self).balances(), balance@));
                }
            },
            None => {
                self.tips_balances.push(balance.clone());
                proof {
                    assert(self.balances() =~= put_balance(old(self).balances(), balance@));
                }
            },
        }
    }

    /// Finalizes a fungible-token tip once the token's metadata resolution
    /// came back.  A successful resolution registers the token and credits
    /// the staged amount — only now is the bucket created; a failed or
    /// malformed one leaves the ledger untouched and returns the amount to
    /// refund.
    pub fn resolve_send_tip(
        &mut self,
        sender: &AccountId,
        tips_balance_info: &TipsBalanceInfo,
        amount: Balance,
        ft_metadata: Option<&FungibleTokenMetadata>,
    ) -> (r: Balance)
        requires
            old(self).wf(),
            ft_metadata is Some ==> amount_at(old(self).balances(), tips_balance_info@.key())
                + amount <= u128::MAX,
        ensures
            final(self).wf(),
            final(self).owner == old(self).owner,
            match ft_metadata {
                None => {
                    &&& final(self).balances() == old(self).balances()
                    &&& final(self).registry() == old(self).registry()
                    &&& r == amount
                },
                Some(md) => {
                    &&& final(self).registry() == spec_register(
                        old(self).registry(),
                        tips_balance_info@.ft_identifier,
                        md@.decimals,
                        md@.symbol,
                    )
                    &&& final(self).balances() == spec_accumulate(
                        old(self).balances(),
                        tips_balance_info@,
                        amount as int,
                    )
                    &&& r == 0
                },
            },
    {
        match ft_metadata {
            Some(md) => {
                let ft_identifier = tips_balance_info.get_ft_identifier().to_owned();
                let decimals = *md.get_decimals();
                self.create_ft_identifier(&ft_identifier, md.get_symbol(), &decimals);
                self.create_tips_balance(tips_balance_info, &amount);
                0
            },
            None => amount,
        }
    }

    /// Confirms a claim once its transfer resolved.  Success re-persists the
    /// already-zeroed record; failure leaves the ledger as the optimistic
    /// zero-out left it and reports the loss as fatal rather than silently
    /// restoring the balance.
    pub fn resolve_claim_tip(
        &mut self,
        tips_balance: &TipsBalance,
        amount: Balance,
        transfer_ok: bool,
    ) -> (r: Result<(), TippingError>)
        requires
            old(self).wf(),
        ensures
            final(self).wf(),
            final(self).registry() == old(self).registry(),
            final(self).owner == old(self).owner,
            transfer_ok ==> r is Ok && final(self).balances() == put_balance(
                old(self).balances(),
                tips_balance@,
            ),
            !transfer_ok ==> r == Err::<(), TippingError>(TippingError::TokenNotFound) && final(self).balances() == old(self).balances(),
    {
        if !transfer_ok {
            return Err(TippingError::TokenNotFound);
        }
        self.put_bucket(tips_balance);
        Ok(())
    }

    /// Stages a fungible-token tip: nothing is credited yet — the ledger is
    /// untouched until the token's metadata resolution arrives.  Returns the
    /// token account to query, or the rejection for a token identifier that
    /// is no valid external account.
    pub fn send_tip_by_ft(
        &mut self,
        tips_balance_info: &TipsBalanceInfo,
        sender: &AccountId,
        amount: Balance,
    ) -> (r: Result<AccountId, TippingError>)
        requires
            old(self).wf(),
        ensures
            *final(self) == *old(self),
            final(self).wf(),
            if valid_account_id(tips_balance_info@.ft_identifier) {
                r matches Ok(id) && id@ == tips_balance_info@.ft_identifier
            } else {
                r == Err::<AccountId, TippingError>(TippingError::NotAnAccountId)
            },
    {
        match tips_balance_info.get_ft_id() {
            Some(ft_id) => Ok(ft_id),
            None => Err(TippingError::NotAnAccountId),
        }
    }

    /// Stages a reference reassignment: validates the request, re-keys the
    /// description under the signer's own account — a caller can only sweep
    /// buckets issued under its own server id — clamps the fee to what the
    /// signer's native bucket at the target reference holds, and returns the
    /// fee transfer to dispatch together with the records the resolution
    /// step will persist.  The ledger itself is untouched.
    pub fn claim_reference(
        &mut self,
        tips_balance_info: &TipsBalanceInfo,
        reference_type: &ReferenceType,
        reference_id: &ReferenceId,
        account_id: &AccountId,
        tx_fee: &String,
        signer: &AccountId,
    ) -> (r: Result<ClaimReferencePlan, TippingError>)
        requires
            old(self).wf(),
            (signer@ != account_id@ && tx_fee@.len() >= 1 && crate::strings::all_digits(tx_fee@)
                && crate::strings::str_to_nat(tx_fee@) <= u128::MAX) ==> amount_at(
                old(self).balances(),
                tips_balance_info@.with_server(signer@).key().with_reference(
                    reference_type@,
                    reference_id@,
                ),
            ) + amount_at(old(self).balances(), tips_balance_info@.with_server(signer@).key())
                <= u128::MAX,
        ensures
            *final(self) == *old(self),
            ({
                let s = old(self).balances();
                if signer@ == account_id@ {
                    r == Err::<ClaimReferencePlan, TippingError>(TippingError::Unauthorized)
                } else if !(tx_fee@.len() >= 1 && crate::strings::all_digits(tx_fee@)
                    && crate::strings::str_to_nat(tx_fee@) <= u128::MAX) {
                    r == Err::<ClaimReferencePlan, TippingError>(TippingError::FailedParseTxFee)
                } else {
                    r matches Ok(plan) && plan@ == spec_claim_reference_plan(
                        s,
                        tips_balance_info@.with_server(signer@),
                        reference_type@,
                        reference_id@,
                        account_id@,
                        crate::strings::str_to_nat(tx_fee@) as int,
                    )
                }
            }),
    {
        if str_eq(signer.as_str(), account_id.as_str()) {
            return Err(TippingError::Unauthorized);
        }
        let parsed = crate::strings::parse_u128(tx_fee.as_str());
        let requested_fee: Balance = match parsed {
            Some(v) => v,
            None => {
                return Err(TippingError::FailedParseTxFee);
            },
        };
        let tips_balance_info = tips_balance_info.clone().set_server_id(signer.as_str());
        let native_key = TipsBalanceKey::new(
            signer.as_str(),
            reference_type.as_str(),
            reference_id.as_str(),
            "native",
        );
        proof {
            lemma_key_index_by(self.balances(), balance_key_fn(), native_key@);
        }
        let total_tip: Balance = match self.find_balance(&native_key) {
            Some(i) => self.tips_balances[i].get_amount(),
            None => 0,
        };
        let tx_fee_amount: Balance = if total_tip >= requested_fee {
            requested_fee
        } else {
            0
        };
        let main_balance = self.calculate_tips(&tips_balance_info, reference_type, reference_id);
        let main_balance_key = main_balance.key();
        if !main_balance_key.eq_key(&native_key) {
            let native_balance = match self.find_balance(&native_key) {
                Some(i) => self.tips_balances[i].clone(),
                None => {
                    let native_info = TipsBalanceInfo::new(
                        signer.as_str(),
                        reference_type.as_str(),
                        reference_id.as_str(),
                        "native",
                    );
                    TipsBalance::new(&native_info)
                },
            };
            let native_balance = native_balance.set_account_id(account_id).set_balance(
                total_tip - tx_fee_amount,
            );
            Ok(
                ClaimReferencePlan {
                    tx_fee: tx_fee_amount,
                    secondary_key: tips_balance_info.key(),
                    main_balance: main_balance.set_account_id(account_id),
                    native_balance: Some(native_balance),
                },
            )
        } else {
            let amount = main_balance.get_amount();
            proof {
                // The merged native bucket holds at least the pre-merge
                // native amount, which covers the clamped fee.
                let tgt_k = tips_balance_info@.key().with_reference(
                    reference_type@,
                    reference_id@,
                );
                lemma_key_index_by(self.balances(), balance_key_fn(), tgt_k);
                lemma_key_index_by(self.balances(), balance_key_fn(), tips_balance_info@.key());
                lemma_amount_at_bounds(self.balances(), tips_balance_info@.key());
                lemma_amount_at_bounds(self.balances(), native_key@);
                assert(amount >= tx_fee_amount);
            }
            Ok(
                ClaimReferencePlan {
                    tx_fee: tx_fee_amount,
                    secondary_key: tips_balance_info.key(),
                    main_balance: main_balance.set_account_id(account_id).set_balance(
                        amount - tx_fee_amount,
                    ),
                    native_balance: None,
                },
            )
        }
    }

    /// Finalizes a reference reassignment once the fee transfer resolved.
    /// Success persists the staged records and sweeps the source bucket;
    /// failure leaves the ledger untouched and is reported as fatal.
    pub fn resolve_claim_reference(
        &mut self,
        secondary_key: &TipsBalanceKey,
        main_balance: &TipsBalance,
        native_tips_balance: Option<&TipsBalance>,
        transfer_ok: bool,
    ) -> (r: Result<TipsBalance, TippingError>)
        requires
            old(self).wf(),
        ensures
            final(self).wf(),
            final(self).registry() == old(self).registry(),
            final(self).owner == old(self).owner,
            !transfer_ok ==> r == Err::<TipsBalance, TippingError>(TippingError::TokenNotFound)
                && final(self).balances() == old(self).balances(),
            transfer_ok ==> (r matches Ok(b) && b@ == main_balance@ && final(self).balances()
                == spec_resolve_claim_reference(
                old(self).balances(),
                secondary_key@,
                main_balance@,
                match native_tips_balance {
                    Some(nb) => Some(nb@),
                    None => None,
                },
            )),
    {
        if !transfer_ok {
            return Err(TippingError::TokenNotFound);
        }
        if let Some(native) = native_tips_balance {
            self.put_bucket(native);
        }
        let committed = self.claim_tips_balance(secondary_key, main_balance);
        Ok(committed)
    }

    /// Sweeps a batch of source buckets to zero, then persists a batch of
    /// merged records, each at its own key.
    pub fn batch_claim_tips_balance(
        &mut self,
        secondary_keys: &Vec<TipsBalanceKey>,
        main_balances: &Vec<TipsBalance>,
    )
        requires
            old(self).wf(),
        ensures
            final(self).wf(),
            final(self).balances() == spec_put_all(
                spec_zero_all(old(self).balances(), key_views(secondary_keys@)),
                balance_views(main_balances@),
            ),
            final(self).registry() == old(self).registry(),
            final(self).owner == old(self).owner,
    {
        let ghost s0 = self.balances();
        let ghost kvs = key_views(secondary_keys@);
        let n = secondary_keys.len();
        let mut i: usize = 0;
        while i < n
            invariant
                0 <= i <= n,
                n == secondary_keys.len(),
                kvs == key_views(secondary_keys@),
                self.wf(),
                self.balances() == spec_zero_all(s0, kvs.take(i as int)),
                self.registry() == old(self).registry(),
                self.owner == old(self).owner,
            decreases n - i,
        {
            self.zero_bucket(&secondary_keys[i]);
            proof {
                assert(kvs.take(i + 1).drop_last() =~= kvs.take(i as int));
                lemma_zero_all_push(s0, kvs.take(i as int), kvs[i as int]);
                assert(kvs.take(i as int).push(kvs[i as int]) =~= kvs.take(i + 1));
            }
            i = i + 1;
        }
        proof {
            assert(kvs.take(n as int) =~= kvs);
        }
        let ghost s1 = self.balances();
        let ghost bvs = balance_views(main_balances@);
        let m = main_balances.len();
        let mut j: usize = 0;
        while j < m
            invariant
                0 <= j <= m,
                m == main_balances.len(),
                bvs == balance_views(main_balances@),
                self.wf(),
                self.balances() == spec_put_all(s1, bvs.take(j as int)),
                self.registry() == old(self).registry(),
                self.owner == old(self).owner,
            decreases m - j,
        {
            self.put_bucket(&main_balances[j]);
            proof {
                lemma_put_all_push(s1, bvs.take(j as int), bvs[j as int]);
                assert(bvs.take(j as int).push(bvs[j as int]) =~= bvs.take(j + 1));
            }
            j = j + 1;
        }
        proof {
            assert(bvs.take(m as int) =~= bvs);
        }
    }

    /// Finalizes a batch reassignment once the fee transfer resolved:
    /// success commits every staged record and sweeps every source bucket;
    /// failure leaves the ledger untouched and is reported as fatal.
    pub fn resolve_batch_claim_reference(
        &mut self,
        secondary_keys: &Vec<TipsBalanceKey>,
        main_balances: &Vec<TipsBalance>,
        transfer_ok: bool,
    ) -> (r: Result<(), TippingError>)
        requires
            old(self).wf(),
        ensures
            final(self).wf(),
            final(self).registry() == old(self).registry(),
            final(self).owner == old(self).owner,
            !transfer_ok ==> r == Err::<(), TippingError>(TippingError::TokenNotFound) && final(self).balances() == old(self).balances(),
            transfer_ok ==> r is Ok && final(self).balances() == spec_put_all(
                spec_zero_all(old(self).balances(), key_views(secondary_keys@)),
                balance_views(main_balances@),
            ),
    {
        if !transfer_ok {
            return Err(TippingError::TokenNotFound);
        }
        self.batch_claim_tips_balance(secondary_keys, main_balances);
        Ok(())
    }

    /// Re-persists a batch of claimed buckets at amount zero once every
    /// chained transfer has reported back; the handler first checks that the
    /// host delivered exactly one outcome per chained transfer.
    pub fn resolve_batch_claim_tip(
        &mut self,
        tips_balances: &Vec<TipsBalance>,
        results_count: u64,
    ) -> (r: Result<(), TippingError>)
        requires
            old(self).wf(),
        ensures
            final(self).wf(),
            final(self).registry() == old(self).registry(),
            final(self).owner == old(self).owner,
            results_count != tips_balances@.len() ==> r == Err::<(), TippingError>(
                TippingError::ResultCountMismatch,
            ) && final(self).balances() == old(self).balances(),
            results_count == tips_balances@.len() ==> r is Ok && final(self).balances()
                == spec_put_all(old(self).balances(), zeroed_views(balance_views(tips_balances@))),
    {
        if results_count != tips_balances.len() as u64 {
            return Err(TippingError::ResultCountMismatch);
        }
        let ghost s0 = self.balances();
        let ghost zvs = zeroed_views(balance_views(tips_balances@));
        let n = tips_balances.len();
        let mut i: usize = 0;
        while i < n
            invariant
                0 <= i <= n,
                n == tips_balances.len(),
                zvs == zeroed_views(balance_views(tips_balances@)),
                self.wf(),
                self.balances() == spec_put_all(s0, zvs.take(i as int)),
                self.registry() == old(self).registry(),
                self.owner == old(self).owner,
            decreases n - i,
        {
            let zeroed = tips_balances[i].clone().set_balance(0);
            self.put_bucket(&zeroed);
            proof {
                lemma_put_all_push(s0, zvs.take(i as int), zvs[i as int]);
                assert(zvs.take(i as int).push(zvs[i as int]) =~= zvs.take(i + 1));
            }
            i = i + 1;
        }
        proof {
            assert(zvs.take(n as int) =~= zvs);
        }
        Ok(())
    }

    /// The buckets `signer` may claim under one reference, one per
    /// registered token at most, in registry order.
    fn collect_claimable(
        &self,
        server_id: &ServerId,
        reference_type: &ReferenceType,
        reference_id: &ReferenceId,
        signer: &AccountId,
    ) -> (r: Vec<TipsBalance>)
        requires
            self.wf(),
        ensures
            balance_views(r@) == spec_claimable(
                self.balances(),
                self.registry(),
                server_id@,
                reference_type@,
                reference_id@,
                signer@,
            ),
    {
        let mut claimable: Vec<TipsBalance> = Vec::new();
        let n = self.ft_identifiers.len();
        let mut j: usize = 0;
        while j < n
            invariant
                0 <= j <= n,
                n == self.ft_identifiers.len(),
                self.wf(),
                balance_views(claimable@) == spec_claimable(
                    self.balances(),
                    self.registry().take(j as int),
                    server_id@,
                    reference_type@,
                    reference_id@,
                    signer@,
                ),
            decreases n - j,
        {
            let ghost prefix = balance_views(claimable@);
            let key = TipsBalanceKey::new(
                server_id.as_str(),
                reference_type.as_str(),
                reference_id.as_str(),
                self.ft_identifiers[j].get_ft_identifier(),
            );
            proof {
                lemma_key_index_by(self.balances(), balance_key_fn(), key@);
            }
            if let Some(i) = self.find_balance(&key) {
                if self.tips_balances[i].get_amount() != 0 {
                    let matches_signer = match &self.tips_balances[i].account_id {
                        Some(acc) => str_eq(acc.as_str(), signer.as_str()),
                        None => false,
                    };
                    if matches_signer {
                        claimable.push(self.tips_balances[i].clone());
                        proof {
                            assert(balance_views(claimable@) =~= prefix.push(
                                self.balances()[i as int],
                            ));
                        }
                    }
                }
            }
            proof {
                assert(self.registry().take(j + 1).drop_last() =~= self.registry().take(j as int));
                assert(self.registry().take(j + 1).last() == self.registry()[j as int]);
            }
            j = j + 1;
        }
        proof {
            assert(self.registry().take(n as int) =~= self.registry());
        }
        claimable
    }

    /// Claims every bucket under one reference whose designated payee is the
    /// caller: rejects the claim when there is none; otherwise zeroes them
    /// all at once and returns the pre-zero records, whose amounts the host
    /// transfers one by one.
    pub fn batch_claim_tips(
        &mut self,
        server_id: &ServerId,
        reference_type: &ReferenceType,
        reference_id: &ReferenceId,
        signer: &AccountId,
    ) -> (r: Result<Vec<TipsBalance>, TippingError>)
        requires
            old(self).wf(),
        ensures
            final(self).wf(),
            final(self).registry() == old(self).registry(),
            final(self).owner == old(self).owner,
            ({
                let cl = spec_claimable(
                    old(self).balances(),
                    old(self).registry(),
                    server_id@,
                    reference_type@,
                    reference_id@,
                    signer@,
                );
                if cl.len() == 0 {
                    r == Err::<Vec<TipsBalance>, TippingError>(TippingError::NothingToClaimed)
                        && final(self).balances() == old(self).balances()
                } else {
                    r matches Ok(v) && balance_views(v@) == cl && final(self).balances()
                        == spec_zero_all(
                        old(self).balances(),
                        cl.map_values(|b: TipsBalanceView| b.key()),
                    )
                }
            }),
    {
        let claimable = self.collect_claimable(server_id, reference_type, reference_id, signer);
        if claimable.is_empty() {
            return Err(TippingError::NothingToClaimed);
        }
        let ghost s0 = self.balances();
        let ghost cl = balance_views(claimable@);
        let ghost keys = cl.map_values(|b: TipsBalanceView| b.key());
        let m = claimable.len();
        let mut i: usize = 0;
        while i < m
            invariant
                0 <= i <= m,
                m == claimable.len(),
                cl == balance_views(claimable@),
                keys == cl.map_values(|b: TipsBalanceView| b.key()),
                self.wf(),
                self.balances() == spec_zero_all(s0, keys.take(i as int)),
                self.registry() == old(self).registry(),
                self.owner == old(self).owner,
            decreases m - i,
        {
            let key = claimable[i].key();
            self.zero_bucket(&key);
            proof {
                lemma_zero_all_push(s0, keys.take(i as int), keys[i as int]);
                assert(keys.take(i as int).push(keys[i as int]) =~= keys.take(i + 1));
            }
            i = i + 1;
        }
        proof {
            assert(keys.take(m as int) =~= keys);
        }
        Ok(claimable)
    }

    /// The staging computation of a batch reassignment: per registered
    /// token, collects what the source references hold, credits it to the
    /// bucket at the main reference, takes the fee from the native token's
    /// record, and designates the payee.  Returns the staged records and the
    /// source keys to sweep; nothing is persisted here.
    pub fn batch_calculate_tips(
        &self,
        server_id: &ServerId,
        reference_type: &ReferenceType,
        reference_ids: &Vec<ReferenceId>,
        main_ref_type: &ReferenceType,
        main_ref_id: &ReferenceId,
        account_id: &AccountId,
        tx_fee: Balance,
    ) -> (r: (Vec<TipsBalance>, Vec<TipsBalanceKey>))
        requires
            self.wf(),
            forall|i: int|
                0 <= i < self.registry().len() ==> #[trigger] spec_collected_amount(
                    self.balances(),
                    server_id@,
                    reference_type@,
                    string_views(reference_ids@),
                    self.registry()[i].ft_identifier,
                ) + amount_at(
                    self.balances(),
                    spec_bucket_key(
                        server_id@,
                        main_ref_type@,
                        main_ref_id@,
                        self.registry()[i].ft_identifier,
                    ),
                ) <= u128::MAX,
            tx_fee as int <= amount_at(
                self.balances(),
                spec_bucket_key(server_id@, main_ref_type@, main_ref_id@, "native"@),
            ),
        ensures
            balance_views(r.0@) == spec_batch_mains(
                self.balances(),
                self.registry(),
                server_id@,
                reference_type@,
                string_views(reference_ids@),
                main_ref_type@,
                main_ref_id@,
                account_id@,
                tx_fee as int,
            ),
            key_views(r.1@) == spec_batch_keys(
                self.balances(),
                self.registry(),
                server_id@,
                reference_type@,
                string_views(reference_ids@),
            ),
    {
        let ghost s = self.balances();
        let ghost rids = string_views(reference_ids@);
        let mut mains: Vec<TipsBalance> = Vec::new();
        let mut keys: Vec<TipsBalanceKey> = Vec::new();
        let n_ft = self.ft_identifiers.len();
        let n_ref = reference_ids.len();
        let mut j: usize = 0;
        while j < n_ft
            invariant
                0 <= j <= n_ft,
                n_ft == self.ft_identifiers.len(),
                n_ref == reference_ids.len(),
                s == self.balances(),
                rids == string_views(reference_ids@),
                self.wf(),
                forall|i: int|
                    0 <= i < self.registry().len() ==> #[trigger] spec_collected_amount(
                        s,
                        server_id@,
                        reference_type@,
                        rids,
                        self.registry()[i].ft_identifier,
                    ) + amount_at(
                        s,
                        spec_bucket_key(
                            server_id@,
                            main_ref_type@,
                            main_ref_id@,
                            self.registry()[i].ft_identifier,
                        ),
                    ) <= u128::MAX,
                tx_fee as int <= amount_at(
                    s,
                    spec_bucket_key(server_id@, main_ref_type@, main_ref_id@, "native"@),
                ),
                balance_views(mains@) == spec_batch_mains(
                    s,
                    self.registry().take(j as int),
                    server_id@,
                    reference_type@,
                    rids,
                    main_ref_type@,
                    main_ref_id@,
                    account_id@,
                    tx_fee as int,
                ),
                key_views(keys@) == spec_batch_keys(
                    s,
                    self.registry().take(j as int),
                    server_id@,
                    reference_type@,
                    rids,
                ),
            decreases n_ft - j,
        {
            let ft = self.ft_identifiers[j].get_ft_identifier();
            let ghost ftv = self.registry()[j as int].ft_identifier;
            let ghost keys_before = key_views(keys@);
            let mut tip: Balance = 0;
            let mut i: usize = 0;
            while i < n_ref
                invariant
                    0 <= i <= n_ref,
                    n_ref == reference_ids.len(),
                    s == self.balances(),
                    rids == string_views(reference_ids@),
                    self.wf(),
                    ft@ == ftv,
                    0 <= j < self.registry().len(),
                    ftv == self.registry()[j as int].ft_identifier,
                    spec_collected_amount(s, server_id@, reference_type@, rids, ftv) + amount_at(
                        s,
                        spec_bucket_key(server_id@, main_ref_type@, main_ref_id@, ftv),
                    ) <= u128::MAX,
                    tip as int == spec_collected_amount(
                        s,
                        server_id@,
                        reference_type@,
                        rids.take(i as int),
                        ftv,
                    ),
                    key_views(keys@) == keys_before + spec_collected_keys(
                        s,
                        server_id@,
                        reference_type@,
                        rids.take(i as int),
                        ftv,
                    ),
                decreases n_ref - i,
            {
                let key = TipsBalanceKey::new(
                    server_id.as_str(),
                    reference_type.as_str(),
                    reference_ids[i].as_str(),
                    ft,
                );
                proof {
                    lemma_key_index_by(s, balance_key_fn(), key@);
                    lemma_amount_at_bounds(s, key@);
                    lemma_amount_at_bounds(
                        s,
                        spec_bucket_key(server_id@, main_ref_type@, main_ref_id@, ftv),
                    );
                    lemma_collected_prefix(s, server_id@, reference_type@, rids, ftv, i + 1);
                    lemma_collected_nonneg(s, server_id@, reference_type@, rids.take(i as int), ftv);
                    assert(rids.take(i + 1).drop_last() =~= rids.take(i as int));
                    assert(rids.take(i + 1).last() == rids[i as int]);
                }
                if let Some(bi) = self.find_balance(&key) {
                    if self.tips_balances[bi].get_amount() != 0 {
                        keys.push(key);
                        proof {
                            assert(key_views(keys@) =~= (keys_before + spec_collected_keys(
                                s,
                                server_id@,
                                reference_type@,
                                rids.take(i as int),
                                ftv,
                            )).push(
                                spec_bucket_key(server_id@, reference_type@, rids[i as int], ftv),
                            ));
                        }
                        tip = tip + self.tips_balances[bi].get_amount();
                    }
                }
                i = i + 1;
            }
            proof {
                assert(rids.take(n_ref as int) =~= rids);
            }
            let main_key = TipsBalanceKey::new(
                server_id.as_str(),
                main_ref_type.as_str(),
                main_ref_id.as_str(),
                ft,
            );
            proof {
                lemma_key_index_by(s, balance_key_fn(), main_key@);
                lemma_amount_at_bounds(s, main_key@);
                lemma_collected_nonneg(s, server_id@, reference_type@, rids, ftv);
            }
            let mut main_tips = match self.find_balance(&main_key) {
                Some(bi) => self.tips_balances[bi].clone().add_balance(tip),
                None => {
                    let info = TipsBalanceInfo::new(
                        server_id.as_str(),
                        main_ref_type.as_str(),
                        main_ref_id.as_str(),
                        ft,
                    );
                    TipsBalance::new(&info).set_balance(tip)
                },
            };
            if str_eq(ft, "native") {
                let base_amount = main_tips.get_amount();
                main_tips = main_tips.set_balance(base_amount - tx_fee);
            }
            let main_tips = main_tips.set_account_id(account_id);
            let ghost mains_before = balance_views(mains@);
            mains.push(main_tips);
            proof {
                assert(balance_views(mains@) =~= mains_before.push(
                    spec_batch_main(
                        s,
                        server_id@,
                        main_ref_type@,
                        main_ref_id@,
                        ftv,
                        spec_collected_amount(s, server_id@, reference_type@, rids, ftv),
                        account_id@,
                        tx_fee as int,
                    ),
                ));
                assert(balance_views(mains@) =~= spec_batch_mains(
                    s,
                    self.registry().take(j + 1),
                    server_id@,
                    reference_type@,
                    rids,
                    main_ref_type@,
                    main_ref_id@,
                    account_id@,
                    tx_fee as int,
                ));
                assert(self.registry().take(j + 1).drop_last() =~= self.registry().take(j as int));
                assert(self.registry().take(j + 1).last() == self.registry()[j as int]);
            }
            j = j + 1;
        }
        proof {
            assert(self.registry().take(n_ft as int) =~= self.registry());
        }
        (mains, keys)
    }

    /// Stages a batch reference reassignment across every registered token:
    /// validates the request, clamps the fee to what the native bucket at
    /// the main reference holds, and returns the fee together with the
    /// staged records and the source keys the resolution step will commit.
    /// The ledger itself is untouched.
    pub fn batch_claim_references(
        &mut self,
        reference_type: &ReferenceType,
        reference_ids: &Vec<ReferenceId>,
        main_ref_type: &ReferenceType,
        main_ref_id: &ReferenceId,
        account_id: &AccountId,
        tx_fee: &String,
        signer: &AccountId,
    ) -> (r: Result<BatchClaimReferencePlan, TippingError>)
        requires
            old(self).wf(),
            signer@ != account_id@ ==> forall|i: int|
                0 <= i < old(self).registry().len() ==> #[trigger] spec_collected_amount(
                    old(self).balances(),
                    signer@,
                    reference_type@,
                    string_views(reference_ids@),
                    old(self).registry()[i].ft_identifier,
                ) + amount_at(
                    old(self).balances(),
                    spec_bucket_key(
                        signer@,
                        main_ref_type@,
                        main_ref_id@,
                        old(self).registry()[i].ft_identifier,
                    ),
                ) <= u128::MAX,
        ensures
            *final(self) == *old(self),
            ({
                let s = old(self).balances();
                let rids = string_views(reference_ids@);
                if signer@ == account_id@ {
                    r == Err::<BatchClaimReferencePlan, TippingError>(TippingError::Unauthorized)
                } else if !(tx_fee@.len() >= 1 && crate::strings::all_digits(tx_fee@)
                    && crate::strings::str_to_nat(tx_fee@) <= u128::MAX) {
                    r == Err::<BatchClaimReferencePlan, TippingError>(
                        TippingError::FailedParseTxFee,
                    )
                } else {
                    let fee = spec_clamped_fee(
                        crate::strings::str_to_nat(tx_fee@) as int,
                        amount_at(
                            s,
                            spec_bucket_key(signer@, main_ref_type@, main_ref_id@, "native"@),
                        ),
                    );
                    r matches Ok(plan) && plan.tx_fee as int == fee && balance_views(
                        plan.main_balances@,
                    ) == spec_batch_mains(
                        s,
                        old(self).registry(),
                        signer@,
                        reference_type@,
                        rids,
                        main_ref_type@,
                        main_ref_id@,
                        account_id@,
                        fee,
                    ) && key_views(plan.secondary_keys@) == spec_batch_keys(
                        s,
                        old(self).registry(),
                        signer@,
                        reference_type@,
                        rids,
                    )
                }
            }),
    {
        if str_eq(signer.as_str(), account_id.as_str()) {
            return Err(TippingError::Unauthorized);
        }
        let parsed = crate::strings::parse_u128(tx_fee.as_str());
        let requested_fee: Balance = match parsed {
            Some(v) => v,
            None => {
                return Err(TippingError::FailedParseTxFee);
            },
        };
        let native_key = TipsBalanceKey::new(
            signer.as_str(),
            main_ref_type.as_str(),
            main_ref_id.as_str(),
            "native",
        );
        proof {
            lemma_key_index_by(self.balances(), balance_key_fn(), native_key@);
        }
        let total_tip: Balance = match self.find_balance(&native_key) {
            Some(i) => self.tips_balances[i].get_amount(),
            None => 0,
        };
        let tx_fee_amount: Balance = if total_tip >= requested_fee {
            requested_fee
        } else {
            0
        };
        let (main_balances, secondary_keys) = self.batch_calculate_tips(
            signer,
            reference_type,
            reference_ids,
            main_ref_type,
            main_ref_id,
            account_id,
            tx_fee_amount,
        );
        Ok(BatchClaimReferencePlan { tx_fee: tx_fee_amount, secondary_keys, main_balances })
    }
}

/// A staged batch reassignment: the fee to pay the caller, the source
/// buckets to sweep, and the records to persist once the fee transfer
/// resolves.
pub struct BatchClaimReferencePlan {
    pub tx_fee: Balance,
    pub secondary_keys: Vec<TipsBalanceKey>,
    pub main_balances: Vec<TipsBalance>,
}

} // verus!
