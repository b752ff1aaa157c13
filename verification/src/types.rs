//! The ledger's data types: the composite balance key, the balance record it
//! indexes, the token-registry entry, and the shaped results the query
//! surface returns.  Each exec type has a ghost view over sequences of
//! characters; all contracts speak of those views.

use vstd::prelude::*;

use crate::strings::dec_str;

verus! {

pub type ServerId = String;

pub type ReferenceType = String;

pub type ReferenceId = String;

pub type FtIdentifier = String;

/// Account identifiers are carried as plain strings; syntactic validity is
/// the business of `crate::account`.
pub type AccountId = String;

pub type Balance = u128;

/// Ghost view of a composite balance key.
#[verifier::ext_equal]
pub ghost struct TipsBalanceKeyView {
    pub server_id: Seq<char>,
    pub reference_type: Seq<char>,
    pub reference_id: Seq<char>,
    pub ft_identifier: Seq<char>,
}

impl TipsBalanceKeyView {
    /// The same key pointed at another reference.
    pub open spec fn with_reference(self, reference_type: Seq<char>, reference_id: Seq<char>) -> Self {
        TipsBalanceKeyView {
            reference_type,
            reference_id,
            ..self
        }
    }
}

/// Identifies one accumulation bucket: issuer server, reference, and token.
#[derive(Debug, PartialEq, Eq)]
pub struct TipsBalanceKey(pub ServerId, pub ReferenceType, pub ReferenceId, pub FtIdentifier);

impl View for TipsBalanceKey {
    type V = TipsBalanceKeyView;

    open spec fn view(&self) -> TipsBalanceKeyView {
        TipsBalanceKeyView {
            server_id: self.0@,
            reference_type: self.1@,
            reference_id: self.2@,
            ft_identifier: self.3@,
        }
    }
}

impl TipsBalanceKey {
    pub fn new(server_id: &str, reference_type: &str, reference_id: &str, ft_identifier: &str) -> (r:
        Self)
        ensures
            r@ == (TipsBalanceKeyView {
                server_id: server_id@,
                reference_type: reference_type@,
                reference_id: reference_id@,
                ft_identifier: ft_identifier@,
            }),
    {
        Self(
            server_id.to_owned(),
            reference_type.to_owned(),
            reference_id.to_owned(),
            ft_identifier.to_owned(),
        )
    }

    pub fn set_reference(&mut self, reference_type: &str, reference_id: &str)
        ensures
            final(self)@ == old(self)@.with_reference(reference_type@, reference_id@),
    {
        self.1 = reference_type.to_owned();
        self.2 = reference_id.to_owned();
    }

    /// Structural equality of two keys.
    pub fn eq_key(&self, other: &TipsBalanceKey) -> (r: bool)
        ensures
            r == (self@ == other@),
    {
        let r = self.0 == other.0 && self.1 == other.1 && self.2 == other.2 && self.3 == other.3;
        proof {
            if r {
                assert(self@ =~= other@);
            }
        }
        r
    }
}

impl Clone for TipsBalanceKey {
    fn clone(&self) -> (r: Self)
        ensures
            r == *self,
    {
        TipsBalanceKey(self.0.clone(), self.1.clone(), self.2.clone(), self.3.clone())
    }
}

/// Ghost view of a bucket description.
#[verifier::ext_equal]
pub ghost struct TipsBalanceInfoView {
    pub server_id: Seq<char>,
    pub reference_type: Seq<char>,
    pub reference_id: Seq<char>,
    pub ft_identifier: Seq<char>,
}

impl TipsBalanceInfoView {
    /// The lookup key this description projects to.
    pub open spec fn key(self) -> TipsBalanceKeyView {
        TipsBalanceKeyView {
            server_id: self.server_id,
            reference_type: self.reference_type,
            reference_id: self.reference_id,
            ft_identifier: self.ft_identifier,
        }
    }

    pub open spec fn with_reference(self, reference_type: Seq<char>, reference_id: Seq<char>) -> Self {
        TipsBalanceInfoView {
            reference_type,
            reference_id,
            ..self
        }
    }

    /// The same description under another issuing server.
    pub open spec fn with_server(self, server_id: Seq<char>) -> Self {
        TipsBalanceInfoView { server_id, ..self }
    }

    /// The `type/id` rendering of the reference.
    pub open spec fn reference_str(self) -> Seq<char> {
        self.reference_type + "/"@ + self.reference_id
    }
}

/// Describes a bucket: the same four fields as the key, kept as data.
#[derive(Debug, PartialEq, Eq)]
pub struct TipsBalanceInfo {
    pub server_id: ServerId,
    pub reference_type: ReferenceType,
    pub reference_id: ReferenceId,
    pub ft_identifier: FtIdentifier,
}

impl View for TipsBalanceInfo {
    type V = TipsBalanceInfoView;

    open spec fn view(&self) -> TipsBalanceInfoView {
        TipsBalanceInfoView {
            server_id: self.server_id@,
            reference_type: self.reference_type@,
            reference_id: self.reference_id@,
            ft_identifier: self.ft_identifier@,
        }
    }
}

impl TipsBalanceInfo {
    pub fn new(server_id: &str, reference_type: &str, reference_id: &str, ft_identifier: &str) -> (r:
        Self)
        ensures
            r@ == (TipsBalanceInfoView {
                server_id: server_id@,
                reference_type: reference_type@,
                reference_id: reference_id@,
                ft_identifier: ft_identifier@,
            }),
    {
        Self {
            server_id: server_id.to_owned(),
            reference_type: reference_type.to_owned(),
            reference_id: reference_id.to_owned(),
            ft_identifier: ft_identifier.to_owned(),
        }
    }

    pub fn key(&self) -> (r: TipsBalanceKey)
        ensures
            r@ == self@.key(),
    {
        TipsBalanceKey::new(
            self.server_id.as_str(),
            self.reference_type.as_str(),
            self.reference_id.as_str(),
            self.ft_identifier.as_str(),
        )
    }

    pub fn get_server_id(&self) -> (r: &str)
        ensures
            r@ == self@.server_id,
    {
        self.server_id.as_str()
    }

    pub fn get_reference_type(&self) -> (r: &str)
        ensures
            r@ == self@.reference_type,
    {
        self.reference_type.as_str()
    }

    pub fn get_reference_id(&self) -> (r: &str)
        ensures
            r@ == self@.reference_id,
    {
        self.reference_id.as_str()
    }

    pub fn get_ft_identifier(&self) -> (r: &str)
        ensures
            r@ == self@.ft_identifier,
    {
        self.ft_identifier.as_str()
    }

    /// The token identifier as an external account, when it is one.
    pub fn get_ft_id(&self) -> (r: Option<AccountId>)
        ensures
            match r {
                Some(id) => crate::account::valid_account_id(self@.ft_identifier) && id@
                    == self@.ft_identifier,
                None => !crate::account::valid_account_id(self@.ft_identifier),
            },
    {
        if crate::account::is_valid_account_id(self.ft_identifier.as_str()) {
            Some(self.ft_identifier.clone())
        } else {
            None
        }
    }

    /// The `type/id` rendering of the reference.
    pub fn reference(&self) -> (r: String)
        ensures
            r@ == self@.reference_str(),
    {
        self.reference_type.clone().concat("/").concat(self.reference_id.as_str())
    }

    pub fn set_reference(self, reference_type: &str, reference_id: &str) -> (r: Self)
        ensures
            r@ == self@.with_reference(reference_type@, reference_id@),
    {
        let mut this = self;
        this.reference_type = reference_type.to_owned();
        this.reference_id = reference_id.to_owned();
        this
    }

    /// The same description under another issuing server.
    pub fn set_server_id(self, server_id: &str) -> (r: Self)
        ensures
            r@ == self@.with_server(server_id@),
    {
        let mut this = self;
        this.server_id = server_id.to_owned();
        this
    }
}

impl Clone for TipsBalanceInfo {
    fn clone(&self) -> (r: Self)
        ensures
            r == *self,
    {
        TipsBalanceInfo {
            server_id: self.server_id.clone(),
            reference_type: self.reference_type.clone(),
            reference_id: self.reference_id.clone(),
            ft_identifier: self.ft_identifier.clone(),
        }
    }
}

/// Ghost view of a stored balance.
#[verifier::ext_equal]
pub ghost struct TipsBalanceView {
    pub info: TipsBalanceInfoView,
    pub account_id: Option<Seq<char>>,
    pub amount: int,
}

impl TipsBalanceView {
    pub open spec fn key(self) -> TipsBalanceKeyView {
        self.info.key()
    }

    pub open spec fn with_amount(self, amount: int) -> Self {
        TipsBalanceView { amount, ..self }
    }

    pub open spec fn with_account(self, account_id: Seq<char>) -> Self {
        TipsBalanceView { account_id: Some(account_id), ..self }
    }

    /// A fresh bucket for `info`: no payee, the given opening amount.
    pub open spec fn fresh(info: TipsBalanceInfoView, amount: int) -> Self {
        TipsBalanceView { info, account_id: None, amount }
    }
}

/// The value stored at a balance key: its description, an optional designated
/// payee, and the accumulated amount.  A zero amount is a valid, storable
/// state meaning "claimed" or "never funded".
#[derive(Debug, PartialEq, Eq)]
pub struct TipsBalance {
    pub tips_balance_info: TipsBalanceInfo,
    pub account_id: Option<AccountId>,
    pub amount: Balance,
}

impl View for TipsBalance {
    type V = TipsBalanceView;

    open spec fn view(&self) -> TipsBalanceView {
        TipsBalanceView {
            info: self.tips_balance_info@,
            account_id: match self.account_id {
                Some(a) => Some(a@),
                None => None,
            },
            amount: self.amount as int,
        }
    }
}

impl TipsBalance {
    pub fn new(tips_balance_info: &TipsBalanceInfo) -> (r: Self)
        ensures
            r@ == TipsBalanceView::fresh(tips_balance_info@, 0),
    {
        Self { tips_balance_info: tips_balance_info.clone(), account_id: None, amount: 0 }
    }

    pub fn get_tips_balance_info(&self) -> (r: &TipsBalanceInfo)
        ensures
            r@ == self@.info,
    {
        &self.tips_balance_info
    }

    pub fn key(&self) -> (r: TipsBalanceKey)
        ensures
            r@ == self@.key(),
    {
        self.tips_balance_info.key()
    }

    pub fn get_ft_identifier(&self) -> (r: &str)
        ensures
            r@ == self@.info.ft_identifier,
    {
        self.tips_balance_info.get_ft_identifier()
    }

    pub fn get_reference_type(&self) -> (r: &str)
        ensures
            r@ == self@.info.reference_type,
    {
        self.tips_balance_info.get_reference_type()
    }

    pub fn get_reference_id(&self) -> (r: &str)
        ensures
            r@ == self@.info.reference_id,
    {
        self.tips_balance_info.get_reference_id()
    }

    pub fn get_account_id(&self) -> (r: &Option<AccountId>)
        ensures
            self@.account_id is Some <==> *r is Some,
            *r is Some ==> self@.account_id == Some(r->0@),
    {
        &self.account_id
    }

    pub fn get_amount(&self) -> (r: Balance)
        ensures
            r as int == self@.amount,
    {
        self.amount
    }

    /// The accumulated amount as its canonical decimal string.
    pub fn get_amount_str(&self) -> (r: String)
        ensures
            r@ == dec_str(self@.amount as nat),
    {
        crate::strings::amount_to_string(self.amount)
    }

    pub fn add_balance(self, amount: Balance) -> (r: Self)
        requires
            self@.amount + amount <= u128::MAX,
        ensures
            r@ == self@.with_amount(self@.amount + amount),
    {
        let mut this = self;
        this.amount = this.amount + amount;
        this
    }

    pub fn set_balance(self, amount: Balance) -> (r: Self)
        ensures
            r@ == self@.with_amount(amount as int),
    {
        let mut this = self;
        this.amount = amount;
        this
    }

    pub fn set_account_id(self, account_id: &AccountId) -> (r: Self)
        ensures
            r@ == self@.with_account(account_id@),
    {
        let mut this = self;
        this.account_id = Some(account_id.clone());
        this
    }

    pub fn set_reference(self, reference_type: &str, reference_id: &str) -> (r: Self)
        ensures
            r@ == (TipsBalanceView {
                info: self@.info.with_reference(reference_type@, reference_id@),
                ..self@
            }),
    {
        let mut this = self;
        this.tips_balance_info = this.tips_balance_info.set_reference(reference_type, reference_id);
        this
    }
}

impl Clone for TipsBalance {
    fn clone(&self) -> (r: Self)
        ensures
            r == *self,
    {
        TipsBalance {
            tips_balance_info: self.tips_balance_info.clone(),
            account_id: match &self.account_id {
                Some(a) => Some(a.clone()),
                None => None,
            },
            amount: self.amount,
        }
    }
}

/// Ghost view of a token-registry entry.
#[verifier::ext_equal]
pub ghost struct FtIdentifierInfoView {
    pub ft_identifier: Seq<char>,
    pub decimals: u8,
    pub symbol: Seq<char>,
}

/// One registered token: identifier, display precision and symbol.  Created
/// once on first successful metadata resolution, immutable thereafter.
#[derive(Debug, PartialEq, Eq)]
pub struct FtIdentifierInfo {
    pub ft_identifier: FtIdentifier,
    pub decimals: u8,
    pub symbol: String,
}

impl View for FtIdentifierInfo {
    type V = FtIdentifierInfoView;

    open spec fn view(&self) -> FtIdentifierInfoView {
        FtIdentifierInfoView {
            ft_identifier: self.ft_identifier@,
            decimals: self.decimals,
            symbol: self.symbol@,
        }
    }
}

impl FtIdentifierInfo {
    pub fn new(ft_identifier: &str, decimals: u8, symbol: &str) -> (r: Self)
        ensures
            r@ == (FtIdentifierInfoView {
                ft_identifier: ft_identifier@,
                decimals: decimals,
                symbol: symbol@,
            }),
    {
        Self { ft_identifier: ft_identifier.to_owned(), decimals, symbol: symbol.to_owned() }
    }

    pub fn get_ft_identifier(&self) -> (r: &str)
        ensures
            r@ == self@.ft_identifier,
    {
        self.ft_identifier.as_str()
    }

    pub fn get_symbol(&self) -> (r: &str)
        ensures
            r@ == self@.symbol,
    {
        self.symbol.as_str()
    }

    pub fn get_decimals(&self) -> (r: u8)
        ensures
            r == self@.decimals,
    {
        self.decimals
    }
}

impl Clone for FtIdentifierInfo {
    fn clone(&self) -> (r: Self)
        ensures
            r == *self,
    {
        FtIdentifierInfo {
            ft_identifier: self.ft_identifier.clone(),
            decimals: self.decimals,
            symbol: self.symbol.clone(),
        }
    }
}

/// Ghost view of token metadata as the external token service reports it.
#[verifier::ext_equal]
pub ghost struct FungibleTokenMetadataView {
    pub spec_version: Seq<char>,
    pub name: Seq<char>,
    pub symbol: Seq<char>,
    pub icon: Option<Seq<char>>,
    pub reference: Option<Seq<char>>,
    pub reference_hash: Option<Seq<u8>>,
    pub decimals: u8,
}

/// Token metadata as the external token service reports it.
#[derive(Clone, Debug)]
pub struct FungibleTokenMetadata {
    pub spec_version: String,
    pub name: String,
    pub symbol: String,
    pub icon: Option<String>,
    pub reference: Option<String>,
    pub reference_hash: Option<Vec<u8>>,
    pub decimals: u8,
}

impl View for FungibleTokenMetadata {
    type V = FungibleTokenMetadataView;

    open spec fn view(&self) -> FungibleTokenMetadataView {
        FungibleTokenMetadataView {
            spec_version: self.spec_version@,
            name: self.name@,
            symbol: self.symbol@,
            icon: match self.icon {
                Some(s) => Some(s@),
                None => None,
            },
            reference: match self.reference {
                Some(s) => Some(s@),
                None => None,
            },
            reference_hash: match self.reference_hash {
                Some(h) => Some(h@),
                None => None,
            },
            decimals: self.decimals,
        }
    }
}

impl FungibleTokenMetadata {
    pub fn get_symbol(&self) -> (r: &str)
        ensures
            r@ == self@.symbol,
    {
        self.symbol.as_str()
    }

    pub fn get_decimals(&self) -> (r: &u8)
        ensures
            *r == self@.decimals,
    {
        &self.decimals
    }
}

/// Page boundaries computed per request from the live item count; never
/// stored.
#[derive(Clone, Debug, PartialEq, Eq)]
pub struct Metadata {
    pub total_item_count: u64,
    pub total_page_count: u64,
    pub items_per_page: u64,
    pub current_page: Option<u64>,
    pub next_page: Option<u64>,
    pub previous_page: Option<u64>,
}

/// The all-zero, no-page value `Metadata::default` returns.
pub open spec fn metadata_default() -> Metadata {
    Metadata {
        total_item_count: 0,
        total_page_count: 0,
        items_per_page: 0,
        current_page: None,
        next_page: None,
        previous_page: None,
    }
}

impl Default for Metadata {
    fn default() -> (r: Self)
        ensures
            r == metadata_default(),
    {
        Metadata {
            total_item_count: 0,
            total_page_count: 0,
            items_per_page: 0,
            current_page: None,
            next_page: None,
            previous_page: None,
        }
    }
}

/// Keys under which the host key-value store files the two collections.
#[derive(Clone, Copy, Debug)]
pub enum StorageKeys {
    FtIdentifierInfo,
    TipsBalance,
}

/// Ghost view of a balance dressed for the query surface.
#[verifier::ext_equal]
pub ghost struct TipsBalanceWithFormattedBalanceView {
    pub tips_balance: TipsBalanceView,
    pub symbol: Seq<char>,
    pub formatted_amount: Seq<char>,
    pub unclaimed_reference_ids: Seq<Seq<char>>,
}

/// A balance dressed for the query surface: its token symbol, the
/// human-legible amount, and the sub-reference ids still unclaimed.
#[derive(Clone, Debug, PartialEq, Eq)]
pub struct TipsBalanceWithFormattedBalance {
    pub tips_balance: TipsBalance,
    pub symbol: String,
    pub formatted_amount: String,
    pub unclaimed_reference_ids: Vec<String>,
}

impl View for TipsBalanceWithFormattedBalance {
    type V = TipsBalanceWithFormattedBalanceView;

    open spec fn view(&self) -> TipsBalanceWithFormattedBalanceView {
        TipsBalanceWithFormattedBalanceView {
            tips_balance: self.tips_balance@,
            symbol: self.symbol@,
            formatted_amount: self.formatted_amount@,
            unclaimed_reference_ids: self.unclaimed_reference_ids@.map_values(|s: String| s@),
        }
    }
}

/// Ghost view of one page of the balances listing.
#[verifier::ext_equal]
pub ghost struct TipsBalanceWithPaginationView {
    pub data: Seq<TipsBalanceWithFormattedBalanceView>,
    pub meta: Metadata,
}

/// One page of the balances listing.
#[derive(Clone, Debug, PartialEq, Eq)]
pub struct TipsBalanceWithPagination {
    pub data: Vec<TipsBalanceWithFormattedBalance>,
    pub meta: Metadata,
}

impl View for TipsBalanceWithPagination {
    type V = TipsBalanceWithPaginationView;

    open spec fn view(&self) -> TipsBalanceWithPaginationView {
        TipsBalanceWithPaginationView {
            data: self.data@.map_values(|b: TipsBalanceWithFormattedBalance| b@),
            meta: self.meta,
        }
    }
}

impl Default for TipsBalanceWithPagination {
    fn default() -> (r: Self)
        ensures
            r@.data.len() == 0,
            r@.meta == metadata_default(),
    {
        Self { data: Vec::new(), meta: Metadata::default() }
    }
}

/// Ghost view of one page of the token-registry listing.
#[verifier::ext_equal]
pub ghost struct FtIdentifierWithPaginationView {
    pub data: Seq<FtIdentifierInfoView>,
    pub meta: Metadata,
}

/// One page of the token-registry listing.
#[derive(Clone, Debug, PartialEq, Eq)]
pub struct FtIdentifierWithPagination {
    pub data: Vec<FtIdentifierInfo>,
    pub meta: Metadata,
}

impl View for FtIdentifierWithPagination {
    type V = FtIdentifierWithPaginationView;

    open spec fn view(&self) -> FtIdentifierWithPaginationView {
        FtIdentifierWithPaginationView {
            data: self.data@.map_values(|f: FtIdentifierInfo| f@),
            meta: self.meta,
        }
    }
}

impl Default for FtIdentifierWithPagination {
    fn default() -> (r: Self)
        ensures
            r@.data.len() == 0,
            r@.meta == metadata_default(),
    {
        Self { data: Vec::new(), meta: Metadata::default() }
    }
}

} // verus!
