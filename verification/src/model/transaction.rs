//! Ledger transactions of the EUR and BRL accounts.
use vstd::prelude::*;

use crate::money::Money;

verus! {

/// Kind of an EUR ledger entry.
#[derive(Debug, Clone, Copy, PartialEq, Eq, Structural)]
pub enum EurTxType {
    DonationIn,
    SelfFundingIn,
    PurchaseOut,
    TransferToBrlOut,
}

impl EurTxType {
    /// Money coming into the account (as opposed to going out).
    pub open spec fn spec_is_inflow(self) -> bool {
        self == EurTxType::DonationIn || self == EurTxType::SelfFundingIn
    }

    pub fn is_inflow(self) -> (b: bool)
        ensures
            b == self.spec_is_inflow(),
    {
        match self {
            EurTxType::DonationIn | EurTxType::SelfFundingIn => true,
            _ => false,
        }
    }

    /// Entered by hand (donations, self-funding) rather than created
    /// automatically alongside a purchase or transfer.
    pub fn is_manual(self) -> (b: bool)
        ensures
            b == self.spec_is_inflow(),
    {
        self.is_inflow()
    }

    /// The message key of this kind's display label.
    pub fn label_key(self) -> (k: &'static str)
        ensures
            k@ == (match self {
                EurTxType::DonationIn => "status.source_type.donation"@,
                EurTxType::SelfFundingIn => "status.eur_tx.self_funding_in"@,
                EurTxType::PurchaseOut => "status.source_type.purchase"@,
                EurTxType::TransferToBrlOut => "status.eur_tx.transfer_to_brl_out"@,
            }),
    {
        match self {
            EurTxType::DonationIn => "status.source_type.donation",
            EurTxType::SelfFundingIn => "status.eur_tx.self_funding_in",
            EurTxType::PurchaseOut => "status.source_type.purchase",
            EurTxType::TransferToBrlOut => "status.eur_tx.transfer_to_brl_out",
        }
    }
}

/// Kind of a BRL ledger entry.
#[derive(Debug, Clone, Copy, PartialEq, Eq, Structural)]
pub enum BrlTxType {
    TransferIn,
    BrazilPurchaseOut,
    CashGiftOut,
}

impl BrlTxType {
    pub open spec fn spec_is_inflow(self) -> bool {
        self == BrlTxType::TransferIn
    }

    pub fn is_inflow(self) -> (b: bool)
        ensures
            b == self.spec_is_inflow(),
    {
        match self {
            BrlTxType::TransferIn => true,
            _ => false,
        }
    }

    /// The message key of this kind's display label.
    pub fn label_key(self) -> (k: &'static str)
        ensures
            k@ == (match self {
                BrlTxType::TransferIn => "status.brl_tx.transfer_in"@,
                BrlTxType::BrazilPurchaseOut => "status.source_type.purchase"@,
                BrlTxType::CashGiftOut => "status.brl_tx.cash_gift_out"@,
            }),
    {
        match self {
            BrlTxType::TransferIn => "status.brl_tx.transfer_in",
            BrlTxType::BrazilPurchaseOut => "status.source_type.purchase",
            BrlTxType::CashGiftOut => "status.brl_tx.cash_gift_out",
        }
    }
}

/// An EUR ledger entry joined with the names its description draws on.
#[derive(Clone)]
pub struct EurTxRow {
    pub id: i64,
    pub date: String,
    pub tx_type: EurTxType,
    pub amount: Money,
    pub donor_id: Option<i64>,
    pub donor_name: Option<String>,
    pub purchase_channel: Option<String>,
    pub note: Option<String>,
    pub linked_purchase_id: Option<i64>,
    pub linked_transfer_id: Option<i64>,
}

/// A BRL ledger entry joined with the names its description draws on.
#[derive(Clone)]
pub struct BrlTxRow {
    pub id: i64,
    pub date: String,
    pub tx_type: BrlTxType,
    pub amount: Money,
    pub note: Option<String>,
    pub linked_transfer_id: Option<i64>,
    pub linked_purchase_id: Option<i64>,
    pub linked_outbound_event_id: Option<i64>,
    pub purchase_channel: Option<String>,
    pub recipient_name: Option<String>,
}

} // verus!
