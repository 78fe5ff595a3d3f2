//! Purchases: what was bought, in which currency, through which channel.
use vstd::prelude::*;

use crate::date::{dotted_date, is_calendar_date, local_today, spec_dotted_date};
use crate::money::Money;
use crate::text::str_eq;

verus! {

/// Currency of a purchase.
#[derive(Debug, Clone, Copy, PartialEq, Eq, Structural)]
pub enum Currency {
    Eur,
    Brl,
}

impl Currency {
    pub open spec fn spec_as_str(self) -> Seq<char> {
        match self {
            Currency::Eur => "EUR"@,
            Currency::Brl => "BRL"@,
        }
    }

    pub open spec fn spec_from_str(s: Seq<char>) -> Option<Currency> {
        if s == "EUR"@ {
            Some(Currency::Eur)
        } else if s == "BRL"@ {
            Some(Currency::Brl)
        } else {
            None
        }
    }

    pub fn as_str(self) -> (s: &'static str)
        ensures
            s@ == self.spec_as_str(),
    {
        match self {
            Currency::Eur => "EUR",
            Currency::Brl => "BRL",
        }
    }

    pub fn from_str(s: &str) -> (r: Option<Currency>)
        ensures
            r == Currency::spec_from_str(s@),
    {
        if str_eq(s, "EUR") {
            Some(Currency::Eur)
        } else if str_eq(s, "BRL") {
            Some(Currency::Brl)
        } else {
            None
        }
    }

    pub open spec fn spec_symbol(self) -> Seq<char> {
        match self {
            Currency::Eur => "€"@,
            Currency::Brl => "R$"@,
        }
    }

    pub fn symbol(self) -> (s: &'static str)
        ensures
            s@ == self.spec_symbol(),
    {
        match self {
            Currency::Eur => "€",
            Currency::Brl => "R$",
        }
    }
}

/// Parsing a currency's code gives the currency back.
pub proof fn lemma_currency_round_trip(c: Currency)
    ensures
        Currency::spec_from_str(c.spec_as_str()) == Some(c),
{
    reveal_strlit("EUR");
    reveal_strlit("BRL");
    assert("EUR"@[0] != "BRL"@[0]);
}

/// Only a currency's own code parses to it.
pub proof fn lemma_currency_from_str_exact(s: Seq<char>)
    ensures
        Currency::spec_from_str(s) matches Some(c) ==> c.spec_as_str() == s,
{
}

/// Negotiation state of a purchase; `Bought` is terminal.
#[derive(Debug, Clone, Copy, PartialEq, Eq, Structural)]
pub enum PurchaseStatus {
    Negotiating,
    Bought,
}

impl PurchaseStatus {
    pub open spec fn spec_as_str(self) -> Seq<char> {
        match self {
            PurchaseStatus::Negotiating => "negotiating"@,
            PurchaseStatus::Bought => "bought"@,
        }
    }

    pub open spec fn spec_from_str(s: Seq<char>) -> Option<PurchaseStatus> {
        if s == "negotiating"@ {
            Some(PurchaseStatus::Negotiating)
        } else if s == "bought"@ {
            Some(PurchaseStatus::Bought)
        } else {
            None
        }
    }

    pub fn as_str(self) -> (s: &'static str)
        ensures
            s@ == self.spec_as_str(),
    {
        match self {
            PurchaseStatus::Negotiating => "negotiating",
            PurchaseStatus::Bought => "bought",
        }
    }

    pub fn from_str(s: &str) -> (r: Option<PurchaseStatus>)
        ensures
            r == PurchaseStatus::spec_from_str(s@),
    {
        if str_eq(s, "negotiating") {
            Some(PurchaseStatus::Negotiating)
        } else if str_eq(s, "bought") {
            Some(PurchaseStatus::Bought)
        } else {
            None
        }
    }
}

impl PurchaseStatus {
    /// Whether a purchase stored with this status may be saved with status
    /// `next`: a bought purchase never goes back to negotiating.
    pub fn may_become(self, next: PurchaseStatus) -> (r: bool)
        ensures
            r == !(self == PurchaseStatus::Bought && next == PurchaseStatus::Negotiating),
    {
        !(self == PurchaseStatus::Bought && next == PurchaseStatus::Negotiating)
    }
}

/// Parsing a status's stored identifier gives the status back.
pub proof fn lemma_purchase_status_round_trip(st: PurchaseStatus)
    ensures
        PurchaseStatus::spec_from_str(st.spec_as_str()) == Some(st),
{
    reveal_strlit("negotiating");
    reveal_strlit("bought");
    assert("negotiating"@[0] != "bought"@[0]);
}

/// Only a status's own stored identifier parses to it.
pub proof fn lemma_purchase_status_from_str_exact(s: Seq<char>)
    ensures
        PurchaseStatus::spec_from_str(s) matches Some(st) ==> st.spec_as_str() == s,
{
}

/// A stored purchase.
#[derive(Clone)]
pub struct Purchase {
    pub id: i64,
    pub date: String,
    pub currency: Currency,
    pub cost: Money,
    pub channel: String,
    pub seller_info: Option<String>,
    pub multiple_items: bool,
    pub status: PurchaseStatus,
}

/// A purchase as entered on a form, before it is stored.
#[derive(Clone)]
pub struct PurchaseDraft {
    pub date: String,
    pub currency: Currency,
    pub cost_str: String,
    pub channel: String,
    pub seller_info: String,
    pub multiple_items: bool,
    pub status: PurchaseStatus,
}

impl Default for PurchaseDraft {
    /// A fresh draft dated today (local time), in EUR, bought, single-item,
    /// with every text field empty.
    fn default() -> (d: Self)
        ensures
            d.currency == Currency::Eur,
            d.cost_str@ == Seq::<char>::empty(),
            d.channel@ == Seq::<char>::empty(),
            d.seller_info@ == Seq::<char>::empty(),
            !d.multiple_items,
            d.status == PurchaseStatus::Bought,
            exists|t: (i32, u32, u32)| is_calendar_date(t) && d.date@ == spec_dotted_date(t),
    {
        let today = local_today();
        PurchaseDraft {
            date: dotted_date(today),
            currency: Currency::Eur,
            cost_str: String::new(),
            channel: String::new(),
            seller_info: String::new(),
            multiple_items: false,
            status: PurchaseStatus::Bought,
        }
    }
}

} // verus!
