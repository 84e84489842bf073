//! The records that the contract keeps: its configuration, the invoices and
//! the payments made on them.
use vstd::prelude::*;

verus! {

/// Who administers the contract.
#[derive(Debug, PartialEq, Eq)]
pub struct Config {
    pub admin: String,
}

pub struct ConfigView {
    pub admin: Seq<char>,
}

impl View for Config {
    type V = ConfigView;

    open spec fn view(&self) -> ConfigView {
        ConfigView { admin: self.admin@ }
    }
}

/// One payment made on an invoice. Amounts are decimal atomics: the value
/// times 10^18. `pay_date` is the block time in nanoseconds.
#[derive(Debug, PartialEq, Eq)]
pub struct Payment {
    pub payment_id: String,
    pub payer_addr: String,
    pub payer_alias: String,
    pub invoice_id: String,
    pub payment_amount: u128,
    pub pay_unit: String,
    pub pay_date: u64,
}

pub struct PaymentView {
    pub payment_id: Seq<char>,
    pub payer_addr: Seq<char>,
    pub payer_alias: Seq<char>,
    pub invoice_id: Seq<char>,
    pub payment_amount: u128,
    pub pay_unit: Seq<char>,
    pub pay_date: u64,
}

impl View for Payment {
    type V = PaymentView;

    open spec fn view(&self) -> PaymentView {
        PaymentView {
            payment_id: self.payment_id@,
            payer_addr: self.payer_addr@,
            payer_alias: self.payer_alias@,
            invoice_id: self.invoice_id@,
            payment_amount: self.payment_amount,
            pay_unit: self.pay_unit@,
            pay_date: self.pay_date,
        }
    }
}

impl Clone for Payment {
    fn clone(&self) -> (r: Self)
        ensures
            r == *self,
    {
        Payment {
            payment_id: self.payment_id.clone(),
            payer_addr: self.payer_addr.clone(),
            payer_alias: self.payer_alias.clone(),
            invoice_id: self.invoice_id.clone(),
            payment_amount: self.payment_amount,
            pay_unit: self.pay_unit.clone(),
            pay_date: self.pay_date,
        }
    }
}

/// An invoice addressed to a payer. Amounts are decimal atomics.
#[derive(Debug, PartialEq, Eq)]
pub struct Invoice {
    pub creator: String,
    pub payer_addr: String,
    pub payer_alias: String,
    pub invoice_id: String,
    pub invoiced_value: u128,
    pub balance_outstanding: u128,
    pub date_due: String,
    pub status: String,
    pub pay_unit: String,
    pub receipt_unit: String,
    pub payment_history: Vec<Payment>,
}

pub struct InvoiceView {
    pub creator: Seq<char>,
    pub payer_addr: Seq<char>,
    pub payer_alias: Seq<char>,
    pub invoice_id: Seq<char>,
    pub invoiced_value: u128,
    pub balance_outstanding: u128,
    pub date_due: Seq<char>,
    pub status: Seq<char>,
    pub pay_unit: Seq<char>,
    pub receipt_unit: Seq<char>,
    pub payment_history: Seq<PaymentView>,
}

pub open spec fn payment_views(s: Seq<Payment>) -> Seq<PaymentView> {
    s.map_values(|p: Payment| p@)
}

impl View for Invoice {
    type V = InvoiceView;

    open spec fn view(&self) -> InvoiceView {
        InvoiceView {
            creator: self.creator@,
            payer_addr: self.payer_addr@,
            payer_alias: self.payer_alias@,
            invoice_id: self.invoice_id@,
            invoiced_value: self.invoiced_value,
            balance_outstanding: self.balance_outstanding,
            date_due: self.date_due@,
            status: self.status@,
            pay_unit: self.pay_unit@,
            receipt_unit: self.receipt_unit@,
            payment_history: payment_views(self.payment_history@),
        }
    }
}

impl Clone for Invoice {
    fn clone(&self) -> (r: Self)
        ensures
            r@ == self@,
    {
        let history = self.payment_history.clone();
        assert(history@ =~= self.payment_history@);
        Invoice {
            creator: self.creator.clone(),
            payer_addr: self.payer_addr.clone(),
            payer_alias: self.payer_alias.clone(),
            invoice_id: self.invoice_id.clone(),
            invoiced_value: self.invoiced_value,
            balance_outstanding: self.balance_outstanding,
            date_due: self.date_due.clone(),
            status: self.status.clone(),
            pay_unit: self.pay_unit.clone(),
            receipt_unit: self.receipt_unit.clone(),
            payment_history: history,
        }
    }
}

} // verus!
