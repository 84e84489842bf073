//! What creating an invoice and paying one decide, on single records.
use crate::decimal::{SignedDecimal, parse_signed_decimal, signed_decimal};
use crate::error::ContractError;
use crate::ids::{payment_id, payment_id_for};
use crate::state::{Invoice, InvoiceView, Payment, PaymentView, payment_views};
use cosmwasm_std::StdError;
use vstd::prelude::*;

verus! {

pub open spec fn status_open() -> Seq<char> {
    "Open"@
}

pub open spec fn status_closed() -> Seq<char> {
    "Closed"@
}

pub open spec fn status_partially_paid() -> Seq<char> {
    "Partially Paid"@
}

/// The status of an invoice after a payment left `balance` outstanding.
pub open spec fn status_after_payment(balance: u128) -> Seq<char> {
    if balance == 0 {
        status_closed()
    } else {
        status_partially_paid()
    }
}

/// A newly created invoice: nothing paid yet, the whole value outstanding.
pub open spec fn new_invoice(
    creator: Seq<char>,
    payer_addr: Seq<char>,
    payer_alias: Seq<char>,
    invoice_id: Seq<char>,
    value: u128,
    date_due: Seq<char>,
    pay_unit: Seq<char>,
    receipt_unit: Seq<char>,
) -> InvoiceView {
    InvoiceView {
        creator,
        payer_addr,
        payer_alias,
        invoice_id,
        invoiced_value: value,
        balance_outstanding: value,
        date_due,
        status: status_open(),
        pay_unit,
        receipt_unit,
        payment_history: Seq::empty(),
    }
}

/// The payment recorded when `payer_addr` pays `amount` on `invoice`, stored
/// under `invoice_id`, at block time `now`.
pub open spec fn new_payment(
    invoice: InvoiceView,
    invoice_id: Seq<char>,
    payer_addr: Seq<char>,
    payer_alias: Seq<char>,
    amount: u128,
    pay_unit: Seq<char>,
    now: u64,
) -> PaymentView {
    PaymentView {
        payment_id: payment_id_for(invoice_id, invoice.payment_history.len() + 1),
        payer_addr,
        payer_alias,
        invoice_id,
        payment_amount: amount,
        pay_unit,
        pay_date: now,
    }
}

/// `invoice` once payment `p` is recorded on it.
pub open spec fn invoice_after_payment(invoice: InvoiceView, p: PaymentView) -> InvoiceView {
    let balance = (invoice.balance_outstanding - p.payment_amount) as u128;
    InvoiceView {
        balance_outstanding: balance,
        status: status_after_payment(balance),
        payment_history: invoice.payment_history.push(p),
        ..invoice
    }
}

/// The sum of the amounts of the payments in `h`.
pub open spec fn total_paid(h: Seq<PaymentView>) -> int
    decreases h.len(),
{
    if h.len() == 0 {
        0
    } else {
        total_paid(h.drop_last()) + h.last().payment_amount
    }
}

impl InvoiceView {
    /// What holds of every invoice the contract has stored: a positive value,
    /// of which what is outstanding and what was paid add up to the whole;
    /// each payment positive, made by the invoice's payer, in the invoice's
    /// unit, numbered in order; and a status that follows from the history
    /// and the balance.
    pub open spec fn consistent(self) -> bool {
        &&& self.invoiced_value > 0
        &&& self.balance_outstanding + total_paid(self.payment_history) == self.invoiced_value
        &&& self.status == (if self.payment_history.len() == 0 {
            status_open()
        } else {
            status_after_payment(self.balance_outstanding)
        })
        &&& forall|i: int|
            0 <= i < self.payment_history.len() ==> {
                let p = #[trigger] self.payment_history[i];
                &&& p.payment_amount > 0
                &&& p.payer_addr == self.payer_addr
                &&& p.invoice_id == self.invoice_id
                &&& p.pay_unit == self.pay_unit
                &&& p.payment_id == payment_id_for(self.invoice_id, (i + 1) as nat)
            }
    }
}

/// The outcome of creating an invoice whose value read as `value`, given
/// the host's answer `payer_check` to validating the payer's address. A
/// value that is not positive leaves the invoice without value.
pub open spec fn creation_outcome(
    r: Result<Invoice, ContractError>,
    creator: Seq<char>,
    payer_check: Result<String, StdError>,
    payer_alias: Seq<char>,
    invoice_id: Seq<char>,
    value: SignedDecimal,
    date_due: Seq<char>,
    pay_unit: Seq<char>,
    receipt_unit: Seq<char>,
) -> bool {
    if value.not_positive() {
        r == Err::<Invoice, ContractError>(ContractError::NoInvoiceValue {  })
    } else {
        match payer_check {
            Err(e) => r == Err::<Invoice, ContractError>(ContractError::Std(e)),
            Ok(payer) => r matches Ok(inv) && inv@ == new_invoice(
                creator,
                payer@,
                payer_alias,
                invoice_id,
                value.magnitude(),
                date_due,
                pay_unit,
                receipt_unit,
            ),
        }
    }
}

/// Builds a new invoice from an already read value. A value that failed to
/// parse is refused with the parser's error, a negative or zero value with
/// `NoInvoiceValue`, and a payer address that the host refused with the
/// host's error, in that order.
pub fn build_invoice(
    creator: &String,
    payer_check: Result<String, StdError>,
    payer_alias: String,
    invoice_id: String,
    value: Result<SignedDecimal, StdError>,
    date_due: String,
    pay_unit: String,
    receipt_unit: String,
) -> (r: Result<Invoice, ContractError>)
    ensures
        match value {
            Err(e) => r == Err::<Invoice, ContractError>(ContractError::Std(e)),
            Ok(v) => creation_outcome(
                r,
                creator@,
                payer_check,
                payer_alias@,
                invoice_id@,
                v,
                date_due@,
                pay_unit@,
                receipt_unit@,
            ),
        },
{
    let value = match value {
        Ok(SignedDecimal::NonNegative(v)) => v,
        Ok(SignedDecimal::Negative(_)) => return Err(ContractError::NoInvoiceValue {  }),
        Err(e) => return Err(ContractError::Std(e)),
    };
    if value == 0 {
        return Err(ContractError::NoInvoiceValue {  });
    }
    let payer = match payer_check {
        Ok(p) => p,
        Err(e) => return Err(ContractError::Std(e)),
    };
    let payment_history: Vec<Payment> = Vec::new();
    let inv = Invoice {
        creator: creator.clone(),
        payer_addr: payer,
        payer_alias,
        invoice_id,
        invoiced_value: value,
        balance_outstanding: value,
        date_due,
        status: String::from_str("Open"),
        pay_unit,
        receipt_unit,
        payment_history,
    };
    assert(inv@.payment_history =~= Seq::<PaymentView>::empty());
    Ok(inv)
}

/// Creates an invoice from the message's fields: `invoiced_value` is read as
/// `signed_decimal` says, then checked as `build_invoice` says.
pub fn create_invoice(
    creator: &String,
    payer_check: Result<String, StdError>,
    payer_alias: String,
    invoice_id: String,
    invoiced_value: &String,
    date_due: String,
    pay_unit: String,
    receipt_unit: String,
) -> (r: Result<Invoice, ContractError>)
    ensures
        signed_decimal(invoiced_value@) is None ==> r matches Err(ContractError::Std(_)),
        signed_decimal(invoiced_value@) matches Some(v) ==> creation_outcome(
            r,
            creator@,
            payer_check,
            payer_alias@,
            invoice_id@,
            v,
            date_due@,
            pay_unit@,
            receipt_unit@,
        ),
{
    let value = parse_signed_decimal(invoiced_value);
    build_invoice(creator, payer_check, payer_alias, invoice_id, value, date_due, pay_unit, receipt_unit)
}

/// The outcome of paying `amount` on the invoice stored under `invoice_id`
/// (`None` where there is none), sent by `sender`, given the host's answer
/// `sender_check` to validating the sender's address.
pub open spec fn payment_outcome(
    r: Result<(Invoice, Payment), ContractError>,
    invoice: Option<InvoiceView>,
    invoice_id: Seq<char>,
    sender: Seq<char>,
    sender_check: Result<String, StdError>,
    payer_alias: Seq<char>,
    amount: SignedDecimal,
    pay_unit: Seq<char>,
    now: u64,
) -> bool {
    match invoice {
        None => r == Err::<(Invoice, Payment), ContractError>(ContractError::Unauthorized {  }),
        Some(inv) => if inv.payer_addr != sender {
            r == Err::<(Invoice, Payment), ContractError>(ContractError::IncorrectPayer {  })
        } else if amount.not_positive() || amount.magnitude() > inv.balance_outstanding || pay_unit
            != inv.pay_unit {
            r == Err::<(Invoice, Payment), ContractError>(ContractError::InvalidPaymentValue {  })
        } else {
            match sender_check {
                Err(e) => r == Err::<(Invoice, Payment), ContractError>(ContractError::Std(e)),
                Ok(payer) => r matches Ok((new_inv, p)) && {
                    let expected = new_payment(
                        inv,
                        invoice_id,
                        payer@,
                        payer_alias,
                        amount.magnitude(),
                        pay_unit,
                        now,
                    );
                    &&& p@ == expected
                    &&& new_inv@ == invoice_after_payment(inv, expected)
                },
            }
        },
    }
}

/// Records a payment of an already read amount on `invoice`, the invoice
/// stored under `invoice_id` (`None` where there is none). A failed parse is
/// refused first, then a missing invoice (`Unauthorized`), a sender other than
/// the invoice's payer (`IncorrectPayer`), an amount that is negative, zero,
/// above the balance, or in another unit (`InvalidPaymentValue`), and a sender
/// address that the host refused. The host answers a valid address with the
/// address itself (`requires`).
pub fn apply_payment(
    invoice: Option<Invoice>,
    invoice_id: &String,
    sender: &String,
    sender_check: Result<String, StdError>,
    payer_alias: String,
    amount: Result<SignedDecimal, StdError>,
    pay_unit: String,
    now: u64,
) -> (r: Result<(Invoice, Payment), ContractError>)
    requires
        sender_check matches Ok(a) ==> a@ == sender@,
    ensures
        match amount {
            Err(e) => r == Err::<(Invoice, Payment), ContractError>(ContractError::Std(e)),
            Ok(a) => payment_outcome(
                r,
                match invoice {
                    Some(i) => Some(i@),
                    None => None,
                },
                invoice_id@,
                sender@,
                sender_check,
                payer_alias@,
                a,
                pay_unit@,
                now,
            ),
        },
{
    let amount = match amount {
        Ok(a) => a,
        Err(e) => return Err(ContractError::Std(e)),
    };
    let mut invoice = match invoice {
        Some(inv) => inv,
        None => return Err(ContractError::Unauthorized {  }),
    };
    if !(invoice.payer_addr == *sender) {
        return Err(ContractError::IncorrectPayer {  });
    }
    let amount = match amount {
        SignedDecimal::NonNegative(a) => a,
        SignedDecimal::Negative(_) => return Err(ContractError::InvalidPaymentValue {  }),
    };
    if amount == 0 {
        return Err(ContractError::InvalidPaymentValue {  });
    }
    if amount > invoice.balance_outstanding {
        return Err(ContractError::InvalidPaymentValue {  });
    }
    if !(pay_unit == invoice.pay_unit) {
        return Err(ContractError::InvalidPaymentValue {  });
    }
    let payer = match sender_check {
        Ok(p) => p,
        Err(e) => return Err(ContractError::Std(e)),
    };
    let count = invoice.payment_history.len() as u128 + 1;
    let payment = Payment {
        payment_id: payment_id(invoice_id, count),
        payer_addr: payer,
        payer_alias,
        invoice_id: invoice_id.clone(),
        payment_amount: amount,
        pay_unit,
        pay_date: now,
    };
    let ghost old_inv = invoice@;
    invoice.payment_history.push(payment.clone());
    invoice.balance_outstanding = invoice.balance_outstanding - amount;
    if invoice.balance_outstanding == 0 {
        invoice.status = String::from_str("Closed");
    } else {
        invoice.status = String::from_str("Partially Paid");
    }
    assert(invoice@.payment_history =~= old_inv.payment_history.push(payment@));
    Ok((invoice, payment))
}

/// Pays on `invoice` from the message's fields: `payment_amount` is read as
/// `signed_decimal` says, then checked as `apply_payment` says.
pub fn pay_invoice(
    invoice: Option<Invoice>,
    invoice_id: &String,
    sender: &String,
    sender_check: Result<String, StdError>,
    payer_alias: String,
    payment_amount: &String,
    pay_unit: String,
    now: u64,
) -> (r: Result<(Invoice, Payment), ContractError>)
    requires
        sender_check matches Ok(a) ==> a@ == sender@,
    ensures
        signed_decimal(payment_amount@) is None ==> r matches Err(ContractError::Std(_)),
        signed_decimal(payment_amount@) matches Some(a) ==> payment_outcome(
            r,
            match invoice {
                Some(i) => Some(i@),
                None => None,
            },
            invoice_id@,
            sender@,
            sender_check,
            payer_alias@,
            a,
            pay_unit@,
            now,
        ),
{
    let amount = parse_signed_decimal(payment_amount);
    apply_payment(invoice, invoice_id, sender, sender_check, payer_alias, amount, pay_unit, now)
}

proof fn lemma_total_paid_push(h: Seq<PaymentView>, p: PaymentView)
    ensures
        total_paid(h.push(p)) == total_paid(h) + p.payment_amount,
{
    assert(h.push(p).drop_last() =~= h);
}

/// A newly created invoice with a positive value is consistent.
pub proof fn lemma_new_invoice_consistent(
    creator: Seq<char>,
    payer_addr: Seq<char>,
    payer_alias: Seq<char>,
    invoice_id: Seq<char>,
    value: u128,
    date_due: Seq<char>,
    pay_unit: Seq<char>,
    receipt_unit: Seq<char>,
)
    requires
        value > 0,
    ensures
        new_invoice(
            creator,
            payer_addr,
            payer_alias,
            invoice_id,
            value,
            date_due,
            pay_unit,
            receipt_unit,
        ).consistent(),
{
}

/// Recording an accepted payment keeps an invoice consistent: the payment is
/// positive, at most the balance, in the invoice's unit, and carries the
/// invoice's id and the next payment number.
pub proof fn lemma_payment_keeps_consistent(inv: InvoiceView, p: PaymentView)
    requires
        inv.consistent(),
        0 < p.payment_amount <= inv.balance_outstanding,
        p.payer_addr == inv.payer_addr,
        p.invoice_id == inv.invoice_id,
        p.pay_unit == inv.pay_unit,
        p.payment_id == payment_id_for(inv.invoice_id, inv.payment_history.len() + 1),
    ensures
        invoice_after_payment(inv, p).consistent(),
{
    let after = invoice_after_payment(inv, p);
    lemma_total_paid_push(inv.payment_history, p);
    assert forall|i: int| 0 <= i < after.payment_history.len() implies {
        let q = #[trigger] after.payment_history[i];
        &&& q.payment_amount > 0
        &&& q.payer_addr == after.payer_addr
        &&& q.invoice_id == after.invoice_id
        &&& q.pay_unit == after.pay_unit
        &&& q.payment_id == payment_id_for(after.invoice_id, (i + 1) as nat)
    } by {
        if i < inv.payment_history.len() {
            assert(after.payment_history[i] == inv.payment_history[i]);
        }
    }
}

} // verus!
