//! Properties of the contract that span several operations or hold of every
//! state it can reach.
use crate::contract::{
    all_invoices_answer, create_invoice_effect, creation_effect, execute_effect, invoice_answer,
    pay_invoice_effect, payment_answer, payment_effect, query_answer,
};
use crate::decimal::{SignedDecimal, decimal_atomics, signed_decimal};
use crate::error::ContractError;
use crate::ids::{decimal_digits, digit_char};
use crate::invoice::{creation_outcome, payment_outcome};
use crate::key_order::{bytes_lt, key_bytes};
use crate::state::{Invoice, Payment};
use crate::ids::payment_id_for;
use crate::invoice::{
    invoice_after_payment, new_invoice, new_payment, status_closed, status_open, total_paid,
};
use crate::msg::{ExecuteMsg, QueryMsg, QueryResponse, Response};
use crate::state::{InvoiceView, PaymentView};
use crate::key_order::{key_lt, lemma_key_lt_strict_total};
use crate::store::{StoreView, ascending_listing};
use cosmwasm_std::StdError;
use vstd::prelude::*;

verus! {

/// A refused request to create an invoice leaves the store as it was.
pub proof fn law_refused_creation_changes_nothing(
    old: StoreView,
    new: StoreView,
    r: Result<Response, ContractError>,
    creator: Seq<char>,
    payer_check: Result<String, StdError>,
    payer_alias: Seq<char>,
    invoice_id: Seq<char>,
    value: SignedDecimal,
    date_due: Seq<char>,
    pay_unit: Seq<char>,
    receipt_unit: Seq<char>,
)
    requires
        creation_effect(
            old,
            new,
            r,
            creator,
            payer_check,
            payer_alias,
            invoice_id,
            value,
            date_due,
            pay_unit,
            receipt_unit,
        ),
        r is Err,
    ensures
        new == old,
{
}

/// A refused payment leaves the store as it was.
pub proof fn law_refused_payment_changes_nothing(
    old: StoreView,
    new: StoreView,
    r: Result<Response, ContractError>,
    invoice_id: Seq<char>,
    sender: Seq<char>,
    sender_check: Result<String, StdError>,
    payer_alias: Seq<char>,
    amount: SignedDecimal,
    pay_unit: Seq<char>,
    now: u64,
)
    requires
        payment_effect(
            old,
            new,
            r,
            invoice_id,
            sender,
            sender_check,
            payer_alias,
            amount,
            pay_unit,
            now,
        ),
        r is Err,
    ensures
        new == old,
{
}

/// Reading an invoice back after it was created gives the new invoice: open,
/// nothing paid, the whole value outstanding; every other invoice and every
/// payment is as before.
pub proof fn law_created_invoice_reads_back(
    old: StoreView,
    new: StoreView,
    r: Result<Response, ContractError>,
    creator: Seq<char>,
    payer: String,
    payer_alias: Seq<char>,
    invoice_id: Seq<char>,
    value: u128,
    date_due: Seq<char>,
    pay_unit: Seq<char>,
    receipt_unit: Seq<char>,
)
    requires
        creation_effect(
            old,
            new,
            r,
            creator,
            Ok(payer),
            payer_alias,
            invoice_id,
            SignedDecimal::NonNegative(value),
            date_due,
            pay_unit,
            receipt_unit,
        ),
        value > 0,
    ensures
        r is Ok,
        new.invoices.contains_key(invoice_id),
        new.invoices[invoice_id] == new_invoice(
            creator,
            payer@,
            payer_alias,
            invoice_id,
            value,
            date_due,
            pay_unit,
            receipt_unit,
        ),
        new.invoices[invoice_id].status == status_open(),
        new.invoices[invoice_id].balance_outstanding == value,
        new.invoices[invoice_id].payment_history.len() == 0,
        forall|k: Seq<char>|
            k != invoice_id ==> (#[trigger] new.invoices.contains_key(k) == old.invoices.contains_key(
                k,
            )) && new.invoices[k] == old.invoices[k],
        new.payments == old.payments,
        new.config == old.config,
{
}

/// An accepted payment comes only from the invoice's payer, for a positive
/// amount no larger than what was outstanding, in the invoice's unit. Reading
/// back afterwards, the payment is recorded with that payer, stored under the
/// payer and the invoice id, is the last entry of the invoice's history, and
/// was taken off the balance; every other invoice is as before.
pub proof fn law_accepted_payment_reads_back(
    old: StoreView,
    new: StoreView,
    r: Result<Response, ContractError>,
    invoice_id: Seq<char>,
    sender: Seq<char>,
    sender_check: Result<String, StdError>,
    payer_alias: Seq<char>,
    amount: SignedDecimal,
    pay_unit: Seq<char>,
    now: u64,
)
    requires
        payment_effect(
            old,
            new,
            r,
            invoice_id,
            sender,
            sender_check,
            payer_alias,
            amount,
            pay_unit,
            now,
        ),
        sender_check matches Ok(a) ==> a@ == sender,
        r is Ok,
    ensures
        old.invoices.contains_key(invoice_id),
        new.invoices.contains_key(invoice_id),
        ({
            let before = old.invoices[invoice_id];
            let after = new.invoices[invoice_id];
            let value = amount.magnitude();
            let p = new_payment(before, invoice_id, sender, payer_alias, value, pay_unit, now);
            &&& sender_check is Ok
            &&& sender == before.payer_addr
            &&& amount is NonNegative
            &&& 0 < value <= before.balance_outstanding
            &&& pay_unit == before.pay_unit
            &&& p.payer_addr == before.payer_addr
            &&& new.payments.contains_key((sender, invoice_id))
            &&& new.payments[(sender, invoice_id)] == p
            &&& after.payment_history == before.payment_history.push(p)
            &&& after.balance_outstanding == before.balance_outstanding - value
        }),
        forall|k: Seq<char>|
            k != invoice_id ==> (#[trigger] new.invoices.contains_key(k) == old.invoices.contains_key(
                k,
            )) && new.invoices[k] == old.invoices[k],
        new.config == old.config,
{
}

/// A payment whose amount is a minus sign followed by a decimal is refused
/// with `InvalidPaymentValue` ("Payment value is negative") once the invoice
/// exists and the sender is its payer, and changes nothing.
pub proof fn law_negative_payment_refused(
    old: StoreView,
    new: StoreView,
    r: Result<Response, ContractError>,
    invoice_id: Seq<char>,
    sender: Seq<char>,
    sender_check: Result<String, StdError>,
    payer_alias: Seq<char>,
    payment_amount: Seq<char>,
    pay_unit: Seq<char>,
    now: u64,
)
    requires
        pay_invoice_effect(
            old,
            new,
            r,
            invoice_id,
            sender,
            sender_check,
            payer_alias,
            payment_amount,
            pay_unit,
            now,
        ),
        payment_amount.len() > 0,
        payment_amount[0] == '-',
        decimal_atomics(payment_amount.drop_first()) is Some,
        old.invoices.contains_key(invoice_id),
        old.invoices[invoice_id].payer_addr == sender,
    ensures
        signed_decimal(payment_amount) matches Some(SignedDecimal::Negative(_)),
        r == Err::<Response, ContractError>(ContractError::InvalidPaymentValue {  }),
        new == old,
{
}

/// An invoice whose value is a minus sign followed by a decimal is refused
/// with `NoInvoiceValue`, and changes nothing.
pub proof fn law_negative_invoice_value_refused(
    old: StoreView,
    new: StoreView,
    r: Result<Response, ContractError>,
    creator: Seq<char>,
    payer_check: Result<String, StdError>,
    payer_alias: Seq<char>,
    invoice_id: Seq<char>,
    invoiced_value: Seq<char>,
    date_due: Seq<char>,
    pay_unit: Seq<char>,
    receipt_unit: Seq<char>,
)
    requires
        create_invoice_effect(
            old,
            new,
            r,
            creator,
            payer_check,
            payer_alias,
            invoice_id,
            invoiced_value,
            date_due,
            pay_unit,
            receipt_unit,
        ),
        invoiced_value.len() > 0,
        invoiced_value[0] == '-',
        decimal_atomics(invoiced_value.drop_first()) is Some,
    ensures
        r == Err::<Response, ContractError>(ContractError::NoInvoiceValue {  }),
        new == old,
{
}

/// A payment of the whole outstanding balance closes the invoice.
pub proof fn law_full_payment_closes(inv: InvoiceView, p: PaymentView)
    requires
        p.payment_amount == inv.balance_outstanding,
    ensures
        invoice_after_payment(inv, p).balance_outstanding == 0,
        invoice_after_payment(inv, p).status == status_closed(),
{
}

/// No payment is accepted on an invoice with nothing outstanding.
pub proof fn law_settled_invoice_refuses_payment(
    old: StoreView,
    new: StoreView,
    r: Result<Response, ContractError>,
    invoice_id: Seq<char>,
    sender: Seq<char>,
    sender_check: Result<String, StdError>,
    payer_alias: Seq<char>,
    amount: SignedDecimal,
    pay_unit: Seq<char>,
    now: u64,
)
    requires
        payment_effect(
            old,
            new,
            r,
            invoice_id,
            sender,
            sender_check,
            payer_alias,
            amount,
            pay_unit,
            now,
        ),
        old.invoices.contains_key(invoice_id),
        old.invoices[invoice_id].balance_outstanding == 0,
    ensures
        r is Err,
        new == old,
{
}

proof fn lemma_total_paid_nonnegative(h: Seq<PaymentView>)
    ensures
        total_paid(h) >= 0,
    decreases h.len(),
{
    if h.len() > 0 {
        lemma_total_paid_nonnegative(h.drop_last());
    }
}

/// In a well-formed store (every store the contract reaches is one), what was
/// paid on an invoice plus what is outstanding is the invoiced value, so
/// neither exceeds it, and an invoice with nothing paid is open for its
/// whole value.
pub proof fn law_payments_never_exceed_value(s: StoreView, invoice_id: Seq<char>)
    requires
        s.well_formed(),
        s.invoices.contains_key(invoice_id),
    ensures
        ({
            let inv = s.invoices[invoice_id];
            &&& total_paid(inv.payment_history) + inv.balance_outstanding == inv.invoiced_value
            &&& 0 <= total_paid(inv.payment_history) <= inv.invoiced_value
            &&& inv.balance_outstanding <= inv.invoiced_value
            &&& inv.payment_history.len() == 0 ==> inv.status == status_open()
                && inv.balance_outstanding == inv.invoiced_value
        }),
{
    let inv = s.invoices[invoice_id];
    lemma_total_paid_nonnegative(inv.payment_history);
    if inv.payment_history.len() == 0 {
        assert(total_paid(inv.payment_history) == 0);
    }
}

proof fn lemma_listing_prefix_agrees(
    m: Map<Seq<char>, InvoiceView>,
    s1: Seq<InvoiceView>,
    s2: Seq<InvoiceView>,
    n: int,
)
    requires
        ascending_listing(m, s1),
        ascending_listing(m, s2),
        0 <= n <= s1.len(),
        n <= s2.len(),
    ensures
        forall|j: int| 0 <= j < n ==> s1[j] == s2[j],
    decreases n,
{
    if n > 0 {
        let i = n - 1;
        lemma_listing_prefix_agrees(m, s1, s2, i);
        let a = s1[i].invoice_id;
        let b = s2[i].invoice_id;
        if a != b {
            lemma_key_lt_strict_total(a, b, a);
            lemma_key_lt_strict_total(b, a, b);
            if key_lt(a, b) {
                // `a` is listed in `s2` somewhere; nowhere fits.
                assert(m.contains_key(a));
                let j = choose|j: int| 0 <= j < s2.len() && #[trigger] s2[j].invoice_id == a;
                if j < i {
                    assert(s1[j] == s2[j]);
                    assert(key_lt(s1[j].invoice_id, s1[i].invoice_id));
                } else if j > i {
                    assert(key_lt(s2[i].invoice_id, s2[j].invoice_id));
                }
            } else {
                assert(m.contains_key(b));
                let j = choose|j: int| 0 <= j < s1.len() && #[trigger] s1[j].invoice_id == b;
                if j < i {
                    assert(s1[j] == s2[j]);
                    assert(key_lt(s2[j].invoice_id, s2[i].invoice_id));
                } else if j > i {
                    assert(key_lt(s1[i].invoice_id, s1[j].invoice_id));
                }
            }
        }
        assert(s1[i] == m[a]);
        assert(s2[i] == m[b]);
    }
}

/// The answer to a query for all invoices is determined by the store: there
/// is one listing of a store's invoices in ascending id order.
pub proof fn law_invoice_listing_is_unique(
    m: Map<Seq<char>, InvoiceView>,
    s1: Seq<InvoiceView>,
    s2: Seq<InvoiceView>,
)
    requires
        ascending_listing(m, s1),
        ascending_listing(m, s2),
    ensures
        s1 == s2,
{
    if s1.len() < s2.len() {
        lemma_listing_prefix_agrees(m, s1, s2, s1.len() as int);
        let n = s1.len() as int;
        let b = s2[n].invoice_id;
        assert(m.contains_key(b));
        let j = choose|j: int| 0 <= j < s1.len() && #[trigger] s1[j].invoice_id == b;
        assert(s1[j] == s2[j]);
        assert(key_lt(s2[j].invoice_id, s2[n].invoice_id));
        lemma_key_lt_strict_total(b, b, b);
    } else if s2.len() < s1.len() {
        lemma_listing_prefix_agrees(m, s2, s1, s2.len() as int);
        let n = s2.len() as int;
        let b = s1[n].invoice_id;
        assert(m.contains_key(b));
        let j = choose|j: int| 0 <= j < s2.len() && #[trigger] s2[j].invoice_id == b;
        assert(s1[j] == s2[j]);
        assert(key_lt(s1[j].invoice_id, s1[n].invoice_id));
        lemma_key_lt_strict_total(b, b, b);
    } else {
        lemma_listing_prefix_agrees(m, s1, s2, s1.len() as int);
        assert(s1 =~= s2);
    }
}

/// In a well-formed store, the payments recorded on an invoice are numbered
/// in order: the `n`-th carries the id `<invoice id>_P<n>`, the invoice's
/// payer, id and unit, and a positive amount.
pub proof fn law_payments_numbered_in_order(s: StoreView, invoice_id: Seq<char>, i: int)
    requires
        s.well_formed(),
        s.invoices.contains_key(invoice_id),
        0 <= i < s.invoices[invoice_id].payment_history.len(),
    ensures
        ({
            let inv = s.invoices[invoice_id];
            let p = inv.payment_history[i];
            &&& p.payment_id == payment_id_for(invoice_id, (i + 1) as nat)
            &&& p.payer_addr == inv.payer_addr
            &&& p.invoice_id == invoice_id
            &&& p.pay_unit == inv.pay_unit
            &&& p.payment_amount > 0
        }),
{
    let inv = s.invoices[invoice_id];
    assert(inv.consistent());
    let p = inv.payment_history[i];
    assert(p.payment_id == payment_id_for(inv.invoice_id, (i + 1) as nat));
}

/// Executing a message is creating or paying an invoice with the message's
/// own fields: the creation handler on the payer's alias, id, value, due
/// date and units of a creation message; the payment handler on the id,
/// alias, amount and unit of a payment message, at the block's time.
pub proof fn law_execute_dispatches(
    old: StoreView,
    new: StoreView,
    r: Result<Response, ContractError>,
    now: u64,
    sender: Seq<char>,
    address_check: Result<String, StdError>,
    payer_addr: String,
    payer_alias: String,
    invoice_id: String,
    value: String,
    date_due: String,
    pay_unit: String,
    receipt_unit: String,
)
    ensures
        execute_effect(
            old,
            new,
            r,
            now,
            sender,
            ExecuteMsg::CreateInvoice {
                payer_addr,
                payer_alias,
                invoice_id,
                invoiced_value: value,
                date_due,
                pay_unit,
                receipt_unit,
            },
            address_check,
        ) == create_invoice_effect(
            old,
            new,
            r,
            sender,
            address_check,
            payer_alias@,
            invoice_id@,
            value@,
            date_due@,
            pay_unit@,
            receipt_unit@,
        ),
        execute_effect(
            old,
            new,
            r,
            now,
            sender,
            ExecuteMsg::PayInvoice {
                invoice_id,
                payer_alias,
                payment_amount: value,
                pay_unit,
            },
            address_check,
        ) == pay_invoice_effect(
            old,
            new,
            r,
            invoice_id@,
            sender,
            address_check,
            payer_alias@,
            value@,
            pay_unit@,
            now,
        ),
{
}

/// Answering a query is answering the matching query with the message's own
/// fields: all invoices; the invoice under the id; the payment under the
/// address and the id.
pub proof fn law_query_dispatches(
    s: StoreView,
    r: QueryResponse,
    invoice_id: String,
    address: String,
)
    ensures
        query_answer(s, QueryMsg::AllInvoices {  }, r) == (r matches QueryResponse::AllInvoices(a)
            && all_invoices_answer(s, a)),
        query_answer(s, QueryMsg::Invoice { invoice_id }, r) == (r matches QueryResponse::Invoice(i)
            && invoice_answer(s, invoice_id@, i)),
        query_answer(s, QueryMsg::Payment { invoice_id, address }, r) == (r matches
            QueryResponse::Payment(p) && payment_answer(s, address@, invoice_id@, p)),
{
}

/// Paying an invoice, on one record: a payment by the invoice's payer, in
/// the invoice's unit, of an amount `a` with `0 < a <= balance`, whose
/// sender the host accepts, is accepted whatever the invoice's history. The
/// recorded payment carries the message's alias, amount and unit, the
/// validated payer, the invoice id, the block time and the next payment
/// number; the invoice keeps every other field, gains the payment at the end
/// of its history, loses `a` from its balance, and is `Closed` when nothing
/// is left, else `Partially Paid`.
pub proof fn law_valid_payment_accepted_on_record(
    r: Result<(Invoice, Payment), ContractError>,
    inv: InvoiceView,
    invoice_id: Seq<char>,
    sender: Seq<char>,
    payer: String,
    payer_alias: Seq<char>,
    a: u128,
    pay_unit: Seq<char>,
    now: u64,
)
    requires
        payment_outcome(
            r,
            Some(inv),
            invoice_id,
            sender,
            Ok(payer),
            payer_alias,
            SignedDecimal::NonNegative(a),
            pay_unit,
            now,
        ),
        inv.payer_addr == sender,
        inv.pay_unit == pay_unit,
        0 < a <= inv.balance_outstanding,
    ensures
        r matches Ok((new_inv, p)) && {
            let after = new_inv@;
            let q = p@;
            let n = inv.payment_history.len();
            &&& q.payment_id == invoice_id + "_P"@ + decimal_digits((n + 1) as nat)
            &&& q.payer_addr == payer@
            &&& q.payer_alias == payer_alias
            &&& q.invoice_id == invoice_id
            &&& q.payment_amount == a
            &&& q.pay_unit == pay_unit
            &&& q.pay_date == now
            &&& after.payment_history.len() == n + 1
            &&& after.payment_history.take(n as int) == inv.payment_history
            &&& after.payment_history[n as int] == q
            &&& after.balance_outstanding == inv.balance_outstanding - a
            &&& after.status == (if inv.balance_outstanding == a {
                "Closed"@
            } else {
                "Partially Paid"@
            })
            &&& after.creator == inv.creator
            &&& after.payer_addr == inv.payer_addr
            &&& after.payer_alias == inv.payer_alias
            &&& after.invoice_id == inv.invoice_id
            &&& after.invoiced_value == inv.invoiced_value
            &&& after.date_due == inv.date_due
            &&& after.pay_unit == inv.pay_unit
            &&& after.receipt_unit == inv.receipt_unit
        },
{
    if let Ok((new_inv, p)) = r {
        assert(new_inv@.payment_history.take(inv.payment_history.len() as int)
            =~= inv.payment_history);
    }
}

/// Paying an invoice, on one record: a payment is refused only for a missing
/// invoice, a sender other than its payer, an amount that is negative, zero,
/// or above the balance, another unit, or a sender the host refused.
pub proof fn law_payment_refused_only_for_a_reason_on_record(
    r: Result<(Invoice, Payment), ContractError>,
    invoice: Option<InvoiceView>,
    invoice_id: Seq<char>,
    sender: Seq<char>,
    sender_check: Result<String, StdError>,
    payer_alias: Seq<char>,
    amount: SignedDecimal,
    pay_unit: Seq<char>,
    now: u64,
)
    requires
        payment_outcome(
            r,
            invoice,
            invoice_id,
            sender,
            sender_check,
            payer_alias,
            amount,
            pay_unit,
            now,
        ),
        r is Err,
    ensures
        invoice is None || {
            let inv = invoice->Some_0;
            ||| inv.payer_addr != sender
            ||| amount is Negative
            ||| amount.magnitude() == 0
            ||| amount.magnitude() > inv.balance_outstanding
            ||| pay_unit != inv.pay_unit
            ||| sender_check is Err
        },
{
}

/// Paying an invoice in the store: a payment by the invoice's payer, in the
/// invoice's unit, of an amount `a` with `0 < a <= balance`, whose sender the
/// host accepts, is accepted whatever the invoice's history. Afterwards the
/// payment is stored under the validated payer and the invoice id with the
/// message's alias, amount and unit, the block time and the next payment
/// number; it ends the invoice's history; the invoice's balance lost `a` and
/// its status is `Closed` when nothing is left, else `Partially Paid`; every
/// other field of the invoice, every other invoice and the configuration
/// are as before.
pub proof fn law_valid_payment_accepted(
    old: StoreView,
    new: StoreView,
    r: Result<Response, ContractError>,
    invoice_id: Seq<char>,
    sender: Seq<char>,
    payer: String,
    payer_alias: Seq<char>,
    a: u128,
    pay_unit: Seq<char>,
    now: u64,
)
    requires
        payment_effect(
            old,
            new,
            r,
            invoice_id,
            sender,
            Ok(payer),
            payer_alias,
            SignedDecimal::NonNegative(a),
            pay_unit,
            now,
        ),
        old.invoices.contains_key(invoice_id),
        old.invoices[invoice_id].payer_addr == sender,
        old.invoices[invoice_id].pay_unit == pay_unit,
        0 < a <= old.invoices[invoice_id].balance_outstanding,
    ensures
        r is Ok,
        new.invoices.contains_key(invoice_id),
        new.payments.contains_key((payer@, invoice_id)),
        ({
            let inv = old.invoices[invoice_id];
            let after = new.invoices[invoice_id];
            let q = new.payments[(payer@, invoice_id)];
            let n = inv.payment_history.len();
            &&& q.payment_id == invoice_id + "_P"@ + decimal_digits((n + 1) as nat)
            &&& q.payer_addr == payer@
            &&& q.payer_alias == payer_alias
            &&& q.invoice_id == invoice_id
            &&& q.payment_amount == a
            &&& q.pay_unit == pay_unit
            &&& q.pay_date == now
            &&& after.payment_history.len() == n + 1
            &&& after.payment_history.take(n as int) == inv.payment_history
            &&& after.payment_history[n as int] == q
            &&& after.balance_outstanding == inv.balance_outstanding - a
            &&& after.status == (if inv.balance_outstanding == a {
                "Closed"@
            } else {
                "Partially Paid"@
            })
            &&& after.creator == inv.creator
            &&& after.payer_addr == inv.payer_addr
            &&& after.payer_alias == inv.payer_alias
            &&& after.invoice_id == inv.invoice_id
            &&& after.invoiced_value == inv.invoiced_value
            &&& after.date_due == inv.date_due
            &&& after.pay_unit == inv.pay_unit
            &&& after.receipt_unit == inv.receipt_unit
        }),
        forall|k: Seq<char>|
            k != invoice_id ==> (#[trigger] new.invoices.contains_key(k) == old.invoices.contains_key(
                k,
            )) && new.invoices[k] == old.invoices[k],
        forall|k: (Seq<char>, Seq<char>)|
            k != (payer@, invoice_id) ==> (#[trigger] new.payments.contains_key(k)
                == old.payments.contains_key(k)) && new.payments[k] == old.payments[k],
        new.config == old.config,
{
    let inv = old.invoices[invoice_id];
    let after = new.invoices[invoice_id];
    assert(after.payment_history.take(inv.payment_history.len() as int) =~= inv.payment_history);
}

/// Paying an invoice in the store: a payment is refused only for a missing
/// invoice, a sender other than its payer, an amount that is negative, zero,
/// or above the balance, another unit, or a sender the host refused.
pub proof fn law_payment_refused_only_for_a_reason(
    old: StoreView,
    new: StoreView,
    r: Result<Response, ContractError>,
    invoice_id: Seq<char>,
    sender: Seq<char>,
    sender_check: Result<String, StdError>,
    payer_alias: Seq<char>,
    amount: SignedDecimal,
    pay_unit: Seq<char>,
    now: u64,
)
    requires
        payment_effect(
            old,
            new,
            r,
            invoice_id,
            sender,
            sender_check,
            payer_alias,
            amount,
            pay_unit,
            now,
        ),
        r is Err,
    ensures
        !old.invoices.contains_key(invoice_id) || {
            let inv = old.invoices[invoice_id];
            ||| inv.payer_addr != sender
            ||| amount is Negative
            ||| amount.magnitude() == 0
            ||| amount.magnitude() > inv.balance_outstanding
            ||| pay_unit != inv.pay_unit
            ||| sender_check is Err
        },
{
}

/// Creating an invoice, on one record: a positive value with a payer the
/// host accepts gives an invoice that carries the sender as creator, the
/// validated payer, and the message's alias, id, value, due date and units
/// unchanged; open, with the whole value outstanding and no payment.
pub proof fn law_created_invoice_carries_message_fields_on_record(
    r: Result<Invoice, ContractError>,
    creator: Seq<char>,
    payer: String,
    payer_alias: Seq<char>,
    invoice_id: Seq<char>,
    value: u128,
    date_due: Seq<char>,
    pay_unit: Seq<char>,
    receipt_unit: Seq<char>,
)
    requires
        creation_outcome(
            r,
            creator,
            Ok(payer),
            payer_alias,
            invoice_id,
            SignedDecimal::NonNegative(value),
            date_due,
            pay_unit,
            receipt_unit,
        ),
        value > 0,
    ensures
        r matches Ok(inv) && {
            let v = inv@;
            &&& v.creator == creator
            &&& v.payer_addr == payer@
            &&& v.payer_alias == payer_alias
            &&& v.invoice_id == invoice_id
            &&& v.invoiced_value == value
            &&& v.balance_outstanding == value
            &&& v.date_due == date_due
            &&& v.status == "Open"@
            &&& v.pay_unit == pay_unit
            &&& v.receipt_unit == receipt_unit
            &&& v.payment_history.len() == 0
        },
{
}

/// Creating an invoice in the store: a positive value with a payer the host
/// accepts stores, under the message's id, an invoice that carries the
/// sender as creator, the validated payer, and the message's alias, id,
/// value, due date and units unchanged; open, with the whole value
/// outstanding and no payment. Everything else is as before.
pub proof fn law_created_invoice_carries_message_fields(
    old: StoreView,
    new: StoreView,
    r: Result<Response, ContractError>,
    creator: Seq<char>,
    payer: String,
    payer_alias: Seq<char>,
    invoice_id: Seq<char>,
    value: u128,
    date_due: Seq<char>,
    pay_unit: Seq<char>,
    receipt_unit: Seq<char>,
)
    requires
        creation_effect(
            old,
            new,
            r,
            creator,
            Ok(payer),
            payer_alias,
            invoice_id,
            SignedDecimal::NonNegative(value),
            date_due,
            pay_unit,
            receipt_unit,
        ),
        value > 0,
    ensures
        r is Ok,
        new.invoices.contains_key(invoice_id),
        ({
            let v = new.invoices[invoice_id];
            &&& v.creator == creator
            &&& v.payer_addr == payer@
            &&& v.payer_alias == payer_alias
            &&& v.invoice_id == invoice_id
            &&& v.invoiced_value == value
            &&& v.balance_outstanding == value
            &&& v.date_due == date_due
            &&& v.status == "Open"@
            &&& v.pay_unit == pay_unit
            &&& v.receipt_unit == receipt_unit
            &&& v.payment_history.len() == 0
        }),
        forall|k: Seq<char>|
            k != invoice_id ==> (#[trigger] new.invoices.contains_key(k) == old.invoices.contains_key(
                k,
            )) && new.invoices[k] == old.invoices[k],
        new.payments == old.payments,
        new.config == old.config,
{
}

/// The byte order compares at the first byte where two byte strings differ,
/// by the ordinary order of bytes.
pub proof fn law_bytes_lt_at_first_difference(a: Seq<u8>, b: Seq<u8>, i: int)
    requires
        0 <= i < a.len(),
        i < b.len(),
        a[i] != b[i],
        forall|j: int| 0 <= j < i ==> a[j] == b[j],
    ensures
        bytes_lt(a, b) == (a[i] < b[i]),
    decreases i,
{
    if i > 0 {
        assert(a[0] == b[0]);
        assert forall|j: int| 0 <= j < i - 1 implies a.drop_first()[j] == b.drop_first()[j] by {
            assert(a[j + 1] == b[j + 1]);
        }
        law_bytes_lt_at_first_difference(a.drop_first(), b.drop_first(), i - 1);
    }
}

/// Where one byte string is a prefix of the other, the shorter comes first,
/// and a string does not come before itself.
pub proof fn law_bytes_lt_prefix(a: Seq<u8>, b: Seq<u8>)
    requires
        a.len() <= b.len(),
        forall|j: int| 0 <= j < a.len() ==> a[j] == b[j],
    ensures
        bytes_lt(a, b) == (a.len() < b.len()),
        !bytes_lt(b, a),
    decreases a.len(),
{
    if a.len() > 0 {
        assert(a[0] == b[0]);
        assert forall|j: int| 0 <= j < a.len() - 1 implies a.drop_first()[j] == b.drop_first()[j] by {
            assert(a[j + 1] == b[j + 1]);
        }
        law_bytes_lt_prefix(a.drop_first(), b.drop_first());
    }
}

/// Invoice ids are ordered by the ordinary byte order of their UTF-8
/// encodings, compared at the first byte where they differ; where there is
/// none, the shorter id comes first.
pub proof fn law_key_order_is_bytewise(a: Seq<char>, b: Seq<char>)
    ensures
        forall|i: int|
            #![trigger key_bytes(a)[i], key_bytes(b)[i]]
            0 <= i < key_bytes(a).len() && i < key_bytes(b).len() && key_bytes(a)[i] != key_bytes(
                b,
            )[i] && (forall|j: int| 0 <= j < i ==> key_bytes(a)[j] == key_bytes(b)[j])
                ==> key_lt(a, b) == (key_bytes(a)[i] < key_bytes(b)[i]),
        key_bytes(a).len() <= key_bytes(b).len() && (forall|j: int|
            0 <= j < key_bytes(a).len() ==> key_bytes(a)[j] == key_bytes(b)[j]) ==> key_lt(a, b) == (
        key_bytes(a).len() < key_bytes(b).len()),
{
    let x = key_bytes(a);
    let y = key_bytes(b);
    assert forall|i: int|
        #![trigger x[i], y[i]]
        0 <= i < x.len() && i < y.len() && x[i] != y[i] && (forall|j: int|
            0 <= j < i ==> x[j] == y[j]) implies key_lt(a, b) == (x[i] < y[i]) by {
        law_bytes_lt_at_first_difference(x, y, i);
    }
    if x.len() <= y.len() && (forall|j: int| 0 <= j < x.len() ==> x[j] == y[j]) {
        law_bytes_lt_prefix(x, y);
    }
}

/// The number that a string of decimal digits spells, most significant
/// digit first.
pub open spec fn spelled_number(s: Seq<char>) -> int
    decreases s.len(),
{
    if s.len() == 0 {
        0
    } else {
        spelled_number(s.drop_last()) * 10 + (s.last() as int - '0' as int)
    }
}

proof fn lemma_digit_char_spells(d: nat)
    requires
        d < 10,
    ensures
        digit_char(d) as int - '0' as int == d,
        '0' <= digit_char(d) <= '9',
{
}

/// Payment numbers are written in plain decimal: the digits spell the
/// number, are all decimal digits, and have no leading zero.
pub proof fn law_decimal_digits_spell_the_number(n: nat)
    ensures
        spelled_number(decimal_digits(n)) == n,
        decimal_digits(n).len() > 0,
        forall|i: int|
            0 <= i < decimal_digits(n).len() ==> '0' <= #[trigger] decimal_digits(n)[i] <= '9',
        n > 0 ==> decimal_digits(n)[0] != '0',
    decreases n,
{
    if n < 10 {
        lemma_digit_char_spells(n);
        assert(decimal_digits(n).drop_last() =~= Seq::<char>::empty());
        assert(spelled_number(Seq::<char>::empty()) == 0);
    } else {
        law_decimal_digits_spell_the_number(n / 10);
        lemma_digit_char_spells(n % 10);
        let s = decimal_digits(n);
        assert(s.drop_last() =~= decimal_digits(n / 10));
        assert(s.last() == digit_char(n % 10));
        assert(spelled_number(s) == spelled_number(decimal_digits(n / 10)) * 10 + (n % 10));
        assert((n / 10) * 10 + n % 10 == n);
        assert(s[0] == decimal_digits(n / 10)[0]);
    }
}

} // verus!
