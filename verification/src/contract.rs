//! The contract's entry points, as transitions of its store.
//!
//! Where the contract asks the host to validate an address, the host's answer
//! is an argument: `admin_candidate` and `address_to_validate` say which
//! address the answer is about.
use crate::decimal::{SignedDecimal, signed_decimal};
use crate::error::ContractError;
use crate::invoice::{
    create_invoice, invoice_after_payment, lemma_new_invoice_consistent,
    lemma_payment_keeps_consistent, new_invoice, new_payment, pay_invoice,
};
use crate::msg::{
    AllInvoicessResponse, AttributeView, Env, ExecuteMsg, InstantiateMsg, InvoiceResponse,
    MessageInfo, PaymentResponse, QueryMsg, QueryResponse, Response,
};
use crate::state::{Config, ConfigView};
use crate::store::{ContractState, StoreView, ascending_listing, invoice_views, payment_key};
use cosmwasm_std::StdError;
use vstd::prelude::*;

verus! {

/// The attributes of a successful instantiation with administrator `admin`.
pub open spec fn instantiate_attributes(admin: Seq<char>) -> Seq<AttributeView> {
    seq![
        AttributeView { key: "action"@, value: "instantiate"@ },
        AttributeView { key: "admin"@, value: admin },
    ]
}

/// The address whose validation instantiation asks of the host: the
/// administrator named in the message, else the sender.
pub fn admin_candidate(info: &MessageInfo, msg: &InstantiateMsg) -> (r: String)
    ensures
        r@ == match msg.admin {
            Some(a) => a@,
            None => info.sender@,
        },
{
    match &msg.admin {
        Some(a) => a.clone(),
        None => info.sender.clone(),
    }
}

/// The configuration and response of an instantiation, given the host's
/// answer `admin_check` to validating `admin_candidate`.
pub fn configure(admin_check: Result<String, StdError>) -> (r: Result<(Config, Response), ContractError>)
    ensures
        match admin_check {
            Ok(a) => r matches Ok((c, resp)) && c@ == (ConfigView { admin: a@ }) && resp@
                == instantiate_attributes(a@),
            Err(e) => r == Err::<(Config, Response), ContractError>(ContractError::Std(e)),
        },
{
    let admin = match admin_check {
        Ok(a) => a,
        Err(e) => return Err(ContractError::Std(e)),
    };
    let resp = Response::new().add_attribute(String::from_str("action"), String::from_str("instantiate")).add_attribute(
        String::from_str("admin"),
        admin.clone(),
    );
    Ok((Config { admin }, resp))
}

/// Instantiates the contract: stores the validated administrator. A refused
/// address is answered with the host's error and changes nothing.
pub fn instantiate(store: &mut ContractState, admin_check: Result<String, StdError>) -> (r: Result<
    Response,
    ContractError,
>)
    requires
        old(store).wf(),
    ensures
        final(store).wf(),
        match admin_check {
            Ok(a) => r matches Ok(resp) && resp@ == instantiate_attributes(a@) && final(store)@ == (
            StoreView { config: Some(ConfigView { admin: a@ }), ..old(store)@ }),
            Err(e) => r == Err::<Response, ContractError>(ContractError::Std(e)) && final(store)@
                == old(store)@,
        },
{
    match configure(admin_check) {
        Ok((config, resp)) => {
            store.save_config(config);
            Ok(resp)
        },
        Err(e) => Err(e),
    }
}

/// The effect of creating an invoice whose value read as `value`: the store
/// goes from `old` to `new` and the answer is `r`.
pub open spec fn creation_effect(
    old: StoreView,
    new: StoreView,
    r: Result<Response, ContractError>,
    creator: Seq<char>,
    payer_check: Result<String, StdError>,
    payer_alias: Seq<char>,
    invoice_id: Seq<char>,
    value: SignedDecimal,
    date_due: Seq<char>,
    pay_unit: Seq<char>,
    receipt_unit: Seq<char>,
) -> bool {
    if value.not_positive() {
        r == Err::<Response, ContractError>(ContractError::NoInvoiceValue {  }) && new == old
    } else {
        match payer_check {
            Err(e) => r == Err::<Response, ContractError>(ContractError::Std(e)) && new == old,
            Ok(payer) => r matches Ok(resp) && resp@.len() == 0 && new == (StoreView {
                invoices: old.invoices.insert(
                    invoice_id,
                    new_invoice(
                        creator,
                        payer@,
                        payer_alias,
                        invoice_id,
                        value.magnitude(),
                        date_due,
                        pay_unit,
                        receipt_unit,
                    ),
                ),
                ..old
            }),
        }
    }
}

/// What creating an invoice from the message's strings does: an
/// `invoiced_value` that does not read as a decimal is refused with the
/// parser's error and changes nothing; otherwise `creation_effect`.
pub open spec fn create_invoice_effect(
    old: StoreView,
    new: StoreView,
    r: Result<Response, ContractError>,
    creator: Seq<char>,
    payer_check: Result<String, StdError>,
    payer_alias: Seq<char>,
    invoice_id: Seq<char>,
    invoiced_value: Seq<char>,
    date_due: Seq<char>,
    pay_unit: Seq<char>,
    receipt_unit: Seq<char>,
) -> bool {
    match signed_decimal(invoiced_value) {
        None => r matches Err(ContractError::Std(_)) && new == old,
        Some(v) => creation_effect(
            old,
            new,
            r,
            creator,
            payer_check,
            payer_alias,
            invoice_id,
            v,
            date_due,
            pay_unit,
            receipt_unit,
        ),
    }
}

/// Creates an invoice, sent by `info.sender`, and stores it under its id,
/// replacing any invoice stored there. `payer_check` is the host's answer to
/// validating the payer's address. Refused: a value that does not read as a
/// decimal (the parser's error), a negative or zero value
/// (`NoInvoiceValue`), a payer address that the host refused (the host's
/// error); a refusal changes nothing.
pub fn execute_create_invoice(
    store: &mut ContractState,
    info: &MessageInfo,
    payer_check: Result<String, StdError>,
    payer_alias: String,
    invoice_id: String,
    invoiced_value: String,
    date_due: String,
    pay_unit: String,
    receipt_unit: String,
) -> (r: Result<Response, ContractError>)
    requires
        old(store).wf(),
    ensures
        final(store).wf(),
        create_invoice_effect(
            old(store)@,
            final(store)@,
            r,
            info.sender@,
            payer_check,
            payer_alias@,
            invoice_id@,
            invoiced_value@,
            date_due@,
            pay_unit@,
            receipt_unit@,
        ),
{
    let created = create_invoice(
        &info.sender,
        payer_check,
        payer_alias,
        invoice_id,
        &invoiced_value,
        date_due,
        pay_unit,
        receipt_unit,
    );
    match created {
        Ok(inv) => {
            proof {
                lemma_new_invoice_consistent(
                    inv@.creator,
                    inv@.payer_addr,
                    inv@.payer_alias,
                    inv@.invoice_id,
                    inv@.invoiced_value,
                    inv@.date_due,
                    inv@.pay_unit,
                    inv@.receipt_unit,
                );
            }
            store.save_invoice(inv);
            Ok(Response::new())
        },
        Err(e) => Err(e),
    }
}

/// The effect of paying `amount` (as read) on the invoice stored under
/// `invoice_id`: the store goes from `old` to `new` and the answer is `r`.
pub open spec fn payment_effect(
    old: StoreView,
    new: StoreView,
    r: Result<Response, ContractError>,
    invoice_id: Seq<char>,
    sender: Seq<char>,
    sender_check: Result<String, StdError>,
    payer_alias: Seq<char>,
    amount: SignedDecimal,
    pay_unit: Seq<char>,
    now: u64,
) -> bool {
    if !old.invoices.contains_key(invoice_id) {
        r == Err::<Response, ContractError>(ContractError::Unauthorized {  }) && new == old
    } else {
        let inv = old.invoices[invoice_id];
        if inv.payer_addr != sender {
            r == Err::<Response, ContractError>(ContractError::IncorrectPayer {  }) && new == old
        } else if amount.not_positive() || amount.magnitude() > inv.balance_outstanding || pay_unit
            != inv.pay_unit {
            r == Err::<Response, ContractError>(ContractError::InvalidPaymentValue {  }) && new
                == old
        } else {
            match sender_check {
                Err(e) => r == Err::<Response, ContractError>(ContractError::Std(e)) && new == old,
                Ok(payer) => {
                    let p = new_payment(
                        inv,
                        invoice_id,
                        payer@,
                        payer_alias,
                        amount.magnitude(),
                        pay_unit,
                        now,
                    );
                    r matches Ok(resp) && resp@.len() == 0 && new == (StoreView {
                        invoices: old.invoices.insert(invoice_id, invoice_after_payment(inv, p)),
                        payments: old.payments.insert(payment_key(p), p),
                        ..old
                    })
                },
            }
        }
    }
}

/// What paying from the message's strings does: a `payment_amount` that does
/// not read as a decimal is refused with the parser's error and changes
/// nothing; otherwise `payment_effect`.
pub open spec fn pay_invoice_effect(
    old: StoreView,
    new: StoreView,
    r: Result<Response, ContractError>,
    invoice_id: Seq<char>,
    sender: Seq<char>,
    sender_check: Result<String, StdError>,
    payer_alias: Seq<char>,
    payment_amount: Seq<char>,
    pay_unit: Seq<char>,
    now: u64,
) -> bool {
    match signed_decimal(payment_amount) {
        None => r matches Err(ContractError::Std(_)) && new == old,
        Some(a) => payment_effect(
            old,
            new,
            r,
            invoice_id,
            sender,
            sender_check,
            payer_alias,
            a,
            pay_unit,
            now,
        ),
    }
}

/// Pays on the invoice stored under `invoice_id`, sent by `info.sender` in
/// the block `env`. `sender_check` is the host's answer to validating the
/// sender's address; the host answers a valid address with the address
/// itself (`requires`). The payment is stored under its payer and the
/// invoice id, appended to the invoice's history and taken off its balance;
/// the invoice is then `Closed` if nothing is outstanding, else `Partially
/// Paid`. Refused, in this order: an amount that does not read as a decimal
/// (the parser's error), no invoice under the id (`Unauthorized`), a sender
/// other than the invoice's payer (`IncorrectPayer`), an amount that is
/// negative, zero, above the balance or in another unit
/// (`InvalidPaymentValue`), a sender address that the host refused (the
/// host's error); a refusal changes nothing.
pub fn execute_pay_invoice(
    store: &mut ContractState,
    env: &Env,
    info: &MessageInfo,
    sender_check: Result<String, StdError>,
    invoice_id: String,
    payer_alias: String,
    payment_amount: String,
    pay_unit: String,
) -> (r: Result<Response, ContractError>)
    requires
        old(store).wf(),
        sender_check matches Ok(a) ==> a@ == info.sender@,
    ensures
        final(store).wf(),
        pay_invoice_effect(
            old(store)@,
            final(store)@,
            r,
            invoice_id@,
            info.sender@,
            sender_check,
            payer_alias@,
            payment_amount@,
            pay_unit@,
            env.block_time,
        ),
{
    proof {
        store.lemma_well_formed();
    }
    let invoice = store.load_invoice(&invoice_id);
    let paid = pay_invoice(
        invoice,
        &invoice_id,
        &info.sender,
        sender_check,
        payer_alias,
        &payment_amount,
        pay_unit,
        env.block_time,
    );
    match paid {
        Ok((inv, payment)) => {
            proof {
                let old_inv = store@.invoices[invoice_id@];
                lemma_payment_keeps_consistent(old_inv, payment@);
            }
            store.save_payment(payment);
            store.save_invoice(inv);
            Ok(Response::new())
        },
        Err(e) => Err(e),
    }
}

/// The address whose validation a message asks of the host: the payer of a
/// new invoice, or the sender of a payment.
pub open spec fn address_asked(sender: Seq<char>, msg: ExecuteMsg) -> Seq<char> {
    match msg {
        ExecuteMsg::CreateInvoice { payer_addr, .. } => payer_addr@,
        ExecuteMsg::PayInvoice { .. } => sender,
    }
}

/// The address whose validation a message asks of the host: the payer of a
/// new invoice, or the sender of a payment.
pub fn address_to_validate(info: &MessageInfo, msg: &ExecuteMsg) -> (r: String)
    ensures
        r@ == address_asked(info.sender@, *msg),
{
    match msg {
        ExecuteMsg::CreateInvoice { payer_addr, .. } => payer_addr.clone(),
        ExecuteMsg::PayInvoice { .. } => info.sender.clone(),
    }
}

/// What executing `msg`, sent by `sender` at block time `now`, does.
pub open spec fn execute_effect(
    old: StoreView,
    new: StoreView,
    r: Result<Response, ContractError>,
    now: u64,
    sender: Seq<char>,
    msg: ExecuteMsg,
    address_check: Result<String, StdError>,
) -> bool {
    match msg {
        ExecuteMsg::CreateInvoice {
            payer_addr,
            payer_alias,
            invoice_id,
            invoiced_value,
            date_due,
            pay_unit,
            receipt_unit,
        } => create_invoice_effect(
            old,
            new,
            r,
            sender,
            address_check,
            payer_alias@,
            invoice_id@,
            invoiced_value@,
            date_due@,
            pay_unit@,
            receipt_unit@,
        ),
        ExecuteMsg::PayInvoice { invoice_id, payer_alias, payment_amount, pay_unit } =>
            pay_invoice_effect(
            old,
            new,
            r,
            invoice_id@,
            sender,
            address_check,
            payer_alias@,
            payment_amount@,
            pay_unit@,
            now,
        ),
    }
}

/// Executes a message: creates or pays an invoice. `address_check` is the
/// host's answer to validating `address_to_validate(info, msg)`; the host
/// answers a valid address with the address itself (`requires`).
pub fn execute(
    store: &mut ContractState,
    env: &Env,
    info: &MessageInfo,
    msg: ExecuteMsg,
    address_check: Result<String, StdError>,
) -> (r: Result<Response, ContractError>)
    requires
        old(store).wf(),
        address_check matches Ok(a) ==> a@ == address_asked(info.sender@, msg),
    ensures
        final(store).wf(),
        execute_effect(old(store)@, final(store)@, r, env.block_time, info.sender@, msg, address_check),
{
    match msg {
        ExecuteMsg::CreateInvoice {
            payer_addr: _,
            payer_alias,
            invoice_id,
            invoiced_value,
            date_due,
            pay_unit,
            receipt_unit,
        } => execute_create_invoice(
            store,
            info,
            address_check,
            payer_alias,
            invoice_id,
            invoiced_value,
            date_due,
            pay_unit,
            receipt_unit,
        ),
        ExecuteMsg::PayInvoice { invoice_id, payer_alias, payment_amount, pay_unit } =>
            execute_pay_invoice(
            store,
            env,
            info,
            address_check,
            invoice_id,
            payer_alias,
            payment_amount,
            pay_unit,
        ),
    }
}

/// The answer to the query for all invoices: every stored invoice, in
/// ascending order of invoice id.
pub open spec fn all_invoices_answer(s: StoreView, r: AllInvoicessResponse) -> bool {
    ascending_listing(s.invoices, invoice_views(r.invoices@))
}

/// The answer to the query for the invoice stored under `invoice_id`.
pub open spec fn invoice_answer(s: StoreView, invoice_id: Seq<char>, r: InvoiceResponse) -> bool {
    &&& r.invoice is Some <==> s.invoices.contains_key(invoice_id)
    &&& r.invoice matches Some(inv) ==> inv@ == s.invoices[invoice_id]
}

/// The answer to the query for the payment stored under `address` and
/// `invoice_id`.
pub open spec fn payment_answer(
    s: StoreView,
    address: Seq<char>,
    invoice_id: Seq<char>,
    r: PaymentResponse,
) -> bool {
    &&& r.payment is Some <==> s.payments.contains_key((address, invoice_id))
    &&& r.payment matches Some(p) ==> p@ == s.payments[(address, invoice_id)]
}

/// Every stored invoice, in ascending order of invoice id.
pub fn query_all_invoices(store: &ContractState) -> (r: AllInvoicessResponse)
    requires
        store.wf(),
    ensures
        all_invoices_answer(store@, r),
{
    AllInvoicessResponse { invoices: store.invoices_ascending() }
}

/// The invoice stored under `invoice_id`, if any.
pub fn query_invoice(store: &ContractState, invoice_id: &String) -> (r: InvoiceResponse)
    requires
        store.wf(),
    ensures
        invoice_answer(store@, invoice_id@, r),
{
    InvoiceResponse { invoice: store.load_invoice(invoice_id) }
}

/// The payment that `address` (as validated by the host) made on
/// `invoice_id`, if any.
pub fn query_payment(store: &ContractState, address: &String, invoice_id: &String) -> (r:
    PaymentResponse)
    requires
        store.wf(),
    ensures
        payment_answer(store@, address@, invoice_id@, r),
{
    PaymentResponse { payment: store.load_payment(address, invoice_id) }
}

/// What the query `msg` answers.
pub open spec fn query_answer(s: StoreView, msg: QueryMsg, r: QueryResponse) -> bool {
    match msg {
        QueryMsg::AllInvoices {  } => r matches QueryResponse::AllInvoices(a)
            && all_invoices_answer(s, a),
        QueryMsg::Invoice { invoice_id } => r matches QueryResponse::Invoice(i) && invoice_answer(
            s,
            invoice_id@,
            i,
        ),
        QueryMsg::Payment { invoice_id, address } => r matches QueryResponse::Payment(p)
            && payment_answer(s, address@, invoice_id@, p),
    }
}

/// Answers a query. `address_check` is the host's answer to validating the
/// address of a payment query; a payment query whose address the host
/// refused is not accepted, and the host answers a valid address with the
/// address itself (`requires`).
pub fn query(store: &ContractState, msg: QueryMsg, address_check: Result<String, StdError>) -> (r:
    QueryResponse)
    requires
        store.wf(),
        msg matches QueryMsg::Payment { address, .. } ==> (address_check matches Ok(a) && a@
            == address@),
    ensures
        query_answer(store@, msg, r),
{
    match msg {
        QueryMsg::AllInvoices {  } => QueryResponse::AllInvoices(query_all_invoices(store)),
        QueryMsg::Invoice { invoice_id } => QueryResponse::Invoice(query_invoice(store, &invoice_id)),
        QueryMsg::Payment { invoice_id, address: _ } => {
            let addr = address_check.unwrap();
            QueryResponse::Payment(query_payment(store, &addr, &invoice_id))
        },
    }
}

} // verus!
