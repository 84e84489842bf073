//! Messages that the contract accepts, the answers it gives, and the plain
//! values it reads from the transaction that carries a message.
use crate::state::{Invoice, Payment};
use vstd::prelude::*;

verus! {

/// Message for instantiating the contract.
#[derive(Debug, PartialEq, Eq)]
pub struct InstantiateMsg {
    pub admin: Option<String>,
}

/// Messages that change the contract's store.
#[derive(Debug, PartialEq, Eq)]
pub enum ExecuteMsg {
    CreateInvoice {
        payer_addr: String,
        payer_alias: String,
        invoice_id: String,
        invoiced_value: String,
        date_due: String,
        pay_unit: String,
        receipt_unit: String,
    },
    PayInvoice { invoice_id: String, payer_alias: String, payment_amount: String, pay_unit: String },
}

/// Messages that read the contract's store.
#[derive(Debug, PartialEq, Eq)]
pub enum QueryMsg {
    AllInvoices {},
    Invoice { invoice_id: String },
    Payment { invoice_id: String, address: String },
}

/// Every stored invoice, in ascending order of invoice id.
#[derive(Debug)]
pub struct AllInvoicessResponse {
    pub invoices: Vec<Invoice>,
}

#[derive(Debug)]
pub struct InvoiceResponse {
    pub invoice: Option<Invoice>,
}

#[derive(Debug)]
pub struct PaymentResponse {
    pub payment: Option<Payment>,
}

/// The answer to a query message.
#[derive(Debug)]
pub enum QueryResponse {
    AllInvoices(AllInvoicessResponse),
    Invoice(InvoiceResponse),
    Payment(PaymentResponse),
}

/// Who sent the message.
#[derive(Debug, PartialEq, Eq)]
pub struct MessageInfo {
    pub sender: String,
}

/// The block in which the message is executed.
#[derive(Debug, PartialEq, Eq)]
pub struct Env {
    /// Block time in nanoseconds since the Unix epoch.
    pub block_time: u64,
}

/// A key-value pair that the contract reports back with a response.
#[derive(Debug)]
pub struct Attribute {
    pub key: String,
    pub value: String,
}

pub struct AttributeView {
    pub key: Seq<char>,
    pub value: Seq<char>,
}

impl View for Attribute {
    type V = AttributeView;

    open spec fn view(&self) -> AttributeView {
        AttributeView { key: self.key@, value: self.value@ }
    }
}

/// What the contract answers to a message that it accepted.
#[derive(Debug)]
pub struct Response {
    pub attributes: Vec<Attribute>,
}

impl View for Response {
    type V = Seq<AttributeView>;

    open spec fn view(&self) -> Seq<AttributeView> {
        self.attributes@.map_values(|a: Attribute| a@)
    }
}

impl Response {
    /// A response with no attributes.
    pub fn new() -> (r: Response)
        ensures
            r@ == Seq::<AttributeView>::empty(),
    {
        let r = Response { attributes: Vec::new() };
        assert(r@ =~= Seq::<AttributeView>::empty());
        r
    }

    /// Appends the attribute `key` = `value`.
    pub fn add_attribute(self, key: String, value: String) -> (r: Response)
        ensures
            r@ == self@.push(AttributeView { key: key@, value: value@ }),
    {
        let mut attributes = self.attributes;
        let ghost before = attributes@;
        attributes.push(Attribute { key, value });
        let r = Response { attributes };
        assert(r@ =~= before.map_values(|a: Attribute| a@).push(AttributeView { key: key@, value: value@ }));
        r
    }
}

} // verus!
