//! The contract's store: its configuration, the invoices keyed by invoice id
//! and walked in ascending key order, and the payments keyed by payer and
//! invoice id.
use crate::key_order::{key_less, key_lt, lemma_key_lt_strict_total};
use crate::state::{Config, ConfigView, Invoice, InvoiceView, Payment, PaymentView};
use vstd::prelude::*;

verus! {

pub open spec fn invoice_views(v: Seq<Invoice>) -> Seq<InvoiceView> {
    v.map_values(|i: Invoice| i@)
}

pub open spec fn payment_list_views(v: Seq<Payment>) -> Seq<PaymentView> {
    v.map_values(|p: Payment| p@)
}

/// Invoices listed in strictly ascending order of their ids.
pub open spec fn sorted_by_id(s: Seq<InvoiceView>) -> bool {
    forall|i: int, j: int|
        0 <= i < j < s.len() ==> key_lt(#[trigger] s[i].invoice_id, #[trigger] s[j].invoice_id)
}

pub open spec fn lists_invoice(s: Seq<InvoiceView>, k: Seq<char>) -> bool {
    exists|i: int| 0 <= i < s.len() && #[trigger] s[i].invoice_id == k
}

/// The invoices of a list, keyed by invoice id.
pub open spec fn keyed_invoices(s: Seq<InvoiceView>) -> Map<Seq<char>, InvoiceView> {
    Map::new(
        |k: Seq<char>| lists_invoice(s, k),
        |k: Seq<char>| s[choose|i: int| 0 <= i < s.len() && #[trigger] s[i].invoice_id == k],
    )
}

/// The key under which a payment is stored: its payer and its invoice id.
pub open spec fn payment_key(p: PaymentView) -> (Seq<char>, Seq<char>) {
    (p.payer_addr, p.invoice_id)
}

pub open spec fn unique_payment_keys(s: Seq<PaymentView>) -> bool {
    forall|i: int, j: int|
        0 <= i < s.len() && 0 <= j < s.len() && i != j ==> payment_key(#[trigger] s[i])
            != payment_key(#[trigger] s[j])
}

pub open spec fn lists_payment(s: Seq<PaymentView>, k: (Seq<char>, Seq<char>)) -> bool {
    exists|i: int| 0 <= i < s.len() && payment_key(#[trigger] s[i]) == k
}

/// The payments of a list, keyed by payer and invoice id.
pub open spec fn keyed_payments(s: Seq<PaymentView>) -> Map<(Seq<char>, Seq<char>), PaymentView> {
    Map::new(
        |k: (Seq<char>, Seq<char>)| lists_payment(s, k),
        |k: (Seq<char>, Seq<char>)|
            s[choose|i: int| 0 <= i < s.len() && payment_key(#[trigger] s[i]) == k],
    )
}

/// `s` lists exactly the invoices of `m`, in strictly ascending order of id.
pub open spec fn ascending_listing(m: Map<Seq<char>, InvoiceView>, s: Seq<InvoiceView>) -> bool {
    &&& sorted_by_id(s)
    &&& forall|i: int|
        0 <= i < s.len() ==> m.contains_key(#[trigger] s[i].invoice_id) && m[s[i].invoice_id]
            == s[i]
    &&& forall|k: Seq<char>| #[trigger] m.contains_key(k) ==> lists_invoice(s, k)
}

/// What the store holds.
pub struct StoreView {
    pub config: Option<ConfigView>,
    pub invoices: Map<Seq<char>, InvoiceView>,
    pub payments: Map<(Seq<char>, Seq<char>), PaymentView>,
}

impl StoreView {
    /// Every invoice is stored under its own id and is consistent; every
    /// payment is stored under its own payer and invoice id.
    pub open spec fn well_formed(self) -> bool {
        &&& forall|k: Seq<char>| #[trigger]
            self.invoices.contains_key(k) ==> self.invoices[k].invoice_id == k
                && self.invoices[k].consistent()
        &&& forall|k: (Seq<char>, Seq<char>)| #[trigger]
            self.payments.contains_key(k) ==> payment_key(self.payments[k]) == k
    }
}

/// The contract's store.
pub struct ContractState {
    config: Option<Config>,
    invoices: Vec<Invoice>,
    payments: Vec<Payment>,
}

impl View for ContractState {
    type V = StoreView;

    closed spec fn view(&self) -> StoreView {
        StoreView {
            config: match self.config {
                Some(c) => Some(c@),
                None => None,
            },
            invoices: keyed_invoices(invoice_views(self.invoices@)),
            payments: keyed_payments(payment_list_views(self.payments@)),
        }
    }
}

proof fn lemma_sorted_unique(s: Seq<InvoiceView>, i: int, j: int)
    requires
        sorted_by_id(s),
        0 <= i < s.len(),
        0 <= j < s.len(),
        s[i].invoice_id == s[j].invoice_id,
    ensures
        i == j,
{
    lemma_key_lt_strict_total(s[i].invoice_id, s[i].invoice_id, s[i].invoice_id);
    if i < j {
        assert(key_lt(s[i].invoice_id, s[j].invoice_id));
    } else if j < i {
        assert(key_lt(s[j].invoice_id, s[i].invoice_id));
    }
}

proof fn lemma_keyed_invoice_at(s: Seq<InvoiceView>, i: int)
    requires
        sorted_by_id(s),
        0 <= i < s.len(),
    ensures
        keyed_invoices(s).contains_key(s[i].invoice_id),
        keyed_invoices(s)[s[i].invoice_id] == s[i],
{
    let k = s[i].invoice_id;
    assert(lists_invoice(s, k));
    let j = choose|j: int| 0 <= j < s.len() && #[trigger] s[j].invoice_id == k;
    lemma_sorted_unique(s, i, j);
}

proof fn lemma_invoice_replace(s: Seq<InvoiceView>, i: int, x: InvoiceView)
    requires
        sorted_by_id(s),
        0 <= i < s.len(),
        s[i].invoice_id == x.invoice_id,
    ensures
        sorted_by_id(s.update(i, x)),
        keyed_invoices(s.update(i, x)) =~= keyed_invoices(s).insert(x.invoice_id, x),
{
    let t = s.update(i, x);
    assert forall|a: int, b: int| 0 <= a < b < t.len() implies key_lt(
        #[trigger] t[a].invoice_id,
        #[trigger] t[b].invoice_id,
    ) by {
        assert(key_lt(s[a].invoice_id, s[b].invoice_id));
    }
    let m1 = keyed_invoices(t);
    let m2 = keyed_invoices(s).insert(x.invoice_id, x);
    assert forall|k: Seq<char>| m1.contains_key(k) <==> m2.contains_key(k) by {
        if m1.contains_key(k) {
            let j = choose|j: int| 0 <= j < t.len() && #[trigger] t[j].invoice_id == k;
            if j != i {
                assert(s[j].invoice_id == k);
            }
        }
        if m2.contains_key(k) {
            if k == x.invoice_id {
                assert(t[i].invoice_id == k);
            } else {
                let j = choose|j: int| 0 <= j < s.len() && #[trigger] s[j].invoice_id == k;
                assert(t[j].invoice_id == k);
            }
        }
    }
    assert forall|k: Seq<char>| m1.contains_key(k) implies m1[k] == m2[k] by {
        let j = choose|j: int| 0 <= j < t.len() && #[trigger] t[j].invoice_id == k;
        lemma_keyed_invoice_at(t, j);
        if j != i {
            if t[i].invoice_id == k {
                lemma_sorted_unique(t, i, j);
            }
            lemma_keyed_invoice_at(s, j);
        }
    }
}

proof fn lemma_invoice_insert(s: Seq<InvoiceView>, i: int, x: InvoiceView)
    requires
        sorted_by_id(s),
        0 <= i <= s.len(),
        forall|j: int| 0 <= j < i ==> key_lt(#[trigger] s[j].invoice_id, x.invoice_id),
        forall|j: int| i <= j < s.len() ==> key_lt(x.invoice_id, #[trigger] s[j].invoice_id),
    ensures
        sorted_by_id(s.insert(i, x)),
        keyed_invoices(s.insert(i, x)) =~= keyed_invoices(s).insert(x.invoice_id, x),
{
    let t = s.insert(i, x);
    assert forall|a: int, b: int| 0 <= a < b < t.len() implies key_lt(
        #[trigger] t[a].invoice_id,
        #[trigger] t[b].invoice_id,
    ) by {
        if a < i && b < i {
            assert(key_lt(s[a].invoice_id, s[b].invoice_id));
        } else if a < i && b == i {
        } else if a < i {
            assert(key_lt(s[a].invoice_id, x.invoice_id));
            assert(key_lt(x.invoice_id, s[b - 1].invoice_id));
            lemma_key_lt_strict_total(s[a].invoice_id, x.invoice_id, s[b - 1].invoice_id);
        } else if a == i {
            assert(key_lt(x.invoice_id, s[b - 1].invoice_id));
        } else {
            assert(key_lt(s[a - 1].invoice_id, s[b - 1].invoice_id));
        }
    }
    let m1 = keyed_invoices(t);
    let m2 = keyed_invoices(s).insert(x.invoice_id, x);
    assert forall|k: Seq<char>| m1.contains_key(k) <==> m2.contains_key(k) by {
        if m1.contains_key(k) {
            let j = choose|j: int| 0 <= j < t.len() && #[trigger] t[j].invoice_id == k;
            if j < i {
                assert(s[j].invoice_id == k);
            } else if j > i {
                assert(s[j - 1].invoice_id == k);
            }
        }
        if m2.contains_key(k) {
            if k == x.invoice_id {
                assert(t[i].invoice_id == k);
            } else {
                let j = choose|j: int| 0 <= j < s.len() && #[trigger] s[j].invoice_id == k;
                if j < i {
                    assert(t[j].invoice_id == k);
                } else {
                    assert(t[j + 1].invoice_id == k);
                }
            }
        }
    }
    assert forall|k: Seq<char>| m1.contains_key(k) implies m1[k] == m2[k] by {
        let j = choose|j: int| 0 <= j < t.len() && #[trigger] t[j].invoice_id == k;
        lemma_keyed_invoice_at(t, j);
        if j != i && t[i].invoice_id == k {
            lemma_sorted_unique(t, i, j);
        }
        if j < i {
            lemma_keyed_invoice_at(s, j);
        } else if j > i {
            lemma_keyed_invoice_at(s, j - 1);
        }
    }
}

proof fn lemma_keyed_payment_at(s: Seq<PaymentView>, i: int)
    requires
        unique_payment_keys(s),
        0 <= i < s.len(),
    ensures
        keyed_payments(s).contains_key(payment_key(s[i])),
        keyed_payments(s)[payment_key(s[i])] == s[i],
{
    let k = payment_key(s[i]);
    assert(lists_payment(s, k));
    let j = choose|j: int| 0 <= j < s.len() && payment_key(#[trigger] s[j]) == k;
    if j != i {
        assert(payment_key(s[i]) != payment_key(s[j]));
    }
}

proof fn lemma_payment_replace(s: Seq<PaymentView>, i: int, x: PaymentView)
    requires
        unique_payment_keys(s),
        0 <= i < s.len(),
        payment_key(s[i]) == payment_key(x),
    ensures
        unique_payment_keys(s.update(i, x)),
        keyed_payments(s.update(i, x)) =~= keyed_payments(s).insert(payment_key(x), x),
{
    let t = s.update(i, x);
    assert forall|a: int, b: int|
        0 <= a < t.len() && 0 <= b < t.len() && a != b implies payment_key(#[trigger] t[a])
        != payment_key(#[trigger] t[b]) by {
        assert(payment_key(s[a]) != payment_key(s[b]));
    }
    let m1 = keyed_payments(t);
    let m2 = keyed_payments(s).insert(payment_key(x), x);
    assert forall|k: (Seq<char>, Seq<char>)| m1.contains_key(k) <==> m2.contains_key(k) by {
        if m1.contains_key(k) {
            let j = choose|j: int| 0 <= j < t.len() && payment_key(#[trigger] t[j]) == k;
            if j != i {
                assert(payment_key(s[j]) == k);
            }
        }
        if m2.contains_key(k) {
            if k == payment_key(x) {
                assert(payment_key(t[i]) == k);
            } else {
                let j = choose|j: int| 0 <= j < s.len() && payment_key(#[trigger] s[j]) == k;
                assert(payment_key(t[j]) == k);
            }
        }
    }
    assert forall|k: (Seq<char>, Seq<char>)| m1.contains_key(k) implies m1[k] == m2[k] by {
        let j = choose|j: int| 0 <= j < t.len() && payment_key(#[trigger] t[j]) == k;
        lemma_keyed_payment_at(t, j);
        if j != i {
            assert(payment_key(t[i]) != payment_key(t[j]));
            lemma_keyed_payment_at(s, j);
        }
    }
}

proof fn lemma_payment_push(s: Seq<PaymentView>, x: PaymentView)
    requires
        unique_payment_keys(s),
        !lists_payment(s, payment_key(x)),
    ensures
        unique_payment_keys(s.push(x)),
        keyed_payments(s.push(x)) =~= keyed_payments(s).insert(payment_key(x), x),
{
    let t = s.push(x);
    let n = s.len() as int;
    assert forall|a: int, b: int|
        0 <= a < t.len() && 0 <= b < t.len() && a != b implies payment_key(#[trigger] t[a])
        != payment_key(#[trigger] t[b]) by {
        if a < n && b < n {
            assert(payment_key(s[a]) != payment_key(s[b]));
        } else if a < n {
            assert(payment_key(s[a]) != payment_key(x));
        } else if b < n {
            assert(payment_key(s[b]) != payment_key(x));
        }
    }
    let m1 = keyed_payments(t);
    let m2 = keyed_payments(s).insert(payment_key(x), x);
    assert forall|k: (Seq<char>, Seq<char>)| m1.contains_key(k) <==> m2.contains_key(k) by {
        if m1.contains_key(k) {
            let j = choose|j: int| 0 <= j < t.len() && payment_key(#[trigger] t[j]) == k;
            if j < n {
                assert(payment_key(s[j]) == k);
            }
        }
        if m2.contains_key(k) {
            if k == payment_key(x) {
                assert(payment_key(t[n]) == k);
            } else {
                let j = choose|j: int| 0 <= j < s.len() && payment_key(#[trigger] s[j]) == k;
                assert(payment_key(t[j]) == k);
            }
        }
    }
    assert forall|k: (Seq<char>, Seq<char>)| m1.contains_key(k) implies m1[k] == m2[k] by {
        let j = choose|j: int| 0 <= j < t.len() && payment_key(#[trigger] t[j]) == k;
        lemma_keyed_payment_at(t, j);
        if j < n {
            assert(payment_key(t[n]) != payment_key(t[j]));
            lemma_keyed_payment_at(s, j);
        }
    }
}

impl ContractState {
    /// The store's internal invariant: invoices listed in ascending id order,
    /// each consistent; payment keys distinct.
    pub closed spec fn wf(&self) -> bool {
        &&& sorted_by_id(invoice_views(self.invoices@))
        &&& forall|i: int|
            0 <= i < self.invoices@.len() ==> (#[trigger] self.invoices@[i])@.consistent()
        &&& unique_payment_keys(payment_list_views(self.payments@))
    }

    /// An empty store.
    pub fn new() -> (s: ContractState)
        ensures
            s.wf(),
            s@.config is None,
            s@.invoices == Map::<Seq<char>, InvoiceView>::empty(),
            s@.payments == Map::<(Seq<char>, Seq<char>), PaymentView>::empty(),
    {
        let s = ContractState { config: None, invoices: Vec::new(), payments: Vec::new() };
        assert(s@.invoices =~= Map::<Seq<char>, InvoiceView>::empty());
        assert(s@.payments =~= Map::<(Seq<char>, Seq<char>), PaymentView>::empty());
        s
    }

    /// The store's invariant, seen from outside: every stored invoice is
    /// consistent and stored under its id, every payment under its key.
    pub proof fn lemma_well_formed(&self)
        requires
            self.wf(),
        ensures
            self@.well_formed(),
    {
        let s = invoice_views(self.invoices@);
        assert forall|k: Seq<char>| #[trigger] self@.invoices.contains_key(k) implies self@.invoices[
            k
        ].invoice_id == k && self@.invoices[k].consistent() by {
            let j = choose|j: int| 0 <= j < s.len() && #[trigger] s[j].invoice_id == k;
            lemma_keyed_invoice_at(s, j);
            assert(s[j] == self.invoices@[j]@);
        }
        let p = payment_list_views(self.payments@);
        assert forall|k: (Seq<char>, Seq<char>)| #[trigger]
            self@.payments.contains_key(k) implies payment_key(self@.payments[k]) == k by {
            let j = choose|j: int| 0 <= j < p.len() && payment_key(#[trigger] p[j]) == k;
            lemma_keyed_payment_at(p, j);
        }
    }

    /// The stored configuration.
    pub fn load_config(&self) -> (r: Option<Config>)
        ensures
            match r {
                Some(c) => self@.config == Some(c@),
                None => self@.config is None,
            },
    {
        match &self.config {
            Some(c) => Some(Config { admin: c.admin.clone() }),
            None => None,
        }
    }

    pub(crate) fn save_config(&mut self, c: Config)
        requires
            old(self).wf(),
        ensures
            final(self).wf(),
            final(self)@ == (StoreView { config: Some(c@), ..old(self)@ }),
    {
        self.config = Some(c);
    }

    /// The invoice stored under `invoice_id`, if any.
    pub fn load_invoice(&self, invoice_id: &String) -> (r: Option<Invoice>)
        requires
            self.wf(),
        ensures
            r is Some <==> self@.invoices.contains_key(invoice_id@),
            r matches Some(inv) ==> inv@ == self@.invoices[invoice_id@],
    {
        let ghost s = invoice_views(self.invoices@);
        let mut i: usize = 0;
        while i < self.invoices.len()
            invariant
                s == invoice_views(self.invoices@),
                self.wf(),
                i <= self.invoices.len(),
                forall|j: int| 0 <= j < i ==> (#[trigger] s[j]).invoice_id != invoice_id@,
            decreases self.invoices.len() - i,
        {
            if self.invoices[i].invoice_id == *invoice_id {
                proof {
                    lemma_keyed_invoice_at(s, i as int);
                }
                return Some(self.invoices[i].clone());
            }
            i = i + 1;
        }
        assert(!lists_invoice(s, invoice_id@));
        None
    }

    pub(crate) fn save_invoice(&mut self, inv: Invoice)
        requires
            old(self).wf(),
            inv@.consistent(),
        ensures
            final(self).wf(),
            final(self)@ == (StoreView {
                invoices: old(self)@.invoices.insert(inv@.invoice_id, inv@),
                ..old(self)@
            }),
    {
        let ghost s = invoice_views(self.invoices@);
        let mut i: usize = 0;
        while i < self.invoices.len() && key_less(
            self.invoices[i].invoice_id.as_str(),
            inv.invoice_id.as_str(),
        )
            invariant
                s == invoice_views(self.invoices@),
                self.wf(),
                i <= self.invoices.len(),
                forall|j: int| 0 <= j < i ==> key_lt(#[trigger] s[j].invoice_id, inv@.invoice_id),
            decreases self.invoices.len() - i,
        {
            i = i + 1;
        }
        if i < self.invoices.len() && self.invoices[i].invoice_id == inv.invoice_id {
            proof {
                lemma_invoice_replace(s, i as int, inv@);
            }
            self.invoices.set(i, inv);
            assert(invoice_views(self.invoices@) =~= s.update(i as int, inv@));
        } else {
            proof {
                assert forall|j: int| i <= j < s.len() implies key_lt(
                    inv@.invoice_id,
                    #[trigger] s[j].invoice_id,
                ) by {
                    lemma_key_lt_strict_total(s[i as int].invoice_id, inv@.invoice_id, s[j].invoice_id);
                    lemma_key_lt_strict_total(inv@.invoice_id, s[i as int].invoice_id, s[j].invoice_id);
                    if j > i {
                        assert(key_lt(s[i as int].invoice_id, s[j].invoice_id));
                    }
                }
                lemma_invoice_insert(s, i as int, inv@);
            }
            self.invoices.insert(i, inv);
            assert(invoice_views(self.invoices@) =~= s.insert(i as int, inv@));
        }
    }

    /// The payment stored under `payer_addr` and `invoice_id`, if any.
    pub fn load_payment(&self, payer_addr: &String, invoice_id: &String) -> (r: Option<Payment>)
        requires
            self.wf(),
        ensures
            r is Some <==> self@.payments.contains_key((payer_addr@, invoice_id@)),
            r matches Some(p) ==> p@ == self@.payments[(payer_addr@, invoice_id@)],
    {
        let ghost s = payment_list_views(self.payments@);
        let mut i: usize = 0;
        while i < self.payments.len()
            invariant
                s == payment_list_views(self.payments@),
                self.wf(),
                i <= self.payments.len(),
                forall|j: int|
                    0 <= j < i ==> payment_key(#[trigger] s[j]) != (payer_addr@, invoice_id@),
            decreases self.payments.len() - i,
        {
            if self.payments[i].payer_addr == *payer_addr && self.payments[i].invoice_id
                == *invoice_id {
                proof {
                    lemma_keyed_payment_at(s, i as int);
                }
                return Some(self.payments[i].clone());
            }
            i = i + 1;
        }
        assert(!lists_payment(s, (payer_addr@, invoice_id@)));
        None
    }

    pub(crate) fn save_payment(&mut self, p: Payment)
        requires
            old(self).wf(),
        ensures
            final(self).wf(),
            final(self)@ == (StoreView {
                payments: old(self)@.payments.insert(payment_key(p@), p@),
                ..old(self)@
            }),
    {
        let ghost s = payment_list_views(self.payments@);
        let mut i: usize = 0;
        while i < self.payments.len()
            invariant
                s == payment_list_views(self.payments@),
                *self == *old(self),
                self.wf(),
                i <= self.payments.len(),
                forall|j: int| 0 <= j < i ==> payment_key(#[trigger] s[j]) != payment_key(p@),
            decreases self.payments.len() - i,
        {
            if self.payments[i].payer_addr == p.payer_addr && self.payments[i].invoice_id
                == p.invoice_id {
                proof {
                    lemma_payment_replace(s, i as int, p@);
                }
                self.payments.set(i, p);
                assert(payment_list_views(self.payments@) =~= s.update(i as int, p@));
                return;
            }
            i = i + 1;
        }
        proof {
            lemma_payment_push(s, p@);
        }
        self.payments.push(p);
        assert(payment_list_views(self.payments@) =~= s.push(p@));
    }

    /// Every stored invoice, in ascending order of invoice id.
    pub fn invoices_ascending(&self) -> (r: Vec<Invoice>)
        requires
            self.wf(),
        ensures
            ascending_listing(self@.invoices, invoice_views(r@)),
    {
        let r = self.invoices.clone();
        let ghost s = invoice_views(self.invoices@);
        assert(invoice_views(r@) =~= s);
        assert forall|i: int| 0 <= i < s.len() implies self@.invoices.contains_key(
            #[trigger] s[i].invoice_id,
        ) && self@.invoices[s[i].invoice_id] == s[i] by {
            lemma_keyed_invoice_at(s, i);
        }
        r
    }
}

} // verus!
