//! The records the engine works on: contacts, line items, invoices, their
//! summaries and history snapshots.
//!
//! Amounts are signed fixed-point integers: a quantity and a rate are counted
//! in hundredths (`i32`), a percentage in hundredths of a percent (`i16`, so
//! `10000` is 100 % and the range is -327.68 % to 327.67 %). Negative amounts
//! (credits) and discounts above 100 % are allowed.
use vstd::prelude::*;

verus! {

/// One hundred percent, in hundredths of a percent.
pub const PERCENT_SCALE: i32 = 10000;

/// The most line items a document may hold. With the field ranges above, a
/// total of this many lines stays below 2^125 in magnitude (see
/// `lemma_total_bounds`), so it is computed exactly in `i128`; at four times
/// as many it could overflow.
pub const MAX_LINE_ITEMS: usize = 100000;

/// Copies an optional string; the copy is equal to it.
pub fn copy_opt(o: &Option<String>) -> (r: Option<String>)
    ensures
        r == *o,
{
    match o {
        Some(s) => Some(s.clone()),
        None => None,
    }
}

#[derive(Debug, Clone, Copy, PartialEq, Eq, Structural)]
pub enum InvoiceStatus {
    Draft,
    Sent,
    Paid,
    Overdue,
}

#[derive(Debug, Clone, PartialEq)]
pub struct ContactInfo {
    pub name: String,
    pub company: Option<String>,
    pub address: String,
    pub email: Option<String>,
    pub phone: Option<String>,
    pub logo_path: Option<String>,
}

impl ContactInfo {
    pub open spec fn is_blank(&self) -> bool {
        &&& self.name@.len() == 0
        &&& self.company is None
        &&& self.address@.len() == 0
        &&& self.email is None
        &&& self.phone is None
        &&& self.logo_path is None
    }

    /// A contact with every field empty.
    pub fn blank() -> (r: ContactInfo)
        ensures
            r.is_blank(),
    {
        ContactInfo {
            name: String::new(),
            company: None,
            address: String::new(),
            email: None,
            phone: None,
            logo_path: None,
        }
    }

    pub fn duplicate(&self) -> (r: ContactInfo)
        ensures
            r == *self,
    {
        ContactInfo {
            name: self.name.clone(),
            company: copy_opt(&self.company),
            address: self.address.clone(),
            email: copy_opt(&self.email),
            phone: copy_opt(&self.phone),
            logo_path: copy_opt(&self.logo_path),
        }
    }
}

/// Engine-wide configuration: default contacts and payment details for new
/// documents, and the counter their numbers are drawn from.
#[derive(Debug, Clone, PartialEq)]
pub struct InvoiceSettings {
    pub invoicer: ContactInfo,
    pub invoicee: ContactInfo,
    pub payment_info: Option<String>,
    pub payment_image_path: Option<String>,
    pub invoice_number_prefix: String,
    pub next_invoice_number: u32,
}

impl InvoiceSettings {
    pub fn duplicate(&self) -> (r: InvoiceSettings)
        ensures
            r == *self,
    {
        InvoiceSettings {
            invoicer: self.invoicer.duplicate(),
            invoicee: self.invoicee.duplicate(),
            payment_info: copy_opt(&self.payment_info),
            payment_image_path: copy_opt(&self.payment_image_path),
            invoice_number_prefix: self.invoice_number_prefix.clone(),
            next_invoice_number: self.next_invoice_number,
        }
    }
}

/// One billed line: `quantity` and `rate` in hundredths, `discount_percent`
/// in hundredths of a percent; any values of these types are allowed.
#[derive(Debug, Clone, PartialEq)]
pub struct LineItem {
    pub id: String,
    pub description: String,
    pub quantity: i32,
    pub rate: i32,
    pub discount_percent: i16,
    pub receipt_path: Option<String>,
}

impl LineItem {
    pub fn duplicate(&self) -> (r: LineItem)
        ensures
            r == *self,
    {
        LineItem {
            id: self.id.clone(),
            description: self.description.clone(),
            quantity: self.quantity,
            rate: self.rate,
            discount_percent: self.discount_percent,
            receipt_path: copy_opt(&self.receipt_path),
        }
    }
}

/// The document. `discount_percent` and `tax_percent` are in hundredths of a
/// percent; `created_at` and `updated_at` are seconds since the epoch.
#[derive(Debug, Clone, PartialEq)]
pub struct Invoice {
    pub id: String,
    pub number: String,
    pub name: Option<String>,
    pub date: String,
    pub due_date: Option<String>,
    pub invoicer: ContactInfo,
    pub invoicee: ContactInfo,
    pub line_items: Vec<LineItem>,
    pub discount_percent: i16,
    pub tax_percent: i16,
    pub notes: Option<String>,
    pub payment_info: Option<String>,
    pub payment_image_path: Option<String>,
    pub status: InvoiceStatus,
    pub created_at: u64,
    pub updated_at: u64,
}

/// An invoice as a value: its line items as a sequence.
pub struct InvoiceModel {
    pub id: String,
    pub number: String,
    pub name: Option<String>,
    pub date: String,
    pub due_date: Option<String>,
    pub invoicer: ContactInfo,
    pub invoicee: ContactInfo,
    pub line_items: Seq<LineItem>,
    pub discount_percent: i16,
    pub tax_percent: i16,
    pub notes: Option<String>,
    pub payment_info: Option<String>,
    pub payment_image_path: Option<String>,
    pub status: InvoiceStatus,
    pub created_at: u64,
    pub updated_at: u64,
}

impl View for Invoice {
    type V = InvoiceModel;

    open spec fn view(&self) -> InvoiceModel {
        InvoiceModel {
            id: self.id,
            number: self.number,
            name: self.name,
            date: self.date,
            due_date: self.due_date,
            invoicer: self.invoicer,
            invoicee: self.invoicee,
            line_items: self.line_items@,
            discount_percent: self.discount_percent,
            tax_percent: self.tax_percent,
            notes: self.notes,
            payment_info: self.payment_info,
            payment_image_path: self.payment_image_path,
            status: self.status,
            created_at: self.created_at,
            updated_at: self.updated_at,
        }
    }
}

/// Copies a list of line items, element for element.
pub fn copy_items(items: &Vec<LineItem>) -> (r: Vec<LineItem>)
    ensures
        r@ == items@,
{
    let mut r: Vec<LineItem> = Vec::new();
    let mut i: usize = 0;
    while i < items.len()
        invariant
            i <= items@.len(),
            r@ == items@.subrange(0, i as int),
        decreases items@.len() - i,
    {
        r.push(items[i].duplicate());
        i = i + 1;
    }
    assert(r@ =~= items@);
    r
}

impl InvoiceModel {
    /// At most `MAX_LINE_ITEMS` line items.
    pub open spec fn wf(&self) -> bool {
        self.line_items.len() <= MAX_LINE_ITEMS
    }
}

impl Invoice {
    pub open spec fn wf(&self) -> bool {
        self@.wf()
    }

    /// Tells whether the document meets `wf`: a document read from outside
    /// is checked with this before the engine takes it.
    pub fn is_valid(&self) -> (r: bool)
        ensures
            r == self.wf(),
    {
        self.line_items.len() <= MAX_LINE_ITEMS
    }

    pub fn duplicate(&self) -> (r: Invoice)
        ensures
            r@ == self@,
    {
        Invoice {
            id: self.id.clone(),
            number: self.number.clone(),
            name: copy_opt(&self.name),
            date: self.date.clone(),
            due_date: copy_opt(&self.due_date),
            invoicer: self.invoicer.duplicate(),
            invoicee: self.invoicee.duplicate(),
            line_items: copy_items(&self.line_items),
            discount_percent: self.discount_percent,
            tax_percent: self.tax_percent,
            notes: copy_opt(&self.notes),
            payment_info: copy_opt(&self.payment_info),
            payment_image_path: copy_opt(&self.payment_image_path),
            status: self.status,
            created_at: self.created_at,
            updated_at: self.updated_at,
        }
    }
}

/// The listing entry of a document. `total` is the exact total in units of
/// 10^-16 of the currency (see `total`).
#[derive(Debug, Clone, PartialEq)]
pub struct InvoiceSummary {
    pub id: String,
    pub number: String,
    pub name: Option<String>,
    pub date: String,
    pub total: i128,
    pub status: InvoiceStatus,
}

impl InvoiceSummary {
    pub fn duplicate(&self) -> (r: InvoiceSummary)
        ensures
            r == *self,
    {
        InvoiceSummary {
            id: self.id.clone(),
            number: self.number.clone(),
            name: copy_opt(&self.name),
            date: self.date.clone(),
            total: self.total,
            status: self.status,
        }
    }
}

/// A copy of a document kept in the edit history, with the time it was taken.
#[derive(Debug, Clone, PartialEq)]
pub struct InvoiceSnapshot {
    pub invoice: Invoice,
    pub timestamp: u64,
}

/// A snapshot as a value.
pub struct SnapshotModel {
    pub invoice: InvoiceModel,
    pub timestamp: u64,
}

impl View for InvoiceSnapshot {
    type V = SnapshotModel;

    open spec fn view(&self) -> SnapshotModel {
        SnapshotModel { invoice: self.invoice@, timestamp: self.timestamp }
    }
}

/// The snapshot taken of a document: stamped with its last update time.
pub open spec fn snapshot_of(m: InvoiceModel) -> SnapshotModel {
    SnapshotModel { invoice: m, timestamp: m.updated_at }
}

impl InvoiceSnapshot {
    pub fn of(invoice: &Invoice) -> (r: InvoiceSnapshot)
        ensures
            r@ == snapshot_of(invoice@),
    {
        InvoiceSnapshot { invoice: invoice.duplicate(), timestamp: invoice.updated_at }
    }
}

/// Why an operation of the engine failed.
#[derive(Debug, Clone, Copy, PartialEq, Eq, Structural)]
pub enum InvoiceError {
    NotFound,
    ItemNotFound,
    NoFocalDocument,
    NothingToUndo,
    NothingToRedo,
    SerializationError,
    TooManyItems,
}

} // verus!
