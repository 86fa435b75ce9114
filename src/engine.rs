//! The engine: one focal document, the index of summaries, and the edit
//! history, kept consistent across every operation.
//!
//! The engine does no I/O. Operations that touch storage say what to read or
//! write (paths, and the document to store), and the caller reports back.
use vstd::prelude::*;
use vstd::string::StringExecFns;
use crate::fresh::candidate;
use crate::calendar::{date_of_timestamp, date_text, is_date_of_day};
use crate::history::{bounded_push, EditHistory, UNDO_CAPACITY};
use crate::index::{keyed_by_id, DocumentIndex};
use crate::paths::{
    document_dir, invoice_dir_path, invoice_path, join, join_path, path_for, receipts_dir,
    receipts_dir_path, summary_path, summary_path_for,
};
use crate::model::{
    copy_opt, ContactInfo, Invoice, InvoiceError, InvoiceModel, InvoiceSettings, InvoiceSnapshot,
    InvoiceStatus, InvoiceSummary, LineItem, SnapshotModel, snapshot_of,
};
use crate::text::{decimal, decimal_string, padded, padded_string};
use crate::items::{
    find_item, fresh_item_id, first_match, has_item, id_views, lemma_without_item_len,
    remove_items, reorder_items, reordered, without_item,
};
use crate::model::MAX_LINE_ITEMS;
use crate::text::{file_stem, file_stem_of};
use crate::total::{calculate_invoice_total, total};

verus! {

broadcast use vstd::string::group_string_axioms;

/// The id of a new line item is this and the time in milliseconds.
pub const ITEM_ID_PREFIX: &'static str = "item-";

/// The description that an attachment's file name may replace.
pub const PLACEHOLDER_DESCRIPTION: &'static str = "Click to add description";

/// `m` with these line items, last updated at `at`.
pub open spec fn with_items(m: InvoiceModel, items: Seq<LineItem>, at: u64) -> InvoiceModel {
    InvoiceModel { line_items: items, updated_at: at, ..m }
}

/// The line item that `add_line_item` appends at time `millis` to a list
/// holding `items`: its id is the first candidate on `item-{millis}` that no
/// item carries yet.
pub open spec fn is_fresh_item(item: LineItem, items: Seq<LineItem>, millis: u64) -> bool {
    &&& !has_item(items, item.id@)
    &&& exists|k: nat|
        item.id@ == candidate(ITEM_ID_PREFIX@ + decimal(millis as nat), k) && forall|j: nat|
            j < k ==> has_item(items, #[trigger] candidate(ITEM_ID_PREFIX@ + decimal(millis as nat), j))
    &&& item.description@.len() == 0
    &&& item.quantity == 100
    &&& item.rate == 0
    &&& item.discount_percent == 0
    &&& item.receipt_path is None
}

/// `after` is `before` with the attachment at `path` recorded, and its
/// description taken from the file name where it was empty or the placeholder.
pub open spec fn receipt_attached(before: LineItem, after: LineItem, file_name: Seq<char>, path: String) -> bool {
    &&& after.id == before.id
    &&& after.quantity == before.quantity
    &&& after.rate == before.rate
    &&& after.discount_percent == before.discount_percent
    &&& after.receipt_path == Some(path)
    &&& after.description@ == if before.description@.len() == 0 || before.description@ == PLACEHOLDER_DESCRIPTION@ {
        file_stem(file_name)
    } else {
        before.description@
    }
}

/// The number prefix used where no settings are configured.
pub const FALLBACK_PREFIX: &'static str = "INV-";

/// The summary of a document.
pub open spec fn summary_of(m: InvoiceModel) -> InvoiceSummary {
    InvoiceSummary {
        id: m.id,
        number: m.number,
        name: m.name,
        date: m.date,
        total: total(m) as i128,
        status: m.status,
    }
}

/// The summary of a document, its total computed by `calculate_invoice_total`.
pub fn summary_for(invoice: &Invoice) -> (r: InvoiceSummary)
    requires
        invoice.wf(),
    ensures
        r == summary_of(invoice@),
{
    InvoiceSummary {
        id: invoice.id.clone(),
        number: invoice.number.clone(),
        name: copy_opt(&invoice.name),
        date: invoice.date.clone(),
        total: calculate_invoice_total(invoice),
        status: invoice.status,
    }
}

/// The state of an engine, as a value.
pub struct EngineModel {
    pub settings: Option<InvoiceSettings>,
    pub index: Map<Seq<char>, InvoiceSummary>,
    pub focal: Option<InvoiceModel>,
    pub undo: Seq<SnapshotModel>,
    pub redo: Seq<SnapshotModel>,
    pub last_save_time: u64,
    pub dirty: bool,
}

/// Every snapshot holds a valid document and is stamped with its update time.
pub open spec fn all_snapshots_wf(s: Seq<SnapshotModel>) -> bool {
    forall|i: int| 0 <= i < s.len() ==> (#[trigger] s[i]).invoice.wf() && s[i] == snapshot_of(s[i].invoice)
}

impl EngineModel {
    /// The invariant of an engine: the focal document is valid and the index
    /// holds its current summary; only a focal document can be unsaved; the
    /// history holds valid documents and at most `UNDO_CAPACITY` undo steps.
    pub open spec fn wf(&self) -> bool {
        &&& keyed_by_id(self.index)
        &&& self.undo.len() <= UNDO_CAPACITY
        &&& all_snapshots_wf(self.undo)
        &&& all_snapshots_wf(self.redo)
        &&& self.dirty ==> self.focal is Some
        &&& self.focal matches Some(f) ==> {
            &&& f.wf()
            &&& self.index.contains_key(f.id@)
            &&& self.index[f.id@] == summary_of(f)
        }
    }

    /// After an edit of the focal document that leaves `f`: the old version
    /// is recorded for undo, redo is forgotten, `f` is focal, unsaved and
    /// indexed.
    pub open spec fn edited(self, f: InvoiceModel) -> EngineModel {
        EngineModel {
            settings: self.settings,
            index: self.index.insert(f.id@, summary_of(f)),
            focal: Some(f),
            undo: bounded_push(self.undo, snapshot_of(self.focal.unwrap())),
            redo: Seq::<SnapshotModel>::empty(),
            last_save_time: self.last_save_time,
            dirty: true,
        }
    }

    /// The state after a successful undo.
    pub open spec fn undone(self) -> EngineModel {
        let back = self.undo.last().invoice;
        EngineModel {
            settings: self.settings,
            index: self.index.insert(back.id@, summary_of(back)),
            focal: Some(back),
            undo: self.undo.drop_last(),
            redo: match self.focal {
                Some(f) => self.redo.push(snapshot_of(f)),
                None => self.redo,
            },
            last_save_time: self.last_save_time,
            dirty: true,
        }
    }

    /// The state after a successful redo.
    pub open spec fn redone(self) -> EngineModel {
        let fwd = self.redo.last().invoice;
        EngineModel {
            settings: self.settings,
            index: self.index.insert(fwd.id@, summary_of(fwd)),
            focal: Some(fwd),
            undo: match self.focal {
                Some(f) => bounded_push(self.undo, snapshot_of(f)),
                None => self.undo,
            },
            redo: self.redo.drop_last(),
            last_save_time: self.last_save_time,
            dirty: true,
        }
    }
}

/// What loading a document asks of the caller.
pub enum LoadStep {
    /// The document is focal already: here it is, nothing to read.
    Focal(Invoice),
    /// Read the document stored at this path and hand it to `install_invoice`.
    Read(String),
}

/// What storing the focal document takes: the two directories to create (if
/// missing) and the file to write the document to.
pub struct SavePlan {
    pub date_dir: String,
    pub document_dir: String,
    pub path: String,
    pub invoice: Invoice,
}

/// Where an attachment of the focal document goes.
pub struct ReceiptTarget {
    pub dir: String,
    pub path: String,
}

/// What an autosave tick calls for.
#[derive(Debug, Clone, Copy, PartialEq, Eq, Structural)]
pub enum AutosaveStatus {
    /// Nothing is unsaved.
    NoChanges,
    /// Changes are unsaved, but the last save is less than a second old.
    Waiting,
    /// Store the focal document now (see `save_current_invoice`).
    Save,
}

/// The index built from stored documents, later ones winning on equal ids;
/// invalid documents are passed over.
pub open spec fn rebuilt(docs: Seq<InvoiceModel>) -> Map<Seq<char>, InvoiceSummary>
    decreases docs.len(),
{
    if docs.len() == 0 {
        Map::<Seq<char>, InvoiceSummary>::empty()
    } else {
        let rest = rebuilt(docs.drop_last());
        let d = docs.last();
        if d.wf() {
            rest.insert(d.id@, summary_of(d))
        } else {
            rest
        }
    }
}

pub open spec fn doc_views(v: Seq<Invoice>) -> Seq<InvoiceModel> {
    v.map_values(|d: Invoice| d@)
}

impl EngineModel {
    /// The state after the document with this id was deleted: out of the
    /// index, and out of the focal slot if it was there.
    pub open spec fn deleted(self, id: Seq<char>) -> EngineModel {
        let clears = self.focal matches Some(f) && f.id@ == id;
        EngineModel {
            index: self.index.remove(id),
            focal: if clears {
                None
            } else {
                self.focal
            },
            dirty: if clears {
                false
            } else {
                self.dirty
            },
            ..self
        }
    }

    /// The state after the focal document was stored at time `now`.
    pub open spec fn saved(self, now: u64) -> EngineModel {
        EngineModel { dirty: false, last_save_time: now, ..self }
    }

    /// What an autosave tick at time `now` calls for.
    pub open spec fn autosave_status(self, now: u64) -> AutosaveStatus {
        if !self.dirty {
            AutosaveStatus::NoChanges
        } else if now > self.last_save_time {
            AutosaveStatus::Save
        } else {
            AutosaveStatus::Waiting
        }
    }
}

/// The single-writer engine.
pub struct AppState {
    settings: Option<InvoiceSettings>,
    invoices: DocumentIndex,
    current_invoice: Option<Invoice>,
    history: EditHistory,
    last_save_time: u64,
    has_unsaved_changes: bool,
}

pub open spec fn opt_view(o: Option<Invoice>) -> Option<InvoiceModel> {
    match o {
        Some(i) => Some(i@),
        None => None,
    }
}

impl View for AppState {
    type V = EngineModel;

    closed spec fn view(&self) -> EngineModel {
        EngineModel {
            settings: self.settings,
            index: self.invoices@,
            focal: opt_view(self.current_invoice),
            undo: self.history.undos(),
            redo: self.history.redos(),
            last_save_time: self.last_save_time,
            dirty: self.has_unsaved_changes,
        }
    }
}

/// The number a new document gets: the configured prefix and counter, or
/// `INV-` and one more than the number of indexed documents.
pub open spec fn next_number(settings: Option<InvoiceSettings>, count: nat) -> Seq<char> {
    match settings {
        Some(s) => s.invoice_number_prefix@ + padded(s.next_invoice_number as nat, 4),
        None => FALLBACK_PREFIX@ + padded(if count < u64::MAX { (count + 1) as nat } else { u64::MAX as nat }, 4),
    }
}

/// The settings after a number was drawn: the counter moves on by one,
/// wrapping at the end of its range.
pub open spec fn drawn(settings: Option<InvoiceSettings>) -> Option<InvoiceSettings> {
    match settings {
        Some(s) => Some(
            InvoiceSettings {
                next_invoice_number: if s.next_invoice_number == u32::MAX {
                    0
                } else {
                    (s.next_invoice_number + 1) as u32
                },
                ..s
            },
        ),
        None => None,
    }
}

/// `s` is the `YYYY-MM-DD` date of the day that holds second `secs`.
pub open spec fn is_date_of(s: Seq<char>, secs: u64) -> bool {
    exists|y: nat, m: nat, d: nat|
        is_date_of_day(secs as int / 86400, y as int, m as int, d as int) && s == date_text(y, m, d)
}

impl AppState {
    pub closed spec fn wf(&self) -> bool {
        &&& self.invoices.wf()
        &&& self.history.wf()
        &&& self@.wf()
    }

    /// The number of documents in the index.
    pub closed spec fn document_count(&self) -> nat {
        self.invoices.count()
    }

    /// An engine with no settings, no documents and no history.
    pub fn new() -> (r: AppState)
        ensures
            r.wf(),
            r@.settings is None,
            r@.index == Map::<Seq<char>, InvoiceSummary>::empty(),
            r.document_count() == 0,
            r@.focal is None,
            r@.undo == Seq::<SnapshotModel>::empty(),
            r@.redo == Seq::<SnapshotModel>::empty(),
            r@.last_save_time == 0,
            !r@.dirty,
    {
        let r = AppState {
            settings: None,
            invoices: DocumentIndex::new(),
            current_invoice: None,
            history: EditHistory::new(),
            last_save_time: 0,
            has_unsaved_changes: false,
        };
        proof {
            r.invoices.lemma_keyed_by_id();
        }
        r
    }

    pub proof fn lemma_wf(&self)
        requires
            self.wf(),
        ensures
            self@.wf(),
    {
    }

    pub fn get_settings(&self) -> (r: Option<InvoiceSettings>)
        ensures
            r == self@.settings,
    {
        match &self.settings {
            Some(s) => Some(s.duplicate()),
            None => None,
        }
    }

    /// Replaces the settings.
    pub fn update_settings(&mut self, settings: InvoiceSettings)
        requires
            old(self).wf(),
        ensures
            final(self).wf(),
            final(self)@ == (EngineModel { settings: Some(settings), ..old(self)@ }),
            final(self).document_count() == old(self).document_count(),
    {
        self.settings = Some(settings);
    }

    /// The focal document, if one is loaded.
    pub fn current_invoice(&self) -> (r: Option<&Invoice>)
        ensures
            r is Some <==> self@.focal is Some,
            r matches Some(i) ==> self@.focal == Some(i@),
    {
        match &self.current_invoice {
            Some(i) => Some(i),
            None => None,
        }
    }

    /// Whether the focal document has changes not yet stored.
    pub fn has_unsaved_changes(&self) -> (r: bool)
        ensures
            r == self@.dirty,
    {
        self.has_unsaved_changes
    }

    pub fn can_undo(&self) -> (r: bool)
        requires
            self.wf(),
        ensures
            r == (self@.undo.len() > 0),
    {
        self.history.can_undo()
    }

    pub fn can_redo(&self) -> (r: bool)
        requires
            self.wf(),
        ensures
            r == (self@.redo.len() > 0),
    {
        self.history.can_redo()
    }

    /// The summaries in listing order: a function of the state, so listing
    /// twice with no change in between gives the same list.
    pub closed spec fn listing(&self) -> Seq<InvoiceSummary> {
        self.invoices.listing()
    }

    /// Every summary in the index, once each.
    pub fn list_invoices(&self) -> (r: Vec<InvoiceSummary>)
        requires
            self.wf(),
        ensures
            r@ == self.listing(),
            r@.len() == self.document_count(),
            r@.len() == self@.index.dom().len(),
            forall|i: int, j: int| 0 <= i < r@.len() && 0 <= j < r@.len() && i != j ==> (#[trigger] r@[i]).id@ != (#[trigger] r@[j]).id@,
            forall|i: int| 0 <= i < r@.len() ==> self@.index.contains_key((#[trigger] r@[i]).id@) && self@.index[r@[i].id@] == r@[i],
            forall|k: Seq<char>| #[trigger] self@.index.contains_key(k) ==> exists|i: int| 0 <= i < r@.len() && (#[trigger] r@[i]).id@ == k,
    {
        self.invoices.list()
    }

    /// Files the summary of the focal document, restoring the invariant
    /// after the focal slot was given a new value.
    fn index_focal(&mut self)
        requires
            old(self).invoices.wf(),
            old(self).history.wf(),
            keyed_by_id(old(self)@.index),
            all_snapshots_wf(old(self)@.undo),
            all_snapshots_wf(old(self)@.redo),
            old(self).current_invoice is Some,
            old(self).current_invoice->0.wf(),
        ensures
            final(self).wf(),
            final(self)@ == (EngineModel {
                index: old(self)@.index.insert(old(self)@.focal.unwrap().id@, summary_of(old(self)@.focal.unwrap())),
                ..old(self)@
            }),
            final(self).document_count() == old(self).document_count() + if old(self)@.index.contains_key(old(self)@.focal.unwrap().id@) {
                0nat
            } else {
                1nat
            },
    {
        match &self.current_invoice {
            Some(inv) => {
                let s = summary_for(inv);
                self.invoices.upsert(s);
            },
            None => {},
        }
        proof {
            self.invoices.lemma_keyed_by_id();
        }
    }

    /// Records the focal document for undo, then installs `f` in its place,
    /// unsaved, with its summary filed.
    fn commit_edit(&mut self, f: Invoice)
        requires
            old(self).wf(),
            old(self)@.focal is Some,
            f.wf(),
            f@.id@ == old(self)@.focal.unwrap().id@,
        ensures
            final(self).wf(),
            final(self)@ == old(self)@.edited(f@),
            final(self).document_count() == old(self).document_count(),
    {
        if let Some(c) = &self.current_invoice {
            let snap = InvoiceSnapshot::of(c);
            self.history.record_for_undo(snap);
        }
        proof {
            lemma_push_wf(old(self)@.undo, snapshot_of(old(self)@.focal.unwrap()));
        }
        self.current_invoice = Some(f);
        self.has_unsaved_changes = true;
        self.index_focal();
    }

    /// Starts a new document: numbered from the settings (whose counter moves
    /// on) or from the number of indexed documents, identified by the time and
    /// its number (with `-1`, `-2`, ... added where that id is taken), dated the day of `now`, with the contacts and payment
    /// details of the settings. It becomes the focal document, unsaved, and its
    /// summary is filed.
    pub fn create_invoice(&mut self, now: u64) -> (r: Invoice)
        requires
            old(self).wf(),
        ensures
            final(self).wf(),
            r.wf(),
            r.number@ == next_number(old(self)@.settings, old(self).document_count()),
            !old(self)@.index.contains_key(r.id@),
            exists|k: nat|
                r.id@ == candidate(decimal(now as nat) + seq!['-'] + r.number@, k) && forall|j: nat|
                    j < k ==> old(self)@.index.contains_key(#[trigger] candidate(decimal(now as nat) + seq!['-'] + r.number@, j)),
            final(self).document_count() == old(self).document_count() + 1,
            is_date_of(r.date@, now),
            r.name is None,
            r.due_date is None,
            old(self)@.settings matches Some(s) ==> {
                &&& r.invoicer == s.invoicer
                &&& r.invoicee == s.invoicee
                &&& r.payment_info == s.payment_info
                &&& r.payment_image_path == s.payment_image_path
            },
            old(self)@.settings is None ==> {
                &&& r.invoicer.is_blank()
                &&& r.invoicee.is_blank()
                &&& r.payment_info is None
                &&& r.payment_image_path is None
            },
            r.line_items@.len() == 0,
            r.discount_percent == 0,
            r.tax_percent == 0,
            r.notes is None,
            r.status == InvoiceStatus::Draft,
            r.created_at == now,
            r.updated_at == now,
            total(r@) == 0,
            final(self)@ == (EngineModel {
                settings: drawn(old(self)@.settings),
                index: old(self)@.index.insert(r.id@, summary_of(r@)),
                focal: Some(r@),
                dirty: true,
                ..old(self)@
            }),
    {
        let (invoicer, invoicee, payment_info, payment_image_path) = match &self.settings {
            Some(s) => (
                s.invoicer.duplicate(),
                s.invoicee.duplicate(),
                copy_opt(&s.payment_info),
                copy_opt(&s.payment_image_path),
            ),
            None => (ContactInfo::blank(), ContactInfo::blank(), None, None),
        };
        let number = match &self.settings {
            Some(s) => {
                let digits = padded_string(s.next_invoice_number as u64, 4);
                let n = s.invoice_number_prefix.clone().concat(digits.as_str());
                let mut next = s.duplicate();
                next.next_invoice_number = if s.next_invoice_number == u32::MAX {
                    0
                } else {
                    s.next_invoice_number + 1
                };
                self.settings = Some(next);
                n
            },
            None => {
                let c = self.invoices.len() as u64;
                let k: u64 = if c < u64::MAX {
                    c + 1
                } else {
                    u64::MAX
                };
                let digits = padded_string(k, 4);
                String::from_str(FALLBACK_PREFIX).concat(digits.as_str())
            },
        };
        let mut base = decimal_string(now);
        base.append("-");
        base.append(number.as_str());
        proof {
            reveal_strlit("-");
            assert(base@ =~= decimal(now as nat) + seq!['-'] + number@);
        }
        let id = self.invoices.fresh_id(base.as_str());
        let date = date_of_timestamp(now);
        let invoice = Invoice {
            id,
            number,
            name: None,
            date,
            due_date: None,
            invoicer,
            invoicee,
            line_items: Vec::new(),
            discount_percent: 0,
            tax_percent: 0,
            notes: None,
            payment_info,
            payment_image_path,
            status: InvoiceStatus::Draft,
            created_at: now,
            updated_at: now,
        };
        assert(invoice@.line_items =~= Seq::<LineItem>::empty());
        assert(total(invoice@) == 0);
        self.current_invoice = Some(invoice.duplicate());
        self.has_unsaved_changes = true;
        self.index_focal();
        invoice
    }

    /// Appends a fresh line item (quantity one, nothing else set, an id no
    /// other item of the document carries; see `is_fresh_item`) to the focal
    /// document, as an edit stamped at `now_millis / 1000` seconds.
    pub fn add_line_item(&mut self, now_millis: u64) -> (r: Result<Invoice, InvoiceError>)
        requires
            old(self).wf(),
        ensures
            final(self).wf(),
            final(self).document_count() == old(self).document_count(),
            match old(self)@.focal {
                None => r == Err::<Invoice, InvoiceError>(InvoiceError::NoFocalDocument) && final(self)@ == old(self)@,
                Some(c) => if c.line_items.len() >= MAX_LINE_ITEMS {
                    r == Err::<Invoice, InvoiceError>(InvoiceError::TooManyItems) && final(self)@ == old(self)@
                } else {
                    &&& r is Ok
                    &&& r->Ok_0@.line_items.len() == c.line_items.len() + 1
                    &&& r->Ok_0@.line_items.drop_last() == c.line_items
                    &&& is_fresh_item(r->Ok_0@.line_items.last(), c.line_items, now_millis)
                    &&& r->Ok_0@ == with_items(c, r->Ok_0@.line_items, (now_millis / 1000) as u64)
                    &&& final(self)@ == old(self)@.edited(r->Ok_0@)
                },
            },
    {
        let c = match &self.current_invoice {
            Some(c) => c,
            None => return Err(InvoiceError::NoFocalDocument),
        };
        if c.line_items.len() >= MAX_LINE_ITEMS {
            return Err(InvoiceError::TooManyItems);
        }
        let mut f = c.duplicate();
        let mut base = String::from_str(ITEM_ID_PREFIX);
        let digits = decimal_string(now_millis);
        base.append(digits.as_str());
        let id = fresh_item_id(&c.line_items, base.as_str());
        let item = LineItem {
            id,
            description: String::new(),
            quantity: 100,
            rate: 0,
            discount_percent: 0,
            receipt_path: None,
        };
        f.line_items.push(item);
        f.updated_at = now_millis / 1000;
        proof {
            let items = f.line_items@;
            assert(items.drop_last() =~= old(self)@.focal.unwrap().line_items);
        }
        let out = f.duplicate();
        self.commit_edit(f);
        Ok(out)
    }

    /// Replaces the first line item with id `item_id` by `updates`, as an
    /// edit of the focal document stamped `now`. Nothing changes on failure.
    pub fn update_line_item(&mut self, item_id: &str, updates: LineItem, now: u64) -> (r: Result<Invoice, InvoiceError>)
        requires
            old(self).wf(),
        ensures
            final(self).wf(),
            final(self).document_count() == old(self).document_count(),
            r is Err ==> final(self)@ == old(self)@,
            match old(self)@.focal {
                None => r == Err::<Invoice, InvoiceError>(InvoiceError::NoFocalDocument),
                Some(c) => if !has_item(c.line_items, item_id@) {
                    r == Err::<Invoice, InvoiceError>(InvoiceError::ItemNotFound)
                } else {
                    &&& r is Ok
                    &&& r->Ok_0@ == with_items(c, c.line_items.update(first_match(c.line_items, item_id@), updates), now)
                    &&& final(self)@ == old(self)@.edited(r->Ok_0@)
                },
            },
    {
        let c = match &self.current_invoice {
            Some(c) => c,
            None => return Err(InvoiceError::NoFocalDocument),
        };
        let key = String::from_str(item_id);
        let i = match find_item(&c.line_items, &key) {
            Some(i) => i,
            None => return Err(InvoiceError::ItemNotFound),
        };
        let mut f = c.duplicate();
        f.line_items.set(i, updates);
        f.updated_at = now;
        let out = f.duplicate();
        self.commit_edit(f);
        Ok(out)
    }

    /// Removes every line item with id `item_id`, as an edit of the focal
    /// document stamped `now`. Nothing changes on failure.
    pub fn delete_line_item(&mut self, item_id: &str, now: u64) -> (r: Result<Invoice, InvoiceError>)
        requires
            old(self).wf(),
        ensures
            final(self).wf(),
            final(self).document_count() == old(self).document_count(),
            r is Err ==> final(self)@ == old(self)@,
            match old(self)@.focal {
                None => r == Err::<Invoice, InvoiceError>(InvoiceError::NoFocalDocument),
                Some(c) => if !has_item(c.line_items, item_id@) {
                    r == Err::<Invoice, InvoiceError>(InvoiceError::ItemNotFound)
                } else {
                    &&& r is Ok
                    &&& r->Ok_0@ == with_items(c, without_item(c.line_items, item_id@), now)
                    &&& final(self)@ == old(self)@.edited(r->Ok_0@)
                },
            },
    {
        let c = match &self.current_invoice {
            Some(c) => c,
            None => return Err(InvoiceError::NoFocalDocument),
        };
        let key = String::from_str(item_id);
        if find_item(&c.line_items, &key).is_none() {
            return Err(InvoiceError::ItemNotFound);
        }
        let mut f = c.duplicate();
        f.line_items = remove_items(&c.line_items, &key);
        f.updated_at = now;
        proof {
            lemma_without_item_len(old(self)@.focal.unwrap().line_items, item_id@);
        }
        let out = f.duplicate();
        self.commit_edit(f);
        Ok(out)
    }

    /// Puts the line items in the order of `item_ids`, as `reordered` says,
    /// as an edit of the focal document stamped `now`. Nothing changes on
    /// failure.
    pub fn reorder_line_items(&mut self, item_ids: &Vec<String>, now: u64) -> (r: Result<Invoice, InvoiceError>)
        requires
            old(self).wf(),
        ensures
            final(self).wf(),
            final(self).document_count() == old(self).document_count(),
            r is Err ==> final(self)@ == old(self)@,
            match old(self)@.focal {
                None => r == Err::<Invoice, InvoiceError>(InvoiceError::NoFocalDocument),
                Some(c) => if reordered(c.line_items, id_views(item_ids@)).len() > MAX_LINE_ITEMS {
                    r == Err::<Invoice, InvoiceError>(InvoiceError::TooManyItems)
                } else {
                    &&& r is Ok
                    &&& r->Ok_0@ == with_items(c, reordered(c.line_items, id_views(item_ids@)), now)
                    &&& final(self)@ == old(self)@.edited(r->Ok_0@)
                },
            },
    {
        let c = match &self.current_invoice {
            Some(c) => c,
            None => return Err(InvoiceError::NoFocalDocument),
        };
        let items = reorder_items(&c.line_items, item_ids);
        if items.len() > MAX_LINE_ITEMS {
            return Err(InvoiceError::TooManyItems);
        }
        let mut f = c.duplicate();
        f.line_items = items;
        f.updated_at = now;
        let out = f.duplicate();
        self.commit_edit(f);
        Ok(out)
    }

    /// Records an attachment stored at `receipt_path` on the first line item
    /// with id `item_id`, as `receipt_attached` says, as an edit of the focal
    /// document stamped `now`. Nothing changes on failure.
    pub fn upload_receipt(&mut self, item_id: &str, file_name: &str, receipt_path: String, now: u64) -> (r: Result<Invoice, InvoiceError>)
        requires
            old(self).wf(),
        ensures
            final(self).wf(),
            final(self).document_count() == old(self).document_count(),
            r is Err ==> final(self)@ == old(self)@,
            match old(self)@.focal {
                None => r == Err::<Invoice, InvoiceError>(InvoiceError::NoFocalDocument),
                Some(c) => if !has_item(c.line_items, item_id@) {
                    r == Err::<Invoice, InvoiceError>(InvoiceError::ItemNotFound)
                } else {
                    let i = first_match(c.line_items, item_id@);
                    &&& r is Ok
                    &&& r->Ok_0@.line_items.len() == c.line_items.len()
                    &&& r->Ok_0@.line_items == c.line_items.update(i, r->Ok_0@.line_items[i])
                    &&& receipt_attached(c.line_items[i], r->Ok_0@.line_items[i], file_name@, receipt_path)
                    &&& r->Ok_0@ == with_items(c, r->Ok_0@.line_items, now)
                    &&& final(self)@ == old(self)@.edited(r->Ok_0@)
                },
            },
    {
        let c = match &self.current_invoice {
            Some(c) => c,
            None => return Err(InvoiceError::NoFocalDocument),
        };
        let key = String::from_str(item_id);
        let i = match find_item(&c.line_items, &key) {
            Some(i) => i,
            None => return Err(InvoiceError::ItemNotFound),
        };
        let before = &c.line_items[i];
        let placeholder = String::from_str(PLACEHOLDER_DESCRIPTION);
        let description = if before.description.as_str().is_empty() || before.description == placeholder {
            file_stem_of(file_name)
        } else {
            before.description.clone()
        };
        let item = LineItem {
            id: before.id.clone(),
            description,
            quantity: before.quantity,
            rate: before.rate,
            discount_percent: before.discount_percent,
            receipt_path: Some(receipt_path),
        };
        let mut f = c.duplicate();
        f.line_items.set(i, item);
        f.updated_at = now;
        proof {
            let items = f.line_items@;
            let old_items = old(self)@.focal.unwrap().line_items;
            assert(items =~= old_items.update(i as int, items[i as int]));
        }
        let out = f.duplicate();
        self.commit_edit(f);
        Ok(out)
    }

    /// Replaces the focal document by a whole new version of it (same id),
    /// stamped `now`, as an edit. Nothing changes on failure: an invalid
    /// payload, no focal document, or a payload for another document.
    pub fn update_invoice(&mut self, updates: Invoice, now: u64) -> (r: Result<Invoice, InvoiceError>)
        requires
            old(self).wf(),
        ensures
            final(self).wf(),
            final(self).document_count() == old(self).document_count(),
            r is Err ==> final(self)@ == old(self)@,
            !updates.wf() ==> r == Err::<Invoice, InvoiceError>(InvoiceError::SerializationError),
            updates.wf() ==> match old(self)@.focal {
                None => r == Err::<Invoice, InvoiceError>(InvoiceError::NoFocalDocument),
                Some(c) => if c.id@ != updates.id@ {
                    r == Err::<Invoice, InvoiceError>(InvoiceError::NotFound)
                } else {
                    &&& r is Ok
                    &&& r->Ok_0@ == (InvoiceModel { updated_at: now, ..updates@ })
                    &&& final(self)@ == old(self)@.edited(r->Ok_0@)
                },
            },
    {
        if !updates.is_valid() {
            return Err(InvoiceError::SerializationError);
        }
        match &self.current_invoice {
            Some(c) => {
                if c.id != updates.id {
                    return Err(InvoiceError::NotFound);
                }
            },
            None => return Err(InvoiceError::NoFocalDocument),
        }
        let mut f = updates;
        f.updated_at = now;
        let out = f.duplicate();
        self.commit_edit(f);
        Ok(out)
    }

    /// Steps back: the newest undo snapshot becomes the focal document
    /// (unsaved, its summary refiled), and the focal document it replaces, if
    /// any, is pushed for redo.
    pub fn undo(&mut self) -> (r: Result<Invoice, InvoiceError>)
        requires
            old(self).wf(),
        ensures
            final(self).wf(),
            old(self)@.undo.len() == 0 ==> r == Err::<Invoice, InvoiceError>(InvoiceError::NothingToUndo)
                && final(self)@ == old(self)@ && final(self).document_count() == old(self).document_count(),
            old(self)@.undo.len() > 0 ==> r is Ok && r->Ok_0@ == old(self)@.undo.last().invoice
                && final(self)@ == old(self)@.undone(),
    {
        let snap = match self.history.pop_undo() {
            Some(s) => s,
            None => return Err(InvoiceError::NothingToUndo),
        };
        if let Some(c) = &self.current_invoice {
            self.history.push_redo(InvoiceSnapshot::of(c));
        }
        proof {
            let u = old(self)@.undo;
            assert(u.last() == u[u.len() - 1]);
            lemma_push_wf(u, u.last());
            if old(self)@.focal is Some {
                lemma_push_wf(old(self)@.redo, snapshot_of(old(self)@.focal.unwrap()));
            }
        }
        let back = snap.invoice;
        let out = back.duplicate();
        self.current_invoice = Some(back);
        self.has_unsaved_changes = true;
        self.index_focal();
        Ok(out)
    }

    /// Steps forward again: the newest redo snapshot becomes the focal
    /// document (unsaved, its summary refiled), and the focal document it
    /// replaces, if any, is pushed for undo.
    pub fn redo(&mut self) -> (r: Result<Invoice, InvoiceError>)
        requires
            old(self).wf(),
        ensures
            final(self).wf(),
            old(self)@.redo.len() == 0 ==> r == Err::<Invoice, InvoiceError>(InvoiceError::NothingToRedo)
                && final(self)@ == old(self)@ && final(self).document_count() == old(self).document_count(),
            old(self)@.redo.len() > 0 ==> r is Ok && r->Ok_0@ == old(self)@.redo.last().invoice
                && final(self)@ == old(self)@.redone(),
    {
        let snap = match self.history.pop_redo() {
            Some(s) => s,
            None => return Err(InvoiceError::NothingToRedo),
        };
        if let Some(c) = &self.current_invoice {
            self.history.push_undo(InvoiceSnapshot::of(c));
        }
        proof {
            let d = old(self)@.redo;
            assert(d.last() == d[d.len() - 1]);
            lemma_push_wf(d, d.last());
            if old(self)@.focal is Some {
                lemma_push_wf(old(self)@.undo, snapshot_of(old(self)@.focal.unwrap()));
            }
        }
        let fwd = snap.invoice;
        let out = fwd.duplicate();
        self.current_invoice = Some(fwd);
        self.has_unsaved_changes = true;
        self.index_focal();
        Ok(out)
    }

    /// An engine started over stored documents: the index holds the summary
    /// of each valid one (see `rebuilt`), the settings are those given, and
    /// nothing is focal.
    pub fn initialize(settings: Option<InvoiceSettings>, stored: Vec<Invoice>) -> (r: AppState)
        ensures
            r.wf(),
            r@ == (EngineModel {
                settings: settings,
                index: rebuilt(doc_views(stored@)),
                focal: None,
                undo: Seq::<SnapshotModel>::empty(),
                redo: Seq::<SnapshotModel>::empty(),
                last_save_time: 0,
                dirty: false,
            }),
    {
        let mut r = AppState::new();
        let ghost docs = doc_views(stored@);
        assert(rebuilt(docs.subrange(0, 0)) == Map::<Seq<char>, InvoiceSummary>::empty());
        let mut i: usize = 0;
        while i < stored.len()
            invariant
                i <= stored@.len(),
                docs == doc_views(stored@),
                r.wf(),
                r@ == (EngineModel {
                    settings: None,
                    index: rebuilt(docs.subrange(0, i as int)),
                    focal: None,
                    undo: Seq::<SnapshotModel>::empty(),
                    redo: Seq::<SnapshotModel>::empty(),
                    last_save_time: 0,
                    dirty: false,
                }),
            decreases stored@.len() - i,
        {
            proof {
                let next = docs.subrange(0, i as int + 1);
                assert(next.drop_last() =~= docs.subrange(0, i as int));
                assert(next.last() == stored@[i as int]@);
            }
            let d = &stored[i];
            if d.is_valid() {
                let s = summary_for(d);
                r.invoices.upsert(s);
                proof {
                    r.invoices.lemma_keyed_by_id();
                }
            }
            i = i + 1;
        }
        assert(docs.subrange(0, stored@.len() as int) =~= docs);
        r.settings = settings;
        r
    }

    /// The first step of loading the document with this id: if it is focal,
    /// it is handed back; if the index knows it, the caller is told where it
    /// is stored; otherwise it is not found.
    pub fn get_invoice(&self, root: &str, id: &str) -> (r: Result<LoadStep, InvoiceError>)
        requires
            self.wf(),
        ensures
            (self@.focal matches Some(f) && f.id@ == id@) ==> (r matches Ok(LoadStep::Focal(d)) && d@ == self@.focal.unwrap()),
            !(self@.focal matches Some(f) && f.id@ == id@) ==> if self@.index.contains_key(id@) {
                r matches Ok(LoadStep::Read(p)) && p@ == summary_path(root@, self@.index[id@])
            } else {
                r == Err::<LoadStep, InvoiceError>(InvoiceError::NotFound)
            },
    {
        if let Some(c) = &self.current_invoice {
            let key = String::from_str(id);
            if c.id == key {
                return Ok(LoadStep::Focal(c.duplicate()));
            }
        }
        match self.invoices.get(id) {
            Some(summary) => Ok(LoadStep::Read(summary_path_for(root, summary))),
            None => Err(InvoiceError::NotFound),
        }
    }

    /// The second step of loading: `stored` is what was read (`None` where
    /// the file was missing or did not parse). A valid document becomes the
    /// focal document, as stored (nothing unsaved), and its summary is filed.
    pub fn install_invoice(&mut self, stored: Option<Invoice>) -> (r: Result<Invoice, InvoiceError>)
        requires
            old(self).wf(),
        ensures
            final(self).wf(),
            match stored {
                Some(d) if d.wf() => {
                    &&& r is Ok
                    &&& r->Ok_0@ == d@
                    &&& final(self)@ == (EngineModel {
                        index: old(self)@.index.insert(d.id@, summary_of(d@)),
                        focal: Some(d@),
                        dirty: false,
                        ..old(self)@
                    })
                },
                _ => r == Err::<Invoice, InvoiceError>(InvoiceError::NotFound) && final(self)@ == old(self)@
                    && final(self).document_count() == old(self).document_count(),
            },
    {
        match stored {
            Some(d) => {
                if !d.is_valid() {
                    return Err(InvoiceError::NotFound);
                }
                let out = d.duplicate();
                self.current_invoice = Some(d);
                self.has_unsaved_changes = false;
                self.index_focal();
                Ok(out)
            },
            None => Err(InvoiceError::NotFound),
        }
    }

    /// Deletes the document with this id from the index (and from the focal
    /// slot if it is there), and says where its file is, for the caller to
    /// remove.
    pub fn delete_invoice(&mut self, root: &str, id: &str) -> (r: Result<String, InvoiceError>)
        requires
            old(self).wf(),
        ensures
            final(self).wf(),
            !old(self)@.index.contains_key(id@) ==> r == Err::<String, InvoiceError>(InvoiceError::NotFound)
                && final(self)@ == old(self)@ && final(self).document_count() == old(self).document_count(),
            old(self)@.index.contains_key(id@) ==> {
                &&& r is Ok
                &&& r->Ok_0@ == summary_path(root@, old(self)@.index[id@])
                &&& final(self)@ == old(self)@.deleted(id@)
                &&& final(self).document_count() + 1 == old(self).document_count()
            },
    {
        let summary = match self.invoices.remove(id) {
            Some(s) => s,
            None => {
                assert(old(self)@.index.remove(id@) =~= old(self)@.index);
                return Err(InvoiceError::NotFound);
            },
        };
        proof {
            self.invoices.lemma_keyed_by_id();
        }
        let path = summary_path_for(root, &summary);
        let clears = match &self.current_invoice {
            Some(c) => c.id == summary.id,
            None => false,
        };
        proof {
            old(self).invoices.lemma_keyed_by_id();
        }
        if clears {
            self.current_invoice = None;
            self.has_unsaved_changes = false;
        }
        Ok(path)
    }

    /// What storing the focal document takes, where it has unsaved changes.
    pub fn save_current_invoice(&self, root: &str) -> (r: Option<SavePlan>)
        requires
            self.wf(),
        ensures
            r is Some <==> self@.dirty,
            r matches Some(p) ==> {
                let f = self@.focal.unwrap();
                &&& p.invoice@ == f
                &&& p.path@ == path_for(root@, f)
                &&& p.date_dir@ == join(root@, f.date@)
                &&& p.document_dir@ == document_dir(root@, f.date@, crate::paths::dir_name(f.name, f.number))
            },
    {
        if !self.has_unsaved_changes {
            return None;
        }
        match &self.current_invoice {
            Some(c) => Some(
                SavePlan {
                    date_dir: join_path(root, c.date.as_str()),
                    document_dir: invoice_dir_path(root, c),
                    path: invoice_path(root, c),
                    invoice: c.duplicate(),
                },
            ),
            None => None,
        }
    }

    /// Notes that the focal document was stored at time `now`.
    pub fn mark_saved(&mut self, now: u64)
        requires
            old(self).wf(),
        ensures
            final(self).wf(),
            final(self)@ == old(self)@.saved(now),
            final(self).document_count() == old(self).document_count(),
    {
        self.has_unsaved_changes = false;
        self.last_save_time = now;
    }

    /// Whether an autosave tick at time `now` should store the focal
    /// document: only with unsaved changes, and a second after the last save.
    pub fn check_autosave(&self, now: u64) -> (r: AutosaveStatus)
        ensures
            r == self@.autosave_status(now),
    {
        if !self.has_unsaved_changes {
            AutosaveStatus::NoChanges
        } else if now > self.last_save_time {
            AutosaveStatus::Save
        } else {
            AutosaveStatus::Waiting
        }
    }

    /// Where an attachment named `file_name` for the line item `item_id` of
    /// the focal document is stored: in the document's `receipts` directory.
    pub fn receipt_target(&self, root: &str, item_id: &str, file_name: &str) -> (r: Result<ReceiptTarget, InvoiceError>)
        requires
            self.wf(),
        ensures
            match self@.focal {
                None => r == Err::<ReceiptTarget, InvoiceError>(InvoiceError::NoFocalDocument),
                Some(c) => if !has_item(c.line_items, item_id@) {
                    r == Err::<ReceiptTarget, InvoiceError>(InvoiceError::ItemNotFound)
                } else {
                    &&& r is Ok
                    &&& r->Ok_0.dir@ == receipts_dir(root@, c)
                    &&& r->Ok_0.path@ == join(receipts_dir(root@, c), file_name@)
                },
            },
    {
        let c = match &self.current_invoice {
            Some(c) => c,
            None => return Err(InvoiceError::NoFocalDocument),
        };
        let key = String::from_str(item_id);
        if find_item(&c.line_items, &key).is_none() {
            return Err(InvoiceError::ItemNotFound);
        }
        let dir = receipts_dir_path(root, c);
        let path = join_path(dir.as_str(), file_name);
        Ok(ReceiptTarget { dir, path })
    }
}

proof fn lemma_push_wf(s: Seq<SnapshotModel>, x: SnapshotModel)
    requires
        all_snapshots_wf(s),
        x.invoice.wf(),
        x == snapshot_of(x.invoice),
    ensures
        all_snapshots_wf(bounded_push(s, x)),
        all_snapshots_wf(s.push(x)),
        s.len() > 0 ==> all_snapshots_wf(s.drop_last()),
{
    let t = s.push(x);
    assert forall|i: int| 0 <= i < t.len() implies (#[trigger] t[i]).invoice.wf() && t[i] == snapshot_of(t[i].invoice) by {
        if i < s.len() {
            assert(t[i] == s[i]);
        }
    }
    if t.len() > UNDO_CAPACITY {
        let u = t.subrange(1, t.len() as int);
        assert forall|i: int| 0 <= i < u.len() implies (#[trigger] u[i]).invoice.wf() && u[i] == snapshot_of(u[i].invoice) by {
            assert(u[i] == t[i + 1]);
        }
    }
    if s.len() > 0 {
        let d = s.drop_last();
        assert forall|i: int| 0 <= i < d.len() implies (#[trigger] d[i]).invoice.wf() && d[i] == snapshot_of(d[i].invoice) by {
            assert(d[i] == s[i]);
        }
    }
}

} // verus!