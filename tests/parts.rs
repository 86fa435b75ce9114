use invoice::history::{EditHistory, UNDO_CAPACITY};
use invoice::index::DocumentIndex;
use invoice::model::{ContactInfo, Invoice, InvoiceSnapshot, InvoiceStatus, InvoiceSummary};

fn document(updated_at: u64) -> Invoice {
    Invoice {
        id: "d".to_string(),
        number: "INV-0001".to_string(),
        name: None,
        date: "2024-01-01".to_string(),
        due_date: None,
        invoicer: ContactInfo::blank(),
        invoicee: ContactInfo::blank(),
        line_items: Vec::new(),
        discount_percent: 0,
        tax_percent: 0,
        notes: None,
        payment_info: None,
        payment_image_path: None,
        status: InvoiceStatus::Draft,
        created_at: 0,
        updated_at,
    }
}

fn summary(id: &str, total: i128) -> InvoiceSummary {
    InvoiceSummary {
        id: id.to_string(),
        number: "n".to_string(),
        name: None,
        date: "2024-01-01".to_string(),
        total,
        status: InvoiceStatus::Sent,
    }
}

#[test]
fn history_evicts_oldest() {
    let mut h = EditHistory::new();
    for t in 0..(UNDO_CAPACITY as u64 + 1) {
        h.record_for_undo(InvoiceSnapshot::of(&document(t)));
    }
    let mut seen = Vec::new();
    while let Some(s) = h.pop_undo() {
        assert_eq!(s.timestamp, s.invoice.updated_at);
        seen.push(s.timestamp);
    }
    assert_eq!(seen.len(), UNDO_CAPACITY);
    assert_eq!(seen[0], UNDO_CAPACITY as u64);
    assert_eq!(*seen.last().unwrap(), 1);
}

#[test]
fn history_record_clears_redo() {
    let mut h = EditHistory::new();
    assert!(!h.can_undo() && !h.can_redo());
    h.push_redo(InvoiceSnapshot::of(&document(1)));
    assert!(h.can_redo());
    h.record_for_undo(InvoiceSnapshot::of(&document(2)));
    assert!(h.can_undo());
    assert!(!h.can_redo());
    assert!(h.pop_redo().is_none());
    assert_eq!(h.pop_undo().unwrap().timestamp, 2);
}

#[test]
fn index_last_writer_wins() {
    let mut idx = DocumentIndex::new();
    idx.upsert(summary("a", 1));
    idx.upsert(summary("b", 2));
    idx.upsert(summary("a", 3));
    assert_eq!(idx.len(), 2);
    assert_eq!(idx.get("a").unwrap().total, 3);
    assert_eq!(idx.get("b").unwrap().total, 2);
    assert!(idx.get("c").is_none());
    let listed = idx.list();
    assert_eq!(listed.len(), 2);
    assert_eq!(listed, idx.list());
}

#[test]
fn index_remove_is_noop_when_absent() {
    let mut idx = DocumentIndex::new();
    idx.upsert(summary("a", 1));
    assert!(idx.remove("zzz").is_none());
    assert_eq!(idx.len(), 1);
    assert_eq!(idx.remove("a").unwrap().total, 1);
    assert_eq!(idx.len(), 0);
    assert!(idx.get("a").is_none());
}
