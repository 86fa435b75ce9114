use invoice::engine::{AppState, AutosaveStatus, LoadStep};
use invoice::history::UNDO_CAPACITY;
use invoice::model::{ContactInfo, Invoice, InvoiceError, InvoiceSettings, InvoiceStatus, LineItem, MAX_LINE_ITEMS};
use invoice::paths::invoice_path;

const ROOT: &str = "/pkg/invoice";
const NOW: u64 = 1709164800;

fn total_of(state: &AppState, id: &str) -> i128 {
    state.list_invoices().into_iter().find(|s| s.id == id).map(|s| s.total).expect("indexed")
}

fn settings() -> InvoiceSettings {
    InvoiceSettings {
        invoicer: ContactInfo {
            name: "Ada".to_string(),
            company: Some("Acme".to_string()),
            address: "1 Road".to_string(),
            email: None,
            phone: None,
            logo_path: None,
        },
        invoicee: ContactInfo::blank(),
        payment_info: Some("IBAN 123".to_string()),
        payment_image_path: None,
        invoice_number_prefix: "ACME-".to_string(),
        next_invoice_number: 7,
    }
}

#[test]
fn create_add_undo_redo_scenario() {
    let mut state = AppState::new();
    let created = state.create_invoice(NOW);
    assert_eq!(created.number, "INV-0001");
    assert_eq!(created.id, "1709164800-INV-0001");
    assert_eq!(created.date, "2024-02-29");
    assert_eq!(created.status, InvoiceStatus::Draft);
    assert_eq!(total_of(&state, &created.id), 0);

    // one edit that adds the line {qty 1, rate 100, discount 0}
    let mut next = created.clone();
    next.line_items.push(LineItem {
        id: "item-1".to_string(),
        description: String::new(),
        quantity: 100,
        rate: 10000,
        discount_percent: 0,
        receipt_path: None,
    });
    let updated = state.update_invoice(next, NOW + 5).unwrap();
    assert_eq!(updated.updated_at, NOW + 5);
    assert_eq!(total_of(&state, &created.id), 1_000_000_000_000_000_000);

    let back = state.undo().unwrap();
    assert_eq!(back, created);
    assert_eq!(back.line_items.len(), 0);
    assert_eq!(total_of(&state, &created.id), 0);

    let again = state.redo().unwrap();
    assert_eq!(again, updated);
    assert_eq!(total_of(&state, &created.id), 1_000_000_000_000_000_000);
}

#[test]
fn add_then_update_line_item() {
    let mut state = AppState::new();
    let created = state.create_invoice(NOW);
    let added = state.add_line_item(NOW * 1000 + 42).unwrap();
    assert_eq!(added.line_items.len(), 1);
    let item = &added.line_items[0];
    assert_eq!(item.id, "item-1709164800042");
    assert_eq!(item.quantity, 100);
    assert_eq!(item.rate, 0);
    assert_eq!(added.updated_at, NOW);
    let mut changed = item.clone();
    changed.rate = 10000;
    let after = state.update_line_item("item-1709164800042", changed, NOW + 1).unwrap();
    assert_eq!(after.line_items[0].rate, 10000);
    assert_eq!(total_of(&state, &created.id), 1_000_000_000_000_000_000);
    assert_eq!(state.undo().unwrap().line_items[0].rate, 0);
    assert_eq!(state.undo().unwrap().line_items.len(), 0);
    assert_eq!(state.undo(), Err(InvoiceError::NothingToUndo));
}

#[test]
fn numbers_from_settings() {
    let mut state = AppState::new();
    state.update_settings(settings());
    let created = state.create_invoice(NOW);
    assert_eq!(created.number, "ACME-0007");
    assert_eq!(created.invoicer.name, "Ada");
    assert_eq!(created.payment_info, Some("IBAN 123".to_string()));
    assert_eq!(state.get_settings().unwrap().next_invoice_number, 8);
    let second = state.create_invoice(NOW + 1);
    assert_eq!(second.number, "ACME-0008");
}

#[test]
fn fallback_numbers_count_documents() {
    let mut state = AppState::new();
    assert_eq!(state.create_invoice(NOW).number, "INV-0001");
    assert_eq!(state.create_invoice(NOW + 1).number, "INV-0002");
    assert_eq!(state.list_invoices().len(), 2);
}

#[test]
fn round_trip_through_fresh_engine() {
    let mut state = AppState::new();
    let created = state.create_invoice(NOW);
    state.add_line_item(NOW * 1000).unwrap();
    let plan = state.save_current_invoice(ROOT).expect("unsaved changes");
    assert_eq!(plan.path, invoice_path(ROOT, &plan.invoice));
    assert_eq!(plan.path, "/pkg/invoice/2024-02-29/INV-0001/document.json");
    assert_eq!(plan.date_dir, "/pkg/invoice/2024-02-29");
    assert_eq!(plan.document_dir, "/pkg/invoice/2024-02-29/INV-0001");
    let stored = plan.invoice.clone();

    let mut fresh = AppState::initialize(None, vec![stored.clone()]);
    assert!(fresh.current_invoice().is_none());
    match fresh.get_invoice(ROOT, &created.id) {
        Ok(LoadStep::Read(path)) => assert_eq!(path, plan.path),
        _ => panic!("expected a path to read"),
    }
    let loaded = fresh.install_invoice(Some(stored.clone())).unwrap();
    assert_eq!(loaded, stored);
    assert_eq!(fresh.current_invoice(), Some(&stored));
    assert!(!fresh.has_unsaved_changes());
    match fresh.get_invoice(ROOT, &created.id) {
        Ok(LoadStep::Focal(d)) => assert_eq!(d, stored),
        _ => panic!("expected the focal document"),
    }
}

fn too_long(mut d: Invoice) -> Invoice {
    d.line_items = (0..=MAX_LINE_ITEMS)
        .map(|i| LineItem {
            id: format!("i{}", i),
            description: String::new(),
            quantity: 100,
            rate: 100,
            discount_percent: 0,
            receipt_path: None,
        })
        .collect();
    d
}

#[test]
fn initialize_skips_invalid_documents() {
    let mut state = AppState::new();
    let good = state.create_invoice(NOW);
    let mut bad = too_long(good.clone());
    bad.id = "bad".to_string();
    let fresh = AppState::initialize(Some(settings()), vec![good.clone(), bad]);
    let listed = fresh.list_invoices();
    assert_eq!(listed.len(), 1);
    assert_eq!(listed[0].id, good.id);
    assert_eq!(fresh.get_settings().unwrap().invoice_number_prefix, "ACME-");
}

#[test]
fn load_errors() {
    let mut state = AppState::new();
    assert!(matches!(state.get_invoice(ROOT, "nope"), Err(InvoiceError::NotFound)));
    assert_eq!(state.install_invoice(None), Err(InvoiceError::NotFound));
    let created = state.create_invoice(NOW);
    let bad = too_long(created.clone());
    assert_eq!(state.install_invoice(Some(bad)), Err(InvoiceError::NotFound));
    assert_eq!(state.current_invoice(), Some(&created));
}

#[test]
fn save_twice_writes_once() {
    let mut state = AppState::new();
    state.create_invoice(NOW);
    let first = state.save_current_invoice(ROOT).expect("new document is unsaved");
    state.mark_saved(NOW);
    assert!(state.save_current_invoice(ROOT).is_none());
    assert!(!state.has_unsaved_changes());
    assert_eq!(state.current_invoice(), Some(&first.invoice));
}

#[test]
fn undo_keeps_fifty_steps() {
    let mut state = AppState::new();
    state.create_invoice(NOW);
    for k in 0..(UNDO_CAPACITY as u64 + 5) {
        state.add_line_item(NOW * 1000 + k).unwrap();
    }
    for _ in 0..UNDO_CAPACITY {
        assert!(state.undo().is_ok());
    }
    assert_eq!(state.current_invoice().unwrap().line_items.len(), 5);
    assert!(!state.can_undo());
    assert_eq!(state.undo(), Err(InvoiceError::NothingToUndo));
}

#[test]
fn undo_redo_inverse_over_many_edits() {
    let mut state = AppState::new();
    state.create_invoice(NOW);
    for k in 0..10u64 {
        state.add_line_item(NOW * 1000 + k).unwrap();
    }
    let after = state.current_invoice().unwrap().clone();
    for _ in 0..10 {
        state.undo().unwrap();
    }
    assert_eq!(state.current_invoice().unwrap().line_items.len(), 0);
    for _ in 0..10 {
        state.redo().unwrap();
    }
    assert_eq!(state.current_invoice(), Some(&after));
    assert_eq!(state.redo(), Err(InvoiceError::NothingToRedo));
}

#[test]
fn edit_after_undo_clears_redo() {
    let mut state = AppState::new();
    state.create_invoice(NOW);
    state.add_line_item(NOW * 1000).unwrap();
    state.undo().unwrap();
    assert!(state.can_redo());
    state.add_line_item(NOW * 1000 + 1).unwrap();
    assert!(!state.can_redo());
    assert_eq!(state.redo(), Err(InvoiceError::NothingToRedo));
}

#[test]
fn deleting_focal_document_empties_slot() {
    let mut state = AppState::new();
    let created = state.create_invoice(NOW);
    let path = state.delete_invoice(ROOT, &created.id).unwrap();
    assert_eq!(path, "/pkg/invoice/2024-02-29/INV-0001/document.json");
    assert!(state.current_invoice().is_none());
    assert!(state.list_invoices().is_empty());
    assert!(!state.has_unsaved_changes());
    assert_eq!(state.add_line_item(NOW * 1000), Err(InvoiceError::NoFocalDocument));
    assert_eq!(state.delete_invoice(ROOT, &created.id), Err(InvoiceError::NotFound));
}

#[test]
fn deleting_other_document_keeps_focal() {
    let mut state = AppState::new();
    let first = state.create_invoice(NOW);
    let second = state.create_invoice(NOW + 1);
    state.add_line_item(NOW * 1000).unwrap();
    let focal = state.current_invoice().unwrap().clone();
    let before = state.list_invoices().into_iter().find(|s| s.id == second.id).unwrap();
    state.delete_invoice(ROOT, &first.id).unwrap();
    assert_eq!(state.current_invoice(), Some(&focal));
    let listed = state.list_invoices();
    assert_eq!(listed.len(), 1);
    assert_eq!(listed[0], before);
}

#[test]
fn line_item_errors_change_nothing() {
    let mut state = AppState::new();
    assert_eq!(state.delete_line_item("x", NOW), Err(InvoiceError::NoFocalDocument));
    state.create_invoice(NOW);
    state.add_line_item(NOW * 1000).unwrap();
    let before = state.current_invoice().unwrap().clone();
    let item = before.line_items[0].clone();
    assert_eq!(state.update_line_item("missing", item.clone(), NOW), Err(InvoiceError::ItemNotFound));
    assert_eq!(state.delete_line_item("missing", NOW), Err(InvoiceError::ItemNotFound));
    assert_eq!(state.current_invoice(), Some(&before));
    // only the add can be undone: the failed calls recorded nothing
    state.undo().unwrap();
    assert_eq!(state.undo(), Err(InvoiceError::NothingToUndo));
}

#[test]
fn delete_and_reorder_line_items() {
    let mut state = AppState::new();
    state.create_invoice(NOW);
    for k in 0..3u64 {
        state.add_line_item(NOW * 1000 + k).unwrap();
    }
    let ids: Vec<String> = state.current_invoice().unwrap().line_items.iter().map(|i| i.id.clone()).collect();
    let reordered = state
        .reorder_line_items(&vec![ids[2].clone(), "unknown".to_string(), ids[0].clone()], NOW + 9)
        .unwrap();
    let got: Vec<String> = reordered.line_items.iter().map(|i| i.id.clone()).collect();
    assert_eq!(got, vec![ids[2].clone(), ids[0].clone()]);
    assert_eq!(reordered.updated_at, NOW + 9);
    let after = state.delete_line_item(&ids[2], NOW + 10).unwrap();
    assert_eq!(after.line_items.len(), 1);
    assert_eq!(after.line_items[0].id, ids[0]);
}

#[test]
fn too_many_line_items() {
    let mut state = AppState::new();
    let created = state.create_invoice(NOW);
    let mut full = created.clone();
    full.line_items = (0..MAX_LINE_ITEMS)
        .map(|i| LineItem {
            id: format!("i{}", i),
            description: String::new(),
            quantity: 100,
            rate: 100,
            discount_percent: 0,
            receipt_path: None,
        })
        .collect();
    state.update_invoice(full, NOW).unwrap();
    assert_eq!(state.add_line_item(NOW * 1000), Err(InvoiceError::TooManyItems));
    let twice: Vec<String> = (0..=MAX_LINE_ITEMS).map(|_| "i0".to_string()).collect();
    assert_eq!(state.reorder_line_items(&twice, NOW), Err(InvoiceError::TooManyItems));
}

#[test]
fn update_invoice_rejects_invalid_document() {
    let mut state = AppState::new();
    let created = state.create_invoice(NOW);
    let bad = too_long(created.clone());
    assert_eq!(state.update_invoice(bad, NOW), Err(InvoiceError::SerializationError));
    assert!(!state.can_undo());
}

#[test]
fn receipt_names_empty_description() {
    let mut state = AppState::new();
    state.create_invoice(NOW);
    let added = state.add_line_item(NOW * 1000).unwrap();
    let item_id = added.line_items[0].id.clone();
    assert_eq!(state.receipt_target(ROOT, "missing", "taxi.pdf").err(), Some(InvoiceError::ItemNotFound));
    let target = state.receipt_target(ROOT, &item_id, "taxi.pdf").unwrap();
    assert_eq!(target.dir, "/pkg/invoice/2024-02-29/INV-0001/receipts");
    assert_eq!(target.path, "/pkg/invoice/2024-02-29/INV-0001/receipts/taxi.pdf");
    let after = state.upload_receipt(&item_id, "taxi.pdf", target.path.clone(), NOW + 3).unwrap();
    assert_eq!(after.line_items[0].description, "taxi");
    assert_eq!(after.line_items[0].receipt_path, Some(target.path.clone()));
    // a description of one's own stays
    let mut named = after.line_items[0].clone();
    named.description = "Cab to airport".to_string();
    state.update_line_item(&item_id, named, NOW + 4).unwrap();
    let again = state.upload_receipt(&item_id, "other.png", "p".to_string(), NOW + 5).unwrap();
    assert_eq!(again.line_items[0].description, "Cab to airport");
}

#[test]
fn receipt_replaces_placeholder_description() {
    let mut state = AppState::new();
    state.create_invoice(NOW);
    let added = state.add_line_item(NOW * 1000).unwrap();
    let mut item = added.line_items[0].clone();
    item.description = "Click to add description".to_string();
    state.update_line_item(&added.line_items[0].id, item.clone(), NOW).unwrap();
    let after = state.upload_receipt(&item.id, ".hidden", "p".to_string(), NOW).unwrap();
    assert_eq!(after.line_items[0].description, ".hidden");
    assert_eq!(
        AppState::new().upload_receipt("x", "a.pdf", "p".to_string(), NOW),
        Err(InvoiceError::NoFocalDocument)
    );
}

#[test]
fn autosave_debounce() {
    let mut state = AppState::new();
    assert_eq!(state.check_autosave(NOW), AutosaveStatus::NoChanges);
    state.create_invoice(NOW);
    state.mark_saved(NOW);
    assert_eq!(state.check_autosave(NOW), AutosaveStatus::NoChanges);
    state.add_line_item(NOW * 1000).unwrap();
    assert_eq!(state.check_autosave(NOW), AutosaveStatus::Waiting);
    assert_eq!(state.check_autosave(NOW + 1), AutosaveStatus::Save);
    state.mark_saved(NOW + 1);
    assert_eq!(state.check_autosave(NOW + 2), AutosaveStatus::NoChanges);
}

#[test]
fn update_invoice_needs_the_focal_document() {
    let mut state = AppState::new();
    let first = state.create_invoice(NOW);
    state.add_line_item(NOW * 1000).unwrap();
    let mut other: Invoice = first.clone();
    other.id = "other".to_string();
    assert_eq!(state.update_invoice(other, NOW + 1), Err(InvoiceError::NotFound));
    assert_eq!(state.current_invoice().unwrap().line_items.len(), 1);
    assert_eq!(state.list_invoices().len(), 1);
    // after deleting the focal document, an update cannot bring it back
    state.delete_invoice(ROOT, &first.id).unwrap();
    assert_eq!(state.update_invoice(first.clone(), NOW + 2), Err(InvoiceError::NoFocalDocument));
    assert!(state.list_invoices().is_empty());
    assert!(state.current_invoice().is_none());
}

#[test]
fn update_invoice_after_undo_clears_redo() {
    let mut state = AppState::new();
    let created = state.create_invoice(NOW);
    state.add_line_item(NOW * 1000).unwrap();
    state.undo().unwrap();
    assert!(state.can_redo());
    let mut named = created.clone();
    named.name = Some("March".to_string());
    state.update_invoice(named, NOW + 1).unwrap();
    assert!(!state.can_redo());
}

#[test]
fn created_ids_are_never_reused() {
    let mut state = AppState::new();
    let a = state.create_invoice(NOW);
    let b = state.create_invoice(NOW);
    assert_eq!(b.id, "1709164800-INV-0002");
    state.delete_invoice(ROOT, &a.id).unwrap();
    let c = state.create_invoice(NOW);
    assert_eq!(c.number, "INV-0002");
    assert_eq!(c.id, "1709164800-INV-0002-1");
    let ids: Vec<String> = state.list_invoices().into_iter().map(|s| s.id).collect();
    assert_eq!(ids.len(), 2);
    assert!(ids.contains(&b.id) && ids.contains(&c.id));
}

#[test]
fn line_item_ids_stay_unique() {
    let mut state = AppState::new();
    state.create_invoice(NOW);
    state.add_line_item(NOW * 1000).unwrap();
    state.add_line_item(NOW * 1000).unwrap();
    let after = state.add_line_item(NOW * 1000).unwrap();
    let ids: Vec<&str> = after.line_items.iter().map(|i| i.id.as_str()).collect();
    assert_eq!(ids, vec!["item-1709164800000", "item-1709164800000-1", "item-1709164800000-2"]);
    let left = state.delete_line_item("item-1709164800000-1", NOW).unwrap();
    assert_eq!(left.line_items.len(), 2);
}

#[test]
fn listing_is_repeatable() {
    let mut state = AppState::new();
    for k in 0..5u64 {
        state.create_invoice(NOW + k);
    }
    let first = state.list_invoices();
    assert_eq!(first.len(), 5);
    assert_eq!(first, state.list_invoices());
}
