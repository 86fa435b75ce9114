use invoice::calendar::date_of_timestamp;
use invoice::engine::summary_for;
use invoice::model::{ContactInfo, Invoice, InvoiceStatus, LineItem, MAX_LINE_ITEMS};
use invoice::paths::{drive_path, invoice_path, join_path, settings_path, summary_path_for};
use invoice::text::{decimal_string, file_stem_of, padded_string};
use invoice::total::calculate_invoice_total;

fn line(id: &str, quantity: i32, rate: i32, discount: i16) -> LineItem {
    LineItem {
        id: id.to_string(),
        description: String::new(),
        quantity,
        rate,
        discount_percent: discount,
        receipt_path: None,
    }
}

fn document(items: Vec<LineItem>, discount: i16, tax: i16) -> Invoice {
    Invoice {
        id: "100-INV-0001".to_string(),
        number: "INV-0001".to_string(),
        name: None,
        date: "2024-02-29".to_string(),
        due_date: None,
        invoicer: ContactInfo::blank(),
        invoicee: ContactInfo::blank(),
        line_items: items,
        discount_percent: discount,
        tax_percent: tax,
        notes: None,
        payment_info: None,
        payment_image_path: None,
        status: InvoiceStatus::Draft,
        created_at: 100,
        updated_at: 100,
    }
}

#[test]
fn total_of_discounted_taxed_line() {
    // qty 2, rate 50, line discount 10 %, document discount 5 %, tax 8 %: 92.34
    let d = document(vec![line("a", 200, 5000, 1000)], 500, 800);
    assert_eq!(calculate_invoice_total(&d), 923_400_000_000_000_000);
}

#[test]
fn total_of_empty_document_is_zero() {
    let d = document(vec![], 500, 800);
    assert_eq!(calculate_invoice_total(&d), 0);
}

#[test]
fn total_sums_lines() {
    // 1 x 100 + 3 x 2.50 with 20 % off = 106, no document discount or tax
    let d = document(vec![line("a", 100, 10000, 0), line("b", 300, 250, 2000)], 0, 0);
    assert_eq!(calculate_invoice_total(&d), 1_060_000_000_000_000_000);
}

#[test]
fn full_discount_gives_zero() {
    let d = document(vec![line("a", 100, 10000, 10000)], 0, 800);
    assert_eq!(calculate_invoice_total(&d), 0);
    let d = document(vec![line("a", 100, 10000, 0)], 10000, 800);
    assert_eq!(calculate_invoice_total(&d), 0);
}

#[test]
fn largest_values_fit() {
    let items: Vec<LineItem> = (0..MAX_LINE_ITEMS).map(|i| line(&format!("i{}", i), i32::MIN, i32::MIN, i16::MIN)).collect();
    let d = document(items, i16::MIN, i16::MAX);
    let line_amount: i128 = (i32::MIN as i128) * (i32::MIN as i128) * (10000 - i16::MIN as i128);
    let expected: i128 = (MAX_LINE_ITEMS as i128) * line_amount * (10000 - i16::MIN as i128) * (10000 + i16::MAX as i128);
    assert_eq!(calculate_invoice_total(&d), expected);
}

#[test]
fn credits_and_surcharges() {
    // a credit of one unit at 50: -50
    let d = document(vec![line("a", -100, 5000, 0)], 0, 0);
    assert_eq!(calculate_invoice_total(&d), -500_000_000_000_000_000);
    // a line discount of 150 % turns 100 into -50
    let d = document(vec![line("a", 100, 10000, 15000)], 0, 0);
    assert_eq!(calculate_invoice_total(&d), -500_000_000_000_000_000);
    // a negative document discount is a surcharge: 100 * 1.1 = 110
    let d = document(vec![line("a", 100, 10000, 0)], -1000, 0);
    assert_eq!(calculate_invoice_total(&d), 1_100_000_000_000_000_000);
}

#[test]
fn validity_of_documents() {
    assert!(document(vec![line("a", -1, 1, i16::MAX)], i16::MIN, i16::MAX).is_valid());
    let items: Vec<LineItem> = (0..MAX_LINE_ITEMS).map(|i| line(&format!("i{}", i), 1, 1, 0)).collect();
    assert!(document(items.clone(), 0, 0).is_valid());
    let mut more = items;
    more.push(line("x", 1, 1, 0));
    assert!(!document(more, 0, 0).is_valid());
}

#[test]
fn summary_carries_total() {
    let d = document(vec![line("a", 200, 5000, 1000)], 500, 800);
    let s = summary_for(&d);
    assert_eq!(s.id, "100-INV-0001");
    assert_eq!(s.number, "INV-0001");
    assert_eq!(s.date, "2024-02-29");
    assert_eq!(s.total, 923_400_000_000_000_000);
    assert_eq!(s.status, InvoiceStatus::Draft);
}

#[test]
fn decimal_and_padding() {
    assert_eq!(decimal_string(0), "0");
    assert_eq!(decimal_string(1709164800123), "1709164800123");
    assert_eq!(decimal_string(u64::MAX), "18446744073709551615");
    assert_eq!(padded_string(7, 4), "0007");
    assert_eq!(padded_string(12345, 4), "12345");
    assert_eq!(padded_string(3, 2), "03");
    assert_eq!(padded_string(0, 0), "0");
}

#[test]
fn file_stems() {
    assert_eq!(file_stem_of("receipt.pdf"), "receipt");
    assert_eq!(file_stem_of("taxi.2024.jpg"), "taxi.2024");
    assert_eq!(file_stem_of("noext"), "noext");
    assert_eq!(file_stem_of(".bashrc"), ".bashrc");
    assert_eq!(file_stem_of("trailing."), "trailing");
    assert_eq!(file_stem_of(""), "");
}

#[test]
fn calendar_dates() {
    assert_eq!(date_of_timestamp(0), "1970-01-01");
    assert_eq!(date_of_timestamp(86399), "1970-01-01");
    assert_eq!(date_of_timestamp(86400), "1970-01-02");
    assert_eq!(date_of_timestamp(951782400), "2000-02-29");
    assert_eq!(date_of_timestamp(1700000000), "2023-11-14");
    assert_eq!(date_of_timestamp(1709164800), "2024-02-29");
    assert_eq!(date_of_timestamp(4102444799), "2099-12-31");
}

#[test]
fn storage_paths() {
    let root = drive_path("invoice:invoice:sys");
    assert_eq!(root, "/invoice:invoice:sys/invoice");
    let mut d = document(vec![], 0, 0);
    assert_eq!(invoice_path(&root, &d), "/invoice:invoice:sys/invoice/2024-02-29/INV-0001/document.json");
    d.name = Some(String::new());
    assert_eq!(invoice_path(&root, &d), "/invoice:invoice:sys/invoice/2024-02-29/INV-0001/document.json");
    d.name = Some("Acme March".to_string());
    assert_eq!(invoice_path(&root, &d), "/invoice:invoice:sys/invoice/2024-02-29/Acme March/document.json");
    assert_eq!(summary_path_for(&root, &summary_for(&d)), invoice_path(&root, &d));
    assert_eq!(settings_path(&root), "/invoice:invoice:sys/invoice/settings.json");
    assert_eq!(join_path("a", "b"), "a/b");
}
