//! The document total: the one formula every shown total comes from.
//!
//! With quantity `q` and rate `r` in hundredths and percentages `p` in
//! hundredths of a percent, `1 - p/100` is `(10000 - p) / 10000`. Each scaled
//! quantity below is therefore the real one times a fixed power of ten:
//! a line amount times 10^8, a total times 10^16.
use vstd::prelude::*;
use crate::model::{Invoice, InvoiceModel, LineItem, MAX_LINE_ITEMS, PERCENT_SCALE};

verus! {

/// `quantity * rate * (1 - discount/100)`, times 10^8.
pub open spec fn line_amount(item: LineItem) -> int {
    item.quantity * item.rate * (PERCENT_SCALE - item.discount_percent)
}

/// The sum of the line amounts, times 10^8.
pub open spec fn subtotal(items: Seq<LineItem>) -> int
    decreases items.len(),
{
    if items.len() == 0 {
        0
    } else {
        subtotal(items.drop_last()) + line_amount(items.last())
    }
}

/// `subtotal * (1 - discount/100)`, times 10^12.
pub open spec fn after_discount(inv: InvoiceModel) -> int {
    subtotal(inv.line_items) * (PERCENT_SCALE - inv.discount_percent)
}

/// `after_discount * (1 + tax/100)`, times 10^16.
pub open spec fn total(inv: InvoiceModel) -> int {
    after_discount(inv) * (PERCENT_SCALE + inv.tax_percent)
}

/// A bound on the magnitude of any line amount: 2^62 * 42768.
pub open spec fn max_line_amount() -> int {
    197232587636102525878272int
}

proof fn lemma_product_bound(a: int, b: int, x: int, y: int)
    requires
        -x <= a <= x,
        -y <= b <= y,
    ensures
        -(x * y) <= a * b <= x * y,
{
    assert(-(x * y) <= a * b <= x * y) by (nonlinear_arith)
        requires
            -x <= a <= x,
            -y <= b <= y,
    ;
}

proof fn lemma_line_amount_bounds(item: LineItem)
    ensures
        -max_line_amount() <= line_amount(item) <= max_line_amount(),
        -0x4000_0000_0000_0000 <= item.quantity * item.rate <= 0x4000_0000_0000_0000,
{
    let q = item.quantity as int;
    let r = item.rate as int;
    let d = PERCENT_SCALE - item.discount_percent;
    lemma_product_bound(q, r, 0x8000_0000, 0x8000_0000);
    lemma_product_bound(q * r, d, 0x4000_0000_0000_0000, 42768);
}

proof fn lemma_subtotal_bounds(items: Seq<LineItem>)
    ensures
        -(items.len() * max_line_amount()) <= subtotal(items) <= items.len() * max_line_amount(),
    decreases items.len(),
{
    if items.len() > 0 {
        let rest = items.drop_last();
        lemma_subtotal_bounds(rest);
        lemma_line_amount_bounds(items.last());
        assert(rest.len() * max_line_amount() + max_line_amount() == items.len() * max_line_amount())
            by (nonlinear_arith)
            requires
                rest.len() + 1 == items.len(),
        ;
    }
}

proof fn lemma_prefix_bound(n: int)
    requires
        0 <= n <= MAX_LINE_ITEMS,
    ensures
        n * max_line_amount() <= MAX_LINE_ITEMS * max_line_amount(),
{
    assert(n * max_line_amount() <= 100000 * max_line_amount()) by (nonlinear_arith)
        requires
            0 <= n <= 100000,
            max_line_amount() >= 0,
    ;
}

/// The total of a valid document, and each step towards it, fits in `i128`.
pub proof fn lemma_total_bounds(inv: InvoiceModel)
    requires
        inv.wf(),
    ensures
        -(MAX_LINE_ITEMS * max_line_amount()) <= subtotal(inv.line_items) <= MAX_LINE_ITEMS * max_line_amount(),
        -(MAX_LINE_ITEMS * max_line_amount() * 42768) <= after_discount(inv) <= MAX_LINE_ITEMS * max_line_amount() * 42768,
        -0x2000_0000_0000_0000_0000_0000_0000_0000 <= total(inv) <= 0x2000_0000_0000_0000_0000_0000_0000_0000,
{
    lemma_subtotal_bounds(inv.line_items);
    lemma_prefix_bound(inv.line_items.len() as int);
    let bound = MAX_LINE_ITEMS * max_line_amount();
    let s = subtotal(inv.line_items);
    let d = PERCENT_SCALE - inv.discount_percent;
    let t = PERCENT_SCALE + inv.tax_percent;
    lemma_product_bound(s, d, bound, 42768);
    lemma_product_bound(s * d, t, bound * 42768, 42768);
    assert(bound * 42768 * 42768 <= 0x2000_0000_0000_0000_0000_0000_0000_0000);
}

/// The amount of one line, in units of 10^-8 of the currency.
pub fn calculate_line_amount(item: &LineItem) -> (r: i128)
    ensures
        r == line_amount(*item),
{
    proof {
        lemma_line_amount_bounds(*item);
    }
    let qr = item.quantity as i128 * item.rate as i128;
    qr * (PERCENT_SCALE as i128 - item.discount_percent as i128)
}

/// The sum of the line amounts of a document, in units of 10^-8.
pub fn calculate_subtotal(invoice: &Invoice) -> (r: i128)
    requires
        invoice.wf(),
    ensures
        r == subtotal(invoice@.line_items),
{
    let items = &invoice.line_items;
    let mut sub: i128 = 0;
    let mut i: usize = 0;
    while i < items.len()
        invariant
            i <= items@.len(),
            items@ == invoice@.line_items,
            invoice@.wf(),
            sub == subtotal(items@.subrange(0, i as int)),
        decreases items@.len() - i,
    {
        let item = &items[i];
        proof {
            let prefix = items@.subrange(0, i as int + 1);
            assert(prefix.drop_last() =~= items@.subrange(0, i as int));
            assert(prefix.last() == items@[i as int]);
            lemma_subtotal_bounds(prefix);
            lemma_prefix_bound(prefix.len() as int);
        }
        sub = sub + calculate_line_amount(item);
        i = i + 1;
    }
    assert(items@.subrange(0, items@.len() as int) =~= items@);
    sub
}

/// The subtotal after the document discount, in units of 10^-12.
pub fn calculate_after_discount(invoice: &Invoice) -> (r: i128)
    requires
        invoice.wf(),
    ensures
        r == after_discount(invoice@),
{
    proof {
        lemma_total_bounds(invoice@);
    }
    calculate_subtotal(invoice) * (PERCENT_SCALE as i128 - invoice.discount_percent as i128)
}

/// The exact total of a document, in units of 10^-16 of the currency.
pub fn calculate_invoice_total(invoice: &Invoice) -> (r: i128)
    requires
        invoice.wf(),
    ensures
        r == total(invoice@),
{
    proof {
        lemma_total_bounds(invoice@);
    }
    calculate_after_discount(invoice) * (PERCENT_SCALE as i128 + invoice.tax_percent as i128)
}

} // verus!
