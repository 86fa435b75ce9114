//! Where things are stored, under a root directory:
//! `{root}/{date}/{name-or-number}/document.json` for a document, its
//! attachments under `.../receipts/`, and the engine-wide files beside the
//! date directories. A document's place follows its date and name, not its id.
use vstd::prelude::*;
use vstd::string::StringExecFns;
use crate::model::{Invoice, InvoiceModel, InvoiceSummary};

verus! {

broadcast use vstd::string::group_string_axioms;

pub const DOCUMENT_FILE: &'static str = "document.json";
pub const HTML_FILE: &'static str = "invoice.html";
pub const RECEIPTS_DIR: &'static str = "receipts";
pub const SETTINGS_FILE: &'static str = "settings.json";
pub const LOGO_FILE: &'static str = "logo.png";
pub const PAYMENT_IMAGE_FILE: &'static str = "payment.png";
pub const DRIVE_NAME: &'static str = "invoice";

/// `a/b`.
pub open spec fn join(a: Seq<char>, b: Seq<char>) -> Seq<char> {
    a + seq!['/'] + b
}

/// The directory name of a document: its name where that is non-empty, else
/// its number.
pub open spec fn dir_name(name: Option<String>, number: String) -> Seq<char> {
    match name {
        Some(n) => if n@.len() > 0 {
            n@
        } else {
            number@
        },
        None => number@,
    }
}

pub open spec fn document_dir(root: Seq<char>, date: Seq<char>, dir: Seq<char>) -> Seq<char> {
    join(join(root, date), dir)
}

pub open spec fn document_path(root: Seq<char>, date: Seq<char>, dir: Seq<char>) -> Seq<char> {
    join(document_dir(root, date, dir), DOCUMENT_FILE@)
}

/// Where a document is stored.
pub open spec fn path_for(root: Seq<char>, inv: InvoiceModel) -> Seq<char> {
    document_path(root, inv.date@, dir_name(inv.name, inv.number))
}

/// Where the document a summary stands for is stored.
pub open spec fn summary_path(root: Seq<char>, s: InvoiceSummary) -> Seq<char> {
    document_path(root, s.date@, dir_name(s.name, s.number))
}

pub open spec fn receipts_dir(root: Seq<char>, inv: InvoiceModel) -> Seq<char> {
    join(document_dir(root, inv.date@, dir_name(inv.name, inv.number)), RECEIPTS_DIR@)
}

/// `a/b`.
pub fn join_path(a: &str, b: &str) -> (r: String)
    ensures
        r@ == join(a@, b@),
{
    let mut s = String::from_str(a);
    s.append("/");
    s.append(b);
    proof {
        reveal_strlit("/");
        assert(s@ =~= join(a@, b@));
    }
    s
}

/// The drive of a package: `/{package}/invoice`.
pub fn drive_path(package: &str) -> (r: String)
    ensures
        r@ == join(seq![] + seq!['/'] + package@, DRIVE_NAME@),
{
    let empty = String::new();
    let top = join_path(empty.as_str(), package);
    join_path(top.as_str(), DRIVE_NAME)
}

pub fn invoice_dir_name(name: &Option<String>, number: &String) -> (r: String)
    ensures
        r@ == dir_name(*name, *number),
{
    match name {
        Some(n) => if n.as_str().is_empty() {
            number.clone()
        } else {
            n.clone()
        },
        None => number.clone(),
    }
}

pub fn document_dir_path(root: &str, date: &str, dir: &str) -> (r: String)
    ensures
        r@ == document_dir(root@, date@, dir@),
{
    let d = join_path(root, date);
    join_path(d.as_str(), dir)
}

/// `{root}/{date}/{dir}/document.json`; also where a directory walk looks.
pub fn document_path_in(root: &str, date: &str, dir: &str) -> (r: String)
    ensures
        r@ == document_path(root@, date@, dir@),
{
    let d = document_dir_path(root, date, dir);
    join_path(d.as_str(), DOCUMENT_FILE)
}

/// The directory that holds a document.
pub fn invoice_dir_path(root: &str, invoice: &Invoice) -> (r: String)
    ensures
        r@ == document_dir(root@, invoice.date@, dir_name(invoice.name, invoice.number)),
{
    let dir = invoice_dir_name(&invoice.name, &invoice.number);
    document_dir_path(root, invoice.date.as_str(), dir.as_str())
}

/// Where a document is stored.
pub fn invoice_path(root: &str, invoice: &Invoice) -> (r: String)
    ensures
        r@ == path_for(root@, invoice@),
{
    let dir = invoice_dir_name(&invoice.name, &invoice.number);
    document_path_in(root, invoice.date.as_str(), dir.as_str())
}

/// Where the document of a summary is stored.
pub fn summary_path_for(root: &str, summary: &InvoiceSummary) -> (r: String)
    ensures
        r@ == summary_path(root@, *summary),
{
    let dir = invoice_dir_name(&summary.name, &summary.number);
    document_path_in(root, summary.date.as_str(), dir.as_str())
}

/// The directory of a document's attachments.
pub fn receipts_dir_path(root: &str, invoice: &Invoice) -> (r: String)
    ensures
        r@ == receipts_dir(root@, invoice@),
{
    let d = invoice_dir_path(root, invoice);
    join_path(d.as_str(), RECEIPTS_DIR)
}

/// Where a rendered document is written.
pub fn html_path(root: &str, invoice: &Invoice) -> (r: String)
    ensures
        r@ == join(document_dir(root@, invoice.date@, dir_name(invoice.name, invoice.number)), HTML_FILE@),
{
    let d = invoice_dir_path(root, invoice);
    join_path(d.as_str(), HTML_FILE)
}

pub fn settings_path(root: &str) -> (r: String)
    ensures
        r@ == join(root@, SETTINGS_FILE@),
{
    join_path(root, SETTINGS_FILE)
}

pub fn logo_path(root: &str) -> (r: String)
    ensures
        r@ == join(root@, LOGO_FILE@),
{
    join_path(root, LOGO_FILE)
}

pub fn payment_image_path(root: &str) -> (r: String)
    ensures
        r@ == join(root@, PAYMENT_IMAGE_FILE@),
{
    join_path(root, PAYMENT_IMAGE_FILE)
}

} // verus!
