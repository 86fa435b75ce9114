//! Properties of sequences of operations, stated over the engine model that
//! the operations' contracts are written in.
use vstd::prelude::*;
use crate::engine::{rebuilt, summary_of, EngineModel};
use crate::history::{bounded_push, UNDO_CAPACITY};
use crate::model::{snapshot_of, InvoiceModel, SnapshotModel};
use crate::paths::{path_for, summary_path};

verus! {

/// `n` successful undos in a row.
pub open spec fn undo_n(e: EngineModel, n: nat) -> EngineModel
    decreases n,
{
    if n == 0 {
        e
    } else {
        undo_n(e, (n - 1) as nat).undone()
    }
}

/// `n` successful redos in a row.
pub open spec fn redo_n(e: EngineModel, n: nat) -> EngineModel
    decreases n,
{
    if n == 0 {
        e
    } else {
        redo_n(e, (n - 1) as nat).redone()
    }
}

/// The edits of the focal document that leave `fs[0]`, `fs[1]`, ... in turn.
pub open spec fn edits(e: EngineModel, fs: Seq<InvoiceModel>) -> EngineModel
    decreases fs.len(),
{
    if fs.len() == 0 {
        e
    } else {
        edits(e, fs.drop_last()).edited(fs.last())
    }
}

/// Every snapshot is stamped with its document's update time.
pub open spec fn stamped(s: Seq<SnapshotModel>) -> bool {
    forall|i: int| 0 <= i < s.len() ==> #[trigger] s[i] == snapshot_of(s[i].invoice)
}

/// The focal document and both stacks agree.
pub open spec fn same_history(a: EngineModel, b: EngineModel) -> bool {
    a.focal == b.focal && a.undo == b.undo && a.redo == b.redo
}

proof fn lemma_undo_n_shape(e: EngineModel, m: nat)
    requires
        e.focal is Some,
        m <= e.undo.len(),
    ensures
        undo_n(e, m).undo == e.undo.subrange(0, e.undo.len() - m),
        undo_n(e, m).focal is Some,
    decreases m,
{
    if m == 0 {
        assert(e.undo.subrange(0, e.undo.len() as int) =~= e.undo);
    } else {
        lemma_undo_n_shape(e, (m - 1) as nat);
        let s = undo_n(e, (m - 1) as nat);
        assert(s.undo.drop_last() =~= e.undo.subrange(0, e.undo.len() - m));
    }
}

proof fn lemma_undo_then_redo(s: EngineModel)
    requires
        s.focal is Some,
        0 < s.undo.len() <= UNDO_CAPACITY,
        stamped(s.undo),
    ensures
        same_history(s.undone().redone(), s),
{
    let u = s.undo.last();
    assert(u == s.undo[s.undo.len() - 1]);
    let t = s.undone();
    assert(t.redo.last() == snapshot_of(s.focal.unwrap()));
    assert(t.redo.drop_last() =~= s.redo);
    assert(t.undo.push(snapshot_of(u.invoice)) =~= s.undo);
}

proof fn lemma_redo_n_undo_n(e: EngineModel, n: nat, k: nat)
    requires
        e.focal is Some,
        e.undo.len() <= UNDO_CAPACITY,
        stamped(e.undo),
        k <= n <= e.undo.len(),
    ensures
        same_history(redo_n(undo_n(e, n), k), undo_n(e, (n - k) as nat)),
    decreases k,
{
    if k > 0 {
        lemma_redo_n_undo_n(e, n, (k - 1) as nat);
        let m = (n - k) as nat;
        lemma_undo_n_shape(e, m);
        let s = undo_n(e, m);
        assert(stamped(s.undo)) by {
            assert forall|i: int| 0 <= i < s.undo.len() implies #[trigger] s.undo[i] == snapshot_of(s.undo[i].invoice) by {
                assert(s.undo[i] == e.undo[i]);
            }
        }
        lemma_undo_then_redo(s);
        assert(undo_n(e, (m + 1) as nat) == s.undone());
        assert((n - (k - 1)) as nat == (m + 1) as nat);
    }
}

/// Undoing `n` steps and then redoing `n` steps brings back the focal
/// document and both stacks exactly, wherever `n` steps could be undone.
pub proof fn lemma_undo_redo_inverse(e: EngineModel, n: nat)
    requires
        e.wf(),
        e.focal is Some,
        n <= e.undo.len(),
    ensures
        same_history(redo_n(undo_n(e, n), n), e),
{
    assert(stamped(e.undo)) by {
        assert forall|i: int| 0 <= i < e.undo.len() implies #[trigger] e.undo[i] == snapshot_of(e.undo[i].invoice) by {
            assert(e.undo[i].invoice.wf() && e.undo[i] == snapshot_of(e.undo[i].invoice));
        }
    }
    lemma_redo_n_undo_n(e, n, n);
}

proof fn lemma_edits_shape(e: EngineModel, fs: Seq<InvoiceModel>)
    requires
        e.focal is Some,
        e.undo.len() <= UNDO_CAPACITY,
        stamped(e.undo),
    ensures
        edits(e, fs).undo.len() == if e.undo.len() + fs.len() < UNDO_CAPACITY {
            e.undo.len() + fs.len()
        } else {
            UNDO_CAPACITY as nat
        },
        stamped(edits(e, fs).undo),
        edits(e, fs).focal is Some,
        fs.len() > 0 ==> edits(e, fs).focal == Some(fs.last()),
    decreases fs.len(),
{
    if fs.len() > 0 {
        lemma_edits_shape(e, fs.drop_last());
        let s = edits(e, fs.drop_last());
        let x = snapshot_of(s.focal.unwrap());
        let t = s.undo.push(x);
        assert(stamped(t)) by {
            assert forall|i: int| 0 <= i < t.len() implies #[trigger] t[i] == snapshot_of(t[i].invoice) by {
                if i < s.undo.len() {
                    assert(t[i] == s.undo[i]);
                }
            }
        }
        if t.len() > UNDO_CAPACITY {
            let u = t.subrange(1, t.len() as int);
            assert(stamped(u)) by {
                assert forall|i: int| 0 <= i < u.len() implies #[trigger] u[i] == snapshot_of(u[i].invoice) by {
                    assert(u[i] == t[i + 1]);
                }
            }
        }
        assert(edits(e, fs).undo == bounded_push(s.undo, x));
    }
}

/// An undo followed by a redo, where the undone step was an edit of the
/// focal document itself (same id), brings back the focal document, both
/// stacks, and the index exactly.
pub proof fn lemma_undo_then_redo_same_document(e: EngineModel)
    requires
        e.wf(),
        e.focal is Some,
        e.undo.len() > 0,
        e.undo.last().invoice.id@ == e.focal.unwrap().id@,
    ensures
        same_history(e.undone().redone(), e),
        e.undone().redone().index == e.index,
{
    let u = e.undo.last();
    assert(u == e.undo[e.undo.len() - 1]);
    lemma_undo_then_redo(e);
    let f = e.focal.unwrap();
    assert(e.undone().redone().index =~= e.index.insert(u.invoice.id@, summary_of(u.invoice)).insert(f.id@, summary_of(f)));
    assert(e.undone().redone().index =~= e.index);
}

/// Any `n` edits of a loaded document, `n` at most the undo capacity,
/// undone `n` times and then redone `n` times, leave the focal document as
/// it was after the last edit.
pub proof fn lemma_undo_redo_after_edits(e: EngineModel, fs: Seq<InvoiceModel>)
    requires
        e.wf(),
        e.focal is Some,
        fs.len() <= UNDO_CAPACITY,
    ensures
        same_history(redo_n(undo_n(edits(e, fs), fs.len()), fs.len()), edits(e, fs)),
{
    assert(stamped(e.undo)) by {
        assert forall|i: int| 0 <= i < e.undo.len() implies #[trigger] e.undo[i] == snapshot_of(e.undo[i].invoice) by {
            assert(e.undo[i].invoice.wf() && e.undo[i] == snapshot_of(e.undo[i].invoice));
        }
    }
    lemma_edits_shape(e, fs);
    let x = edits(e, fs);
    lemma_redo_n_undo_n(x, fs.len(), fs.len());
}

/// After more edits than the undo capacity, exactly `UNDO_CAPACITY` steps
/// can be undone: the undo stack is full, and empty after that many undos,
/// so the next undo finds nothing.
pub proof fn lemma_undo_capacity(e: EngineModel, fs: Seq<InvoiceModel>)
    requires
        e.wf(),
        e.focal is Some,
        fs.len() > UNDO_CAPACITY,
    ensures
        edits(e, fs).undo.len() == UNDO_CAPACITY,
        undo_n(edits(e, fs), UNDO_CAPACITY as nat).undo.len() == 0,
{
    assert(stamped(e.undo)) by {
        assert forall|i: int| 0 <= i < e.undo.len() implies #[trigger] e.undo[i] == snapshot_of(e.undo[i].invoice) by {
            assert(e.undo[i].invoice.wf() && e.undo[i] == snapshot_of(e.undo[i].invoice));
        }
    }
    lemma_edits_shape(e, fs);
    lemma_undo_n_shape(edits(e, fs), UNDO_CAPACITY as nat);
}

/// An edit after an undo leaves nothing to redo.
pub proof fn lemma_edit_clears_redo(e: EngineModel, f: InvoiceModel)
    requires
        e.undo.len() > 0,
    ensures
        e.undone().edited(f).redo.len() == 0,
{
}

/// Deleting the focal document empties the focal slot; deleting another
/// document leaves the focal document and its summary as they were.
pub proof fn lemma_delete_focal(e: EngineModel, id: Seq<char>)
    requires
        e.wf(),
    ensures
        (e.focal matches Some(f) && f.id@ == id) ==> e.deleted(id).focal is None,
        (e.focal matches Some(f) && f.id@ != id) ==> {
            &&& e.deleted(id).focal == e.focal
            &&& e.deleted(id).index.contains_key(e.focal.unwrap().id@)
            &&& e.deleted(id).index[e.focal.unwrap().id@] == e.index[e.focal.unwrap().id@]
        },
{
}

/// A stored valid document, indexed by a fresh engine, is found under its
/// id at the very path it was stored at; installing what is read there
/// makes it focal unchanged.
pub proof fn lemma_round_trip(root: Seq<char>, d: InvoiceModel)
    requires
        d.wf(),
    ensures
        rebuilt(seq![d]).contains_key(d.id@),
        rebuilt(seq![d])[d.id@] == summary_of(d),
        summary_path(root, rebuilt(seq![d])[d.id@]) == path_for(root, d),
{
    assert(seq![d].drop_last() =~= Seq::<InvoiceModel>::empty());
    assert(seq![d].last() == d);
}

/// Saving is idempotent: after one save nothing is unsaved, so a second save
/// writes nothing, and it leaves the state as the first left it.
pub proof fn lemma_save_idempotent(e: EngineModel, now: u64)
    ensures
        !e.saved(now).dirty,
        e.saved(now).focal == e.focal,
        e.saved(now).saved(now) == e.saved(now),
{
}

} // verus!
