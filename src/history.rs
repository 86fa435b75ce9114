//! Linear undo/redo over document snapshots.
use vstd::prelude::*;
use crate::model::{InvoiceSnapshot, SnapshotModel};

verus! {

/// How many snapshots the undo stack keeps; the redo stack has no bound.
pub const UNDO_CAPACITY: usize = 50;

/// `s` with `x` pushed on top, the oldest entry dropped where that makes it
/// longer than the capacity.
pub open spec fn bounded_push(s: Seq<SnapshotModel>, x: SnapshotModel) -> Seq<SnapshotModel> {
    let t = s.push(x);
    if t.len() > UNDO_CAPACITY {
        t.subrange(1, t.len() as int)
    } else {
        t
    }
}

pub open spec fn views(v: Seq<InvoiceSnapshot>) -> Seq<SnapshotModel> {
    v.map_values(|s: InvoiceSnapshot| s@)
}

/// The two stacks; the top of each is its last element.
pub struct EditHistory {
    undo_stack: Vec<InvoiceSnapshot>,
    redo_stack: Vec<InvoiceSnapshot>,
}

impl EditHistory {
    pub closed spec fn undos(&self) -> Seq<SnapshotModel> {
        views(self.undo_stack@)
    }

    pub closed spec fn redos(&self) -> Seq<SnapshotModel> {
        views(self.redo_stack@)
    }

    pub open spec fn wf(&self) -> bool {
        self.undos().len() <= UNDO_CAPACITY
    }

    pub fn new() -> (r: EditHistory)
        ensures
            r.wf(),
            r.undos() == Seq::<SnapshotModel>::empty(),
            r.redos() == Seq::<SnapshotModel>::empty(),
    {
        let r = EditHistory { undo_stack: Vec::new(), redo_stack: Vec::new() };
        assert(r.undos() =~= Seq::<SnapshotModel>::empty());
        assert(r.redos() =~= Seq::<SnapshotModel>::empty());
        r
    }

    /// Pushes onto the undo stack, dropping its oldest entry beyond the capacity.
    pub fn push_undo(&mut self, snapshot: InvoiceSnapshot)
        requires
            old(self).wf(),
        ensures
            final(self).wf(),
            final(self).undos() == bounded_push(old(self).undos(), snapshot@),
            final(self).redos() == old(self).redos(),
    {
        let ghost s = old(self).undos();
        self.undo_stack.push(snapshot);
        assert(views(self.undo_stack@) =~= s.push(snapshot@));
        if self.undo_stack.len() > UNDO_CAPACITY {
            self.undo_stack.remove(0);
            assert(views(self.undo_stack@) =~= s.push(snapshot@).subrange(1, s.len() as int + 1));
        }
    }

    /// Records the state before an edit: pushes it for undo and forgets
    /// everything that could be redone.
    pub fn record_for_undo(&mut self, snapshot: InvoiceSnapshot)
        requires
            old(self).wf(),
        ensures
            final(self).wf(),
            final(self).undos() == bounded_push(old(self).undos(), snapshot@),
            final(self).redos() == Seq::<SnapshotModel>::empty(),
    {
        self.push_undo(snapshot);
        self.redo_stack.clear();
        assert(self.redos() =~= Seq::<SnapshotModel>::empty());
    }

    pub fn pop_undo(&mut self) -> (r: Option<InvoiceSnapshot>)
        requires
            old(self).wf(),
        ensures
            final(self).wf(),
            final(self).redos() == old(self).redos(),
            old(self).undos().len() == 0 ==> r is None && final(self).undos() == old(self).undos(),
            old(self).undos().len() > 0 ==> r is Some && r->0@ == old(self).undos().last()
                && final(self).undos() == old(self).undos().drop_last(),
    {
        let ghost s = old(self).undos();
        let r = self.undo_stack.pop();
        assert(self.undos() =~= if s.len() > 0 { s.drop_last() } else { s });
        r
    }

    pub fn push_redo(&mut self, snapshot: InvoiceSnapshot)
        requires
            old(self).wf(),
        ensures
            final(self).wf(),
            final(self).undos() == old(self).undos(),
            final(self).redos() == old(self).redos().push(snapshot@),
    {
        let ghost s = old(self).redos();
        self.redo_stack.push(snapshot);
        assert(self.redos() =~= s.push(snapshot@));
    }

    pub fn pop_redo(&mut self) -> (r: Option<InvoiceSnapshot>)
        requires
            old(self).wf(),
        ensures
            final(self).wf(),
            final(self).undos() == old(self).undos(),
            old(self).redos().len() == 0 ==> r is None && final(self).redos() == old(self).redos(),
            old(self).redos().len() > 0 ==> r is Some && r->0@ == old(self).redos().last()
                && final(self).redos() == old(self).redos().drop_last(),
    {
        let ghost s = old(self).redos();
        let r = self.redo_stack.pop();
        assert(self.redos() =~= if s.len() > 0 { s.drop_last() } else { s });
        r
    }

    pub fn can_undo(&self) -> (r: bool)
        ensures
            r == (self.undos().len() > 0),
    {
        self.undo_stack.len() > 0
    }

    pub fn can_redo(&self) -> (r: bool)
        ensures
            r == (self.redos().len() > 0),
    {
        self.redo_stack.len() > 0
    }
}

} // verus!
